//! Exact determinant, adjugate and inverse of 2 × 2, 3 × 3 and 4 × 4
//! integer matrices.

use vstd::prelude::*;

verus! {

/// A square matrix of integers, as a function from (row, column) to entry.
pub type MatrixFn = spec_fn(int, int) -> int;

/// The `k`-th index that remains once index `r` is removed.
pub open spec fn skip(k: int, r: int) -> int {
    if k < r {
        k
    } else {
        k + 1
    }
}

/// `f` without row `r` and column `c`.
pub open spec fn minor(f: MatrixFn, r: int, c: int) -> MatrixFn {
    |i: int, j: int| f(skip(i, r), skip(j, c))
}

/// `(-1)^k`.
pub open spec fn sign(k: int) -> int {
    if k % 2 == 0 {
        1
    } else {
        -1
    }
}

pub open spec fn det1(f: MatrixFn) -> int {
    f(0, 0)
}

/// The determinant of a 2 × 2 matrix, by expansion along the first row.
pub open spec fn det2(f: MatrixFn) -> int {
    f(0, 0) * det1(minor(f, 0, 0)) - f(0, 1) * det1(minor(f, 0, 1))
}

/// The determinant of a 3 × 3 matrix, by expansion along the first row.
pub open spec fn det3(f: MatrixFn) -> int {
    f(0, 0) * det2(minor(f, 0, 0)) - f(0, 1) * det2(minor(f, 0, 1)) + f(0, 2) * det2(minor(f, 0, 2))
}

/// The determinant of a 4 × 4 matrix, by expansion along the first row.
pub open spec fn det4(f: MatrixFn) -> int {
    f(0, 0) * det3(minor(f, 0, 0)) - f(0, 1) * det3(minor(f, 0, 1)) + f(0, 2) * det3(minor(f, 0, 2)) - f(0, 3)
        * det3(minor(f, 0, 3))
}

pub open spec fn mat2(m: [[i64; 2]; 2]) -> MatrixFn {
    |i: int, j: int| m[i][j] as int
}

pub open spec fn mat3(m: [[i64; 3]; 3]) -> MatrixFn {
    |i: int, j: int| m[i][j] as int
}

pub open spec fn mat4(m: [[i64; 4]; 4]) -> MatrixFn {
    |i: int, j: int| m[i][j] as int
}

/// Entry `(i, j)` of the product of the `n × n` matrices `f` and `g`.
pub open spec fn product_entry(f: MatrixFn, g: MatrixFn, n: int, i: int, j: int) -> int
    decreases n,
{
    if n <= 0 {
        0
    } else {
        product_entry(f, g, n - 1, i, j) + f(i, n - 1) * g(n - 1, j)
    }
}

/// Entry `(i, j)` of `d` times the identity matrix.
pub open spec fn scaled_identity(d: int, i: int, j: int) -> int {
    if i == j {
        d
    } else {
        0
    }
}

/// Entry `(i, j)` of the identity matrix.
pub open spec fn identity(i: int, j: int) -> int {
    if i == j {
        1
    } else {
        0
    }
}

/// The largest entry magnitude for which the 2 × 2 operations fit in `i64`.
pub const LIMIT_2X2: i64 = 2147483647;

/// The largest entry magnitude for which the 3 × 3 operations fit in `i64`.
pub const LIMIT_3X3: i64 = 1048575;

/// The largest entry magnitude for which the 4 × 4 operations fit in `i64`.
pub const LIMIT_4X4: i64 = 16383;

/// A bound on the magnitude of every adjugate entry within the limits.
const ADJUGATE_BOUND: i64 = 0x4000_0000_0000_0000;

/// A square matrix of `i64` entries, seen as an integer matrix.
pub trait SquareMatrix: Sized {
    /// The number of rows and of columns.
    spec fn dim() -> int;

    /// The matrix as a function from (row, column) to entry.
    spec fn as_fn(&self) -> MatrixFn;

    /// Every entry lies within the size's limit, in magnitude.
    spec fn within_limits(&self) -> bool;

    /// The determinant.
    spec fn det(&self) -> int;
}

/// The cofactor `(i, j)` of an `n × n` matrix with the given minors'
/// determinant: `(-1)^(i+j)` times that determinant.
pub open spec fn cofactor(minor_det: int, i: int, j: int) -> int {
    sign(i + j) * minor_det
}

/// Entry `(i, j)` of the adjugate of `m`: the cofactor `(j, i)`.
pub open spec fn adjugate_entry<M: SquareMatrix>(m: M, i: int, j: int) -> int {
    if M::dim() == 2 {
        cofactor(det1(minor(m.as_fn(), j, i)), j, i)
    } else if M::dim() == 3 {
        cofactor(det2(minor(m.as_fn(), j, i)), j, i)
    } else {
        cofactor(det3(minor(m.as_fn(), j, i)), j, i)
    }
}

/// `a` is the adjugate of `m`: the transpose of its cofactor matrix.
pub open spec fn is_adjugate<M: SquareMatrix>(m: M, a: M) -> bool {
    forall|i: int, j: int| 0 <= i < M::dim() && 0 <= j < M::dim() ==> #[trigger] a.as_fn()(i, j) == adjugate_entry(m, i, j)
}

/// The determinant of a square matrix.
pub trait Determinant: SquareMatrix {
    fn determinant(&self) -> (r: i64)
        requires
            self.within_limits(),
        ensures
            r == self.det(),
    ;
}

/// The adjugate of a square matrix: the transpose of its cofactor matrix.
pub trait Adjugate: SquareMatrix {
    fn adj(&self) -> (r: Self)
        requires
            self.within_limits(),
        ensures
            is_adjugate(*self, r),
    ;
}

/// The inverse of a square matrix, in exact arithmetic.
///
/// A matrix has an inverse exactly when its determinant is not zero; the
/// inverse is then the adjugate scaled by `1 / det`. It is returned as the
/// pair `(adjugate, det)`, whose quotient is exact: entry `(i, j)` of the
/// inverse is `adjugate[i][j] / det`.
pub trait Inverse: SquareMatrix {
    fn inv(&self) -> (r: Option<(Self, i64)>)
        requires
            self.within_limits(),
        ensures
            match r {
                Some((a, d)) => self.det() != 0 && d == self.det() && is_adjugate(*self, a),
                None => self.det() == 0,
            },
    ;
}

/// Every entry of the `n × n` matrix `f` lies in `[-l, l]`.
pub open spec fn entries_within(f: MatrixFn, n: int, l: int) -> bool {
    forall|i: int, j: int| 0 <= i < n && 0 <= j < n ==> -l <= #[trigger] f(i, j) <= l
}

proof fn lemma_mul_bound(x: int, y: int, bx: int, by_: int)
    requires
        -bx <= x <= bx,
        -by_ <= y <= by_,
    ensures
        -(bx * by_) <= x * y <= bx * by_,
{
    assert(-(bx * by_) <= x * y <= bx * by_) by (nonlinear_arith)
        requires
            -bx <= x <= bx,
            -by_ <= y <= by_,
    ;
}

/// `a * d - b * c`, for entries within `l` in magnitude.
fn det2_entries(a: i64, b: i64, c: i64, d: i64, Ghost(l): Ghost<int>) -> (r: i64)
    requires
        0 <= l <= LIMIT_2X2,
        -l <= a <= l,
        -l <= b <= l,
        -l <= c <= l,
        -l <= d <= l,
    ensures
        r == a * d - b * c,
        -(2 * (l * l)) <= r <= 2 * (l * l),
{
    proof {
        lemma_mul_bound(a as int, d as int, l, l);
        lemma_mul_bound(b as int, c as int, l, l);
        assert(l * l <= LIMIT_2X2 * LIMIT_2X2) by (nonlinear_arith)
            requires
                0 <= l <= LIMIT_2X2,
        ;
    }
    a * d - b * c
}

/// The determinant of the rows `(a, b, c)`, `(d, e, f)`, `(g, h, i)`, for
/// entries within `l` in magnitude.
fn det3_entries(
    a: i64,
    b: i64,
    c: i64,
    d: i64,
    e: i64,
    f: i64,
    g: i64,
    h: i64,
    i: i64,
    Ghost(l): Ghost<int>,
) -> (r: i64)
    requires
        0 <= l <= LIMIT_3X3,
        -l <= a <= l,
        -l <= b <= l,
        -l <= c <= l,
        -l <= d <= l,
        -l <= e <= l,
        -l <= f <= l,
        -l <= g <= l,
        -l <= h <= l,
        -l <= i <= l,
    ensures
        r == a * (e * i - f * h) - b * (d * i - f * g) + c * (d * h - e * g),
        -(6 * (l * (l * l))) <= r <= 6 * (l * (l * l)),
{
    let m1 = det2_entries(e, f, h, i, Ghost(l));
    let m2 = det2_entries(d, f, g, i, Ghost(l));
    let m3 = det2_entries(d, e, g, h, Ghost(l));
    proof {
        lemma_mul_bound(a as int, m1 as int, l, 2 * (l * l));
        lemma_mul_bound(b as int, m2 as int, l, 2 * (l * l));
        lemma_mul_bound(c as int, m3 as int, l, 2 * (l * l));
        assert(l * (2 * (l * l)) == 2 * (l * (l * l))) by (nonlinear_arith);
        assert(l * (l * l) <= LIMIT_3X3 * (LIMIT_3X3 * LIMIT_3X3)) by (nonlinear_arith)
            requires
                0 <= l <= LIMIT_3X3,
        ;
    }
    a * m1 - b * m2 + c * m3
}

impl SquareMatrix for [[i64; 4]; 4] {
    open spec fn dim() -> int {
        4
    }

    open spec fn as_fn(&self) -> MatrixFn {
        mat4(*self)
    }

    open spec fn within_limits(&self) -> bool {
        entries_within(mat4(*self), 4, LIMIT_4X4 as int)
    }

    open spec fn det(&self) -> int {
        det4(mat4(*self))
    }
}

impl SquareMatrix for [[i64; 2]; 2] {
    open spec fn dim() -> int {
        2
    }

    open spec fn as_fn(&self) -> MatrixFn {
        mat2(*self)
    }

    open spec fn within_limits(&self) -> bool {
        entries_within(mat2(*self), 2, LIMIT_2X2 as int)
    }

    open spec fn det(&self) -> int {
        det2(mat2(*self))
    }
}

impl SquareMatrix for [[i64; 3]; 3] {
    open spec fn dim() -> int {
        3
    }

    open spec fn as_fn(&self) -> MatrixFn {
        mat3(*self)
    }

    open spec fn within_limits(&self) -> bool {
        entries_within(mat3(*self), 3, LIMIT_3X3 as int)
    }

    open spec fn det(&self) -> int {
        det3(mat3(*self))
    }
}

impl Determinant for [[i64; 2]; 2] {
    fn determinant(&self) -> (r: i64) {
        let m = self;
        proof {
            assert(-LIMIT_2X2 <= mat2(*m)(0, 0) <= LIMIT_2X2);
            assert(-LIMIT_2X2 <= mat2(*m)(0, 1) <= LIMIT_2X2);
            assert(-LIMIT_2X2 <= mat2(*m)(1, 0) <= LIMIT_2X2);
            assert(-LIMIT_2X2 <= mat2(*m)(1, 1) <= LIMIT_2X2);
        }
        det2_entries(m[0][0], m[0][1], m[1][0], m[1][1], Ghost(LIMIT_2X2 as int))
    }
}

/// The adjugate of a 2 × 2 matrix, with a bound on its entries.
fn adjugate_2x2(m: &[[i64; 2]; 2]) -> (r: [[i64; 2]; 2])
    requires
        m.within_limits(),
    ensures
        is_adjugate(*m, r),
        entries_within(mat2(r), 2, ADJUGATE_BOUND as int),
{
    proof {
        assert(-LIMIT_2X2 <= mat2(*m)(0, 0) <= LIMIT_2X2);
        assert(-LIMIT_2X2 <= mat2(*m)(0, 1) <= LIMIT_2X2);
        assert(-LIMIT_2X2 <= mat2(*m)(1, 0) <= LIMIT_2X2);
        assert(-LIMIT_2X2 <= mat2(*m)(1, 1) <= LIMIT_2X2);
    }
    [[m[1][1], -m[0][1]], [-m[1][0], m[0][0]]]
}

/// The adjugate of a 3 × 3 matrix, with a bound on its entries.
fn adjugate_3x3(m: &[[i64; 3]; 3]) -> (r: [[i64; 3]; 3])
    requires
        m.within_limits(),
    ensures
        is_adjugate(*m, r),
        entries_within(mat3(r), 3, ADJUGATE_BOUND as int),
{
    let ghost l: int = LIMIT_3X3 as int;
    proof {
        assert(-LIMIT_3X3 <= mat3(*m)(0, 0) <= LIMIT_3X3);
        assert(-LIMIT_3X3 <= mat3(*m)(0, 1) <= LIMIT_3X3);
        assert(-LIMIT_3X3 <= mat3(*m)(0, 2) <= LIMIT_3X3);
        assert(-LIMIT_3X3 <= mat3(*m)(1, 0) <= LIMIT_3X3);
        assert(-LIMIT_3X3 <= mat3(*m)(1, 1) <= LIMIT_3X3);
        assert(-LIMIT_3X3 <= mat3(*m)(1, 2) <= LIMIT_3X3);
        assert(-LIMIT_3X3 <= mat3(*m)(2, 0) <= LIMIT_3X3);
        assert(-LIMIT_3X3 <= mat3(*m)(2, 1) <= LIMIT_3X3);
        assert(-LIMIT_3X3 <= mat3(*m)(2, 2) <= LIMIT_3X3);
        assert(2 * (l * l) <= ADJUGATE_BOUND) by (nonlinear_arith)
            requires
                l == LIMIT_3X3,
        ;
    }
    let c00: i64 = det2_entries(m[1][1], m[1][2], m[2][1], m[2][2], Ghost(l));
    let c01: i64 = det2_entries(m[1][0], m[1][2], m[2][0], m[2][2], Ghost(l));
    let c02: i64 = det2_entries(m[1][0], m[1][1], m[2][0], m[2][1], Ghost(l));
    let c10: i64 = det2_entries(m[0][1], m[0][2], m[2][1], m[2][2], Ghost(l));
    let c11: i64 = det2_entries(m[0][0], m[0][2], m[2][0], m[2][2], Ghost(l));
    let c12: i64 = det2_entries(m[0][0], m[0][1], m[2][0], m[2][1], Ghost(l));
    let c20: i64 = det2_entries(m[0][1], m[0][2], m[1][1], m[1][2], Ghost(l));
    let c21: i64 = det2_entries(m[0][0], m[0][2], m[1][0], m[1][2], Ghost(l));
    let c22: i64 = det2_entries(m[0][0], m[0][1], m[1][0], m[1][1], Ghost(l));
    [
        [c00, -c10, c20],
        [-c01, c11, -c21],
        [c02, -c12, c22],
    ]
}

/// The adjugate of a 4 × 4 matrix, with a bound on its entries.
fn adjugate_4x4(m: &[[i64; 4]; 4]) -> (r: [[i64; 4]; 4])
    requires
        m.within_limits(),
    ensures
        is_adjugate(*m, r),
        entries_within(mat4(r), 4, ADJUGATE_BOUND as int),
{
    let ghost l: int = LIMIT_4X4 as int;
    proof {
        assert(-LIMIT_4X4 <= mat4(*m)(0, 0) <= LIMIT_4X4);
        assert(-LIMIT_4X4 <= mat4(*m)(0, 1) <= LIMIT_4X4);
        assert(-LIMIT_4X4 <= mat4(*m)(0, 2) <= LIMIT_4X4);
        assert(-LIMIT_4X4 <= mat4(*m)(0, 3) <= LIMIT_4X4);
        assert(-LIMIT_4X4 <= mat4(*m)(1, 0) <= LIMIT_4X4);
        assert(-LIMIT_4X4 <= mat4(*m)(1, 1) <= LIMIT_4X4);
        assert(-LIMIT_4X4 <= mat4(*m)(1, 2) <= LIMIT_4X4);
        assert(-LIMIT_4X4 <= mat4(*m)(1, 3) <= LIMIT_4X4);
        assert(-LIMIT_4X4 <= mat4(*m)(2, 0) <= LIMIT_4X4);
        assert(-LIMIT_4X4 <= mat4(*m)(2, 1) <= LIMIT_4X4);
        assert(-LIMIT_4X4 <= mat4(*m)(2, 2) <= LIMIT_4X4);
        assert(-LIMIT_4X4 <= mat4(*m)(2, 3) <= LIMIT_4X4);
        assert(-LIMIT_4X4 <= mat4(*m)(3, 0) <= LIMIT_4X4);
        assert(-LIMIT_4X4 <= mat4(*m)(3, 1) <= LIMIT_4X4);
        assert(-LIMIT_4X4 <= mat4(*m)(3, 2) <= LIMIT_4X4);
        assert(-LIMIT_4X4 <= mat4(*m)(3, 3) <= LIMIT_4X4);
        assert(6 * (l * (l * l)) <= ADJUGATE_BOUND) by (nonlinear_arith)
            requires
                l == LIMIT_4X4,
        ;
    }
    let c00: i64 = det3_entries(m[1][1], m[1][2], m[1][3], m[2][1], m[2][2], m[2][3], m[3][1], m[3][2], m[3][3], Ghost(l));
    let c01: i64 = det3_entries(m[1][0], m[1][2], m[1][3], m[2][0], m[2][2], m[2][3], m[3][0], m[3][2], m[3][3], Ghost(l));
    let c02: i64 = det3_entries(m[1][0], m[1][1], m[1][3], m[2][0], m[2][1], m[2][3], m[3][0], m[3][1], m[3][3], Ghost(l));
    let c03: i64 = det3_entries(m[1][0], m[1][1], m[1][2], m[2][0], m[2][1], m[2][2], m[3][0], m[3][1], m[3][2], Ghost(l));
    let c10: i64 = det3_entries(m[0][1], m[0][2], m[0][3], m[2][1], m[2][2], m[2][3], m[3][1], m[3][2], m[3][3], Ghost(l));
    let c11: i64 = det3_entries(m[0][0], m[0][2], m[0][3], m[2][0], m[2][2], m[2][3], m[3][0], m[3][2], m[3][3], Ghost(l));
    let c12: i64 = det3_entries(m[0][0], m[0][1], m[0][3], m[2][0], m[2][1], m[2][3], m[3][0], m[3][1], m[3][3], Ghost(l));
    let c13: i64 = det3_entries(m[0][0], m[0][1], m[0][2], m[2][0], m[2][1], m[2][2], m[3][0], m[3][1], m[3][2], Ghost(l));
    let c20: i64 = det3_entries(m[0][1], m[0][2], m[0][3], m[1][1], m[1][2], m[1][3], m[3][1], m[3][2], m[3][3], Ghost(l));
    let c21: i64 = det3_entries(m[0][0], m[0][2], m[0][3], m[1][0], m[1][2], m[1][3], m[3][0], m[3][2], m[3][3], Ghost(l));
    let c22: i64 = det3_entries(m[0][0], m[0][1], m[0][3], m[1][0], m[1][1], m[1][3], m[3][0], m[3][1], m[3][3], Ghost(l));
    let c23: i64 = det3_entries(m[0][0], m[0][1], m[0][2], m[1][0], m[1][1], m[1][2], m[3][0], m[3][1], m[3][2], Ghost(l));
    let c30: i64 = det3_entries(m[0][1], m[0][2], m[0][3], m[1][1], m[1][2], m[1][3], m[2][1], m[2][2], m[2][3], Ghost(l));
    let c31: i64 = det3_entries(m[0][0], m[0][2], m[0][3], m[1][0], m[1][2], m[1][3], m[2][0], m[2][2], m[2][3], Ghost(l));
    let c32: i64 = det3_entries(m[0][0], m[0][1], m[0][3], m[1][0], m[1][1], m[1][3], m[2][0], m[2][1], m[2][3], Ghost(l));
    let c33: i64 = det3_entries(m[0][0], m[0][1], m[0][2], m[1][0], m[1][1], m[1][2], m[2][0], m[2][1], m[2][2], Ghost(l));
    [
        [c00, -c10, c20, -c30],
        [-c01, c11, -c21, c31],
        [c02, -c12, c22, -c32],
        [-c03, c13, -c23, c33],
    ]
}

impl Determinant for [[i64; 3]; 3] {
    fn determinant(&self) -> (r: i64) {
        let m = self;
        proof {
            assert(-LIMIT_3X3 <= mat3(*m)(0, 0) <= LIMIT_3X3);
            assert(-LIMIT_3X3 <= mat3(*m)(0, 1) <= LIMIT_3X3);
            assert(-LIMIT_3X3 <= mat3(*m)(0, 2) <= LIMIT_3X3);
            assert(-LIMIT_3X3 <= mat3(*m)(1, 0) <= LIMIT_3X3);
            assert(-LIMIT_3X3 <= mat3(*m)(1, 1) <= LIMIT_3X3);
            assert(-LIMIT_3X3 <= mat3(*m)(1, 2) <= LIMIT_3X3);
            assert(-LIMIT_3X3 <= mat3(*m)(2, 0) <= LIMIT_3X3);
            assert(-LIMIT_3X3 <= mat3(*m)(2, 1) <= LIMIT_3X3);
            assert(-LIMIT_3X3 <= mat3(*m)(2, 2) <= LIMIT_3X3);
        }
        det3_entries(
            m[0][0],
            m[0][1],
            m[0][2],
            m[1][0],
            m[1][1],
            m[1][2],
            m[2][0],
            m[2][1],
            m[2][2],
            Ghost(LIMIT_3X3 as int),
        )
    }
}

impl Determinant for [[i64; 4]; 4] {
    fn determinant(&self) -> (r: i64) {
        let m = self;
        let ghost l: int = LIMIT_4X4 as int;
        proof {
            assert(-LIMIT_4X4 <= mat4(*m)(0, 0) <= LIMIT_4X4);
            assert(-LIMIT_4X4 <= mat4(*m)(0, 1) <= LIMIT_4X4);
            assert(-LIMIT_4X4 <= mat4(*m)(0, 2) <= LIMIT_4X4);
            assert(-LIMIT_4X4 <= mat4(*m)(0, 3) <= LIMIT_4X4);
            assert(-LIMIT_4X4 <= mat4(*m)(1, 0) <= LIMIT_4X4);
            assert(-LIMIT_4X4 <= mat4(*m)(1, 1) <= LIMIT_4X4);
            assert(-LIMIT_4X4 <= mat4(*m)(1, 2) <= LIMIT_4X4);
            assert(-LIMIT_4X4 <= mat4(*m)(1, 3) <= LIMIT_4X4);
            assert(-LIMIT_4X4 <= mat4(*m)(2, 0) <= LIMIT_4X4);
            assert(-LIMIT_4X4 <= mat4(*m)(2, 1) <= LIMIT_4X4);
            assert(-LIMIT_4X4 <= mat4(*m)(2, 2) <= LIMIT_4X4);
            assert(-LIMIT_4X4 <= mat4(*m)(2, 3) <= LIMIT_4X4);
            assert(-LIMIT_4X4 <= mat4(*m)(3, 0) <= LIMIT_4X4);
            assert(-LIMIT_4X4 <= mat4(*m)(3, 1) <= LIMIT_4X4);
            assert(-LIMIT_4X4 <= mat4(*m)(3, 2) <= LIMIT_4X4);
            assert(-LIMIT_4X4 <= mat4(*m)(3, 3) <= LIMIT_4X4);
        }
        let c00: i64 = det3_entries(m[1][1], m[1][2], m[1][3], m[2][1], m[2][2], m[2][3], m[3][1], m[3][2], m[3][3], Ghost(l));
        let c01: i64 = det3_entries(m[1][0], m[1][2], m[1][3], m[2][0], m[2][2], m[2][3], m[3][0], m[3][2], m[3][3], Ghost(l));
        let c02: i64 = det3_entries(m[1][0], m[1][1], m[1][3], m[2][0], m[2][1], m[2][3], m[3][0], m[3][1], m[3][3], Ghost(l));
        let c03: i64 = det3_entries(m[1][0], m[1][1], m[1][2], m[2][0], m[2][1], m[2][2], m[3][0], m[3][1], m[3][2], Ghost(l));
        proof {
            let b = 6 * (l * (l * l));
            lemma_mul_bound(m[0][0] as int, c00 as int, l, b);
            lemma_mul_bound(m[0][1] as int, c01 as int, l, b);
            lemma_mul_bound(m[0][2] as int, c02 as int, l, b);
            lemma_mul_bound(m[0][3] as int, c03 as int, l, b);
            assert(l * b <= 0x0800_0000_0000_0000) by (nonlinear_arith)
                requires
                    l == LIMIT_4X4,
                    b == 6 * (l * (l * l)),
            ;
        }
        m[0][0] * c00 - m[0][1] * c01 + m[0][2] * c02 - m[0][3] * c03
    }
}

impl Adjugate for [[i64; 2]; 2] {
    fn adj(&self) -> (r: Self) {
        adjugate_2x2(self)
    }
}

impl Adjugate for [[i64; 3]; 3] {
    fn adj(&self) -> (r: Self) {
        adjugate_3x3(self)
    }
}

impl Adjugate for [[i64; 4]; 4] {
    fn adj(&self) -> (r: Self) {
        adjugate_4x4(self)
    }
}






/// Each adjugate entry of a 2 × 2 matrix, as a sum of monomials.
proof fn lemma_adjugate_monomials_2x2(m: [[i64; 2]; 2])
    ensures
        adjugate_entry(m, 0, 0) == (m[1][1] as int),
        adjugate_entry(m, 0, 1) == -((m[0][1] as int)),
        adjugate_entry(m, 1, 0) == -((m[1][0] as int)),
        adjugate_entry(m, 1, 1) == (m[0][0] as int),
{
    assert(det1(minor(mat2(m), 0, 0)) == (m[1][1] as int));
    assert(adjugate_entry(m, 0, 0) == 1 * det1(minor(mat2(m), 0, 0)));
    assert(det1(minor(mat2(m), 1, 0)) == (m[0][1] as int));
    assert(adjugate_entry(m, 0, 1) == -1 * det1(minor(mat2(m), 1, 0)));
    assert(det1(minor(mat2(m), 0, 1)) == (m[1][0] as int));
    assert(adjugate_entry(m, 1, 0) == -1 * det1(minor(mat2(m), 0, 1)));
    assert(det1(minor(mat2(m), 1, 1)) == (m[0][0] as int));
    assert(adjugate_entry(m, 1, 1) == 1 * det1(minor(mat2(m), 1, 1)));
}

/// The determinant of a 2 × 2 matrix, as a sum of monomials.
proof fn lemma_det_monomials_2x2(m: [[i64; 2]; 2])
    ensures
        m.det() == (m[0][0] as int) * (m[1][1] as int) - (m[0][1] as int) * (m[1][0] as int),
{
    assert(det1(minor(mat2(m), 0, 0)) == (m[1][1] as int));
    assert((m[0][0] as int) * ((m[1][1] as int)) == (m[0][0] as int) * (m[1][1] as int)) by (nonlinear_arith);
    assert(det1(minor(mat2(m), 0, 1)) == (m[1][0] as int));
    assert((m[0][1] as int) * ((m[1][0] as int)) == (m[0][1] as int) * (m[1][0] as int)) by (nonlinear_arith);
}

/// Each row of a 2 × 2 matrix times each column of its adjugate: the
/// determinant on the diagonal, zero elsewhere.
proof fn lemma_adjugate_left_2x2(m: [[i64; 2]; 2])
    ensures
        (m[0][0] as int) * adjugate_entry(m, 0, 0) + (m[0][1] as int) * adjugate_entry(m, 1, 0) == m.det() * identity(0, 0),
        (m[0][0] as int) * adjugate_entry(m, 0, 1) + (m[0][1] as int) * adjugate_entry(m, 1, 1) == m.det() * identity(0, 1),
        (m[1][0] as int) * adjugate_entry(m, 0, 0) + (m[1][1] as int) * adjugate_entry(m, 1, 0) == m.det() * identity(1, 0),
        (m[1][0] as int) * adjugate_entry(m, 0, 1) + (m[1][1] as int) * adjugate_entry(m, 1, 1) == m.det() * identity(1, 1),
{
    lemma_adjugate_monomials_2x2(m);
    lemma_det_monomials_2x2(m);
    assert((m[0][0] as int) * ((m[1][1] as int)) == (m[0][0] as int) * (m[1][1] as int)) by (nonlinear_arith);
    assert((m[0][1] as int) * (-((m[1][0] as int))) == -((m[0][1] as int) * (m[1][0] as int))) by (nonlinear_arith);
    assert((m[0][0] as int) * (-((m[0][1] as int))) == -((m[0][0] as int) * (m[0][1] as int))) by (nonlinear_arith);
    assert((m[0][1] as int) * ((m[0][0] as int)) == (m[0][0] as int) * (m[0][1] as int)) by (nonlinear_arith);
    assert((m[1][0] as int) * ((m[1][1] as int)) == (m[1][0] as int) * (m[1][1] as int)) by (nonlinear_arith);
    assert((m[1][1] as int) * (-((m[1][0] as int))) == -((m[1][0] as int) * (m[1][1] as int))) by (nonlinear_arith);
    assert((m[1][0] as int) * (-((m[0][1] as int))) == -((m[0][1] as int) * (m[1][0] as int))) by (nonlinear_arith);
    assert((m[1][1] as int) * ((m[0][0] as int)) == (m[0][0] as int) * (m[1][1] as int)) by (nonlinear_arith);
}

/// Each row of the adjugate of a 2 × 2 matrix times each column of the
/// matrix: the determinant on the diagonal, zero elsewhere.
proof fn lemma_adjugate_right_2x2(m: [[i64; 2]; 2])
    ensures
        adjugate_entry(m, 0, 0) * (m[0][0] as int) + adjugate_entry(m, 0, 1) * (m[1][0] as int) == m.det() * identity(0, 0),
        adjugate_entry(m, 0, 0) * (m[0][1] as int) + adjugate_entry(m, 0, 1) * (m[1][1] as int) == m.det() * identity(0, 1),
        adjugate_entry(m, 1, 0) * (m[0][0] as int) + adjugate_entry(m, 1, 1) * (m[1][0] as int) == m.det() * identity(1, 0),
        adjugate_entry(m, 1, 0) * (m[0][1] as int) + adjugate_entry(m, 1, 1) * (m[1][1] as int) == m.det() * identity(1, 1),
{
    lemma_adjugate_monomials_2x2(m);
    lemma_det_monomials_2x2(m);
    assert(((m[1][1] as int)) * (m[0][0] as int) == (m[0][0] as int) * (m[1][1] as int)) by (nonlinear_arith);
    assert((-((m[0][1] as int))) * (m[1][0] as int) == -((m[0][1] as int) * (m[1][0] as int))) by (nonlinear_arith);
    assert(((m[1][1] as int)) * (m[0][1] as int) == (m[0][1] as int) * (m[1][1] as int)) by (nonlinear_arith);
    assert((-((m[0][1] as int))) * (m[1][1] as int) == -((m[0][1] as int) * (m[1][1] as int))) by (nonlinear_arith);
    assert((-((m[1][0] as int))) * (m[0][0] as int) == -((m[0][0] as int) * (m[1][0] as int))) by (nonlinear_arith);
    assert(((m[0][0] as int)) * (m[1][0] as int) == (m[0][0] as int) * (m[1][0] as int)) by (nonlinear_arith);
    assert((-((m[1][0] as int))) * (m[0][1] as int) == -((m[0][1] as int) * (m[1][0] as int))) by (nonlinear_arith);
    assert(((m[0][0] as int)) * (m[1][1] as int) == (m[0][0] as int) * (m[1][1] as int)) by (nonlinear_arith);
}



/// Each adjugate entry of a 3 × 3 matrix, as a sum of monomials.
proof fn lemma_adjugate_monomials_3x3(m: [[i64; 3]; 3])
    ensures
        adjugate_entry(m, 0, 0) == (m[1][1] as int) * (m[2][2] as int) - (m[1][2] as int) * (m[2][1] as int),
        adjugate_entry(m, 0, 1) == -((m[0][1] as int) * (m[2][2] as int)) + (m[0][2] as int) * (m[2][1] as int),
        adjugate_entry(m, 0, 2) == (m[0][1] as int) * (m[1][2] as int) - (m[0][2] as int) * (m[1][1] as int),
        adjugate_entry(m, 1, 0) == -((m[1][0] as int) * (m[2][2] as int)) + (m[1][2] as int) * (m[2][0] as int),
        adjugate_entry(m, 1, 1) == (m[0][0] as int) * (m[2][2] as int) - (m[0][2] as int) * (m[2][0] as int),
        adjugate_entry(m, 1, 2) == -((m[0][0] as int) * (m[1][2] as int)) + (m[0][2] as int) * (m[1][0] as int),
        adjugate_entry(m, 2, 0) == (m[1][0] as int) * (m[2][1] as int) - (m[1][1] as int) * (m[2][0] as int),
        adjugate_entry(m, 2, 1) == -((m[0][0] as int) * (m[2][1] as int)) + (m[0][1] as int) * (m[2][0] as int),
        adjugate_entry(m, 2, 2) == (m[0][0] as int) * (m[1][1] as int) - (m[0][1] as int) * (m[1][0] as int),
{
    assert(det2(minor(mat3(m), 0, 0)) == (m[1][1] as int) * (m[2][2] as int) - (m[1][2] as int) * (m[2][1] as int));
    assert(adjugate_entry(m, 0, 0) == 1 * det2(minor(mat3(m), 0, 0)));
    assert(det2(minor(mat3(m), 1, 0)) == (m[0][1] as int) * (m[2][2] as int) - (m[0][2] as int) * (m[2][1] as int));
    assert(adjugate_entry(m, 0, 1) == -1 * det2(minor(mat3(m), 1, 0)));
    assert(det2(minor(mat3(m), 2, 0)) == (m[0][1] as int) * (m[1][2] as int) - (m[0][2] as int) * (m[1][1] as int));
    assert(adjugate_entry(m, 0, 2) == 1 * det2(minor(mat3(m), 2, 0)));
    assert(det2(minor(mat3(m), 0, 1)) == (m[1][0] as int) * (m[2][2] as int) - (m[1][2] as int) * (m[2][0] as int));
    assert(adjugate_entry(m, 1, 0) == -1 * det2(minor(mat3(m), 0, 1)));
    assert(det2(minor(mat3(m), 1, 1)) == (m[0][0] as int) * (m[2][2] as int) - (m[0][2] as int) * (m[2][0] as int));
    assert(adjugate_entry(m, 1, 1) == 1 * det2(minor(mat3(m), 1, 1)));
    assert(det2(minor(mat3(m), 2, 1)) == (m[0][0] as int) * (m[1][2] as int) - (m[0][2] as int) * (m[1][0] as int));
    assert(adjugate_entry(m, 1, 2) == -1 * det2(minor(mat3(m), 2, 1)));
    assert(det2(minor(mat3(m), 0, 2)) == (m[1][0] as int) * (m[2][1] as int) - (m[1][1] as int) * (m[2][0] as int));
    assert(adjugate_entry(m, 2, 0) == 1 * det2(minor(mat3(m), 0, 2)));
    assert(det2(minor(mat3(m), 1, 2)) == (m[0][0] as int) * (m[2][1] as int) - (m[0][1] as int) * (m[2][0] as int));
    assert(adjugate_entry(m, 2, 1) == -1 * det2(minor(mat3(m), 1, 2)));
    assert(det2(minor(mat3(m), 2, 2)) == (m[0][0] as int) * (m[1][1] as int) - (m[0][1] as int) * (m[1][0] as int));
    assert(adjugate_entry(m, 2, 2) == 1 * det2(minor(mat3(m), 2, 2)));
}

/// The determinant of a 3 × 3 matrix, as a sum of monomials.
proof fn lemma_det_monomials_3x3(m: [[i64; 3]; 3])
    ensures
        m.det() == (m[0][0] as int) * (m[1][1] as int) * (m[2][2] as int) - (m[0][0] as int) * (m[1][2] as int) * (m[2][1] as int) - (m[0][1] as int) * (m[1][0] as int) * (m[2][2] as int) + (m[0][1] as int) * (m[1][2] as int) * (m[2][0] as int) + (m[0][2] as int) * (m[1][0] as int) * (m[2][1] as int) - (m[0][2] as int) * (m[1][1] as int) * (m[2][0] as int),
{
    assert((m[1][1] as int) * ((m[2][2] as int)) - (m[1][2] as int) * ((m[2][1] as int)) == (m[1][1] as int) * (m[2][2] as int) - (m[1][2] as int) * (m[2][1] as int)) by (nonlinear_arith);
    assert((m[0][0] as int) * ((m[1][1] as int) * (m[2][2] as int) - (m[1][2] as int) * (m[2][1] as int)) == (m[0][0] as int) * (m[1][1] as int) * (m[2][2] as int) - (m[0][0] as int) * (m[1][2] as int) * (m[2][1] as int)) by (nonlinear_arith);
    assert((m[1][0] as int) * ((m[2][2] as int)) - (m[1][2] as int) * ((m[2][0] as int)) == (m[1][0] as int) * (m[2][2] as int) - (m[1][2] as int) * (m[2][0] as int)) by (nonlinear_arith);
    assert((m[0][1] as int) * ((m[1][0] as int) * (m[2][2] as int) - (m[1][2] as int) * (m[2][0] as int)) == (m[0][1] as int) * (m[1][0] as int) * (m[2][2] as int) - (m[0][1] as int) * (m[1][2] as int) * (m[2][0] as int)) by (nonlinear_arith);
    assert((m[1][0] as int) * ((m[2][1] as int)) - (m[1][1] as int) * ((m[2][0] as int)) == (m[1][0] as int) * (m[2][1] as int) - (m[1][1] as int) * (m[2][0] as int)) by (nonlinear_arith);
    assert((m[0][2] as int) * ((m[1][0] as int) * (m[2][1] as int) - (m[1][1] as int) * (m[2][0] as int)) == (m[0][2] as int) * (m[1][0] as int) * (m[2][1] as int) - (m[0][2] as int) * (m[1][1] as int) * (m[2][0] as int)) by (nonlinear_arith);
}

/// Each row of a 3 × 3 matrix times each column of its adjugate: the
/// determinant on the diagonal, zero elsewhere.
proof fn lemma_adjugate_left_3x3(m: [[i64; 3]; 3])
    ensures
        (m[0][0] as int) * adjugate_entry(m, 0, 0) + (m[0][1] as int) * adjugate_entry(m, 1, 0) + (m[0][2] as int) * adjugate_entry(m, 2, 0) == m.det() * identity(0, 0),
        (m[0][0] as int) * adjugate_entry(m, 0, 1) + (m[0][1] as int) * adjugate_entry(m, 1, 1) + (m[0][2] as int) * adjugate_entry(m, 2, 1) == m.det() * identity(0, 1),
        (m[0][0] as int) * adjugate_entry(m, 0, 2) + (m[0][1] as int) * adjugate_entry(m, 1, 2) + (m[0][2] as int) * adjugate_entry(m, 2, 2) == m.det() * identity(0, 2),
        (m[1][0] as int) * adjugate_entry(m, 0, 0) + (m[1][1] as int) * adjugate_entry(m, 1, 0) + (m[1][2] as int) * adjugate_entry(m, 2, 0) == m.det() * identity(1, 0),
        (m[1][0] as int) * adjugate_entry(m, 0, 1) + (m[1][1] as int) * adjugate_entry(m, 1, 1) + (m[1][2] as int) * adjugate_entry(m, 2, 1) == m.det() * identity(1, 1),
        (m[1][0] as int) * adjugate_entry(m, 0, 2) + (m[1][1] as int) * adjugate_entry(m, 1, 2) + (m[1][2] as int) * adjugate_entry(m, 2, 2) == m.det() * identity(1, 2),
        (m[2][0] as int) * adjugate_entry(m, 0, 0) + (m[2][1] as int) * adjugate_entry(m, 1, 0) + (m[2][2] as int) * adjugate_entry(m, 2, 0) == m.det() * identity(2, 0),
        (m[2][0] as int) * adjugate_entry(m, 0, 1) + (m[2][1] as int) * adjugate_entry(m, 1, 1) + (m[2][2] as int) * adjugate_entry(m, 2, 1) == m.det() * identity(2, 1),
        (m[2][0] as int) * adjugate_entry(m, 0, 2) + (m[2][1] as int) * adjugate_entry(m, 1, 2) + (m[2][2] as int) * adjugate_entry(m, 2, 2) == m.det() * identity(2, 2),
{
    lemma_adjugate_monomials_3x3(m);
    lemma_det_monomials_3x3(m);
    assert((m[0][0] as int) * ((m[1][1] as int) * (m[2][2] as int) - (m[1][2] as int) * (m[2][1] as int)) == (m[0][0] as int) * (m[1][1] as int) * (m[2][2] as int) - (m[0][0] as int) * (m[1][2] as int) * (m[2][1] as int)) by (nonlinear_arith);
    assert((m[0][1] as int) * (-((m[1][0] as int) * (m[2][2] as int)) + (m[1][2] as int) * (m[2][0] as int)) == -((m[0][1] as int) * (m[1][0] as int) * (m[2][2] as int)) + (m[0][1] as int) * (m[1][2] as int) * (m[2][0] as int)) by (nonlinear_arith);
    assert((m[0][2] as int) * ((m[1][0] as int) * (m[2][1] as int) - (m[1][1] as int) * (m[2][0] as int)) == (m[0][2] as int) * (m[1][0] as int) * (m[2][1] as int) - (m[0][2] as int) * (m[1][1] as int) * (m[2][0] as int)) by (nonlinear_arith);
    assert((m[0][0] as int) * (-((m[0][1] as int) * (m[2][2] as int)) + (m[0][2] as int) * (m[2][1] as int)) == -((m[0][0] as int) * (m[0][1] as int) * (m[2][2] as int)) + (m[0][0] as int) * (m[0][2] as int) * (m[2][1] as int)) by (nonlinear_arith);
    assert((m[0][1] as int) * ((m[0][0] as int) * (m[2][2] as int) - (m[0][2] as int) * (m[2][0] as int)) == (m[0][0] as int) * (m[0][1] as int) * (m[2][2] as int) - (m[0][1] as int) * (m[0][2] as int) * (m[2][0] as int)) by (nonlinear_arith);
    assert((m[0][2] as int) * (-((m[0][0] as int) * (m[2][1] as int)) + (m[0][1] as int) * (m[2][0] as int)) == -((m[0][0] as int) * (m[0][2] as int) * (m[2][1] as int)) + (m[0][1] as int) * (m[0][2] as int) * (m[2][0] as int)) by (nonlinear_arith);
    assert((m[0][0] as int) * ((m[0][1] as int) * (m[1][2] as int) - (m[0][2] as int) * (m[1][1] as int)) == (m[0][0] as int) * (m[0][1] as int) * (m[1][2] as int) - (m[0][0] as int) * (m[0][2] as int) * (m[1][1] as int)) by (nonlinear_arith);
    assert((m[0][1] as int) * (-((m[0][0] as int) * (m[1][2] as int)) + (m[0][2] as int) * (m[1][0] as int)) == -((m[0][0] as int) * (m[0][1] as int) * (m[1][2] as int)) + (m[0][1] as int) * (m[0][2] as int) * (m[1][0] as int)) by (nonlinear_arith);
    assert((m[0][2] as int) * ((m[0][0] as int) * (m[1][1] as int) - (m[0][1] as int) * (m[1][0] as int)) == (m[0][0] as int) * (m[0][2] as int) * (m[1][1] as int) - (m[0][1] as int) * (m[0][2] as int) * (m[1][0] as int)) by (nonlinear_arith);
    assert((m[1][0] as int) * ((m[1][1] as int) * (m[2][2] as int) - (m[1][2] as int) * (m[2][1] as int)) == (m[1][0] as int) * (m[1][1] as int) * (m[2][2] as int) - (m[1][0] as int) * (m[1][2] as int) * (m[2][1] as int)) by (nonlinear_arith);
    assert((m[1][1] as int) * (-((m[1][0] as int) * (m[2][2] as int)) + (m[1][2] as int) * (m[2][0] as int)) == -((m[1][0] as int) * (m[1][1] as int) * (m[2][2] as int)) + (m[1][1] as int) * (m[1][2] as int) * (m[2][0] as int)) by (nonlinear_arith);
    assert((m[1][2] as int) * ((m[1][0] as int) * (m[2][1] as int) - (m[1][1] as int) * (m[2][0] as int)) == (m[1][0] as int) * (m[1][2] as int) * (m[2][1] as int) - (m[1][1] as int) * (m[1][2] as int) * (m[2][0] as int)) by (nonlinear_arith);
    assert((m[1][0] as int) * (-((m[0][1] as int) * (m[2][2] as int)) + (m[0][2] as int) * (m[2][1] as int)) == -((m[0][1] as int) * (m[1][0] as int) * (m[2][2] as int)) + (m[0][2] as int) * (m[1][0] as int) * (m[2][1] as int)) by (nonlinear_arith);
    assert((m[1][1] as int) * ((m[0][0] as int) * (m[2][2] as int) - (m[0][2] as int) * (m[2][0] as int)) == (m[0][0] as int) * (m[1][1] as int) * (m[2][2] as int) - (m[0][2] as int) * (m[1][1] as int) * (m[2][0] as int)) by (nonlinear_arith);
    assert((m[1][2] as int) * (-((m[0][0] as int) * (m[2][1] as int)) + (m[0][1] as int) * (m[2][0] as int)) == -((m[0][0] as int) * (m[1][2] as int) * (m[2][1] as int)) + (m[0][1] as int) * (m[1][2] as int) * (m[2][0] as int)) by (nonlinear_arith);
    assert((m[1][0] as int) * ((m[0][1] as int) * (m[1][2] as int) - (m[0][2] as int) * (m[1][1] as int)) == (m[0][1] as int) * (m[1][0] as int) * (m[1][2] as int) - (m[0][2] as int) * (m[1][0] as int) * (m[1][1] as int)) by (nonlinear_arith);
    assert((m[1][1] as int) * (-((m[0][0] as int) * (m[1][2] as int)) + (m[0][2] as int) * (m[1][0] as int)) == -((m[0][0] as int) * (m[1][1] as int) * (m[1][2] as int)) + (m[0][2] as int) * (m[1][0] as int) * (m[1][1] as int)) by (nonlinear_arith);
    assert((m[1][2] as int) * ((m[0][0] as int) * (m[1][1] as int) - (m[0][1] as int) * (m[1][0] as int)) == (m[0][0] as int) * (m[1][1] as int) * (m[1][2] as int) - (m[0][1] as int) * (m[1][0] as int) * (m[1][2] as int)) by (nonlinear_arith);
    assert((m[2][0] as int) * ((m[1][1] as int) * (m[2][2] as int) - (m[1][2] as int) * (m[2][1] as int)) == (m[1][1] as int) * (m[2][0] as int) * (m[2][2] as int) - (m[1][2] as int) * (m[2][0] as int) * (m[2][1] as int)) by (nonlinear_arith);
    assert((m[2][1] as int) * (-((m[1][0] as int) * (m[2][2] as int)) + (m[1][2] as int) * (m[2][0] as int)) == -((m[1][0] as int) * (m[2][1] as int) * (m[2][2] as int)) + (m[1][2] as int) * (m[2][0] as int) * (m[2][1] as int)) by (nonlinear_arith);
    assert((m[2][2] as int) * ((m[1][0] as int) * (m[2][1] as int) - (m[1][1] as int) * (m[2][0] as int)) == (m[1][0] as int) * (m[2][1] as int) * (m[2][2] as int) - (m[1][1] as int) * (m[2][0] as int) * (m[2][2] as int)) by (nonlinear_arith);
    assert((m[2][0] as int) * (-((m[0][1] as int) * (m[2][2] as int)) + (m[0][2] as int) * (m[2][1] as int)) == -((m[0][1] as int) * (m[2][0] as int) * (m[2][2] as int)) + (m[0][2] as int) * (m[2][0] as int) * (m[2][1] as int)) by (nonlinear_arith);
    assert((m[2][1] as int) * ((m[0][0] as int) * (m[2][2] as int) - (m[0][2] as int) * (m[2][0] as int)) == (m[0][0] as int) * (m[2][1] as int) * (m[2][2] as int) - (m[0][2] as int) * (m[2][0] as int) * (m[2][1] as int)) by (nonlinear_arith);
    assert((m[2][2] as int) * (-((m[0][0] as int) * (m[2][1] as int)) + (m[0][1] as int) * (m[2][0] as int)) == -((m[0][0] as int) * (m[2][1] as int) * (m[2][2] as int)) + (m[0][1] as int) * (m[2][0] as int) * (m[2][2] as int)) by (nonlinear_arith);
    assert((m[2][0] as int) * ((m[0][1] as int) * (m[1][2] as int) - (m[0][2] as int) * (m[1][1] as int)) == (m[0][1] as int) * (m[1][2] as int) * (m[2][0] as int) - (m[0][2] as int) * (m[1][1] as int) * (m[2][0] as int)) by (nonlinear_arith);
    assert((m[2][1] as int) * (-((m[0][0] as int) * (m[1][2] as int)) + (m[0][2] as int) * (m[1][0] as int)) == -((m[0][0] as int) * (m[1][2] as int) * (m[2][1] as int)) + (m[0][2] as int) * (m[1][0] as int) * (m[2][1] as int)) by (nonlinear_arith);
    assert((m[2][2] as int) * ((m[0][0] as int) * (m[1][1] as int) - (m[0][1] as int) * (m[1][0] as int)) == (m[0][0] as int) * (m[1][1] as int) * (m[2][2] as int) - (m[0][1] as int) * (m[1][0] as int) * (m[2][2] as int)) by (nonlinear_arith);
}

/// Each row of the adjugate of a 3 × 3 matrix times each column of the
/// matrix: the determinant on the diagonal, zero elsewhere.
proof fn lemma_adjugate_right_3x3(m: [[i64; 3]; 3])
    ensures
        adjugate_entry(m, 0, 0) * (m[0][0] as int) + adjugate_entry(m, 0, 1) * (m[1][0] as int) + adjugate_entry(m, 0, 2) * (m[2][0] as int) == m.det() * identity(0, 0),
        adjugate_entry(m, 0, 0) * (m[0][1] as int) + adjugate_entry(m, 0, 1) * (m[1][1] as int) + adjugate_entry(m, 0, 2) * (m[2][1] as int) == m.det() * identity(0, 1),
        adjugate_entry(m, 0, 0) * (m[0][2] as int) + adjugate_entry(m, 0, 1) * (m[1][2] as int) + adjugate_entry(m, 0, 2) * (m[2][2] as int) == m.det() * identity(0, 2),
        adjugate_entry(m, 1, 0) * (m[0][0] as int) + adjugate_entry(m, 1, 1) * (m[1][0] as int) + adjugate_entry(m, 1, 2) * (m[2][0] as int) == m.det() * identity(1, 0),
        adjugate_entry(m, 1, 0) * (m[0][1] as int) + adjugate_entry(m, 1, 1) * (m[1][1] as int) + adjugate_entry(m, 1, 2) * (m[2][1] as int) == m.det() * identity(1, 1),
        adjugate_entry(m, 1, 0) * (m[0][2] as int) + adjugate_entry(m, 1, 1) * (m[1][2] as int) + adjugate_entry(m, 1, 2) * (m[2][2] as int) == m.det() * identity(1, 2),
        adjugate_entry(m, 2, 0) * (m[0][0] as int) + adjugate_entry(m, 2, 1) * (m[1][0] as int) + adjugate_entry(m, 2, 2) * (m[2][0] as int) == m.det() * identity(2, 0),
        adjugate_entry(m, 2, 0) * (m[0][1] as int) + adjugate_entry(m, 2, 1) * (m[1][1] as int) + adjugate_entry(m, 2, 2) * (m[2][1] as int) == m.det() * identity(2, 1),
        adjugate_entry(m, 2, 0) * (m[0][2] as int) + adjugate_entry(m, 2, 1) * (m[1][2] as int) + adjugate_entry(m, 2, 2) * (m[2][2] as int) == m.det() * identity(2, 2),
{
    lemma_adjugate_monomials_3x3(m);
    lemma_det_monomials_3x3(m);
    assert(((m[1][1] as int) * (m[2][2] as int) - (m[1][2] as int) * (m[2][1] as int)) * (m[0][0] as int) == (m[0][0] as int) * (m[1][1] as int) * (m[2][2] as int) - (m[0][0] as int) * (m[1][2] as int) * (m[2][1] as int)) by (nonlinear_arith);
    assert((-((m[0][1] as int) * (m[2][2] as int)) + (m[0][2] as int) * (m[2][1] as int)) * (m[1][0] as int) == -((m[0][1] as int) * (m[1][0] as int) * (m[2][2] as int)) + (m[0][2] as int) * (m[1][0] as int) * (m[2][1] as int)) by (nonlinear_arith);
    assert(((m[0][1] as int) * (m[1][2] as int) - (m[0][2] as int) * (m[1][1] as int)) * (m[2][0] as int) == (m[0][1] as int) * (m[1][2] as int) * (m[2][0] as int) - (m[0][2] as int) * (m[1][1] as int) * (m[2][0] as int)) by (nonlinear_arith);
    assert(((m[1][1] as int) * (m[2][2] as int) - (m[1][2] as int) * (m[2][1] as int)) * (m[0][1] as int) == (m[0][1] as int) * (m[1][1] as int) * (m[2][2] as int) - (m[0][1] as int) * (m[1][2] as int) * (m[2][1] as int)) by (nonlinear_arith);
    assert((-((m[0][1] as int) * (m[2][2] as int)) + (m[0][2] as int) * (m[2][1] as int)) * (m[1][1] as int) == -((m[0][1] as int) * (m[1][1] as int) * (m[2][2] as int)) + (m[0][2] as int) * (m[1][1] as int) * (m[2][1] as int)) by (nonlinear_arith);
    assert(((m[0][1] as int) * (m[1][2] as int) - (m[0][2] as int) * (m[1][1] as int)) * (m[2][1] as int) == (m[0][1] as int) * (m[1][2] as int) * (m[2][1] as int) - (m[0][2] as int) * (m[1][1] as int) * (m[2][1] as int)) by (nonlinear_arith);
    assert(((m[1][1] as int) * (m[2][2] as int) - (m[1][2] as int) * (m[2][1] as int)) * (m[0][2] as int) == (m[0][2] as int) * (m[1][1] as int) * (m[2][2] as int) - (m[0][2] as int) * (m[1][2] as int) * (m[2][1] as int)) by (nonlinear_arith);
    assert((-((m[0][1] as int) * (m[2][2] as int)) + (m[0][2] as int) * (m[2][1] as int)) * (m[1][2] as int) == -((m[0][1] as int) * (m[1][2] as int) * (m[2][2] as int)) + (m[0][2] as int) * (m[1][2] as int) * (m[2][1] as int)) by (nonlinear_arith);
    assert(((m[0][1] as int) * (m[1][2] as int) - (m[0][2] as int) * (m[1][1] as int)) * (m[2][2] as int) == (m[0][1] as int) * (m[1][2] as int) * (m[2][2] as int) - (m[0][2] as int) * (m[1][1] as int) * (m[2][2] as int)) by (nonlinear_arith);
    assert((-((m[1][0] as int) * (m[2][2] as int)) + (m[1][2] as int) * (m[2][0] as int)) * (m[0][0] as int) == -((m[0][0] as int) * (m[1][0] as int) * (m[2][2] as int)) + (m[0][0] as int) * (m[1][2] as int) * (m[2][0] as int)) by (nonlinear_arith);
    assert(((m[0][0] as int) * (m[2][2] as int) - (m[0][2] as int) * (m[2][0] as int)) * (m[1][0] as int) == (m[0][0] as int) * (m[1][0] as int) * (m[2][2] as int) - (m[0][2] as int) * (m[1][0] as int) * (m[2][0] as int)) by (nonlinear_arith);
    assert((-((m[0][0] as int) * (m[1][2] as int)) + (m[0][2] as int) * (m[1][0] as int)) * (m[2][0] as int) == -((m[0][0] as int) * (m[1][2] as int) * (m[2][0] as int)) + (m[0][2] as int) * (m[1][0] as int) * (m[2][0] as int)) by (nonlinear_arith);
    assert((-((m[1][0] as int) * (m[2][2] as int)) + (m[1][2] as int) * (m[2][0] as int)) * (m[0][1] as int) == -((m[0][1] as int) * (m[1][0] as int) * (m[2][2] as int)) + (m[0][1] as int) * (m[1][2] as int) * (m[2][0] as int)) by (nonlinear_arith);
    assert(((m[0][0] as int) * (m[2][2] as int) - (m[0][2] as int) * (m[2][0] as int)) * (m[1][1] as int) == (m[0][0] as int) * (m[1][1] as int) * (m[2][2] as int) - (m[0][2] as int) * (m[1][1] as int) * (m[2][0] as int)) by (nonlinear_arith);
    assert((-((m[0][0] as int) * (m[1][2] as int)) + (m[0][2] as int) * (m[1][0] as int)) * (m[2][1] as int) == -((m[0][0] as int) * (m[1][2] as int) * (m[2][1] as int)) + (m[0][2] as int) * (m[1][0] as int) * (m[2][1] as int)) by (nonlinear_arith);
    assert((-((m[1][0] as int) * (m[2][2] as int)) + (m[1][2] as int) * (m[2][0] as int)) * (m[0][2] as int) == -((m[0][2] as int) * (m[1][0] as int) * (m[2][2] as int)) + (m[0][2] as int) * (m[1][2] as int) * (m[2][0] as int)) by (nonlinear_arith);
    assert(((m[0][0] as int) * (m[2][2] as int) - (m[0][2] as int) * (m[2][0] as int)) * (m[1][2] as int) == (m[0][0] as int) * (m[1][2] as int) * (m[2][2] as int) - (m[0][2] as int) * (m[1][2] as int) * (m[2][0] as int)) by (nonlinear_arith);
    assert((-((m[0][0] as int) * (m[1][2] as int)) + (m[0][2] as int) * (m[1][0] as int)) * (m[2][2] as int) == -((m[0][0] as int) * (m[1][2] as int) * (m[2][2] as int)) + (m[0][2] as int) * (m[1][0] as int) * (m[2][2] as int)) by (nonlinear_arith);
    assert(((m[1][0] as int) * (m[2][1] as int) - (m[1][1] as int) * (m[2][0] as int)) * (m[0][0] as int) == (m[0][0] as int) * (m[1][0] as int) * (m[2][1] as int) - (m[0][0] as int) * (m[1][1] as int) * (m[2][0] as int)) by (nonlinear_arith);
    assert((-((m[0][0] as int) * (m[2][1] as int)) + (m[0][1] as int) * (m[2][0] as int)) * (m[1][0] as int) == -((m[0][0] as int) * (m[1][0] as int) * (m[2][1] as int)) + (m[0][1] as int) * (m[1][0] as int) * (m[2][0] as int)) by (nonlinear_arith);
    assert(((m[0][0] as int) * (m[1][1] as int) - (m[0][1] as int) * (m[1][0] as int)) * (m[2][0] as int) == (m[0][0] as int) * (m[1][1] as int) * (m[2][0] as int) - (m[0][1] as int) * (m[1][0] as int) * (m[2][0] as int)) by (nonlinear_arith);
    assert(((m[1][0] as int) * (m[2][1] as int) - (m[1][1] as int) * (m[2][0] as int)) * (m[0][1] as int) == (m[0][1] as int) * (m[1][0] as int) * (m[2][1] as int) - (m[0][1] as int) * (m[1][1] as int) * (m[2][0] as int)) by (nonlinear_arith);
    assert((-((m[0][0] as int) * (m[2][1] as int)) + (m[0][1] as int) * (m[2][0] as int)) * (m[1][1] as int) == -((m[0][0] as int) * (m[1][1] as int) * (m[2][1] as int)) + (m[0][1] as int) * (m[1][1] as int) * (m[2][0] as int)) by (nonlinear_arith);
    assert(((m[0][0] as int) * (m[1][1] as int) - (m[0][1] as int) * (m[1][0] as int)) * (m[2][1] as int) == (m[0][0] as int) * (m[1][1] as int) * (m[2][1] as int) - (m[0][1] as int) * (m[1][0] as int) * (m[2][1] as int)) by (nonlinear_arith);
    assert(((m[1][0] as int) * (m[2][1] as int) - (m[1][1] as int) * (m[2][0] as int)) * (m[0][2] as int) == (m[0][2] as int) * (m[1][0] as int) * (m[2][1] as int) - (m[0][2] as int) * (m[1][1] as int) * (m[2][0] as int)) by (nonlinear_arith);
    assert((-((m[0][0] as int) * (m[2][1] as int)) + (m[0][1] as int) * (m[2][0] as int)) * (m[1][2] as int) == -((m[0][0] as int) * (m[1][2] as int) * (m[2][1] as int)) + (m[0][1] as int) * (m[1][2] as int) * (m[2][0] as int)) by (nonlinear_arith);
    assert(((m[0][0] as int) * (m[1][1] as int) - (m[0][1] as int) * (m[1][0] as int)) * (m[2][2] as int) == (m[0][0] as int) * (m[1][1] as int) * (m[2][2] as int) - (m[0][1] as int) * (m[1][0] as int) * (m[2][2] as int)) by (nonlinear_arith);
}



/// The determinant of three rows, expanded along the first row, changes sign
/// when two rows are swapped and vanishes when two rows are equal.
proof fn lemma_det3_rows(a0: int, a1: int, a2: int, b0: int, b1: int, b2: int, c0: int, c1: int, c2: int)
    ensures
        b0 * (a1 * (c2) - a2 * (c1)) - b1 * (a0 * (c2) - a2 * (c0)) + b2 * (a0 * (c1) - a1 * (c0)) == -(a0 * (b1 * (c2) - b2 * (c1)) - a1 * (b0 * (c2) - b2 * (c0)) + a2 * (b0 * (c1) - b1 * (c0))),
        c0 * (b1 * (a2) - b2 * (a1)) - c1 * (b0 * (a2) - b2 * (a0)) + c2 * (b0 * (a1) - b1 * (a0)) == -(a0 * (b1 * (c2) - b2 * (c1)) - a1 * (b0 * (c2) - b2 * (c0)) + a2 * (b0 * (c1) - b1 * (c0))),
        a0 * (c1 * (b2) - c2 * (b1)) - a1 * (c0 * (b2) - c2 * (b0)) + a2 * (c0 * (b1) - c1 * (b0)) == -(a0 * (b1 * (c2) - b2 * (c1)) - a1 * (b0 * (c2) - b2 * (c0)) + a2 * (b0 * (c1) - b1 * (c0))),
        a0 * (a1 * (c2) - a2 * (c1)) - a1 * (a0 * (c2) - a2 * (c0)) + a2 * (a0 * (c1) - a1 * (c0)) == 0,
        a0 * (b1 * (a2) - b2 * (a1)) - a1 * (b0 * (a2) - b2 * (a0)) + a2 * (b0 * (a1) - b1 * (a0)) == 0,
        a0 * (b1 * (b2) - b2 * (b1)) - a1 * (b0 * (b2) - b2 * (b0)) + a2 * (b0 * (b1) - b1 * (b0)) == 0,
{
    assert(a0 * (b1 * (c2) - b2 * (c1)) == a0 * b1 * c2 - a0 * b2 * c1) by (nonlinear_arith);
    assert(a1 * (b0 * (c2) - b2 * (c0)) == a1 * b0 * c2 - a1 * b2 * c0) by (nonlinear_arith);
    assert(a2 * (b0 * (c1) - b1 * (c0)) == a2 * b0 * c1 - a2 * b1 * c0) by (nonlinear_arith);
    assert(b0 * (a1 * (c2) - a2 * (c1)) == a1 * b0 * c2 - a2 * b0 * c1) by (nonlinear_arith);
    assert(b1 * (a0 * (c2) - a2 * (c0)) == a0 * b1 * c2 - a2 * b1 * c0) by (nonlinear_arith);
    assert(b2 * (a0 * (c1) - a1 * (c0)) == a0 * b2 * c1 - a1 * b2 * c0) by (nonlinear_arith);
    assert(c0 * (b1 * (a2) - b2 * (a1)) == a2 * b1 * c0 - a1 * b2 * c0) by (nonlinear_arith);
    assert(c1 * (b0 * (a2) - b2 * (a0)) == a2 * b0 * c1 - a0 * b2 * c1) by (nonlinear_arith);
    assert(c2 * (b0 * (a1) - b1 * (a0)) == a1 * b0 * c2 - a0 * b1 * c2) by (nonlinear_arith);
    assert(a0 * (c1 * (b2) - c2 * (b1)) == a0 * b2 * c1 - a0 * b1 * c2) by (nonlinear_arith);
    assert(a1 * (c0 * (b2) - c2 * (b0)) == a1 * b2 * c0 - a1 * b0 * c2) by (nonlinear_arith);
    assert(a2 * (c0 * (b1) - c1 * (b0)) == a2 * b1 * c0 - a2 * b0 * c1) by (nonlinear_arith);
    assert(a0 * (a1 * (c2) - a2 * (c1)) == a0 * a1 * c2 - a0 * a2 * c1) by (nonlinear_arith);
    assert(a1 * (a0 * (c2) - a2 * (c0)) == a0 * a1 * c2 - a1 * a2 * c0) by (nonlinear_arith);
    assert(a2 * (a0 * (c1) - a1 * (c0)) == a0 * a2 * c1 - a1 * a2 * c0) by (nonlinear_arith);
    assert(a0 * (b1 * (a2) - b2 * (a1)) == a0 * a2 * b1 - a0 * a1 * b2) by (nonlinear_arith);
    assert(a1 * (b0 * (a2) - b2 * (a0)) == a1 * a2 * b0 - a0 * a1 * b2) by (nonlinear_arith);
    assert(a2 * (b0 * (a1) - b1 * (a0)) == a1 * a2 * b0 - a0 * a2 * b1) by (nonlinear_arith);
    assert(a0 * (b1 * (b2) - b2 * (b1)) == a0 * b1 * b2 - a0 * b1 * b2) by (nonlinear_arith);
    assert(a1 * (b0 * (b2) - b2 * (b0)) == a1 * b0 * b2 - a1 * b0 * b2) by (nonlinear_arith);
    assert(a2 * (b0 * (b1) - b1 * (b0)) == a2 * b0 * b1 - a2 * b0 * b1) by (nonlinear_arith);
}

/// Swapping two rows of a 3 × 3 matrix negates its determinant.
pub proof fn lemma_det_3x3_swap_rows(m: [[i64; 3]; 3], s: [[i64; 3]; 3], p: int, q: int)
    requires
        0 <= p < q < 3,
        forall|c: int| 0 <= c < 3 ==> s[p][c] == m[q][c] && s[q][c] == m[p][c],
        forall|r: int, c: int| 0 <= r < 3 && r != p && r != q && 0 <= c < 3 ==> s[r][c] == m[r][c],
    ensures
        s.det() == -m.det(),
{
    lemma_det3_rows(m[0][0] as int, m[0][1] as int, m[0][2] as int, m[1][0] as int, m[1][1] as int, m[1][2] as int, m[2][0] as int, m[2][1] as int, m[2][2] as int);
    assert(m.det() == (m[0][0] as int) * ((m[1][1] as int) * ((m[2][2] as int)) - (m[1][2] as int) * ((m[2][1] as int))) - (m[0][1] as int) * ((m[1][0] as int) * ((m[2][2] as int)) - (m[1][2] as int) * ((m[2][0] as int))) + (m[0][2] as int) * ((m[1][0] as int) * ((m[2][1] as int)) - (m[1][1] as int) * ((m[2][0] as int))));
    assert(s.det() == (s[0][0] as int) * ((s[1][1] as int) * ((s[2][2] as int)) - (s[1][2] as int) * ((s[2][1] as int))) - (s[0][1] as int) * ((s[1][0] as int) * ((s[2][2] as int)) - (s[1][2] as int) * ((s[2][0] as int))) + (s[0][2] as int) * ((s[1][0] as int) * ((s[2][1] as int)) - (s[1][1] as int) * ((s[2][0] as int))));
    if p == 0 && q == 1 {
        assert(s[0][0] == m[1][0]);
        assert(s[0][1] == m[1][1]);
        assert(s[0][2] == m[1][2]);
        assert(s[1][0] == m[0][0]);
        assert(s[1][1] == m[0][1]);
        assert(s[1][2] == m[0][2]);
        assert(s[2][0] == m[2][0]);
        assert(s[2][1] == m[2][1]);
        assert(s[2][2] == m[2][2]);
    }
    if p == 0 && q == 2 {
        assert(s[0][0] == m[2][0]);
        assert(s[0][1] == m[2][1]);
        assert(s[0][2] == m[2][2]);
        assert(s[1][0] == m[1][0]);
        assert(s[1][1] == m[1][1]);
        assert(s[1][2] == m[1][2]);
        assert(s[2][0] == m[0][0]);
        assert(s[2][1] == m[0][1]);
        assert(s[2][2] == m[0][2]);
    }
    if p == 1 && q == 2 {
        assert(s[0][0] == m[0][0]);
        assert(s[0][1] == m[0][1]);
        assert(s[0][2] == m[0][2]);
        assert(s[1][0] == m[2][0]);
        assert(s[1][1] == m[2][1]);
        assert(s[1][2] == m[2][2]);
        assert(s[2][0] == m[1][0]);
        assert(s[2][1] == m[1][1]);
        assert(s[2][2] == m[1][2]);
    }
}

/// A 3 × 3 matrix with two equal rows has determinant zero.
pub proof fn lemma_det_3x3_equal_rows(m: [[i64; 3]; 3], p: int, q: int)
    requires
        0 <= p < q < 3,
        forall|c: int| 0 <= c < 3 ==> m[p][c] == m[q][c],
    ensures
        m.det() == 0,
{
    lemma_det3_rows(m[0][0] as int, m[0][1] as int, m[0][2] as int, m[1][0] as int, m[1][1] as int, m[1][2] as int, m[2][0] as int, m[2][1] as int, m[2][2] as int);
    assert(m.det() == (m[0][0] as int) * ((m[1][1] as int) * ((m[2][2] as int)) - (m[1][2] as int) * ((m[2][1] as int))) - (m[0][1] as int) * ((m[1][0] as int) * ((m[2][2] as int)) - (m[1][2] as int) * ((m[2][0] as int))) + (m[0][2] as int) * ((m[1][0] as int) * ((m[2][1] as int)) - (m[1][1] as int) * ((m[2][0] as int))));
    if p == 0 && q == 1 {
        assert(m[1][0] == m[0][0]);
        assert(m[1][1] == m[0][1]);
        assert(m[1][2] == m[0][2]);
    }
    if p == 0 && q == 2 {
        assert(m[2][0] == m[0][0]);
        assert(m[2][1] == m[0][1]);
        assert(m[2][2] == m[0][2]);
    }
    if p == 1 && q == 2 {
        assert(m[2][0] == m[1][0]);
        assert(m[2][1] == m[1][1]);
        assert(m[2][2] == m[1][2]);
    }
}

impl Inverse for [[i64; 2]; 2] {
    fn inv(&self) -> (r: Option<(Self, i64)>) {
        let d = self.determinant();
        if d == 0 {
            None
        } else {
            Some((adjugate_2x2(self), d))
        }
    }
}

impl Inverse for [[i64; 3]; 3] {
    fn inv(&self) -> (r: Option<(Self, i64)>) {
        let d = self.determinant();
        if d == 0 {
            None
        } else {
            Some((adjugate_3x3(self), d))
        }
    }
}

impl Inverse for [[i64; 4]; 4] {
    fn inv(&self) -> (r: Option<(Self, i64)>) {
        let d = self.determinant();
        if d == 0 {
            None
        } else {
            Some((adjugate_4x4(self), d))
        }
    }
}

/// A 2 × 2 matrix times its adjugate, in either order, is its determinant
/// times the identity; so where the determinant is not zero, the adjugate
/// divided by the determinant is the inverse.
pub proof fn lemma_adjugate_product_2x2(m: [[i64; 2]; 2], a: [[i64; 2]; 2])
    requires
        is_adjugate(m, a),
    ensures
        forall|i: int, j: int|
            0 <= i < 2 && 0 <= j < 2 ==> #[trigger] product_entry(mat2(m), mat2(a), 2, i, j) == scaled_identity(m.det(), i, j)
                && product_entry(mat2(a), mat2(m), 2, i, j) == scaled_identity(m.det(), i, j),
{
    lemma_adjugate_left_2x2(m);
    lemma_adjugate_right_2x2(m);
    assert forall|i: int, j: int| 0 <= i < 2 && 0 <= j < 2 implies #[trigger] product_entry(mat2(m), mat2(a), 2, i, j)
        == scaled_identity(m.det(), i, j) && product_entry(mat2(a), mat2(m), 2, i, j) == scaled_identity(m.det(), i, j) by {
        lemma_product_entry_2(mat2(m), mat2(a), i, j);
        lemma_product_entry_2(mat2(a), mat2(m), i, j);
        assert(i == 0 || i == 1);
        assert(j == 0 || j == 1);
        assert(a.as_fn()(0, j) == adjugate_entry(m, 0, j));
        assert(a.as_fn()(i, 0) == adjugate_entry(m, i, 0));
        assert(a.as_fn()(1, j) == adjugate_entry(m, 1, j));
        assert(a.as_fn()(i, 1) == adjugate_entry(m, i, 1));
    }
}

/// A 3 × 3 matrix times its adjugate, in either order, is its determinant
/// times the identity; so where the determinant is not zero, the adjugate
/// divided by the determinant is the inverse.
pub proof fn lemma_adjugate_product_3x3(m: [[i64; 3]; 3], a: [[i64; 3]; 3])
    requires
        is_adjugate(m, a),
    ensures
        forall|i: int, j: int|
            0 <= i < 3 && 0 <= j < 3 ==> #[trigger] product_entry(mat3(m), mat3(a), 3, i, j) == scaled_identity(m.det(), i, j)
                && product_entry(mat3(a), mat3(m), 3, i, j) == scaled_identity(m.det(), i, j),
{
    lemma_adjugate_left_3x3(m);
    lemma_adjugate_right_3x3(m);
    assert forall|i: int, j: int| 0 <= i < 3 && 0 <= j < 3 implies #[trigger] product_entry(mat3(m), mat3(a), 3, i, j)
        == scaled_identity(m.det(), i, j) && product_entry(mat3(a), mat3(m), 3, i, j) == scaled_identity(m.det(), i, j) by {
        lemma_product_entry_3(mat3(m), mat3(a), i, j);
        lemma_product_entry_3(mat3(a), mat3(m), i, j);
        assert(i == 0 || i == 1 || i == 2);
        assert(j == 0 || j == 1 || j == 2);
        assert(a.as_fn()(0, j) == adjugate_entry(m, 0, j));
        assert(a.as_fn()(i, 0) == adjugate_entry(m, i, 0));
        assert(a.as_fn()(1, j) == adjugate_entry(m, 1, j));
        assert(a.as_fn()(i, 1) == adjugate_entry(m, i, 1));
        assert(a.as_fn()(2, j) == adjugate_entry(m, 2, j));
        assert(a.as_fn()(i, 2) == adjugate_entry(m, i, 2));
    }
}

/// Entry `(i, j)` of a product of 2 × 2 matrices, written out.
proof fn lemma_product_entry_2(f: MatrixFn, g: MatrixFn, i: int, j: int)
    ensures
        product_entry(f, g, 2, i, j) == f(i, 0) * g(0, j) + f(i, 1) * g(1, j),
{
    reveal_with_fuel(product_entry, 3);
}

/// Entry `(i, j)` of a product of 3 × 3 matrices, written out.
proof fn lemma_product_entry_3(f: MatrixFn, g: MatrixFn, i: int, j: int)
    ensures
        product_entry(f, g, 3, i, j) == f(i, 0) * g(0, j) + f(i, 1) * g(1, j) + f(i, 2) * g(2, j),
{
    reveal_with_fuel(product_entry, 4);
}

} // verus!
