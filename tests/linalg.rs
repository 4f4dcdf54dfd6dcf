use tec2hdf5::linalg::{Adjugate, Determinant, Inverse};

#[test]
fn test_determinant_2x2() {
    let matrix1: [[i64; 2]; 2] = [[3, 8], [4, 6]];
    assert_eq!(matrix1.determinant(), -14);
    let matrix2: [[i64; 2]; 2] = [[1, 2], [3, 4]];
    assert_eq!(matrix2.determinant(), -2);
    let identity: [[i64; 2]; 2] = [[1, 0], [0, 1]];
    assert_eq!(identity.determinant(), 1);
    let zero_matrix: [[i64; 2]; 2] = [[0, 0], [0, 0]];
    assert_eq!(zero_matrix.determinant(), 0);
}

#[test]
fn test_determinant_3x3() {
    let matrix1: [[i64; 3]; 3] = [[6, 1, 1], [4, -2, 5], [2, 8, 7]];
    assert_eq!(matrix1.determinant(), -306);
    let identity: [[i64; 3]; 3] = [[1, 0, 0], [0, 1, 0], [0, 0, 1]];
    assert_eq!(identity.determinant(), 1);
    let singular_matrix: [[i64; 3]; 3] = [[2, 4, 6], [1, 2, 3], [3, 6, 9]];
    assert_eq!(singular_matrix.determinant(), 0);
    let neg_det_matrix: [[i64; 3]; 3] = [[-3, 2, 1], [1, 1, -1], [2, 1, 3]];
    assert_eq!(neg_det_matrix.determinant(), -23);
}

#[test]
fn test_determinant_4x4() {
    let matrix1: [[i64; 4]; 4] = [[3, 2, -1, 4], [2, 1, 5, 7], [0, 5, 2, -6], [1, 2, 3, 0]];
    assert_eq!(matrix1.determinant(), 142);
    let identity: [[i64; 4]; 4] = [[1, 0, 0, 0], [0, 1, 0, 0], [0, 0, 1, 0], [0, 0, 0, 1]];
    assert_eq!(identity.determinant(), 1);
    let singular_matrix: [[i64; 4]; 4] = [[1, 2, 3, 4], [2, 4, 6, 8], [3, 6, 9, 12], [4, 8, 12, 16]];
    assert_eq!(singular_matrix.determinant(), 0);
    let neg_det_matrix: [[i64; 4]; 4] = [[-2, -1, 3, 1], [1, 3, -1, 4], [0, 2, 1, -2], [1, -2, 3, 2]];
    assert_eq!(neg_det_matrix.determinant(), -161);
}

#[test]
fn test_adjugate_2x2_singular() {
    let m: [[i64; 2]; 2] = [[1, 1], [2, 2]];
    assert_eq!(m.adj(), [[2, -1], [-2, 1]]);
}

#[test]
fn test_adjugate_2x2() {
    let m: [[i64; 2]; 2] = [[1, 2], [0, 1]];
    assert_eq!(m.adj(), [[1, -2], [0, 1]]);
}

#[test]
fn test_adjugate_3x3_singular() {
    let m: [[i64; 3]; 3] = [[1, 1, 1], [2, 2, 2], [3, 3, 3]];
    assert_eq!(m.adj(), [[0, 0, 0], [0, 0, 0], [0, 0, 0]]);
}

#[test]
fn test_adjugate_3x3() {
    let m: [[i64; 3]; 3] = [[1, 0, 1], [0, 3, 2], [2, 0, 0]];
    assert_eq!(m.adj(), [[0, 0, -3], [4, -2, -2], [-6, 0, 3]]);
}

#[test]
fn test_adjugate_4x4_singular() {
    let m: [[i64; 4]; 4] = [[1, 1, 1, 1], [2, 2, 2, 2], [3, 3, 3, 3], [4, 4, 4, 4]];
    assert_eq!(m.adj(), [[0; 4]; 4]);
}

#[test]
fn test_adjugate_4x4() {
    let m: [[i64; 4]; 4] = [[1, 0, 1, 1], [2, 0, 0, 1], [1, 2, 3, 4], [0, 1, 2, 0]];
    let expected: [[i64; 4]; 4] = [[1, -5, 1, -2], [14, -6, -2, -4], [-7, 3, 1, -2], [-2, 2, -2, 4]];
    assert_eq!(m.adj(), expected);
}

#[test]
fn test_inverse_2x2_singular() {
    let m: [[i64; 2]; 2] = [[1, 1], [2, 2]];
    assert!(m.inv().is_none());
}

#[test]
fn test_inverse_2x2() {
    let m: [[i64; 2]; 2] = [[1, 2], [0, 1]];
    let m_inv_exp = [[1.0, -2.0], [0.0, 1.0]];
    let (a, d) = m.inv().unwrap();
    for i in 0..2 {
        for j in 0..2 {
            let m_inv = a[i][j] as f64 / d as f64;
            assert!(
                (m_inv - m_inv_exp[i][j]).abs() < 1e-14,
                "Expected inverse @ {}, {} to be {} but was {}",
                i,
                j,
                m_inv_exp[i][j],
                m_inv
            )
        }
    }
}

#[test]
fn test_inverse_3x3_singular() {
    let m: [[i64; 3]; 3] = [[1, 1, 1], [2, 2, 2], [3, 3, 3]];
    assert!(m.inv().is_none());
}

#[test]
fn test_inverse_4x4_singular() {
    let m: [[i64; 4]; 4] = [[1, 1, 1, 1], [2, 2, 2, 2], [3, 3, 3, 2], [4, 4, 4, 4]];
    assert!(m.inv().is_none());
}

fn product3(a: &[[i64; 3]; 3], b: &[[i64; 3]; 3]) -> [[i64; 3]; 3] {
    let mut r = [[0i64; 3]; 3];
    for i in 0..3 {
        for j in 0..3 {
            for k in 0..3 {
                r[i][j] += a[i][k] * b[k][j];
            }
        }
    }
    r
}

fn product4(a: &[[i64; 4]; 4], b: &[[i64; 4]; 4]) -> [[i64; 4]; 4] {
    let mut r = [[0i64; 4]; 4];
    for i in 0..4 {
        for j in 0..4 {
            for k in 0..4 {
                r[i][j] += a[i][k] * b[k][j];
            }
        }
    }
    r
}

#[test]
fn test_inverse_3x3() {
    let m: [[i64; 3]; 3] = [[1, 0, 1], [0, 3, 2], [2, 0, 0]];
    let m_inv_exp = [[0.0, 0.0, 1.0 / 2.0], [-2.0 / 3.0, 1.0 / 3.0, 1.0 / 3.0], [1.0, 0.0, -1.0 / 2.0]];
    let (a, d) = m.inv().unwrap();
    for i in 0..3 {
        for j in 0..3 {
            let m_inv = a[i][j] as f64 / d as f64;
            assert!(
                (m_inv - m_inv_exp[i][j]).abs() < 1e-14,
                "Expected inverse @ {}, {} to be {} but was {}",
                i,
                j,
                m_inv_exp[i][j],
                m_inv
            )
        }
    }
}

#[test]
fn test_inverse_4x4() {
    let m: [[i64; 4]; 4] = [[1, 0, 1, 1], [2, 0, 0, 1], [1, 2, 3, 4], [0, 1, 2, 0]];
    let m_inv_exp = [
        [-1.0 / 8.0, 5.0 / 8.0, -1.0 / 8.0, 1.0 / 4.0],
        [-7.0 / 4.0, 3.0 / 4.0, 1.0 / 4.0, 1.0 / 2.0],
        [7.0 / 8.0, -3.0 / 8.0, -1.0 / 8.0, 1.0 / 4.0],
        [1.0 / 4.0, -1.0 / 4.0, 1.0 / 4.0, -1.0 / 2.0],
    ];
    let (a, d) = m.inv().unwrap();
    for i in 0..4 {
        for j in 0..4 {
            let m_inv = a[i][j] as f64 / d as f64;
            assert!(
                (m_inv - m_inv_exp[i][j]).abs() < 1e-14,
                "Expected inverse @ {}, {} to be {} but was {}",
                i,
                j,
                m_inv_exp[i][j],
                m_inv
            )
        }
    }
}

#[test]
fn inverse_is_the_adjugate_over_the_determinant() {
    let m: [[i64; 3]; 3] = [[2, 3, 1], [1, 2, 1], [1, 1, 1]];
    let (a, d) = m.inv().unwrap();
    assert_eq!(d, 1);
    assert_eq!(a, m.adj());
    let id = [[1, 0, 0], [0, 1, 0], [0, 0, 1]];
    assert_eq!(product3(&m, &a), id);
    assert_eq!(product3(&a, &m), id);
    let m2: [[i64; 2]; 2] = [[2, 0], [0, 1]];
    let (a2, d2) = m2.inv().unwrap();
    assert_eq!((a2, d2), ([[1, 0], [0, 2]], 2));
    let m4: [[i64; 4]; 4] = [[3, 2, -1, 4], [2, 1, 5, 7], [0, 5, 2, -6], [1, 2, 3, 0]];
    let (a4, d4) = m4.inv().unwrap();
    assert_eq!(d4, 142);
    let p = product4(&m4, &a4);
    for i in 0..4 {
        for j in 0..4 {
            assert_eq!(p[i][j], if i == j { d4 } else { 0 });
        }
    }
}

#[test]
fn adjugate_times_matrix_is_determinant_times_identity() {
    let m: [[i64; 4]; 4] = [[3, 2, -1, 4], [2, 1, 5, 7], [0, 5, 2, -6], [1, 2, 3, 0]];
    let d = m.determinant();
    let p = product4(&m, &m.adj());
    for i in 0..4 {
        for j in 0..4 {
            assert_eq!(p[i][j], if i == j { d } else { 0 });
        }
    }
}

#[test]
fn swapping_two_rows_negates_the_determinant() {
    let v = [[0, 0, 0, 1], [1, 0, 0, 1], [0, 1, 0, 1], [0, 0, 1, 1]];
    let d = v.determinant();
    assert_eq!(d.abs(), 1);
    for a in 0..4 {
        for b in (a + 1)..4 {
            let mut w = v;
            w.swap(a, b);
            assert_eq!(w.determinant(), -d);
        }
    }
    let degenerate = [[2, 3, 4, 1], [2, 3, 4, 1], [2, 3, 4, 1], [2, 3, 4, 1]];
    assert_eq!(degenerate.determinant(), 0);
}

#[test]
fn entries_at_the_limits_do_not_overflow() {
    let l2 = tec2hdf5::linalg::LIMIT_2X2;
    let m2: [[i64; 2]; 2] = [[l2, -l2], [l2, l2]];
    assert_eq!(m2.determinant(), 2 * l2 * l2);
    let l4 = tec2hdf5::linalg::LIMIT_4X4;
    let m4: [[i64; 4]; 4] = [[l4, l4, l4, l4], [l4, -l4, l4, -l4], [l4, l4, -l4, -l4], [l4, -l4, -l4, l4]];
    assert_eq!(m4.determinant(), 16 * l4 * l4 * l4 * l4);
}

#[test]
fn swapping_rows_of_a_3x3_matrix_negates_its_determinant() {
    let m: [[i64; 3]; 3] = [[6, 1, 1], [4, -2, 5], [2, 8, 7]];
    let mut s = m;
    s.swap(0, 2);
    assert_eq!(s.determinant(), 306);
    let equal: [[i64; 3]; 3] = [[1, 2, 3], [4, 5, 6], [1, 2, 3]];
    assert_eq!(equal.determinant(), 0);
}
