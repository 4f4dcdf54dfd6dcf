//! Reading a whitespace-separated list of integers.

use vstd::prelude::*;
use vstd::string::*;

verus! {

/// Why a text is not a list of integers.
#[derive(PartialEq, Eq, Structural, Debug, Clone, Copy)]
pub enum IntegerListError {
    /// The token that starts at byte `position` is not an `i64` in decimal.
    InvalidToken { position: usize },
}

/// An ASCII white space byte: tab, line feed, vertical tab, form feed,
/// carriage return or space.
pub open spec fn is_space(c: u8) -> bool {
    (9 <= c <= 13) || c == 32
}

/// The three-byte UTF-8 encodings of the white space characters U+1680,
/// U+2000 to U+200A, U+2028, U+2029, U+202F, U+205F and U+3000.
pub open spec fn is_space3(x: u8, y: u8, z: u8) -> bool {
    ||| (x == 0xE1 && y == 0x9A && z == 0x80)
    ||| (x == 0xE2 && y == 0x80 && ((0x80 <= z <= 0x8A) || z == 0xA8 || z == 0xA9 || z == 0xAF))
    ||| (x == 0xE2 && y == 0x81 && z == 0x9F)
    ||| (x == 0xE3 && y == 0x80 && z == 0x80)
}

/// The length in bytes of the white space character that starts at `i`, or
/// 0 if none does. White space is Unicode's White_Space property: the ASCII
/// white space bytes, U+0085 and U+00A0 (two bytes), and the three-byte
/// characters of [`is_space3`].
pub open spec fn space_len(b: Seq<u8>, i: int) -> int {
    if !(0 <= i < b.len()) {
        0
    } else if is_space(b[i]) {
        1
    } else if i + 1 < b.len() && b[i] == 0xC2 && (b[i + 1] == 0x85 || b[i + 1] == 0xA0) {
        2
    } else if i + 2 < b.len() && is_space3(b[i], b[i + 1], b[i + 2]) {
        3
    } else {
        0
    }
}

/// The first position from `i` that starts no white space character.
pub open spec fn skip_spaces(b: Seq<u8>, i: int) -> int
    decreases b.len() - i,
{
    if 0 <= i < b.len() && space_len(b, i) > 0 {
        skip_spaces(b, i + space_len(b, i))
    } else {
        i
    }
}

/// The first position from `i` that starts a white space character.
pub open spec fn token_end(b: Seq<u8>, i: int) -> int
    decreases b.len() - i,
{
    if 0 <= i < b.len() && space_len(b, i) == 0 {
        token_end(b, i + 1)
    } else {
        i
    }
}

/// The value of the decimal digits `b[s..e]`, or `None` if one is not a digit.
pub open spec fn decimal(b: Seq<u8>, s: int, e: int) -> Option<int>
    decreases e - s,
{
    if e <= s {
        Some(0)
    } else {
        match decimal(b, s, e - 1) {
            None => None,
            Some(v) => if 48 <= b[e - 1] <= 57 {
                Some(10 * v + (b[e - 1] - 48))
            } else {
                None
            },
        }
    }
}

/// The integer that the token `b[s..e]` writes: an optional `+` or `-`, then
/// at least one decimal digit, within the range of `i64`.
pub open spec fn token_value(b: Seq<u8>, s: int, e: int) -> Option<i64> {
    let neg = s < e && b[s] == 45;
    let start = if s < e && (b[s] == 45 || b[s] == 43) {
        s + 1
    } else {
        s
    };
    if start >= e {
        None
    } else {
        match decimal(b, start, e) {
            None => None,
            Some(v) => {
                let x = if neg {
                    -v
                } else {
                    v
                };
                if i64::MIN <= x <= i64::MAX {
                    Some(x as i64)
                } else {
                    None
                }
            },
        }
    }
}

/// The integers of the tokens from `i` on, appended to `acc`.
pub open spec fn integers_from(b: Seq<u8>, i: int, acc: Seq<i64>) -> Result<Seq<i64>, IntegerListError>
    decreases b.len() - i,
{
    let s = skip_spaces(b, i);
    if !(0 <= i <= s < b.len()) {
        Ok(acc)
    } else {
        let e = token_end(b, s);
        match token_value(b, s, e) {
            None => Err(IntegerListError::InvalidToken { position: s as usize }),
            Some(v) => if s < e <= b.len() {
                integers_from(b, e, acc.push(v))
            } else {
                Ok(acc)
            },
        }
    }
}

proof fn lemma_decimal_prefix(b: Seq<u8>, s: int, j: int, e: int)
    requires
        s <= j <= e,
        decimal(b, s, e) is Some,
    ensures
        decimal(b, s, j) is Some,
        0 <= decimal(b, s, j)->Some_0 <= decimal(b, s, e)->Some_0,
    decreases e - j,
{
    if j < e {
        lemma_decimal_prefix(b, s, j, e - 1);
        lemma_decimal_nonneg(b, s, e - 1);
    } else {
        lemma_decimal_nonneg(b, s, e);
    }
}

proof fn lemma_decimal_nonneg(b: Seq<u8>, s: int, e: int)
    requires
        decimal(b, s, e) is Some,
    ensures
        decimal(b, s, e)->Some_0 >= 0,
    decreases e - s,
{
    if s < e {
        lemma_decimal_nonneg(b, s, e - 1);
    }
}

fn space_len_exec(b: &[u8], i: usize) -> (r: usize)
    requires
        i <= b@.len(),
    ensures
        r == space_len(b@, i as int),
        i + r <= b@.len(),
{
    let n = b.len();
    if i >= n {
        return 0;
    }
    let x = b[i];
    if (9 <= x && x <= 13) || x == 32 {
        1
    } else if i + 1 < n && x == 0xC2 && (b[i + 1] == 0x85 || b[i + 1] == 0xA0) {
        2
    } else if n - i > 2 && ((x == 0xE1 && b[i + 1] == 0x9A && b[i + 2] == 0x80) || (x == 0xE2 && b[i + 1] == 0x80 && ((
    0x80 <= b[i + 2] && b[i + 2] <= 0x8A) || b[i + 2] == 0xA8 || b[i + 2] == 0xA9 || b[i + 2] == 0xAF)) || (x == 0xE2
        && b[i + 1] == 0x81 && b[i + 2] == 0x9F) || (x == 0xE3 && b[i + 1] == 0x80 && b[i + 2] == 0x80)) {
        3
    } else {
        0
    }
}

fn skip_spaces_exec(b: &[u8], i: usize) -> (r: usize)
    requires
        i <= b@.len(),
    ensures
        r == skip_spaces(b@, i as int),
        i <= r <= b@.len(),
{
    let n: usize = b.len();
    let mut j: usize = i;
    loop
        invariant
            n == b@.len(),
            i <= j <= b@.len(),
            skip_spaces(b@, i as int) == skip_spaces(b@, j as int),
        decreases b@.len() - j,
    {
        let k = space_len_exec(b, j);
        if k == 0 {
            return j;
        }
        j = j + k;
    }
}

fn token_end_exec(b: &[u8], i: usize) -> (r: usize)
    requires
        i <= b@.len(),
    ensures
        r == token_end(b@, i as int),
        i <= r <= b@.len(),
{
    let mut j: usize = i;
    while j < b.len() && space_len_exec(b, j) == 0
        invariant
            i <= j <= b@.len(),
            token_end(b@, i as int) == token_end(b@, j as int),
        decreases b@.len() - j,
    {
        j = j + 1;
    }
    j
}

/// The magnitude of `i64::MIN`.
const MIN_MAGNITUDE: u64 = 9223372036854775808;

fn token_value_exec(b: &[u8], s: usize, e: usize) -> (r: Option<i64>)
    requires
        s <= e <= b@.len(),
    ensures
        r == token_value(b@, s as int, e as int),
{
    let neg = s < e && b[s] == 45;
    let start = if s < e && (b[s] == 45 || b[s] == 43) {
        s + 1
    } else {
        s
    };
    if start >= e {
        return None;
    }
    let mut mag: u64 = 0;
    let mut j: usize = start;
    while j < e
        invariant
            start <= j <= e <= b@.len(),
            s <= start < e,
            neg == (s < e && b@[s as int] == 45),
            start == if s < e && (b@[s as int] == 45 || b@[s as int] == 43) {
                s + 1
            } else {
                s as int
            },
            decimal(b@, start as int, j as int) == Some(mag as int),
            mag <= MIN_MAGNITUDE,
        decreases e - j,
    {
        let c = b[j];
        if !(48 <= c && c <= 57) {
            proof {
                if decimal(b@, start as int, e as int) is Some {
                    lemma_decimal_prefix(b@, start as int, j + 1, e as int);
                }
            }
            return None;
        }
        let dig: u64 = (c - 48) as u64;
        if mag > (MIN_MAGNITUDE - dig) / 10 {
            proof {
                assert(10 * mag + dig > MIN_MAGNITUDE) by (nonlinear_arith)
                    requires
                        mag > (MIN_MAGNITUDE - dig) / 10,
                        dig <= 9,
                ;
                if decimal(b@, start as int, e as int) is Some {
                    lemma_decimal_prefix(b@, start as int, j + 1, e as int);
                }
            }
            return None;
        }
        assert(10 * mag + dig <= MIN_MAGNITUDE) by (nonlinear_arith)
            requires
                mag <= (MIN_MAGNITUDE - dig) / 10,
                dig <= 9,
        ;
        mag = 10 * mag + dig;
        j = j + 1;
    }
    if neg {
        if mag == MIN_MAGNITUDE {
            Some(i64::MIN)
        } else {
            Some(-(mag as i64))
        }
    } else if mag == MIN_MAGNITUDE {
        None
    } else {
        Some(mag as i64)
    }
}

/// Reads the whitespace-separated integers of `input`, in order.
///
/// Tokens are separated by white space characters (see [`space_len`]); each
/// token is an optional sign and decimal digits within the range of `i64`,
/// and the first token that is not is reported by its byte offset.
pub fn read_integers_from_input(input: &str) -> (r: Result<Vec<i64>, IntegerListError>)
    ensures
        match r {
            Ok(v) => integers_from(input.spec_bytes(), 0, seq![]) == Ok::<_, IntegerListError>(v@),
            Err(e) => integers_from(input.spec_bytes(), 0, seq![]) == Err::<Seq<i64>, _>(e),
        },
{
    let b: &[u8] = input.as_bytes();
    let mut v: Vec<i64> = Vec::new();
    let mut i: usize = 0;
    assert(v@ =~= seq![]);
    loop
        invariant
            i <= b@.len(),
            b@ == input.spec_bytes(),
            integers_from(b@, 0, seq![]) == integers_from(b@, i as int, v@),
        decreases b@.len() - i,
    {
        let s = skip_spaces_exec(b, i);
        if s >= b.len() {
            return Ok(v);
        }
        let e = token_end_exec(b, s);
        match token_value_exec(b, s, e) {
            None => {
                return Err(IntegerListError::InvalidToken { position: s });
            },
            Some(x) => {
                v.push(x);
                i = e;
            },
        }
    }
}

} // verus!
