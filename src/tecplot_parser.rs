//! The tecplot document grammar, as spec functions over the bytes of an
//! ASCII text, and the parser that follows it exactly.
//!
//! Each parsing step is a spec function that returns what it read (spans into
//! the text and integer values) and where it stopped, or the error and its
//! byte offset; the executable step of the same name with `_exec` returns the
//! same value.

use vstd::prelude::*;
use vstd::string::*;

use crate::document::{Document, FirstZone, Zone};

verus! {

broadcast use vstd::string::is_ascii_spec_bytes;

/// What went wrong at a [`ParseError`]'s position.
#[derive(PartialEq, Eq, Structural, Debug, Clone, Copy)]
pub enum ParseErrorKind {
    /// The text holds a character outside ASCII.
    NotAscii,
    /// `TITLE`, `VARIABLES` or `ZONE` was expected (after a zone body: a
    /// number, a zone or the end of the text).
    ExpectedKeyword,
    /// `=` was expected.
    ExpectedEquals,
    /// A quoted string was expected.
    ExpectedString,
    /// The variable list names fewer than the three coordinates.
    TooFewVariables,
    /// A quoted string has no closing quote.
    UnterminatedString,
    /// A zone header entry `KEY=VALUE` was expected after a comma.
    ExpectedEntry,
    /// A zone header value was expected after `=`.
    ExpectedValue,
    /// A parenthesised zone header value has no closing parenthesis.
    UnbalancedParenthesis,
    /// An unsigned integer was expected.
    ExpectedInteger,
    /// An unsigned integer does not fit in `usize`.
    IntegerTooLarge,
    /// A zone header has no title entry `T`.
    MissingTitle,
    /// A zone header has no vertex count entry `N`.
    MissingVertexCount,
    /// The first zone header has no element count entry `E`.
    MissingElementCount,
    /// Text follows what should end the input.
    UnexpectedText,
}

/// A parse failure: its kind and the byte offset at which it was found.
#[derive(PartialEq, Eq, Structural, Debug, Clone, Copy)]
pub struct ParseError {
    pub position: usize,
    pub kind: ParseErrorKind,
}

/// The parse failure of kind `kind` at `position`.
pub open spec fn err<T>(position: usize, kind: ParseErrorKind) -> Result<T, ParseError> {
    Err(ParseError { position, kind })
}

/// Space, tab, line feed or carriage return.
pub open spec fn is_ws(c: u8) -> bool {
    c == 32 || c == 9 || c == 10 || c == 13
}

pub open spec fn is_digit(c: u8) -> bool {
    48 <= c <= 57
}

/// An ASCII letter or an underscore.
pub open spec fn is_letter(c: u8) -> bool {
    (65 <= c <= 90) || (97 <= c <= 122) || c == 95
}

pub open spec fn is_ident_char(c: u8) -> bool {
    is_letter(c) || is_digit(c)
}

/// `+` or `-`.
pub open spec fn is_sign(c: u8) -> bool {
    c == 43 || c == 45
}

/// A byte that ends an unquoted zone header value.
pub open spec fn ends_bare(c: u8) -> bool {
    is_ws(c) || c == 44 || c == 61 || c == 40 || c == 41 || c == 34
}

/// The first position from `i` that holds no white space.
pub open spec fn skip_ws(b: Seq<u8>, i: int) -> int
    decreases b.len() - i,
{
    if 0 <= i < b.len() && is_ws(b[i]) {
        skip_ws(b, i + 1)
    } else {
        i
    }
}

/// The first position from `i` that holds no digit.
pub open spec fn scan_digits(b: Seq<u8>, i: int) -> int
    decreases b.len() - i,
{
    if 0 <= i < b.len() && is_digit(b[i]) {
        scan_digits(b, i + 1)
    } else {
        i
    }
}

/// The first position from `i` that holds no identifier character.
pub open spec fn scan_ident(b: Seq<u8>, i: int) -> int
    decreases b.len() - i,
{
    if 0 <= i < b.len() && is_ident_char(b[i]) {
        scan_ident(b, i + 1)
    } else {
        i
    }
}

/// The first position from `i` that holds white space.
pub open spec fn scan_word(b: Seq<u8>, i: int) -> int
    decreases b.len() - i,
{
    if 0 <= i < b.len() && !is_ws(b[i]) {
        scan_word(b, i + 1)
    } else {
        i
    }
}

/// The first position from `i` that ends an unquoted value.
pub open spec fn scan_bare(b: Seq<u8>, i: int) -> int
    decreases b.len() - i,
{
    if 0 <= i < b.len() && !ends_bare(b[i]) {
        scan_bare(b, i + 1)
    } else {
        i
    }
}

/// The first position from `i` that holds a double quote.
pub open spec fn scan_to_quote(b: Seq<u8>, i: int) -> int
    decreases b.len() - i,
{
    if 0 <= i < b.len() && b[i] != 34 {
        scan_to_quote(b, i + 1)
    } else {
        i
    }
}

fn skip_ws_exec(b: &[u8], i: usize) -> (r: usize)
    requires
        i <= b@.len(),
    ensures
        r == skip_ws(b@, i as int),
        i <= r <= b@.len(),
{
    let mut j: usize = i;
    while j < b.len() && (b[j] == 32 || b[j] == 9 || b[j] == 10 || b[j] == 13)
        invariant
            i <= j <= b@.len(),
            skip_ws(b@, i as int) == skip_ws(b@, j as int),
        decreases b@.len() - j,
    {
        j = j + 1;
    }
    j
}

fn scan_digits_exec(b: &[u8], i: usize) -> (r: usize)
    requires
        i <= b@.len(),
    ensures
        r == scan_digits(b@, i as int),
        i <= r <= b@.len(),
{
    let mut j: usize = i;
    while j < b.len() && 48 <= b[j] && b[j] <= 57
        invariant
            i <= j <= b@.len(),
            scan_digits(b@, i as int) == scan_digits(b@, j as int),
        decreases b@.len() - j,
    {
        j = j + 1;
    }
    j
}

fn scan_ident_exec(b: &[u8], i: usize) -> (r: usize)
    requires
        i <= b@.len(),
    ensures
        r == scan_ident(b@, i as int),
        i <= r <= b@.len(),
{
    let mut j: usize = i;
    while j < b.len() && ((65 <= b[j] && b[j] <= 90) || (97 <= b[j] && b[j] <= 122) || b[j] == 95 || (48 <= b[j]
        && b[j] <= 57))
        invariant
            i <= j <= b@.len(),
            scan_ident(b@, i as int) == scan_ident(b@, j as int),
        decreases b@.len() - j,
    {
        j = j + 1;
    }
    j
}

fn scan_word_exec(b: &[u8], i: usize) -> (r: usize)
    requires
        i <= b@.len(),
    ensures
        r == scan_word(b@, i as int),
        i <= r <= b@.len(),
{
    let mut j: usize = i;
    while j < b.len() && !(b[j] == 32 || b[j] == 9 || b[j] == 10 || b[j] == 13)
        invariant
            i <= j <= b@.len(),
            scan_word(b@, i as int) == scan_word(b@, j as int),
        decreases b@.len() - j,
    {
        j = j + 1;
    }
    j
}

fn scan_bare_exec(b: &[u8], i: usize) -> (r: usize)
    requires
        i <= b@.len(),
    ensures
        r == scan_bare(b@, i as int),
        i <= r <= b@.len(),
{
    let mut j: usize = i;
    while j < b.len() && !(b[j] == 32 || b[j] == 9 || b[j] == 10 || b[j] == 13 || b[j] == 44 || b[j] == 61 || b[j]
        == 40 || b[j] == 41 || b[j] == 34)
        invariant
            i <= j <= b@.len(),
            scan_bare(b@, i as int) == scan_bare(b@, j as int),
        decreases b@.len() - j,
    {
        j = j + 1;
    }
    j
}

fn scan_to_quote_exec(b: &[u8], i: usize) -> (r: usize)
    requires
        i <= b@.len(),
    ensures
        r == scan_to_quote(b@, i as int),
        i <= r <= b@.len(),
{
    let mut j: usize = i;
    while j < b.len() && b[j] != 34
        invariant
            i <= j <= b@.len(),
            scan_to_quote(b@, i as int) == scan_to_quote(b@, j as int),
        decreases b@.len() - j,
    {
        j = j + 1;
    }
    j
}

/// Whether `b[s..e]` is the word `w`.
pub open spec fn span_is(b: Seq<u8>, s: usize, e: usize, w: Seq<u8>) -> bool {
    s <= e <= b.len() && b.subrange(s as int, e as int) == w
}

fn span_is_exec(b: &[u8], s: usize, e: usize, w: &Vec<u8>) -> (r: bool)
    requires
        s <= e <= b@.len(),
    ensures
        r == span_is(b@, s, e, w@),
{
    if e - s != w.len() {
        proof {
            assert(b@.subrange(s as int, e as int).len() != w@.len());
        }
        return false;
    }
    let mut k: usize = 0;
    while k < w.len()
        invariant
            s <= e <= b@.len(),
            e - s == w@.len(),
            k <= w@.len(),
            forall|j: int| 0 <= j < k ==> b@[s + j] == w@[j],
        decreases w@.len() - k,
    {
        if b[s + k] != w[k] {
            proof {
                assert(b@.subrange(s as int, e as int)[k as int] != w@[k as int]);
            }
            return false;
        }
        k = k + 1;
    }
    assert(b@.subrange(s as int, e as int) =~= w@);
    true
}

/// Every span of `sps` lies within a text of `len` bytes.
pub open spec fn spans_in_bounds(sps: Seq<(usize, usize)>, len: nat) -> bool {
    forall|k: int| 0 <= k < sps.len() ==> (#[trigger] sps[k]).0 <= sps[k].1 <= len
}

/// `TITLE`
pub open spec fn kw_title() -> Seq<u8> {
    seq![84u8, 73u8, 84u8, 76u8, 69u8]
}

/// `VARIABLES`
pub open spec fn kw_variables() -> Seq<u8> {
    seq![86u8, 65u8, 82u8, 73u8, 65u8, 66u8, 76u8, 69u8, 83u8]
}

/// `ZONE`
pub open spec fn kw_zone() -> Seq<u8> {
    seq![90u8, 79u8, 78u8, 69u8]
}

/// The quoted string at `i`: its span, quotes included.
pub open spec fn quoted(b: Seq<u8>, i: usize) -> Result<(usize, usize), ParseError> {
    if !(i < b.len() && b[i as int] == 34) {
        err(i, ParseErrorKind::ExpectedString)
    } else {
        let q = scan_to_quote(b, i + 1);
        if q >= b.len() {
            err(i, ParseErrorKind::UnterminatedString)
        } else {
            Ok((i, (q + 1) as usize))
        }
    }
}

fn quoted_exec(b: &[u8], i: usize) -> (r: Result<(usize, usize), ParseError>)
    requires
        i <= b@.len(),
    ensures
        r == quoted(b@, i),
        r matches Ok(sp) ==> sp.0 == i < sp.1 <= b@.len(),
{
    if !(i < b.len() && b[i] == 34) {
        return Err(ParseError { position: i, kind: ParseErrorKind::ExpectedString });
    }
    let q = scan_to_quote_exec(b, i + 1);
    if q >= b.len() {
        Err(ParseError { position: i, kind: ParseErrorKind::UnterminatedString })
    } else {
        Ok((i, q + 1))
    }
}

/// The keyword `kw` at `i`, then `=`: the position of what follows.
pub open spec fn keyword_equals(b: Seq<u8>, i: usize, kw: Seq<u8>) -> Result<usize, ParseError> {
    let k = scan_ident(b, i as int);
    if !span_is(b, i, k as usize, kw) {
        err(i, ParseErrorKind::ExpectedKeyword)
    } else {
        let e = skip_ws(b, k);
        if !(e < b.len() && b[e] == 61) {
            err(e as usize, ParseErrorKind::ExpectedEquals)
        } else {
            Ok(skip_ws(b, e + 1) as usize)
        }
    }
}

fn keyword_equals_exec(b: &[u8], i: usize, kw: &Vec<u8>) -> (r: Result<usize, ParseError>)
    requires
        i <= b@.len(),
    ensures
        r == keyword_equals(b@, i, kw@),
        r matches Ok(p) ==> i < p <= b@.len(),
{
    let k = scan_ident_exec(b, i);
    if !span_is_exec(b, i, k, kw) {
        return Err(ParseError { position: i, kind: ParseErrorKind::ExpectedKeyword });
    }
    let e = skip_ws_exec(b, k);
    if !(e < b.len() && b[e] == 61) {
        Err(ParseError { position: e, kind: ParseErrorKind::ExpectedEquals })
    } else {
        Ok(skip_ws_exec(b, e + 1))
    }
}

/// `TITLE = "..."` at `i`: the span of the quoted title and the end.
pub open spec fn title(b: Seq<u8>, i: usize) -> Result<(usize, usize), ParseError> {
    match keyword_equals(b, i, kw_title()) {
        Err(e) => Err(e),
        Ok(p) => quoted(b, p),
    }
}

fn title_exec(b: &[u8], i: usize) -> (r: Result<(usize, usize), ParseError>)
    requires
        i <= b@.len(),
    ensures
        r == title(b@, i),
        r matches Ok(sp) ==> sp.0 < sp.1 <= b@.len() && i < sp.1,
{
    let kw: Vec<u8> = vec![84u8, 73u8, 84u8, 76u8, 69u8];
    assert(kw@ =~= kw_title());
    let p = keyword_equals_exec(b, i, &kw)?;
    quoted_exec(b, p)
}

/// The names of a variable list from `i` on, each after a comma, appended to
/// `acc`: the names and the end of the list.
pub open spec fn more_names(b: Seq<u8>, i: usize, acc: Seq<(usize, usize)>) -> Result<(Seq<(usize, usize)>, usize), ParseError>
    decreases b.len() - i,
{
    let p = skip_ws(b, i as int);
    if p < b.len() && b[p] == 44 {
        match quoted(b, skip_ws(b, p + 1) as usize) {
            Err(e) => Err(e),
            Ok(sp) => if i < sp.1 <= b.len() {
                more_names(b, sp.1, acc.push(sp))
            } else {
                Ok((acc, i))
            },
        }
    } else {
        Ok((acc, i))
    }
}

/// `VARIABLES = "...", "...", ...` at `i`, naming at least the three
/// coordinates: the spans of the names and the end.
pub open spec fn variables(b: Seq<u8>, i: usize) -> Result<(Seq<(usize, usize)>, usize), ParseError> {
    match keyword_equals(b, i, kw_variables()) {
        Err(e) => Err(e),
        Ok(p) => match quoted(b, p) {
            Err(e) => Err(e),
            Ok(sp) => match more_names(b, sp.1, seq![sp]) {
                Err(e) => Err(e),
                Ok((names, end)) => if names.len() < 3 {
                    err(i, ParseErrorKind::TooFewVariables)
                } else {
                    Ok((names, end))
                },
            },
        },
    }
}

fn variables_exec(b: &[u8], i: usize) -> (r: Result<(Vec<(usize, usize)>, usize), ParseError>)
    requires
        i <= b@.len(),
    ensures
        match r {
            Ok((names, end)) => {
                &&& variables(b@, i) == Ok::<_, ParseError>((names@, end))
                &&& i < end <= b@.len()
                &&& spans_in_bounds(names@, b@.len())
            },
            Err(e) => variables(b@, i) == Err::<(Seq<(usize, usize)>, usize), _>(e),
        },
{
    let kw: Vec<u8> = vec![86u8, 65u8, 82u8, 73u8, 65u8, 66u8, 76u8, 69u8, 83u8];
    assert(kw@ =~= kw_variables());
    let p = keyword_equals_exec(b, i, &kw)?;
    let first = quoted_exec(b, p)?;
    let mut names: Vec<(usize, usize)> = Vec::new();
    names.push(first);
    assert(names@ =~= seq![first]);
    let mut j: usize = first.1;
    loop
        invariant
            i < j <= b@.len(),
            more_names(b@, first.1, seq![first]) == more_names(b@, j, names@),
            variables(b@, i) == match more_names(b@, first.1, seq![first]) {
                Err(e) => Err(e),
                Ok((names, end)) => if names.len() < 3 {
                    err(i, ParseErrorKind::TooFewVariables)
                } else {
                    Ok((names, end))
                },
            },
            spans_in_bounds(names@, b@.len()),
        decreases b@.len() - j,
    {
        let p = skip_ws_exec(b, j);
        if p < b.len() && b[p] == 44 {
            let q = skip_ws_exec(b, p + 1);
            let sp = quoted_exec(b, q)?;
            names.push(sp);
            j = sp.1;
        } else {
            if names.len() < 3 {
                return Err(ParseError { position: i, kind: ParseErrorKind::TooFewVariables });
            }
            return Ok((names, j));
        }
    }
}

/// The kind of a zone header value.
#[derive(PartialEq, Eq, Structural, Debug, Clone, Copy)]
pub enum ValueKind {
    /// A quoted string.
    Quoted,
    /// A parenthesised group, such as `([1-3]=NODAL)`.
    Group,
    /// A run of other characters, such as `200` or `FEBLOCK`.
    Bare,
}

/// A zone header entry `KEY=VALUE`: the spans of the key and of the value.
#[derive(Debug, Clone, Copy)]
pub struct Entry {
    pub key: (usize, usize),
    pub kind: ValueKind,
    pub value: (usize, usize),
}

/// The end of the parenthesised group that is open to depth `depth` before
/// position `i`, or -1 when it does not close.
pub open spec fn group_end(b: Seq<u8>, i: int, depth: int) -> int
    decreases b.len() - i,
{
    if !(0 <= i < b.len()) {
        -1
    } else if b[i] == 40 {
        group_end(b, i + 1, depth + 1)
    } else if b[i] == 41 {
        if depth <= 1 {
            i + 1
        } else {
            group_end(b, i + 1, depth - 1)
        }
    } else {
        group_end(b, i + 1, depth)
    }
}

fn group_end_exec(b: &[u8], i: usize) -> (r: Option<usize>)
    requires
        i < b@.len(),
        b@[i as int] == 40,
    ensures
        match r {
            Some(e) => e == group_end(b@, i as int, 0) && i < e <= b@.len(),
            None => group_end(b@, i as int, 0) == -1,
        },
{
    let len: usize = b.len();
    let mut j: usize = i + 1;
    let mut depth: usize = 1;
    while j < len
        invariant
            len == b@.len(),
            i < j <= len,
            1 <= depth <= j - i,
            group_end(b@, i as int, 0) == group_end(b@, j as int, depth as int),
        decreases b@.len() - j,
    {
        if b[j] == 40 {
            depth = depth + 1;
        } else if b[j] == 41 {
            if depth <= 1 {
                return Some(j + 1);
            }
            depth = depth - 1;
        }
        j = j + 1;
    }
    None
}

/// The zone header value at `i`: its kind and span.
pub open spec fn value(b: Seq<u8>, i: usize) -> Result<(ValueKind, (usize, usize)), ParseError> {
    if i < b.len() && b[i as int] == 34 {
        match quoted(b, i) {
            Err(e) => Err(e),
            Ok(sp) => Ok((ValueKind::Quoted, sp)),
        }
    } else if i < b.len() && b[i as int] == 40 {
        let g = group_end(b, i as int, 0);
        if g < 0 {
            err(i, ParseErrorKind::UnbalancedParenthesis)
        } else {
            Ok((ValueKind::Group, (i, g as usize)))
        }
    } else {
        let e = scan_bare(b, i as int);
        if e <= i {
            err(i, ParseErrorKind::ExpectedValue)
        } else {
            Ok((ValueKind::Bare, (i, e as usize)))
        }
    }
}

fn value_exec(b: &[u8], i: usize) -> (r: Result<(ValueKind, (usize, usize)), ParseError>)
    requires
        i <= b@.len(),
    ensures
        r == value(b@, i),
        r matches Ok((_, sp)) ==> sp.0 == i < sp.1 <= b@.len(),
{
    if i < b.len() && b[i] == 34 {
        let sp = quoted_exec(b, i)?;
        Ok((ValueKind::Quoted, sp))
    } else if i < b.len() && b[i] == 40 {
        match group_end_exec(b, i) {
            None => Err(ParseError { position: i, kind: ParseErrorKind::UnbalancedParenthesis }),
            Some(g) => Ok((ValueKind::Group, (i, g))),
        }
    } else {
        let e = scan_bare_exec(b, i);
        if e <= i {
            Err(ParseError { position: i, kind: ParseErrorKind::ExpectedValue })
        } else {
            Ok((ValueKind::Bare, (i, e)))
        }
    }
}

/// The span of the value of `en` lies in `b`.
pub open spec fn value_in_bounds(b: Seq<u8>, en: Entry) -> bool {
    en.value.0 <= en.value.1 <= b.len()
}

/// The zone header entry that follows `i`, if any, and the end of its value.
///
/// Entries are separated by white space or by a comma; an entry starts with
/// a key (a letter, then letters and digits) followed by `=`.
pub open spec fn entry(b: Seq<u8>, i: usize) -> Result<Option<(Entry, usize)>, ParseError> {
    let p = skip_ws(b, i as int);
    let comma = p < b.len() && b[p] == 44;
    let p2 = if comma {
        skip_ws(b, p + 1)
    } else {
        p
    };
    let k = scan_ident(b, p2);
    let e = skip_ws(b, k);
    if p2 < b.len() && is_letter(b[p2]) && e < b.len() && b[e] == 61 {
        match value(b, skip_ws(b, e + 1) as usize) {
            Err(x) => Err(x),
            Ok((kind, sp)) => Ok(Some((Entry { key: (p2 as usize, k as usize), kind, value: sp }, sp.1))),
        }
    } else if comma {
        err(p2 as usize, ParseErrorKind::ExpectedEntry)
    } else {
        Ok(None)
    }
}

fn entry_exec(b: &[u8], i: usize) -> (r: Result<Option<(Entry, usize)>, ParseError>)
    requires
        i <= b@.len(),
    ensures
        r == entry(b@, i),
        r matches Ok(Some((en, n))) ==> i < n <= b@.len() && value_in_bounds(b@, en),
{
    let p = skip_ws_exec(b, i);
    let comma = p < b.len() && b[p] == 44;
    let p2 = if comma {
        skip_ws_exec(b, p + 1)
    } else {
        p
    };
    let k = scan_ident_exec(b, p2);
    let e = skip_ws_exec(b, k);
    if p2 < b.len() && ((65 <= b[p2] && b[p2] <= 90) || (97 <= b[p2] && b[p2] <= 122) || b[p2] == 95) && e < b.len()
        && b[e] == 61 {
        let v = skip_ws_exec(b, e + 1);
        let (kind, sp) = value_exec(b, v)?;
        Ok(Some((Entry { key: (p2, k), kind, value: sp }, sp.1)))
    } else if comma {
        Err(ParseError { position: p2, kind: ParseErrorKind::ExpectedEntry })
    } else {
        Ok(None)
    }
}

/// The zone header entries from `i` on, appended to `acc`, and the end of
/// the header.
pub open spec fn entries(b: Seq<u8>, i: usize, acc: Seq<Entry>) -> Result<(Seq<Entry>, usize), ParseError>
    decreases b.len() - i,
{
    match entry(b, i) {
        Err(e) => Err(e),
        Ok(None) => Ok((acc, i)),
        Ok(Some((en, n))) => if i < n <= b.len() {
            entries(b, n, acc.push(en))
        } else {
            Ok((acc, i))
        },
    }
}

fn entries_exec(b: &[u8], i: usize) -> (r: Result<(Vec<Entry>, usize), ParseError>)
    requires
        i <= b@.len(),
    ensures
        match r {
            Ok((es, end)) => {
                &&& entries(b@, i, seq![]) == Ok::<_, ParseError>((es@, end))
                &&& i <= end <= b@.len()
                &&& forall|k: int| 0 <= k < es@.len() ==> value_in_bounds(b@, #[trigger] es@[k])
            },
            Err(e) => entries(b@, i, seq![]) == Err::<(Seq<Entry>, usize), _>(e),
        },
{
    let mut es: Vec<Entry> = Vec::new();
    let mut j: usize = i;
    assert(es@ =~= seq![]);
    loop
        invariant
            i <= j <= b@.len(),
            entries(b@, i, seq![]) == entries(b@, j, es@),
            forall|k: int| 0 <= k < es@.len() ==> value_in_bounds(b@, #[trigger] es@[k]),
        decreases b@.len() - j,
    {
        match entry_exec(b, j)? {
            None => {
                return Ok((es, j));
            },
            Some((en, n)) => {
                es.push(en);
                j = n;
            },
        }
    }
}

/// The first of the entries `es[k..]` whose key is the single letter `key`.
pub open spec fn find_key(b: Seq<u8>, es: Seq<Entry>, key: u8, k: int) -> Option<Entry>
    decreases es.len() - k,
{
    if 0 <= k < es.len() {
        let e = es[k];
        if e.key.1 == e.key.0 + 1 && e.key.0 < b.len() && b[e.key.0 as int] == key {
            Some(e)
        } else {
            find_key(b, es, key, k + 1)
        }
    } else {
        None
    }
}

fn find_key_exec(b: &[u8], es: &Vec<Entry>, key: u8) -> (r: Option<Entry>)
    requires
        forall|k: int| 0 <= k < es@.len() ==> value_in_bounds(b@, #[trigger] es@[k]),
    ensures
        r == find_key(b@, es@, key, 0),
        r matches Some(en) ==> value_in_bounds(b@, en),
{
    let mut k: usize = 0;
    while k < es.len()
        invariant
            k <= es@.len(),
            find_key(b@, es@, key, 0) == find_key(b@, es@, key, k as int),
            forall|k: int| 0 <= k < es@.len() ==> value_in_bounds(b@, #[trigger] es@[k]),
        decreases es@.len() - k,
    {
        let e = es[k];
        if e.key.0 < b.len() && e.key.1 == e.key.0 + 1 && b[e.key.0] == key {
            return Some(e);
        }
        k = k + 1;
    }
    None
}

/// The value of the decimal digits `b[s..e]`.
pub open spec fn digits_value(b: Seq<u8>, s: int, e: int) -> int
    decreases e - s,
{
    if e <= s {
        0
    } else {
        10 * digits_value(b, s, e - 1) + (b[e - 1] - 48)
    }
}

/// A longer run of digits has at least the value of its prefix.
proof fn lemma_digits_value_grows(b: Seq<u8>, s: int, j: int, e: int)
    requires
        s <= j <= e <= b.len(),
        forall|k: int| s <= k < e ==> is_digit(#[trigger] b[k]),
    ensures
        digits_value(b, s, j) <= digits_value(b, s, e),
    decreases e - j,
{
    if j < e {
        lemma_digits_value_grows(b, s, j, e - 1);
        assert(digits_value(b, s, e - 1) >= 0) by {
            lemma_digits_value_nonneg(b, s, e - 1);
        }
    }
}

proof fn lemma_digits_value_nonneg(b: Seq<u8>, s: int, e: int)
    requires
        s <= e <= b.len(),
        forall|k: int| s <= k < e ==> is_digit(#[trigger] b[k]),
    ensures
        digits_value(b, s, e) >= 0,
    decreases e - s,
{
    if s < e {
        lemma_digits_value_nonneg(b, s, e - 1);
    }
}

proof fn lemma_scan_digits_all(b: Seq<u8>, i: int, k: int)
    requires
        0 <= i <= k < scan_digits(b, i),
    ensures
        is_digit(b[k]),
    decreases k - i,
{
    if i < k {
        lemma_scan_digits_all(b, i + 1, k);
    }
}

/// The unsigned integer `b[s..e]`.
pub open spec fn unsigned(b: Seq<u8>, s: usize, e: usize) -> Result<usize, ParseError> {
    if !(s < e && scan_digits(b, s as int) == e) {
        err(s, ParseErrorKind::ExpectedInteger)
    } else if digits_value(b, s as int, e as int) > usize::MAX {
        err(s, ParseErrorKind::IntegerTooLarge)
    } else {
        Ok(digits_value(b, s as int, e as int) as usize)
    }
}

fn unsigned_exec(b: &[u8], s: usize, e: usize) -> (r: Result<usize, ParseError>)
    requires
        s <= e <= b@.len(),
    ensures
        r == unsigned(b@, s, e),
{
    let d = scan_digits_exec(b, s);
    if !(s < e && d == e) {
        return Err(ParseError { position: s, kind: ParseErrorKind::ExpectedInteger });
    }
    proof {
        assert forall|k: int| s <= k < e implies is_digit(#[trigger] b@[k]) by {
            lemma_scan_digits_all(b@, s as int, k);
        }
    }
    let mut v: usize = 0;
    let mut j: usize = s;
    while j < e
        invariant
            s <= j <= e <= b@.len(),
            s < e,
            scan_digits(b@, s as int) == e,
            forall|k: int| s <= k < e ==> is_digit(#[trigger] b@[k]),
            v == digits_value(b@, s as int, j as int),
        decreases e - j,
    {
        let dig: usize = (b[j] - 48) as usize;
        if v > (usize::MAX - dig) / 10 {
            proof {
                assert(10 * v + dig > usize::MAX) by (nonlinear_arith)
                    requires
                        v > (usize::MAX - dig) / 10,
                        dig <= 9,
                ;
                assert(digits_value(b@, s as int, j + 1) == 10 * v + dig);
                lemma_digits_value_grows(b@, s as int, j + 1, e as int);
            }
            return Err(ParseError { position: s, kind: ParseErrorKind::IntegerTooLarge });
        }
        assert(10 * v + dig <= usize::MAX) by (nonlinear_arith)
            requires
                v <= (usize::MAX - dig) / 10,
                dig <= 9,
        ;
        v = 10 * v + dig;
        j = j + 1;
    }
    Ok(v)
}

/// The end of the floating-point literal that starts at `p`, or -1 when none
/// does: an optional sign, digits with at most one decimal point (at least
/// one digit in all), then optionally `e` or `E`, an optional sign and digits.
pub open spec fn float_end(b: Seq<u8>, p: int) -> int {
    let i0 = if p < b.len() && is_sign(b[p]) {
        p + 1
    } else {
        p
    };
    let i1 = scan_digits(b, i0);
    let dot = i1 < b.len() && b[i1] == 46;
    let i2 = if dot {
        scan_digits(b, i1 + 1)
    } else {
        i1
    };
    let mantissa_digits = (i1 - i0) + if dot {
        i2 - (i1 + 1)
    } else {
        0
    };
    if mantissa_digits == 0 {
        -1
    } else if i2 < b.len() && (b[i2] == 101 || b[i2] == 69) {
        let k0 = i2 + 1;
        let k1 = if k0 < b.len() && is_sign(b[k0]) {
            k0 + 1
        } else {
            k0
        };
        let k2 = scan_digits(b, k1);
        if k2 > k1 {
            k2
        } else {
            -1
        }
    } else {
        i2
    }
}

fn float_end_exec(b: &[u8], p: usize) -> (r: Option<usize>)
    requires
        p <= b@.len(),
    ensures
        match r {
            Some(e) => e == float_end(b@, p as int),
            None => float_end(b@, p as int) == -1,
        },
{
    let i0 = if p < b.len() && (b[p] == 43 || b[p] == 45) {
        p + 1
    } else {
        p
    };
    let i1 = scan_digits_exec(b, i0);
    let dot = i1 < b.len() && b[i1] == 46;
    let i2 = if dot {
        scan_digits_exec(b, i1 + 1)
    } else {
        i1
    };
    let mantissa_digits: usize = (i1 - i0) + if dot {
        i2 - (i1 + 1)
    } else {
        0
    };
    if mantissa_digits == 0 {
        None
    } else if i2 < b.len() && (b[i2] == 101 || b[i2] == 69) {
        let k0 = i2 + 1;
        let k1 = if k0 < b.len() && (b[k0] == 43 || b[k0] == 45) {
            k0 + 1
        } else {
            k0
        };
        let k2 = scan_digits_exec(b, k1);
        if k2 > k1 {
            Some(k2)
        } else {
            None
        }
    } else {
        Some(i2)
    }
}

/// The number tokens of a zone body from `i` on, appended to the float
/// spans `fl` and the integers `il`, and the end of the body.
///
/// Tokens are separated by white space. Where `ints` holds, a token of
/// digits alone is an integer; every other token that is a floating-point
/// literal is a float. The body ends at the first token that is neither.
pub open spec fn body(b: Seq<u8>, i: int, ints: bool, fl: Seq<(usize, usize)>, il: Seq<usize>) -> Result<
    (Seq<(usize, usize)>, Seq<usize>, usize),
    ParseError,
>
    decreases b.len() - i,
{
    let p = skip_ws(b, i);
    if p >= b.len() {
        Ok((fl, il, p as usize))
    } else {
        let q = scan_word(b, p);
        if !(i <= p < q <= b.len()) {
            Ok((fl, il, p as usize))
        } else if ints && scan_digits(b, p) == q {
            match unsigned(b, p as usize, q as usize) {
                Err(e) => Err(e),
                Ok(v) => body(b, q, ints, fl, il.push(v)),
            }
        } else if float_end(b, p) == q {
            body(b, q, ints, fl.push((p as usize, q as usize)), il)
        } else {
            Ok((fl, il, p as usize))
        }
    }
}

fn body_exec(b: &[u8], i: usize, ints: bool) -> (r: Result<(Vec<(usize, usize)>, Vec<usize>, usize), ParseError>)
    requires
        i <= b@.len(),
    ensures
        match r {
            Ok((fl, il, end)) => {
                &&& body(b@, i as int, ints, seq![], seq![]) == Ok::<_, ParseError>((fl@, il@, end))
                &&& i <= end <= b@.len()
                &&& spans_in_bounds(fl@, b@.len())
            },
            Err(e) => body(b@, i as int, ints, seq![], seq![]) == Err::<(Seq<(usize, usize)>, Seq<usize>, usize), _>(e),
        },
{
    let mut fl: Vec<(usize, usize)> = Vec::new();
    let mut il: Vec<usize> = Vec::new();
    let mut j: usize = i;
    assert(fl@ =~= seq![]);
    assert(il@ =~= seq![]);
    loop
        invariant
            i <= j <= b@.len(),
            body(b@, i as int, ints, seq![], seq![]) == body(b@, j as int, ints, fl@, il@),
            spans_in_bounds(fl@, b@.len()),
        decreases b@.len() - j,
    {
        let p = skip_ws_exec(b, j);
        if p >= b.len() {
            return Ok((fl, il, p));
        }
        let q = scan_word_exec(b, p);
        if !(p < q) {
            return Ok((fl, il, p));
        }
        let d = scan_digits_exec(b, p);
        if ints && d == q {
            let v = unsigned_exec(b, p, q)?;
            il.push(v);
            j = q;
        } else {
            match float_end_exec(b, p) {
                Some(f) if f == q => {
                    fl.push((p, q));
                    j = q;
                },
                _ => {
                    return Ok((fl, il, p));
                },
            }
        }
    }
}

/// The syntax of a zone: spans into the text and the values read.
pub struct ZoneSyntax {
    /// The span of the quoted title.
    pub title: (usize, usize),
    pub no_of_vertices: usize,
    pub no_of_elements: usize,
    /// The spans of the float tokens.
    pub floats: Seq<(usize, usize)>,
    /// The integer tokens.
    pub integers: Seq<usize>,
}

/// The unsigned integer value of entry `en`, which must be unquoted.
pub open spec fn entry_unsigned(b: Seq<u8>, en: Entry) -> Result<usize, ParseError> {
    unsigned(b, en.value.0, en.value.1)
}

/// The zone at `i` and its end. `first` tells the first zone, whose header
/// must give `E` and whose body may hold integers.
///
/// The header is `ZONE` and its entries; `T` must be a quoted title and `N`
/// and `E` unsigned integers; a later zone without `E` has no elements.
pub open spec fn zone(b: Seq<u8>, i: usize, first: bool) -> Result<(ZoneSyntax, usize), ParseError> {
    let k = scan_ident(b, i as int);
    if !span_is(b, i, k as usize, kw_zone()) {
        err(i, ParseErrorKind::ExpectedKeyword)
    } else {
        match entries(b, k as usize, seq![]) {
            Err(e) => Err(e),
            Ok((es, h)) => match find_key(b, es, 84, 0) {
                None => err(i, ParseErrorKind::MissingTitle),
                Some(t) => if t.kind != ValueKind::Quoted {
                    err(t.value.0, ParseErrorKind::ExpectedString)
                } else {
                    match find_key(b, es, 78, 0) {
                        None => err(i, ParseErrorKind::MissingVertexCount),
                        Some(n) => match entry_unsigned(b, n) {
                            Err(e) => Err(e),
                            Ok(nvert) => match find_key(b, es, 69, 0) {
                                None => if first {
                                    err(i, ParseErrorKind::MissingElementCount)
                                } else {
                                    zone_body(b, h, first, t.value, nvert, 0)
                                },
                                Some(m) => match entry_unsigned(b, m) {
                                    Err(e) => Err(e),
                                    Ok(nelem) => zone_body(b, h, first, t.value, nvert, nelem),
                                },
                            },
                        },
                    }
                },
            },
        }
    }
}

/// The zone whose header ends at `h`, with the values read from the header.
pub open spec fn zone_body(b: Seq<u8>, h: usize, first: bool, title: (usize, usize), nvert: usize, nelem: usize) -> Result<
    (ZoneSyntax, usize),
    ParseError,
> {
    match body(b, h as int, first, seq![], seq![]) {
        Err(e) => Err(e),
        Ok((fl, il, end)) => Ok(
            (
                ZoneSyntax { title, no_of_vertices: nvert, no_of_elements: nelem, floats: fl, integers: il },
                end,
            ),
        ),
    }
}

/// A zone as the parser returns it, before the text of its tokens is taken.
pub struct ZoneSpans {
    pub title: (usize, usize),
    pub no_of_vertices: usize,
    pub no_of_elements: usize,
    pub floats: Vec<(usize, usize)>,
    pub integers: Vec<usize>,
}

/// `z` holds what `syn` describes.
pub open spec fn spans_match(z: ZoneSpans, syn: ZoneSyntax) -> bool {
    &&& z.title == syn.title
    &&& z.no_of_vertices == syn.no_of_vertices
    &&& z.no_of_elements == syn.no_of_elements
    &&& z.floats@ == syn.floats
    &&& z.integers@ == syn.integers
}

/// Every span of `z` lies within a text of `len` bytes.
pub open spec fn zone_in_bounds(z: ZoneSpans, len: nat) -> bool {
    z.title.0 <= z.title.1 <= len && spans_in_bounds(z.floats@, len)
}

fn zone_exec(b: &[u8], i: usize, first: bool) -> (r: Result<(ZoneSpans, usize), ParseError>)
    requires
        i <= b@.len(),
    ensures
        match r {
            Ok((z, end)) => {
                &&& zone(b@, i, first) matches Ok((syn, e)) && spans_match(z, syn) && e == end
                &&& i < end <= b@.len()
                &&& zone_in_bounds(z, b@.len())
            },
            Err(e) => zone(b@, i, first) == Err::<(ZoneSyntax, usize), _>(e),
        },
{
    let kw: Vec<u8> = vec![90u8, 79u8, 78u8, 69u8];
    assert(kw@ =~= kw_zone());
    let k = scan_ident_exec(b, i);
    if !span_is_exec(b, i, k, &kw) {
        return Err(ParseError { position: i, kind: ParseErrorKind::ExpectedKeyword });
    }
    assert(k == i + 4);
    let (es, h) = entries_exec(b, k)?;
    let t = match find_key_exec(b, &es, 84) {
        None => {
            return Err(ParseError { position: i, kind: ParseErrorKind::MissingTitle });
        },
        Some(t) => t,
    };
    match t.kind {
        ValueKind::Quoted => {},
        _ => {
            return Err(ParseError { position: t.value.0, kind: ParseErrorKind::ExpectedString });
        },
    }
    let n = match find_key_exec(b, &es, 78) {
        None => {
            return Err(ParseError { position: i, kind: ParseErrorKind::MissingVertexCount });
        },
        Some(n) => n,
    };
    let nvert = unsigned_exec(b, n.value.0, n.value.1)?;
    let nelem = match find_key_exec(b, &es, 69) {
        None => {
            if first {
                return Err(ParseError { position: i, kind: ParseErrorKind::MissingElementCount });
            }
            0
        },
        Some(m) => unsigned_exec(b, m.value.0, m.value.1)?,
    };
    let (fl, il, end) = body_exec(b, h, first)?;
    Ok((ZoneSpans { title: t.value, no_of_vertices: nvert, no_of_elements: nelem, floats: fl, integers: il }, end))
}

/// The zones after the first one, from `i` on, appended to `acc`.
pub open spec fn later_zones(b: Seq<u8>, i: usize, acc: Seq<ZoneSyntax>) -> Result<Seq<ZoneSyntax>, ParseError>
    decreases b.len() - i,
{
    if i >= b.len() {
        Ok(acc)
    } else {
        match zone(b, i, false) {
            Err(e) => Err(e),
            Ok((z, n)) => if i < n <= b.len() {
                later_zones(b, n, acc.push(z))
            } else {
                Ok(acc)
            },
        }
    }
}

/// The syntax of a document: spans into the text and the values read.
pub struct DocumentSyntax {
    pub title: (usize, usize),
    pub variables: Seq<(usize, usize)>,
    pub first_zone: ZoneSyntax,
    pub zones: Seq<ZoneSyntax>,
}

/// The document that the bytes `b` hold: `TITLE = "..."`, then
/// `VARIABLES = "...", ...`, then one zone or more, with white space
/// allowed around each part.
pub open spec fn document(b: Seq<u8>) -> Result<DocumentSyntax, ParseError> {
    match title(b, skip_ws(b, 0) as usize) {
        Err(e) => Err(e),
        Ok(ts) => match variables(b, skip_ws(b, ts.1 as int) as usize) {
            Err(e) => Err(e),
            Ok((vs, ve)) => match zone(b, skip_ws(b, ve as int) as usize, true) {
                Err(e) => Err(e),
                Ok((fz, ze)) => match later_zones(b, ze, seq![]) {
                    Err(e) => Err(e),
                    Ok(zs) => Ok(DocumentSyntax { title: ts, variables: vs, first_zone: fz, zones: zs }),
                },
            },
        },
    }
}

fn later_zones_exec(b: &[u8], i: usize) -> (r: Result<Vec<ZoneSpans>, ParseError>)
    requires
        i <= b@.len(),
    ensures
        match r {
            Ok(zs) => later_zones(b@, i, seq![]) matches Ok(syn) && syn.len() == zs@.len() && forall|k: int|
                0 <= k < zs@.len() ==> spans_match(#[trigger] zs@[k], syn[k]) && zone_in_bounds(zs@[k], b@.len()),
            Err(e) => later_zones(b@, i, seq![]) == Err::<Seq<ZoneSyntax>, _>(e),
        },
{
    let mut zs: Vec<ZoneSpans> = Vec::new();
    let ghost mut syn: Seq<ZoneSyntax> = seq![];
    let mut j: usize = i;
    loop
        invariant
            i <= j <= b@.len(),
            later_zones(b@, i, seq![]) == later_zones(b@, j, syn),
            syn.len() == zs@.len(),
            forall|k: int|
                0 <= k < zs@.len() ==> spans_match(#[trigger] zs@[k], syn[k]) && zone_in_bounds(zs@[k], b@.len()),
        decreases b@.len() - j,
    {
        if j >= b.len() {
            return Ok(zs);
        }
        let (z, n) = zone_exec(b, j, false)?;
        proof {
            let zsyn = zone(b@, j, false)->Ok_0.0;
            syn = syn.push(zsyn);
        }
        zs.push(z);
        j = n;
    }
}

/// A document as the parser finds it, before the text of its tokens is taken.
struct DocumentSpans {
    title: (usize, usize),
    variables: Vec<(usize, usize)>,
    first_zone: ZoneSpans,
    zones: Vec<ZoneSpans>,
}

fn document_exec(b: &[u8]) -> (r: Result<DocumentSpans, ParseError>)
    ensures
        match r {
            Ok(d) => {
                &&& document(b@) matches Ok(syn) && {
                    &&& d.title == syn.title
                    &&& d.variables@ == syn.variables
                    &&& spans_match(d.first_zone, syn.first_zone)
                    &&& syn.zones.len() == d.zones@.len()
                    &&& forall|k: int| 0 <= k < d.zones@.len() ==> spans_match(#[trigger] d.zones@[k], syn.zones[k])
                }
                &&& d.title.0 <= d.title.1 <= b@.len()
                &&& spans_in_bounds(d.variables@, b@.len())
                &&& zone_in_bounds(d.first_zone, b@.len())
                &&& forall|k: int| 0 <= k < d.zones@.len() ==> zone_in_bounds(#[trigger] d.zones@[k], b@.len())
            },
            Err(e) => document(b@) == Err::<DocumentSyntax, _>(e),
        },
{
    let p0 = skip_ws_exec(b, 0);
    let ts = title_exec(b, p0)?;
    let p1 = skip_ws_exec(b, ts.1);
    let (vs, ve) = variables_exec(b, p1)?;
    let p2 = skip_ws_exec(b, ve);
    let (fz, ze) = zone_exec(b, p2, true)?;
    let zs = later_zones_exec(b, ze)?;
    Ok(DocumentSpans { title: ts, variables: vs, first_zone: fz, zones: zs })
}

/// The bytes of an ASCII text.
pub open spec fn ascii_bytes(t: Seq<char>) -> Seq<u8> {
    Seq::new(t.len(), |i: int| t[i] as u8)
}

/// The text that the span `sp` covers.
pub open spec fn text_of(t: Seq<char>, sp: (usize, usize)) -> Seq<char> {
    t.subrange(sp.0 as int, sp.1 as int)
}

/// `ss` holds the texts of the spans `sps`, in order.
pub open spec fn texts_match(ss: Seq<String>, sps: Seq<(usize, usize)>, t: Seq<char>) -> bool {
    &&& ss.len() == sps.len()
    &&& forall|k: int| 0 <= k < ss.len() ==> (#[trigger] ss[k])@ == text_of(t, sps[k])
}

/// `z` is the first zone that `syn` describes in the text `t`.
pub open spec fn first_zone_matches(z: FirstZone<String>, syn: ZoneSyntax, t: Seq<char>) -> bool {
    &&& z.title@ == text_of(t, syn.title)
    &&& z.no_of_vertices == syn.no_of_vertices
    &&& z.no_of_elements == syn.no_of_elements
    &&& texts_match(z.float_list@, syn.floats, t)
    &&& z.integer_list@ == syn.integers
}

/// `z` is the later zone that `syn` describes in the text `t`.
pub open spec fn zone_matches(z: Zone<String>, syn: ZoneSyntax, t: Seq<char>) -> bool {
    &&& z.title@ == text_of(t, syn.title)
    &&& z.no_of_vertices == syn.no_of_vertices
    &&& z.no_of_elements == syn.no_of_elements
    &&& texts_match(z.float_list@, syn.floats, t)
}

/// `doc` is the document that `syn` describes in the text `t`; it has no
/// list of later zones when there are none.
pub open spec fn document_matches(doc: Document<String>, syn: DocumentSyntax, t: Seq<char>) -> bool {
    &&& doc.title@ == text_of(t, syn.title)
    &&& texts_match(doc.variables@, syn.variables, t)
    &&& first_zone_matches(doc.first_zone, syn.first_zone, t)
    &&& (doc.zones is None <==> syn.zones.len() == 0)
    &&& doc.later_zones().len() == syn.zones.len()
    &&& forall|k: int| 0 <= k < syn.zones.len() ==> zone_matches(#[trigger] doc.later_zones()[k], syn.zones[k], t)
}

fn span_text(text: &str, sp: (usize, usize)) -> (r: String)
    requires
        text.is_ascii(),
        sp.0 <= sp.1 <= text@.len(),
    ensures
        r@ == text_of(text@, sp),
{
    text.substring_ascii(sp.0, sp.1).to_owned()
}

fn span_texts(text: &str, sps: &Vec<(usize, usize)>) -> (r: Vec<String>)
    requires
        text.is_ascii(),
        spans_in_bounds(sps@, text@.len()),
    ensures
        texts_match(r@, sps@, text@),
{
    let mut r: Vec<String> = Vec::new();
    let mut k: usize = 0;
    while k < sps.len()
        invariant
            text.is_ascii(),
            spans_in_bounds(sps@, text@.len()),
            k <= sps@.len(),
            r@.len() == k,
            forall|j: int| 0 <= j < k ==> (#[trigger] r@[j])@ == text_of(text@, sps@[j]),
        decreases sps@.len() - k,
    {
        r.push(span_text(text, sps[k]));
        k = k + 1;
    }
    r
}

/// Parses a tecplot document.
///
/// The text must be ASCII; the grammar is [`document`] over its bytes.
/// Titles and names keep their quotes, and float tokens are returned as
/// their text.
pub fn parse_document(text: &str) -> (r: Result<Document<String>, ParseError>)
    ensures
        match r {
            Ok(doc) => text.is_ascii() && (document(ascii_bytes(text@)) matches Ok(syn) && document_matches(
                doc,
                syn,
                text@,
            )),
            Err(e) => if text.is_ascii() {
                document(ascii_bytes(text@)) == Err::<DocumentSyntax, _>(e)
            } else {
                e == ParseError { position: 0, kind: ParseErrorKind::NotAscii }
            },
        },
{
    if !text.is_ascii() {
        return Err(ParseError { position: 0, kind: ParseErrorKind::NotAscii });
    }
    let b: &[u8] = text.as_bytes();
    assert(b@ == ascii_bytes(text@));
    let d = document_exec(b)?;
    let ghost syn = document(b@)->Ok_0;
    let fz = &d.first_zone;
    let first_zone = FirstZone {
        title: span_text(text, fz.title),
        no_of_vertices: fz.no_of_vertices,
        no_of_elements: fz.no_of_elements,
        float_list: span_texts(text, &fz.floats),
        integer_list: fz.integers.clone(),
    };
    assert(first_zone.integer_list@ == fz.integers@);
    let mut zones: Vec<Zone<String>> = Vec::new();
    let mut k: usize = 0;
    while k < d.zones.len()
        invariant
            text.is_ascii(),
            b@ == ascii_bytes(text@),
            syn.zones.len() == d.zones@.len(),
            forall|j: int| 0 <= j < d.zones@.len() ==> spans_match(#[trigger] d.zones@[j], syn.zones[j]),
            forall|j: int| 0 <= j < d.zones@.len() ==> zone_in_bounds(#[trigger] d.zones@[j], b@.len()),
            k <= d.zones@.len(),
            zones@.len() == k,
            forall|j: int| 0 <= j < k ==> zone_matches(#[trigger] zones@[j], syn.zones[j], text@),
        decreases d.zones@.len() - k,
    {
        let z = &d.zones[k];
        assert(zone_in_bounds(d.zones@[k as int], b@.len()));
        zones.push(
            Zone {
                title: span_text(text, z.title),
                no_of_vertices: z.no_of_vertices,
                no_of_elements: z.no_of_elements,
                float_list: span_texts(text, &z.floats),
            },
        );
        k = k + 1;
    }
    let doc = Document {
        title: span_text(text, d.title),
        variables: span_texts(text, &d.variables),
        first_zone,
        zones: if zones.len() == 0 {
            None
        } else {
            Some(zones)
        },
    };
    Ok(doc)
}

/// The title line alone, with nothing but white space around it.
pub open spec fn title_only(b: Seq<u8>) -> Result<(usize, usize), ParseError> {
    match title(b, skip_ws(b, 0) as usize) {
        Err(e) => Err(e),
        Ok(sp) => {
            let e = skip_ws(b, sp.1 as int);
            if e < b.len() {
                err(e as usize, ParseErrorKind::UnexpectedText)
            } else {
                Ok(sp)
            }
        },
    }
}

/// The variable list alone, with nothing but white space around it.
pub open spec fn variables_only(b: Seq<u8>) -> Result<Seq<(usize, usize)>, ParseError> {
    match variables(b, skip_ws(b, 0) as usize) {
        Err(e) => Err(e),
        Ok((vs, ve)) => {
            let e = skip_ws(b, ve as int);
            if e < b.len() {
                err(e as usize, ParseErrorKind::UnexpectedText)
            } else {
                Ok(vs)
            }
        },
    }
}

/// Parses a title line `TITLE = "..."`: the title, quotes included.
pub fn parse_title(text: &str) -> (r: Result<String, ParseError>)
    ensures
        match r {
            Ok(t) => text.is_ascii() && (title_only(ascii_bytes(text@)) matches Ok(sp) && t@ == text_of(text@, sp)),
            Err(e) => if text.is_ascii() {
                title_only(ascii_bytes(text@)) == Err::<(usize, usize), _>(e)
            } else {
                e == ParseError { position: 0, kind: ParseErrorKind::NotAscii }
            },
        },
{
    if !text.is_ascii() {
        return Err(ParseError { position: 0, kind: ParseErrorKind::NotAscii });
    }
    let b: &[u8] = text.as_bytes();
    assert(b@ == ascii_bytes(text@));
    let p0 = skip_ws_exec(b, 0);
    let sp = title_exec(b, p0)?;
    let e = skip_ws_exec(b, sp.1);
    if e < b.len() {
        return Err(ParseError { position: e, kind: ParseErrorKind::UnexpectedText });
    }
    Ok(span_text(text, sp))
}

/// Parses a variable list `VARIABLES = "...", ...`: the names, quotes
/// included.
pub fn parse_variables(text: &str) -> (r: Result<Vec<String>, ParseError>)
    ensures
        match r {
            Ok(vs) => text.is_ascii() && (variables_only(ascii_bytes(text@)) matches Ok(sps) && texts_match(
                vs@,
                sps,
                text@,
            )),
            Err(e) => if text.is_ascii() {
                variables_only(ascii_bytes(text@)) == Err::<Seq<(usize, usize)>, _>(e)
            } else {
                e == ParseError { position: 0, kind: ParseErrorKind::NotAscii }
            },
        },
{
    if !text.is_ascii() {
        return Err(ParseError { position: 0, kind: ParseErrorKind::NotAscii });
    }
    let b: &[u8] = text.as_bytes();
    assert(b@ == ascii_bytes(text@));
    let p0 = skip_ws_exec(b, 0);
    let (vs, ve) = variables_exec(b, p0)?;
    let e = skip_ws_exec(b, ve);
    if e < b.len() {
        return Err(ParseError { position: e, kind: ParseErrorKind::UnexpectedText });
    }
    Ok(span_texts(text, &vs))
}

} // verus!
