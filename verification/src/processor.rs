//! The line processor: parses one text line into two bounded coordinates,
//! classifies the point, and renders the outcome as a fixed display
//! string.
//!
//! A line is split on ASCII whitespace into tokens. The first two tokens
//! must be integer literals in `[-100, 100]`; anything else yields one of
//! five parse errors, checked in a fixed priority order.

use vstd::prelude::*;

use crate::classifier::{classify_spec, point_location, Relation, COORD_LIMIT};

verus! {

/// Why a line failed to parse, checked in this priority order: the first
/// token's format and range before the second token's presence, the
/// second token's format and range before the surplus-token check.
#[derive(PartialEq, Eq, Structural, Debug, Clone, Copy)]
pub enum ParseError {
    /// A token that is not an integer literal.
    BadFormat,
    /// An integer literal outside `[-100, 100]`.
    OutOfRange,
    /// No first token on the line.
    EmptyString,
    /// A first coordinate but no second one.
    OneCoord,
    /// More than two tokens, whatever the third holds.
    TooMuchCoords,
}

/// The ASCII whitespace characters a line is split on.
pub open spec fn is_ws(c: char) -> bool {
    c == ' ' || c == '\t' || c == '\n' || c == '\x0c' || c == '\r'
}

/// The first position at or after `i` that does not hold whitespace, or
/// the end of the line.
pub open spec fn skip_ws(l: Seq<char>, i: int) -> int
    decreases l.len() - i,
{
    if 0 <= i < l.len() && is_ws(l[i]) {
        skip_ws(l, i + 1)
    } else {
        i
    }
}

/// The first position at or after `i` that holds whitespace, or the end
/// of the line: the end of a token starting at `i`.
pub open spec fn scan_token(l: Seq<char>, i: int) -> int
    decreases l.len() - i,
{
    if 0 <= i < l.len() && !is_ws(l[i]) {
        scan_token(l, i + 1)
    } else {
        i
    }
}

pub proof fn lemma_skip_ws_bounds(l: Seq<char>, i: int)
    requires
        0 <= i <= l.len(),
    ensures
        i <= skip_ws(l, i) <= l.len(),
        skip_ws(l, i) < l.len() ==> !is_ws(l[skip_ws(l, i)]),
    decreases l.len() - i,
{
    if i < l.len() && is_ws(l[i]) {
        lemma_skip_ws_bounds(l, i + 1);
    }
}

pub proof fn lemma_scan_token_bounds(l: Seq<char>, i: int)
    requires
        0 <= i <= l.len(),
    ensures
        i <= scan_token(l, i) <= l.len(),
        scan_token(l, i) < l.len() ==> is_ws(l[scan_token(l, i)]),
        i < l.len() && !is_ws(l[i]) ==> scan_token(l, i) > i,
    decreases l.len() - i,
{
    if i < l.len() && !is_ws(l[i]) {
        lemma_scan_token_bounds(l, i + 1);
    }
}

/// The whitespace-separated tokens of `l` from position `i` on.
pub open spec fn tokens_from(l: Seq<char>, i: int) -> Seq<Seq<char>>
    decreases l.len() - i,
{
    if !(0 <= i <= l.len()) {
        Seq::empty()
    } else {
        let s = skip_ws(l, i);
        if s >= l.len() {
            Seq::empty()
        } else {
            let e = scan_token(l, s);
            proof {
                lemma_skip_ws_bounds(l, i);
                lemma_scan_token_bounds(l, s);
            }
            seq![l.subrange(s, e)] + tokens_from(l, e)
        }
    }
}

/// The whitespace-separated tokens of a whole line.
pub open spec fn tokens(l: Seq<char>) -> Seq<Seq<char>> {
    tokens_from(l, 0)
}

pub open spec fn is_digit(c: char) -> bool {
    '0' <= c && c <= '9'
}

pub open spec fn digit_val(c: char) -> int {
    c as int - '0' as int
}

/// The value of a run of decimal digits, most significant first.
pub open spec fn digits_value(d: Seq<char>) -> int
    decreases d.len(),
{
    if d.len() == 0 {
        0
    } else {
        10 * digits_value(d.drop_last()) + digit_val(d.last())
    }
}

/// How many leading characters of `t` are a sign: one for `+` or `-`,
/// none otherwise.
pub open spec fn sign_len(t: Seq<char>) -> int {
    if t.len() > 0 && (t[0] == '+' || t[0] == '-') {
        1
    } else {
        0
    }
}

/// An integer literal: an optional sign followed by at least one decimal
/// digit and nothing else.
pub open spec fn is_int_literal(t: Seq<char>) -> bool {
    t.len() > sign_len(t) && forall|i: int| sign_len(t) <= i < t.len() ==> is_digit(t[i])
}

/// The magnitude of an integer literal: the value of its digits.
pub open spec fn lit_magnitude(t: Seq<char>) -> int {
    digits_value(t.subrange(sign_len(t), t.len() as int))
}

/// The value of an integer literal, negative under a leading `-`.
pub open spec fn lit_value(t: Seq<char>) -> int {
    if t.len() > 0 && t[0] == '-' {
        -lit_magnitude(t)
    } else {
        lit_magnitude(t)
    }
}

/// What parsing one coordinate token yields: `BadFormat` for anything
/// that is not an integer literal, `OutOfRange` for a literal outside
/// `[-100, 100]`, and the value otherwise.
pub open spec fn parse_coord_spec(t: Seq<char>) -> Result<i32, ParseError> {
    if !is_int_literal(t) {
        Err(ParseError::BadFormat)
    } else if lit_value(t) < -COORD_LIMIT || lit_value(t) > COORD_LIMIT {
        Err(ParseError::OutOfRange)
    } else {
        Ok(lit_value(t) as i32)
    }
}

/// Every token that is not an integer literal parses to `BadFormat`,
/// whatever else it holds.
pub proof fn lemma_bad_format(t: Seq<char>)
    requires
        !is_int_literal(t),
    ensures
        parse_coord_spec(t) == Err::<i32, ParseError>(ParseError::BadFormat),
{
}

/// Appending one digit multiplies the value of a digit run by ten and
/// adds the digit.
proof fn lemma_digits_value_step(l: Seq<char>, a: int, b: int)
    requires
        0 <= a <= b < l.len(),
    ensures
        digits_value(l.subrange(a, b + 1)) == 10 * digits_value(l.subrange(a, b)) + digit_val(
            l[b],
        ),
{
    let whole = l.subrange(a, b + 1);
    assert(whole.drop_last() =~= l.subrange(a, b));
    assert(whole.last() == l[b]);
}

/// Whether the character at position `i` is ASCII whitespace.
fn ws_at(s: &str, i: usize) -> (b: bool)
    requires
        i < s@.len(),
    ensures
        b == is_ws(s@[i as int]),
{
    let c = s.get_char(i);
    c == ' ' || c == '\t' || c == '\n' || c == '\x0c' || c == '\r'
}

/// Advances from position `from` to the first non-whitespace position,
/// or to the end of the line.
fn skip_ws_from(s: &str, from: usize, n: usize) -> (j: usize)
    requires
        n == s@.len(),
        from <= n,
    ensures
        j == skip_ws(s@, from as int),
        from <= j <= n,
{
    let mut i = from;
    while i < n && ws_at(s, i)
        invariant
            from <= i <= n,
            n == s@.len(),
            skip_ws(s@, from as int) == skip_ws(s@, i as int),
        decreases n - i,
    {
        i = i + 1;
    }
    proof {
        assert(skip_ws(s@, i as int) == i);
    }
    i
}

/// Advances from the start of a token at `from` to its end: the first
/// whitespace position, or the end of the line.
fn scan_token_from(s: &str, from: usize, n: usize) -> (j: usize)
    requires
        n == s@.len(),
        from <= n,
    ensures
        j == scan_token(s@, from as int),
        from <= j <= n,
{
    let mut i = from;
    while i < n && !ws_at(s, i)
        invariant
            from <= i <= n,
            n == s@.len(),
            scan_token(s@, from as int) == scan_token(s@, i as int),
        decreases n - i,
    {
        i = i + 1;
    }
    proof {
        assert(scan_token(s@, i as int) == i);
    }
    i
}

/// Parses one coordinate token: an optional sign, then decimal digits.
/// Yields `BadFormat` for anything else, `OutOfRange` for a value outside
/// `[-100, 100]` however many digits it takes to write it.
pub fn parse_coord(coord: &str) -> (r: Result<i32, ParseError>)
    ensures
        r == parse_coord_spec(coord@),
{
    let n = coord.unicode_len();
    if n == 0 {
        return Err(ParseError::BadFormat);
    }
    let c0 = coord.get_char(0);
    let neg = c0 == '-';
    let start: usize = if c0 == '-' || c0 == '+' {
        1
    } else {
        0
    };
    if start == n {
        return Err(ParseError::BadFormat);
    }
    let mut i = start;
    let mut acc: i32 = 0;
    while i < n
        invariant
            start <= i <= n,
            start < n,
            n == coord@.len(),
            start == sign_len(coord@),
            forall|j: int| start <= j < i ==> is_digit(coord@[j]),
            0 <= acc <= 101,
            digits_value(coord@.subrange(start as int, i as int)) <= 100 ==> acc == digits_value(
                coord@.subrange(start as int, i as int),
            ),
            digits_value(coord@.subrange(start as int, i as int)) > 100 ==> acc == 101,
        decreases n - i,
    {
        let c = coord.get_char(i);
        if c < '0' || c > '9' {
            return Err(ParseError::BadFormat);
        }
        let d: i32 = ((c as u32) - ('0' as u32)) as i32;
        proof {
            lemma_digits_value_step(coord@, start as int, i as int);
        }
        acc = if acc > 100 {
            101
        } else if acc * 10 + d > 100 {
            101
        } else {
            acc * 10 + d
        };
        i = i + 1;
    }
    proof {
        assert(coord@.subrange(start as int, n as int) =~= coord@.subrange(
            start as int,
            i as int,
        ));
        assert(is_int_literal(coord@));
    }
    if acc > 100 {
        return Err(ParseError::OutOfRange);
    }
    if neg {
        Ok(-acc)
    } else {
        Ok(acc)
    }
}

/// What processing one line yields, over the line's tokens: the errors in
/// their fixed priority order, or the classification of the point.
pub open spec fn line_result(l: Seq<char>) -> Result<Relation, ParseError> {
    let ts = tokens(l);
    if ts.len() == 0 {
        Err(ParseError::EmptyString)
    } else {
        match parse_coord_spec(ts[0]) {
            Err(e) => Err(e),
            Ok(x) => if ts.len() == 1 {
                Err(ParseError::OneCoord)
            } else {
                match parse_coord_spec(ts[1]) {
                    Err(e) => Err(e),
                    Ok(y) => if ts.len() > 2 {
                        Err(ParseError::TooMuchCoords)
                    } else {
                        Ok(classify_spec(x as int, y as int))
                    },
                }
            },
        }
    }
}

/// Splits a line on ASCII whitespace, parses the first two tokens as
/// bounded coordinates, and classifies the point; yields the first
/// applicable parse error otherwise.
pub fn set_point_location(line: String) -> (r: Result<Relation, ParseError>)
    ensures
        r == line_result(line@),
{
    let s: &str = line.as_str();
    let ghost l = line@;
    let n = s.unicode_len();
    let t0s = skip_ws_from(s, 0, n);
    proof {
        lemma_skip_ws_bounds(l, 0);
    }
    if t0s == n {
        return Err(ParseError::EmptyString);
    }
    let t0e = scan_token_from(s, t0s, n);
    proof {
        lemma_scan_token_bounds(l, t0s as int);
        assert(tokens(l) =~= seq![l.subrange(t0s as int, t0e as int)] + tokens_from(
            l,
            t0e as int,
        ));
    }
    let tok0 = s.substring_char(t0s, t0e);
    let x = match parse_coord(tok0) {
        Ok(v) => v,
        Err(e) => {
            return Err(e);
        },
    };
    let t1s = skip_ws_from(s, t0e, n);
    proof {
        lemma_skip_ws_bounds(l, t0e as int);
    }
    if t1s == n {
        return Err(ParseError::OneCoord);
    }
    let t1e = scan_token_from(s, t1s, n);
    proof {
        lemma_scan_token_bounds(l, t1s as int);
        assert(tokens_from(l, t0e as int) =~= seq![l.subrange(t1s as int, t1e as int)]
            + tokens_from(l, t1e as int));
    }
    let tok1 = s.substring_char(t1s, t1e);
    let y = match parse_coord(tok1) {
        Ok(v) => v,
        Err(e) => {
            return Err(e);
        },
    };
    let t2s = skip_ws_from(s, t1e, n);
    proof {
        lemma_skip_ws_bounds(l, t1e as int);
    }
    if t2s < n {
        return Err(ParseError::TooMuchCoords);
    }
    Ok(point_location(x, y))
}

/// A first token that is an integer literal with a value outside
/// `[-100, 100]` makes the whole line `OutOfRange`, however large the
/// value; exactly `-100` and `100` still pass this check.
pub proof fn lemma_out_of_range_first(l: Seq<char>)
    requires
        tokens(l).len() >= 1,
        is_int_literal(tokens(l)[0]),
        lit_value(tokens(l)[0]) < -COORD_LIMIT || lit_value(tokens(l)[0]) > COORD_LIMIT,
    ensures
        line_result(l) == Err::<Relation, ParseError>(ParseError::OutOfRange),
{
}

/// A second token that is an integer literal with a value outside
/// `[-100, 100]` makes the line `OutOfRange`, once the first token has
/// parsed as a coordinate.
pub proof fn lemma_out_of_range_second(l: Seq<char>)
    requires
        tokens(l).len() >= 2,
        parse_coord_spec(tokens(l)[0]) is Ok,
        is_int_literal(tokens(l)[1]),
        lit_value(tokens(l)[1]) < -COORD_LIMIT || lit_value(tokens(l)[1]) > COORD_LIMIT,
    ensures
        line_result(l) == Err::<Relation, ParseError>(ParseError::OutOfRange),
{
}

/// A first token that is not an integer literal makes the whole line
/// `BadFormat`.
pub proof fn lemma_bad_format_first(l: Seq<char>)
    requires
        tokens(l).len() >= 1,
        !is_int_literal(tokens(l)[0]),
    ensures
        line_result(l) == Err::<Relation, ParseError>(ParseError::BadFormat),
{
}

/// A second token that is not an integer literal makes the line
/// `BadFormat`, once the first token has parsed as a coordinate.
pub proof fn lemma_bad_format_second(l: Seq<char>)
    requires
        tokens(l).len() >= 2,
        parse_coord_spec(tokens(l)[0]) is Ok,
        !is_int_literal(tokens(l)[1]),
    ensures
        line_result(l) == Err::<Relation, ParseError>(ParseError::BadFormat),
{
}

/// The fixed display string of one outcome.
pub open spec fn format_spec(result: Result<Relation, ParseError>) -> Seq<char> {
    match result {
        Ok(Relation::Outside) => "outside"@,
        Ok(Relation::Inside) => "inside"@,
        Ok(Relation::Border) => "border"@,
        Err(ParseError::BadFormat) => "error: bad format"@,
        Err(ParseError::EmptyString) => "error: empty string"@,
        Err(ParseError::OutOfRange) => "error: out of range"@,
        Err(ParseError::OneCoord) => "error: one coord"@,
        Err(ParseError::TooMuchCoords) => "error: too much coords"@,
    }
}

/// Renders an outcome as its fixed display string. Total: every
/// classification and every parse error has exactly one string.
pub fn format_result(result: Result<Relation, ParseError>) -> (s: &'static str)
    ensures
        s@ == format_spec(result),
{
    match result {
        Ok(Relation::Outside) => "outside",
        Ok(Relation::Inside) => "inside",
        Ok(Relation::Border) => "border",
        Err(ParseError::BadFormat) => "error: bad format",
        Err(ParseError::EmptyString) => "error: empty string",
        Err(ParseError::OutOfRange) => "error: out of range",
        Err(ParseError::OneCoord) => "error: one coord",
        Err(ParseError::TooMuchCoords) => "error: too much coords",
    }
}

} // verus!
