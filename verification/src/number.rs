//! The numbers of a status report: which texts are decimal literals, which
//! are unsigned integers, and why a text is neither.
//!
//! A value that the report gives as a decimal literal is kept as its text,
//! checked against the grammar
//!
//! ```text
//! Float    ::= Sign? ( 'inf' | 'infinity' | 'nan' | Decimal )
//! Decimal  ::= ( Digit+ | Digit+ '.' Digit* | Digit* '.' Digit+ ) Exponent?
//! Exponent ::= ( 'e' | 'E' ) Sign? Digit+
//! Sign     ::= '+' | '-'
//! Digit    ::= '0' ... '9'
//! ```
//!
//! where the three words are matched without regard to ASCII case. This is the
//! grammar by which Rust's standard library reads a floating-point number, so
//! a caller may hand the text of any `Number::Literal` over to it.

use crate::text::chars_of;
use vstd::prelude::*;

verus! {

/// Why a text is not the number that was expected.
#[derive(Clone, Copy, Debug, PartialEq, Eq, Structural)]
pub enum ParseCause {
    /// A decimal literal was expected and the text is empty.
    EmptyFloat,
    /// The text is not empty and is no decimal literal.
    InvalidFloat,
    /// An unsigned integer was expected and the text is empty.
    EmptyInteger,
    /// The text holds something other than an optional `+` and digits.
    InvalidDigit,
    /// The digits denote a number above `u32::MAX`.
    IntegerTooLarge,
}

/// A metric's numeric value: an exact count, or a decimal literal kept as text.
#[derive(Clone, Debug, PartialEq, Eq)]
pub enum Number {
    Count(u64),
    Literal(String),
}

/// The mathematical content of a `Number`.
pub enum NumberView {
    Count(nat),
    Literal(Seq<char>),
}

impl View for Number {
    type V = NumberView;

    open spec fn view(&self) -> NumberView {
        match self {
            Number::Count(n) => NumberView::Count(*n as nat),
            Number::Literal(t) => NumberView::Literal(t@),
        }
    }
}

impl NumberView {
    /// A literal is always a decimal literal of the grammar.
    pub open spec fn wf(self) -> bool {
        self matches NumberView::Literal(t) ==> is_float_literal(t)
    }
}

pub open spec fn is_digit(c: char) -> bool {
    '0' <= c <= '9'
}

pub open spec fn is_sign(c: char) -> bool {
    c == '+' || c == '-'
}

/// The value of a digit character.
pub open spec fn digit_value(c: char) -> nat
    recommends
        is_digit(c),
{
    (c as u32 - '0' as u32) as nat
}

/// `c` with an ASCII capital letter turned into its small letter.
pub open spec fn ascii_lower(c: char) -> char {
    if 'A' <= c <= 'Z' {
        ((c as u32) + 32) as char
    } else {
        c
    }
}

/// The number of digits that `s` begins with.
pub open spec fn digit_run(s: Seq<char>) -> int
    decreases s.len(),
{
    if s.len() == 0 || !is_digit(s[0]) {
        0
    } else {
        1 + digit_run(s.skip(1))
    }
}

/// `Digit+`
pub open spec fn is_digits(s: Seq<char>) -> bool {
    s.len() >= 1 && digit_run(s) == s.len()
}

/// `( 'e' | 'E' ) Sign? Digit+`
pub open spec fn is_exponent(s: Seq<char>) -> bool {
    &&& s.len() >= 2
    &&& s[0] == 'e' || s[0] == 'E'
    &&& is_digits(
        if is_sign(s[1]) {
            s.skip(2)
        } else {
            s.skip(1)
        },
    )
}

/// `( Digit+ | Digit+ '.' Digit* | Digit* '.' Digit+ ) Exponent?`
pub open spec fn is_decimal(s: Seq<char>) -> bool {
    let whole = digit_run(s);
    let after_whole = s.skip(whole);
    let fraction = if after_whole.len() > 0 && after_whole[0] == '.' {
        digit_run(after_whole.skip(1))
    } else {
        0
    };
    let rest = if after_whole.len() > 0 && after_whole[0] == '.' {
        after_whole.skip(1 + fraction)
    } else {
        after_whole
    };
    &&& whole + fraction >= 1
    &&& rest.len() == 0 || is_exponent(rest)
}

/// `'inf' | 'infinity' | 'nan'`, in any mix of small and capital letters.
pub open spec fn is_special(s: Seq<char>) -> bool {
    let lower = s.map_values(|c: char| ascii_lower(c));
    ||| lower == seq!['i', 'n', 'f']
    ||| lower == seq!['n', 'a', 'n']
    ||| lower == seq!['i', 'n', 'f', 'i', 'n', 'i', 't', 'y']
}

/// `Sign? ( 'inf' | 'infinity' | 'nan' | Decimal )`
pub open spec fn is_float_literal(s: Seq<char>) -> bool {
    &&& s.len() > 0
    &&& {
        let body = if is_sign(s[0]) {
            s.skip(1)
        } else {
            s
        };
        is_special(body) || is_decimal(body)
    }
}

/// Why `s` is no decimal literal, or `None` if it is one.
pub open spec fn float_cause(s: Seq<char>) -> Option<ParseCause> {
    if s.len() == 0 {
        Some(ParseCause::EmptyFloat)
    } else if is_float_literal(s) {
        None
    } else {
        Some(ParseCause::InvalidFloat)
    }
}

/// The number that a sequence of digits denotes in base ten.
pub open spec fn decimal_value(s: Seq<char>) -> nat
    decreases s.len(),
{
    if s.len() == 0 {
        0
    } else {
        10 * decimal_value(s.drop_last()) + digit_value(s.last())
    }
}

/// `s` without the `+` that may stand before an unsigned integer's digits.
pub open spec fn unsigned_digits(s: Seq<char>) -> Seq<char> {
    if s.len() > 0 && s[0] == '+' {
        s.skip(1)
    } else {
        s
    }
}

/// The unsigned 32-bit integer that `s` denotes: an optional `+`, then digits.
/// Reading goes from left to right and stops at the first character that is no
/// digit or at the first digit with which the number outgrows `u32`.
pub open spec fn u32_value(s: Seq<char>) -> Result<u32, ParseCause> {
    let digits = unsigned_digits(s);
    let run = digit_run(digits);
    if s.len() == 0 {
        Err(ParseCause::EmptyInteger)
    } else if digits.len() == 0 {
        Err(ParseCause::InvalidDigit)
    } else if decimal_value(digits.take(run)) > u32::MAX {
        Err(ParseCause::IntegerTooLarge)
    } else if run < digits.len() {
        Err(ParseCause::InvalidDigit)
    } else {
        Ok(decimal_value(digits) as u32)
    }
}

/// `digit_run` is the unique position before which all characters are digits
/// and at which a character that is no digit stands, if the text goes on.
pub proof fn lemma_digit_run(s: Seq<char>)
    ensures
        0 <= digit_run(s) <= s.len(),
        forall|i: int| 0 <= i < digit_run(s) ==> is_digit(s[i]),
        digit_run(s) < s.len() ==> !is_digit(s[digit_run(s)]),
    decreases s.len(),
{
    if s.len() == 0 || !is_digit(s[0]) {
    } else {
        lemma_digit_run(s.skip(1));
        assert forall|i: int| 0 <= i < digit_run(s) implies is_digit(s[i]) by {
            if i > 0 {
                assert(s[i] == s.skip(1)[i - 1]);
            }
        }
    }
}

/// Any position with the two properties of `lemma_digit_run` is `digit_run`.
pub proof fn lemma_digit_run_unique(s: Seq<char>, p: int)
    requires
        0 <= p <= s.len(),
        forall|i: int| 0 <= i < p ==> is_digit(s[i]),
        p < s.len() ==> !is_digit(s[p]),
    ensures
        digit_run(s) == p,
{
    lemma_digit_run(s);
}

/// `Digit*`
pub open spec fn all_digits(s: Seq<char>) -> bool {
    forall|i: int| 0 <= i < s.len() ==> is_digit(#[trigger] s[i])
}

/// Whether `s` is cut at `point` and `end` into the parts of a decimal: digits
/// up to `point`; then either nothing, after one digit at least, or a point
/// and digits up to `end`, with a digit on one side of the point at least;
/// then nothing, or an exponent.
pub open spec fn decimal_cut(s: Seq<char>, point: int, end: int) -> bool {
    &&& 0 <= point <= end <= s.len()
    &&& all_digits(s.take(point))
    &&& if end == point {
        point >= 1
    } else {
        s[point] == '.' && all_digits(s.subrange(point + 1, end)) && end >= 2
    }
    &&& end == s.len() || is_exponent(s.skip(end))
}

/// One or more digits are a text that is not empty and holds digits only.
pub proof fn lemma_digits(s: Seq<char>)
    ensures
        is_digits(s) <==> s.len() >= 1 && all_digits(s),
{
    lemma_digit_run(s);
    if s.len() >= 1 && all_digits(s) {
        lemma_digit_run_unique(s, s.len() as int);
    }
}

/// A text is a decimal exactly when it can be cut into the parts of one:
/// `( Digit+ | Digit+ '.' Digit* | Digit* '.' Digit+ ) Exponent?`.
pub proof fn lemma_decimal_grammar(s: Seq<char>)
    ensures
        is_decimal(s) <==> exists|point: int, end: int| decimal_cut(s, point, end),
{
    lemma_digit_run(s);
    let whole = digit_run(s);
    let after_whole = s.skip(whole);
    if after_whole.len() > 0 && after_whole[0] == '.' {
        lemma_digit_run(after_whole.skip(1));
    }
    if is_decimal(s) {
        let end = if after_whole.len() > 0 && after_whole[0] == '.' {
            whole + 1 + digit_run(after_whole.skip(1))
        } else {
            whole
        };
        if end > whole {
            assert forall|i: int| 0 <= i < end - whole - 1 implies is_digit(
                #[trigger] s.subrange(whole + 1, end)[i],
            ) by {
                assert(s.subrange(whole + 1, end)[i] == after_whole.skip(1)[i]);
            }
            assert(after_whole.skip(1 + (end - whole - 1)) =~= s.skip(end));
        }
        assert(decimal_cut(s, whole, end));
    }
    if exists|point: int, end: int| decimal_cut(s, point, end) {
        let (point, end) = choose|point: int, end: int| decimal_cut(s, point, end);
        assert(point == whole) by {
            assert forall|i: int| 0 <= i < point implies is_digit(s[i]) by {
                assert(s.take(point)[i] == s[i]);
            }
            lemma_digit_run_unique(s, point);
        }
        if end > point {
            let fraction = after_whole.skip(1);
            assert(digit_run(fraction) == end - point - 1) by {
                assert forall|i: int| 0 <= i < end - point - 1 implies is_digit(fraction[i]) by {
                    assert(s.subrange(point + 1, end)[i] == fraction[i]);
                }
                lemma_digit_run_unique(fraction, end - point - 1);
            }
            assert(after_whole.skip(1 + (end - point - 1)) =~= s.skip(end));
        }
    }
}

/// A longer prefix of a text denotes no smaller a number.
pub proof fn lemma_decimal_value_monotonic(s: Seq<char>, i: int, j: int)
    requires
        0 <= i <= j <= s.len(),
    ensures
        decimal_value(s.take(i)) <= decimal_value(s.take(j)),
    decreases j - i,
{
    if i < j {
        lemma_decimal_value_monotonic(s, i, j - 1);
        assert(s.take(j).drop_last() =~= s.take(j - 1));
    }
}

/// A text is read as an integer exactly when it is an optional `+` followed by
/// one or more digits whose value fits in 32 bits; the integer is that value.
pub proof fn lemma_u32_value_ok(s: Seq<char>)
    ensures
        u32_value(s) is Ok <==> is_digits(unsigned_digits(s)) && decimal_value(unsigned_digits(s))
            <= u32::MAX,
        u32_value(s) matches Ok(n) ==> n == decimal_value(unsigned_digits(s)),
{
    let digits = unsigned_digits(s);
    lemma_digit_run(digits);
    if digit_run(digits) == digits.len() {
        assert(digits.take(digit_run(digits)) =~= digits);
    }
}

/// Whether `c` is a decimal digit.
pub fn is_digit_char(c: char) -> (r: bool)
    ensures
        r == is_digit(c),
{
    let u: u32 = c as u32;
    48 <= u && u <= 57
}

fn is_sign_char(c: char) -> (r: bool)
    ensures
        r == is_sign(c),
{
    c == '+' || c == '-'
}

fn lower_char(c: char) -> (r: u32)
    ensures
        r == ascii_lower(c) as u32,
{
    let u: u32 = c as u32;
    if 65 <= u && u <= 90 {
        u + 32
    } else {
        u
    }
}

/// The end of the run of digits that starts at `from`.
fn skip_digits(v: &[char], from: usize, to: usize) -> (p: usize)
    requires
        from <= to <= v@.len(),
    ensures
        from <= p <= to,
        p - from == digit_run(v@.subrange(from as int, to as int)),
{
    let ghost s = v@.subrange(from as int, to as int);
    let mut p: usize = from;
    while p < to && is_digit_char(v[p])
        invariant
            from <= p <= to <= v@.len(),
            s == v@.subrange(from as int, to as int),
            forall|i: int| 0 <= i < p - from ==> is_digit(s[i]),
        decreases to - p,
    {
        p += 1;
    }
    proof {
        lemma_digit_run_unique(s, p - from);
    }
    p
}

fn exponent_at(v: &[char], from: usize, to: usize) -> (r: bool)
    requires
        from <= to <= v@.len(),
    ensures
        r == is_exponent(v@.subrange(from as int, to as int)),
{
    let ghost s = v@.subrange(from as int, to as int);
    if to - from < 2 {
        return false;
    }
    if v[from] != 'e' && v[from] != 'E' {
        return false;
    }
    let start: usize = if is_sign_char(v[from + 1]) {
        from + 2
    } else {
        from + 1
    };
    let end = skip_digits(v, start, to);
    assert(s.skip(start - from) =~= v@.subrange(start as int, to as int));
    start < to && end == to
}

fn decimal_at(v: &[char], from: usize, to: usize) -> (r: bool)
    requires
        from <= to <= v@.len(),
    ensures
        r == is_decimal(v@.subrange(from as int, to as int)),
{
    let ghost s = v@.subrange(from as int, to as int);
    let whole_end = skip_digits(v, from, to);
    assert(s.skip(whole_end - from) =~= v@.subrange(whole_end as int, to as int));
    let mut rest: usize = whole_end;
    let mut digits: usize = whole_end - from;
    if whole_end < to && v[whole_end] == '.' {
        let fraction_end = skip_digits(v, whole_end + 1, to);
        assert(s.skip(whole_end - from).skip(1) =~= v@.subrange(whole_end + 1, to as int));
        assert(s.skip(whole_end - from).skip(1 + (fraction_end - whole_end - 1)) =~= v@.subrange(
            fraction_end as int,
            to as int,
        ));
        digits = digits + (fraction_end - whole_end - 1);
        rest = fraction_end;
    }
    if digits == 0 {
        return false;
    }
    rest == to || exponent_at(v, rest, to)
}

fn special_at(v: &[char], from: usize, to: usize) -> (r: bool)
    requires
        from <= to <= v@.len(),
    ensures
        r == is_special(v@.subrange(from as int, to as int)),
{
    let ghost s = v@.subrange(from as int, to as int);
    let ghost lower = s.map_values(|c: char| ascii_lower(c));
    let n: usize = to - from;
    assert(lower.len() == n);
    if n == 3 {
        let c0 = lower_char(v[from]);
        let c1 = lower_char(v[from + 1]);
        let c2 = lower_char(v[from + 2]);
        let inf = c0 == 105 && c1 == 110 && c2 == 102;
        let nan = c0 == 110 && c1 == 97 && c2 == 110;
        assert(inf == (lower =~= seq!['i', 'n', 'f']));
        assert(nan == (lower =~= seq!['n', 'a', 'n']));
        inf || nan
    } else if n == 8 {
        let c0 = lower_char(v[from]);
        let c1 = lower_char(v[from + 1]);
        let c2 = lower_char(v[from + 2]);
        let c3 = lower_char(v[from + 3]);
        let c4 = lower_char(v[from + 4]);
        let c5 = lower_char(v[from + 5]);
        let c6 = lower_char(v[from + 6]);
        let c7 = lower_char(v[from + 7]);
        let infinity = c0 == 105 && c1 == 110 && c2 == 102 && c3 == 105 && c4 == 110 && c5 == 105
            && c6 == 116 && c7 == 121;
        assert(infinity == (lower =~= seq!['i', 'n', 'f', 'i', 'n', 'i', 't', 'y']));
        infinity
    } else {
        false
    }
}

/// Checks the characters `v` against the grammar of decimal literals.
pub fn check_float_chars(v: &[char]) -> (r: Option<ParseCause>)
    ensures
        r == float_cause(v@),
{
    let n = v.len();
    assert(v@.subrange(0, n as int) =~= v@);
    if n == 0 {
        return Some(ParseCause::EmptyFloat);
    }
    let from: usize = if is_sign_char(v[0]) {
        1
    } else {
        0
    };
    if special_at(v, from, n) || decimal_at(v, from, n) {
        None
    } else {
        Some(ParseCause::InvalidFloat)
    }
}

/// Reads the characters `v` as an unsigned 32-bit integer.
pub fn parse_u32_chars(v: &[char]) -> (r: Result<u32, ParseCause>)
    ensures
        r == u32_value(v@),
{
    let n = v.len();
    if n == 0 {
        return Err(ParseCause::EmptyInteger);
    }
    let from: usize = if v[0] == '+' {
        1
    } else {
        0
    };
    let ghost digits = v@.skip(from as int);
    if from == n {
        return Err(ParseCause::InvalidDigit);
    }
    proof {
        lemma_digit_run(digits);
    }
    let mut i: usize = from;
    let mut acc: u64 = 0;
    while i < n
        invariant
            from <= i <= n == v@.len(),
            from < n,
            digits == unsigned_digits(v@),
            digits == v@.skip(from as int),
            i - from <= digit_run(digits),
            acc == decimal_value(digits.take(i - from)),
            acc <= u32::MAX,
        decreases n - i,
    {
        let c = v[i];
        proof {
            lemma_digit_run(digits);
            assert(digits[i - from] == c);
            assert(digits.take(i - from + 1).drop_last() =~= digits.take(i - from));
        }
        if !is_digit_char(c) {
            return Err(ParseCause::InvalidDigit);
        }
        let d: u64 = (c as u32 - 48) as u64;
        let next: u64 = acc * 10 + d;
        if next > 0xFFFF_FFFF {
            proof {
                let run = digit_run(digits);
                lemma_decimal_value_monotonic(digits.take(run), i - from + 1, run);
                assert(digits.take(run).take(i - from + 1) =~= digits.take(i - from + 1));
                assert(digits.take(run).take(run) =~= digits.take(run));
            }
            return Err(ParseCause::IntegerTooLarge);
        }
        acc = next;
        i += 1;
    }
    proof {
        lemma_digit_run(digits);
        assert(digits.take(digits.len() as int) =~= digits);
    }
    Ok(acc as u32)
}

/// Checks `value` against the grammar of decimal literals.
pub fn check_float(value: &str) -> (r: Option<ParseCause>)
    ensures
        r == float_cause(value@),
{
    let v = chars_of(value);
    check_float_chars(v.as_slice())
}

/// Reads `value` as an unsigned 32-bit integer.
pub fn parse_u32(value: &str) -> (r: Result<u32, ParseCause>)
    ensures
        r == u32_value(value@),
{
    let v = chars_of(value);
    parse_u32_chars(v.as_slice())
}

impl ParseCause {
    /// The cause in words.
    pub fn message(&self) -> (s: String)
        ensures
            s@ == self.message_text(),
    {
        match self {
            ParseCause::EmptyFloat => String::from_str("cannot parse float from empty string"),
            ParseCause::InvalidFloat => String::from_str("invalid float literal"),
            ParseCause::EmptyInteger => String::from_str("cannot parse integer from empty string"),
            ParseCause::InvalidDigit => String::from_str("invalid digit found in string"),
            ParseCause::IntegerTooLarge => String::from_str(
                "number too large to fit in target type",
            ),
        }
    }

    pub open spec fn message_text(&self) -> Seq<char> {
        match self {
            ParseCause::EmptyFloat => "cannot parse float from empty string"@,
            ParseCause::InvalidFloat => "invalid float literal"@,
            ParseCause::EmptyInteger => "cannot parse integer from empty string"@,
            ParseCause::InvalidDigit => "invalid digit found in string"@,
            ParseCause::IntegerTooLarge => "number too large to fit in target type"@,
        }
    }
}

} // verus!
