//! The operands of a statement: which tokens are whole numbers, which are
//! fractional, and what value a whole number has.

use crate::pconsts::DOT;
use crate::text::to_chars;
use vstd::prelude::*;

verus! {

/// What kind of number a token is.
#[derive(Clone, Copy, Debug, PartialEq, Eq, Structural)]
pub enum NumericKind {
    /// A whole number.
    Integer,
    /// A fractional number.
    Float,
    /// No number.
    Invalid,
}

/// The decimal digits `0` to `9`.
pub open spec fn is_digit(c: char) -> bool {
    '0' <= c <= '9'
}

/// The number that a decimal digit stands for.
pub open spec fn digit_value(c: char) -> int {
    c as int - '0' as int
}

/// Every character of `s` is a decimal digit.
pub open spec fn all_digits(s: Seq<char>) -> bool {
    forall|i: int| 0 <= i < s.len() ==> is_digit(#[trigger] s[i])
}

/// The number that a run of decimal digits denotes; the empty run denotes
/// 0.
pub open spec fn decimal_value(s: Seq<char>) -> int
    decreases s.len(),
{
    if s.len() == 0 {
        0
    } else {
        10 * decimal_value(s.drop_last()) + digit_value(s.last())
    }
}

/// `s` begins with a sign, `+` or `-`.
pub open spec fn has_sign(s: Seq<char>) -> bool {
    s.len() > 0 && (s[0] == '+' || s[0] == '-')
}

/// `s` without its sign, if it has one.
pub open spec fn unsigned_part(s: Seq<char>) -> Seq<char> {
    if has_sign(s) {
        s.drop_first()
    } else {
        s
    }
}

/// The value of an optionally signed run of digits.
pub open spec fn integer_value(s: Seq<char>) -> int {
    if s.len() > 0 && s[0] == '-' {
        -decimal_value(unsigned_part(s))
    } else {
        decimal_value(unsigned_part(s))
    }
}

/// `s` is a whole-number operand: an optional sign followed by one or
/// more decimal digits, with a value that fits in a signed 64-bit integer.
pub open spec fn is_integer_text(s: Seq<char>) -> bool {
    &&& unsigned_part(s).len() > 0
    &&& all_digits(unsigned_part(s))
    &&& i64::MIN <= integer_value(s) <= i64::MAX
}

/// The signed 64-bit integer that `s` denotes, if it denotes one.
pub open spec fn integer_of(s: Seq<char>) -> Option<i64> {
    if is_integer_text(s) {
        Some(integer_value(s) as i64)
    } else {
        None
    }
}

/// `s` is an exponent: `e` or `E`, an optional sign, one or more digits.
pub open spec fn is_exponent(s: Seq<char>) -> bool {
    &&& s.len() > 0
    &&& s[0] == 'e' || s[0] == 'E'
    &&& unsigned_part(s.drop_first()).len() > 0
    &&& all_digits(unsigned_part(s.drop_first()))
}

/// `body` is digits, a decimal point at index `point`, digits again up to
/// `end`, with at least one digit before or after the point, and from
/// `end` on nothing or an exponent.
pub open spec fn is_fraction_at(body: Seq<char>, point: int, end: int) -> bool {
    &&& 0 <= point < end <= body.len()
    &&& body[point] == DOT
    &&& all_digits(body.take(point))
    &&& all_digits(body.subrange(point + 1, end))
    &&& end >= 2
    &&& end == body.len() || is_exponent(body.skip(end))
}

/// `s` is a fractional operand: a decimal floating-point literal that
/// holds a decimal point. That is an optional sign, then digits with one
/// point before, among or after them, then an optional exponent. A literal
/// without a point is none, whatever it denotes.
pub open spec fn is_float_text(s: Seq<char>) -> bool {
    exists|point: int, end: int| is_fraction_at(unsigned_part(s), point, end)
}

/// `s` is an operand: a whole number or a fractional one.
pub open spec fn is_number_text(s: Seq<char>) -> bool {
    is_integer_text(s) || is_float_text(s)
}

/// The kind of a token.
pub open spec fn kind_of(s: Seq<char>) -> NumericKind {
    if is_integer_text(s) {
        NumericKind::Integer
    } else if is_float_text(s) {
        NumericKind::Float
    } else {
        NumericKind::Invalid
    }
}

/// `s` is zero as written: with its decimal points taken out, nothing but
/// the digit `0` is left.
pub open spec fn is_textual_zero(s: Seq<char>) -> bool {
    forall|i: int| 0 <= i < s.len() ==> #[trigger] s[i] == '0' || s[i] == DOT
}

/// `s` is a divisor that is zero: zero as written, or a whole number of
/// the value 0, such as `-0`.
pub open spec fn is_zero_divisor(s: Seq<char>) -> bool {
    is_textual_zero(s) || (is_integer_text(s) && integer_value(s) == 0)
}

/// The characters that a number is written with: digits, signs, the
/// decimal point and the mark of the exponent.
pub open spec fn is_number_char(c: char) -> bool {
    is_digit(c) || c == '+' || c == '-' || c == DOT || c == 'e' || c == 'E'
}

/// The value of the decimal digit `c`, if it is one.
pub fn digit_of(c: char) -> (r: Option<u8>)
    ensures
        r is Some <==> is_digit(c),
        r matches Some(d) ==> d == digit_value(c) && d < 10,
{
    if '0' <= c && c <= '9' {
        let d: u32 = (c as u32) - ('0' as u32);
        Some(d as u8)
    } else {
        None
    }
}

/// Reads an optionally signed decimal integer of 64 bits.
///
/// Returns the value where the text is one, and `None` for every other
/// text: an empty one, a sign alone, a character that is no digit, or a
/// value out of range.
pub fn parse_integer(s: &str) -> (r: Option<i64>)
    ensures
        r == integer_of(s@),
{
    let chars = to_chars(s);
    let n = chars.len();
    if n == 0 {
        return None;
    }
    let negative = chars[0] == '-';
    let start: usize = if chars[0] == '-' || chars[0] == '+' {
        1
    } else {
        0
    };
    if start == n {
        return None;
    }
    let ghost digits = unsigned_part(s@);
    let limit: u64 = if negative {
        0x8000_0000_0000_0000
    } else {
        0x7fff_ffff_ffff_ffff
    };
    let mut acc: u64 = 0;
    let mut i: usize = start;
    while i < n
        invariant
            start <= i <= n,
            n == chars.len(),
            chars@ == s@,
            digits == s@.skip(start as int),
            digits == unsigned_part(s@),
            negative == (s@[0] == '-'),
            limit == if negative {
                0x8000_0000_0000_0000u64
            } else {
                0x7fff_ffff_ffff_ffffu64
            },
            all_digits(digits.take(i - start)),
            acc == decimal_value(digits.take(i - start)),
            acc <= limit,
        decreases n - i,
    {
        let ghost read = digits.take(i - start + 1);
        assert(read.drop_last() =~= digits.take(i - start));
        match digit_of(chars[i]) {
            None => {
                assert(!is_digit(digits[i - start]));
                return None;
            },
            Some(d) => {
                assert forall|k: int| 0 <= k < read.len() implies is_digit(#[trigger] read[k]) by {
                    if k < read.len() - 1 {
                        assert(read[k] == digits.take(i - start)[k]);
                    }
                }
                let next: u128 = acc as u128 * 10 + d as u128;
                if next > limit as u128 {
                    proof {
                        if all_digits(digits) {
                            lemma_decimal_value_grows(digits, i - start + 1);
                        }
                    }
                    return None;
                }
                acc = next as u64;
            },
        }
        i += 1;
    }
    assert(digits.take(n - start) =~= digits);
    if negative {
        if acc == 0x8000_0000_0000_0000 {
            Some(i64::MIN)
        } else {
            Some(-(acc as i64))
        }
    } else {
        Some(acc as i64)
    }
}

/// The end of the run of digits that begins at `from`.
pub fn digits_end(chars: &Vec<char>, from: usize) -> (to: usize)
    requires
        from <= chars.len(),
    ensures
        from <= to <= chars.len(),
        all_digits(chars@.subrange(from as int, to as int)),
        to == chars.len() || !is_digit(chars@[to as int]),
{
    let n = chars.len();
    let mut to: usize = from;
    while to < n && digit_of(chars[to]).is_some()
        invariant
            from <= to <= n,
            n == chars.len(),
            all_digits(chars@.subrange(from as int, to as int)),
        decreases n - to,
    {
        let ghost run = chars@.subrange(from as int, to + 1);
        assert forall|k: int| 0 <= k < run.len() implies is_digit(#[trigger] run[k]) by {
            if k < run.len() - 1 {
                assert(run[k] == chars@.subrange(from as int, to as int)[k]);
            }
        }
        to += 1;
    }
    to
}

/// Whether what stands in `chars` from `from` on is an exponent.
pub fn is_exponent_from(chars: &Vec<char>, from: usize) -> (r: bool)
    requires
        from <= chars.len(),
    ensures
        r == is_exponent(chars@.skip(from as int)),
{
    let n = chars.len();
    let ghost tail = chars@.skip(from as int);
    if from == n {
        return false;
    }
    if chars[from] != 'e' && chars[from] != 'E' {
        return false;
    }
    let after = from + 1;
    if after == n {
        return false;
    }
    let digits = if chars[after] == '+' || chars[after] == '-' {
        after + 1
    } else {
        after
    };
    assert(unsigned_part(tail.drop_first()) =~= chars@.skip(digits as int));
    let to = digits_end(chars, digits);
    let ghost rest = chars@.skip(digits as int);
    if to == n {
        digits < n
    } else {
        assert(rest[to - digits] == chars@[to as int]);
        false
    }
}

/// Whether `s` is a whole-number operand.
pub fn is_integer_str(s: &str) -> (r: bool)
    ensures
        r == is_integer_text(s@),
{
    parse_integer(s).is_some()
}

/// Whether `s` is a fractional operand.
pub fn is_float_str(s: &str) -> (r: bool)
    ensures
        r == is_float_text(s@),
{
    let chars = to_chars(s);
    let n = chars.len();
    let start: usize = if n > 0 && (chars[0] == '+' || chars[0] == '-') {
        1
    } else {
        0
    };
    let ghost body = unsigned_part(s@);
    let p = digits_end(&chars, start);
    if p == n || chars[p] != DOT {
        assert forall|point: int, end: int| !is_fraction_at(body, point, end) by {
            if is_fraction_at(body, point, end) {
                lemma_point_is_forced(body, p - start, point, end);
            }
        }
        return false;
    }
    let q = digits_end(&chars, p + 1);
    assert(body.subrange(p - start + 1, q - start) =~= chars@.subrange(p + 1, q as int));
    assert(body.skip(q - start) =~= chars@.skip(q as int));
    let well_formed = q - start >= 2 && (q == n || is_exponent_from(&chars, q));
    proof {
        if well_formed {
            assert(is_fraction_at(body, p - start, q - start));
        } else {
            assert forall|point: int, end: int| !is_fraction_at(body, point, end) by {
                if is_fraction_at(body, point, end) {
                    lemma_point_is_forced(body, p - start, point, end);
                    lemma_end_is_forced(body, q - start, point, end);
                }
            }
        }
    }
    well_formed
}

/// The kind of the token `s`.
pub fn classify(s: &str) -> (r: NumericKind)
    ensures
        r == kind_of(s@),
{
    if is_integer_str(s) {
        NumericKind::Integer
    } else if is_float_str(s) {
        NumericKind::Float
    } else {
        NumericKind::Invalid
    }
}

/// Whether `s` is zero as written.
pub fn is_textual_zero_str(s: &str) -> (r: bool)
    ensures
        r == is_textual_zero(s@),
{
    let chars = to_chars(s);
    let n = chars.len();
    let mut i: usize = 0;
    while i < n
        invariant
            i <= n,
            n == chars.len(),
            chars@ == s@,
            forall|k: int| 0 <= k < i ==> #[trigger] s@[k] == '0' || s@[k] == DOT,
        decreases n - i,
    {
        if chars[i] != '0' && chars[i] != DOT {
            return false;
        }
        i += 1;
    }
    true
}

/// Whether `s` is a divisor that is zero.
pub fn is_zero_divisor_str(s: &str) -> (r: bool)
    ensures
        r == is_zero_divisor(s@),
{
    if is_textual_zero_str(s) {
        true
    } else {
        match parse_integer(s) {
            Some(value) => value == 0,
            None => false,
        }
    }
}

/// A run of digits denotes no negative number.
pub proof fn lemma_decimal_value_nonnegative(s: Seq<char>)
    requires
        all_digits(s),
    ensures
        decimal_value(s) >= 0,
    decreases s.len(),
{
    if s.len() > 0 {
        lemma_decimal_value_nonnegative(s.drop_last());
    }
}

/// A run of digits denotes at least what any of its prefixes denotes.
pub proof fn lemma_decimal_value_grows(s: Seq<char>, k: int)
    requires
        all_digits(s),
        0 <= k <= s.len(),
    ensures
        decimal_value(s.take(k)) <= decimal_value(s),
    decreases s.len() - k,
{
    if k == s.len() {
        assert(s.take(k) =~= s);
    } else {
        let shorter = s.drop_last();
        lemma_decimal_value_grows(shorter, k);
        lemma_decimal_value_nonnegative(shorter);
        assert(shorter.take(k) =~= s.take(k));
    }
}

/// A run of digits denotes zero exactly where it is zero as written.
pub proof fn lemma_zero_is_textual_zero(s: Seq<char>)
    requires
        all_digits(s),
    ensures
        decimal_value(s) == 0 <==> is_textual_zero(s),
    decreases s.len(),
{
    if s.len() > 0 {
        let shorter = s.drop_last();
        lemma_zero_is_textual_zero(shorter);
        if decimal_value(s) == 0 {
            assert forall|i: int| 0 <= i < s.len() implies #[trigger] s[i] == '0' || s[i]
                == DOT by {
                if i < s.len() - 1 {
                    assert(s[i] == shorter[i]);
                }
            }
        }
        if is_textual_zero(s) {
            assert forall|i: int| 0 <= i < shorter.len() implies #[trigger] shorter[i] == '0'
                || shorter[i] == DOT by {
                assert(shorter[i] == s[i]);
            }
        }
    }
}

/// A whole number is a zero divisor exactly where its value is 0.
pub proof fn lemma_zero_divisor_of_whole(s: Seq<char>)
    requires
        is_integer_text(s),
    ensures
        is_zero_divisor(s) <==> integer_value(s) == 0,
{
    if is_textual_zero(s) {
        assert(!has_sign(s));
        lemma_zero_is_textual_zero(s);
    }
}

/// No text is a whole number and a fractional one at once: every token
/// has exactly one kind.
pub proof fn lemma_whole_is_not_fractional(s: Seq<char>)
    requires
        is_integer_text(s),
    ensures
        !is_float_text(s),
{
    let body = unsigned_part(s);
    assert forall|point: int, end: int| !is_fraction_at(body, point, end) by {
        if is_fraction_at(body, point, end) {
            assert(is_digit(body[point]));
        }
    }
}

/// An optionally signed run of digits holds nothing but signs and digits.
pub proof fn lemma_signed_digits_chars(s: Seq<char>)
    requires
        all_digits(unsigned_part(s)),
    ensures
        forall|i: int| 0 <= i < s.len() ==> is_number_char(#[trigger] s[i]),
{
    assert forall|i: int| 0 <= i < s.len() implies is_number_char(#[trigger] s[i]) by {
        if has_sign(s) && i > 0 {
            assert(s[i] == unsigned_part(s)[i - 1]);
        }
    }
}

/// A number holds nothing but the characters that numbers are written
/// with: no space and no comma among them.
pub proof fn lemma_number_chars(s: Seq<char>)
    requires
        is_number_text(s),
    ensures
        forall|i: int| 0 <= i < s.len() ==> is_number_char(#[trigger] s[i]),
{
    if is_integer_text(s) {
        lemma_signed_digits_chars(s);
    } else {
        let body = unsigned_part(s);
        let (point, end) = choose|point: int, end: int| is_fraction_at(body, point, end);
        assert forall|j: int| 0 <= j < body.len() implies is_number_char(#[trigger] body[j]) by {
            if j < point {
                assert(body[j] == body.take(point)[j]);
            } else if point < j < end {
                assert(body[j] == body.subrange(point + 1, end)[j - point - 1]);
            } else if j >= end {
                let exponent = body.skip(end);
                if j > end {
                    lemma_signed_digits_chars(exponent.drop_first());
                    assert(exponent[j - end] == exponent.drop_first()[j - end - 1]);
                }
            }
        }
        assert forall|i: int| 0 <= i < s.len() implies is_number_char(#[trigger] s[i]) by {
            if has_sign(s) && i > 0 {
                assert(s[i] == body[i - 1]);
            }
        }
    }
}

/// In a fractional literal the point stands where the leading digits end.
pub proof fn lemma_point_is_forced(body: Seq<char>, p: int, point: int, end: int)
    requires
        0 <= p <= body.len(),
        all_digits(body.take(p)),
        p == body.len() || !is_digit(body[p]),
        is_fraction_at(body, point, end),
    ensures
        point == p,
{
    if point < p {
        assert(is_digit(body.take(p)[point]));
    } else if point > p {
        assert(is_digit(body.take(point)[p]));
    }
}

/// In a fractional literal the digits after the point end where the
/// exponent begins, or the literal ends.
pub proof fn lemma_end_is_forced(body: Seq<char>, q: int, point: int, end: int)
    requires
        point < q <= body.len(),
        all_digits(body.subrange(point + 1, q)),
        q == body.len() || !is_digit(body[q]),
        is_fraction_at(body, point, end),
    ensures
        end == q,
{
    if end > q {
        assert(is_digit(body.subrange(point + 1, end)[q - point - 1]));
    } else if end < q {
        assert(is_digit(body.subrange(point + 1, q)[end - point - 1]));
    }
}

} // verus!
