//! Writing integers out: in decimal, and in hexadecimal for the codes of
//! the diagnostics.

use crate::number::{
    all_digits,
    decimal_value,
    integer_value,
    is_digit,
    is_integer_text,
    unsigned_part,
};
use vstd::prelude::*;

verus! {

/// The decimal digit that stands for `d`, for `0 <= d < 10`.
pub open spec fn digit_char(d: int) -> char {
    (d + '0' as int) as char
}

/// The shortest run of decimal digits that denotes `n`.
pub open spec fn decimal_text(n: nat) -> Seq<char>
    decreases n,
{
    if n < 10 {
        seq![digit_char(n as int)]
    } else {
        decimal_text(n / 10).push(digit_char((n % 10) as int))
    }
}

/// The decimal text of an integer: a `-` in front of a negative one, no
/// sign otherwise.
pub open spec fn integer_text(v: int) -> Seq<char> {
    if v < 0 {
        seq!['-'] + decimal_text((-v) as nat)
    } else {
        decimal_text(v as nat)
    }
}

/// The lower-case hexadecimal digit that stands for `d`, for
/// `0 <= d < 16`.
pub open spec fn hex_digit_char(d: int) -> char {
    if d < 10 {
        digit_char(d)
    } else {
        (d - 10 + 'a' as int) as char
    }
}

/// The shortest run of lower-case hexadecimal digits that denotes `n`.
pub open spec fn hex_text(n: nat) -> Seq<char>
    decreases n,
{
    if n < 16 {
        seq![hex_digit_char(n as int)]
    } else {
        hex_text(n / 16).push(hex_digit_char((n % 16) as int))
    }
}

/// The 64 bits of `v` in two's complement, read as a natural number.
pub open spec fn twos_complement(v: int) -> nat {
    if v < 0 {
        (v + 0x1_0000_0000_0000_0000) as nat
    } else {
        v as nat
    }
}

/// The one-character text of the decimal digit `d`.
pub fn digit_str(d: u8) -> (r: &'static str)
    requires
        d < 10,
    ensures
        r@ == seq![digit_char(d as int)],
{
    proof {
        reveal_strlit("0");
        reveal_strlit("1");
        reveal_strlit("2");
        reveal_strlit("3");
        reveal_strlit("4");
        reveal_strlit("5");
        reveal_strlit("6");
        reveal_strlit("7");
        reveal_strlit("8");
        reveal_strlit("9");
    }
    let r = if d == 0 {
        "0"
    } else if d == 1 {
        "1"
    } else if d == 2 {
        "2"
    } else if d == 3 {
        "3"
    } else if d == 4 {
        "4"
    } else if d == 5 {
        "5"
    } else if d == 6 {
        "6"
    } else if d == 7 {
        "7"
    } else if d == 8 {
        "8"
    } else {
        "9"
    };
    r
}

/// The one-character text of the hexadecimal digit `d`.
pub fn hex_digit_str(d: u8) -> (r: &'static str)
    requires
        d < 16,
    ensures
        r@ == seq![hex_digit_char(d as int)],
{
    if d < 10 {
        digit_str(d)
    } else {
        proof {
            reveal_strlit("a");
            reveal_strlit("b");
            reveal_strlit("c");
            reveal_strlit("d");
            reveal_strlit("e");
            reveal_strlit("f");
        }
        let r = if d == 10 {
            "a"
        } else if d == 11 {
            "b"
        } else if d == 12 {
            "c"
        } else if d == 13 {
            "d"
        } else if d == 14 {
            "e"
        } else {
            "f"
        };
        r
    }
}

/// Appends the decimal text of `n` to `out`.
pub fn push_decimal(out: &mut String, n: u64)
    ensures
        final(out)@ == old(out)@ + decimal_text(n as nat),
    decreases n,
{
    if n >= 10 {
        push_decimal(out, n / 10);
    }
    out.append(digit_str((n % 10) as u8));
}

/// Appends the hexadecimal text of `n` to `out`.
pub fn push_hex(out: &mut String, n: u64)
    ensures
        final(out)@ == old(out)@ + hex_text(n as nat),
    decreases n,
{
    if n >= 16 {
        push_hex(out, n / 16);
    }
    out.append(hex_digit_str((n % 16) as u8));
}

/// The 64 bits of `v` in two's complement.
pub fn bits_of(v: i64) -> (r: u64)
    ensures
        r == twos_complement(v as int),
{
    if v < 0 {
        (v as i128 + 0x1_0000_0000_0000_0000i128) as u64
    } else {
        v as u64
    }
}

/// The decimal text of `v`.
pub fn format_integer(v: i64) -> (r: String)
    ensures
        r@ == integer_text(v as int),
{
    let mut out = String::new();
    if v < 0 {
        out.append("-");
        proof {
            reveal_strlit("-");
        }
        let magnitude: u64 = (-(v as i128)) as u64;
        push_decimal(&mut out, magnitude);
    } else {
        push_decimal(&mut out, v as u64);
    }
    out
}

/// The decimal text of a natural number is a run of digits that denotes
/// it.
pub proof fn lemma_decimal_text_denotes(n: nat)
    ensures
        decimal_text(n).len() >= 1,
        all_digits(decimal_text(n)),
        decimal_value(decimal_text(n)) == n,
    decreases n,
{
    if n < 10 {
        let text = decimal_text(n);
        assert(decimal_value(text.drop_last()) == 0);
    } else {
        lemma_decimal_text_denotes(n / 10);
        let text = decimal_text(n);
        assert(text.drop_last() =~= decimal_text(n / 10));
        assert forall|i: int| 0 <= i < text.len() implies is_digit(#[trigger] text[i]) by {
            if i < text.len() - 1 {
                assert(text[i] == decimal_text(n / 10)[i]);
            }
        }
    }
}

/// The decimal text of a natural number has no needless zero in front.
pub proof fn lemma_decimal_text_is_shortest(n: nat)
    ensures
        decimal_text(n).len() > 1 ==> decimal_text(n).first() != '0',
    decreases n,
{
    if n >= 10 {
        lemma_decimal_text_is_shortest(n / 10);
        lemma_decimal_text_denotes(n / 10);
        let shorter = decimal_text(n / 10);
        if shorter.len() == 1 {
            assert(decimal_value(shorter.drop_last()) == 0);
        }
    }
}

/// The decimal text of an integer begins with a digit or with `-`.
pub proof fn lemma_integer_text_begins(v: int)
    ensures
        integer_text(v).len() >= 1,
        is_digit(integer_text(v)[0]) || integer_text(v)[0] == '-',
{
    if v >= 0 {
        lemma_decimal_text_denotes(v as nat);
    }
}

/// Writing a signed 64-bit integer out and reading the text again gives
/// the integer back: the text is a whole-number operand and denotes the
/// integer.
pub proof fn lemma_integer_round_trip(v: int)
    requires
        i64::MIN <= v <= i64::MAX,
    ensures
        is_integer_text(integer_text(v)),
        integer_value(integer_text(v)) == v,
{
    let text = integer_text(v);
    if v < 0 {
        lemma_decimal_text_denotes((-v) as nat);
        assert(unsigned_part(text) =~= decimal_text((-v) as nat));
    } else {
        lemma_decimal_text_denotes(v as nat);
    }
}

} // verus!
