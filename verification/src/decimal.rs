//! Decimal notation: the value a run of digits denotes, and the digits that
//! denote a value.

use vstd::prelude::*;
use crate::chars::is_ascii_digit;

verus! {

/// Why a run of numeric characters denotes no 32-bit signed integer.
#[derive(PartialEq, Eq, Structural, Clone, Copy, Debug)]
pub enum NumberError {
    /// Some character of the run is not one of the ten ASCII digits.
    InvalidDigit,
    /// The digits denote a value above `i32::MAX`.
    Overflow,
}

/// The value of the digit `c`.
pub open spec fn digit_value(c: char) -> nat
    recommends
        is_ascii_digit(c),
{
    (c as nat - '0' as nat) as nat
}

/// The digit whose value is `d`.
pub open spec fn digit_char(d: nat) -> char
    recommends
        d < 10,
{
    ('0' as nat + d) as char
}

/// Whether every character of `text` is a decimal digit.
pub open spec fn all_digits(text: Seq<char>) -> bool {
    forall|i: int| 0 <= i < text.len() ==> is_ascii_digit(#[trigger] text[i])
}

/// The number that `text` denotes in base ten; the empty text denotes zero.
pub open spec fn decimal_value(text: Seq<char>) -> nat
    recommends
        all_digits(text),
    decreases text.len(),
{
    if text.len() == 0 {
        0
    } else {
        decimal_value(text.drop_last()) * 10 + digit_value(text.last())
    }
}

/// The shortest run of digits that denotes `n`.
pub open spec fn decimal_digits(n: nat) -> Seq<char>
    decreases n,
{
    if n < 10 {
        seq![digit_char(n)]
    } else {
        decimal_digits(n / 10).push(digit_char(n % 10))
    }
}

/// Decimal notation of a signed value: a minus sign before the digits of a
/// negative one.
pub open spec fn decimal_text(value: int) -> Seq<char> {
    if value < 0 {
        seq!['-'] + decimal_digits((-value) as nat)
    } else {
        decimal_digits(value as nat)
    }
}

/// What reading `text` as a 32-bit signed integer gives.
pub open spec fn parse_decimal(text: Seq<char>) -> Result<i32, NumberError> {
    if !all_digits(text) {
        Err(NumberError::InvalidDigit)
    } else if decimal_value(text) > i32::MAX {
        Err(NumberError::Overflow)
    } else {
        Ok(decimal_value(text) as i32)
    }
}

/// Reads `text` as a 32-bit signed integer written in decimal digits.
pub fn parse_i32(text: &str) -> (r: Result<i32, NumberError>)
    ensures
        r == parse_decimal(text@),
{
    let n: usize = text.unicode_len();
    let mut value: i32 = 0;
    let mut overflow: bool = false;
    let mut i: usize = 0;
    while i < n
        invariant
            n == text@.len(),
            0 <= i <= n,
            all_digits(text@.subrange(0, i as int)),
            !overflow ==> value == decimal_value(text@.subrange(0, i as int)),
            overflow ==> decimal_value(text@.subrange(0, i as int)) > i32::MAX,
            value >= 0,
        decreases n - i,
    {
        let c: char = text.get_char(i);
        if !(c >= '0' && c <= '9') {
            proof {
                assert(!is_ascii_digit(text@[i as int]));
            }
            return Err(NumberError::InvalidDigit);
        }
        let d: i32 = (c as u32 - '0' as u32) as i32;
        proof {
            let longer = text@.subrange(0, i + 1);
            assert(longer.drop_last() =~= text@.subrange(0, i as int));
            assert(longer.last() == c);
            assert(d == digit_value(c));
            assert forall|j: int| 0 <= j < longer.len() implies is_ascii_digit(
                #[trigger] longer[j],
            ) by {
                if j < i {
                    assert(longer[j] == text@.subrange(0, i as int)[j]);
                }
            }
        }
        if !overflow {
            if value > (i32::MAX - d) / 10 {
                overflow = true;
            } else {
                value = value * 10 + d;
            }
        }
        i += 1;
    }
    proof {
        assert(text@.subrange(0, n as int) =~= text@);
    }
    if overflow {
        Err(NumberError::Overflow)
    } else {
        Ok(value)
    }
}

/// The one-character text of the digit whose value is `d`.
fn digit_str(d: u32) -> (s: &'static str)
    requires
        d < 10,
    ensures
        s@ == seq![digit_char(d as nat)],
{
    proof {
        reveal_strlit("0");
        reveal_strlit("1");
        reveal_strlit("2");
        reveal_strlit("3");
        reveal_strlit("4");
        reveal_strlit("5");
        reveal_strlit("6");
        reveal_strlit("7");
        reveal_strlit("8");
        reveal_strlit("9");
    }
    let s = match d {
        0 => "0",
        1 => "1",
        2 => "2",
        3 => "3",
        4 => "4",
        5 => "5",
        6 => "6",
        7 => "7",
        8 => "8",
        _ => "9",
    };
    assert(s@ =~= seq![digit_char(d as nat)]);
    s
}

/// Writes `n` in decimal digits.
pub fn render_u32(n: u32) -> (text: String)
    ensures
        text@ == decimal_digits(n as nat),
    decreases n,
{
    if n < 10 {
        String::from_str(digit_str(n))
    } else {
        let mut text = render_u32(n / 10);
        text.append(digit_str(n % 10));
        assert(text@ =~= decimal_digits(n as nat));
        text
    }
}

/// Writes `value` in decimal notation.
pub fn render_i32(value: i32) -> (text: String)
    ensures
        text@ == decimal_text(value as int),
{
    if value < 0 {
        proof {
            reveal_strlit("-");
        }
        let magnitude: u32 = (-(value as i64)) as u32;
        let text = String::from_str("-").concat(render_u32(magnitude).as_str());
        assert(text@ =~= decimal_text(value as int));
        text
    } else {
        render_u32(value as u32)
    }
}

/// Decimal notation reads back: the digits written for `n` are digits, and
/// they denote `n`.
pub proof fn lemma_digits_denote(n: nat)
    ensures
        all_digits(decimal_digits(n)),
        decimal_digits(n).len() > 0,
        decimal_value(decimal_digits(n)) == n,
    decreases n,
{
    let text = decimal_digits(n);
    if n < 10 {
        assert(text.drop_last() =~= Seq::<char>::empty());
        assert(decimal_value(text.drop_last()) == 0);
        assert(text.last() == digit_char(n));
    } else {
        lemma_digits_denote(n / 10);
        assert(text.drop_last() =~= decimal_digits(n / 10));
        assert(text.last() == digit_char(n % 10));
    }
}

/// Reading what was written for a value that is not negative gives the value
/// back.
pub proof fn theorem_parse_undoes_render(value: i32)
    requires
        value >= 0,
    ensures
        parse_decimal(decimal_text(value as int)) == Ok::<i32, NumberError>(value),
{
    lemma_digits_denote(value as nat);
}

} // verus!
