//! Reading a percentage from text.

use vstd::prelude::*;
use crate::resize::ResizeError;

verus! {

/// Whether `byte` is an ASCII decimal digit.
pub open spec fn is_digit(byte: u8) -> bool {
    0x30 <= byte <= 0x39
}

/// Whether `text` consists of ASCII decimal digits only.
pub open spec fn all_digits(text: Seq<u8>) -> bool {
    forall|i: int| 0 <= i < text.len() ==> is_digit(#[trigger] text[i])
}

/// The number that a string of decimal digits denotes.
pub open spec fn decimal_value(digits: Seq<u8>) -> nat
    decreases digits.len(),
{
    if digits.len() == 0 {
        0
    } else {
        (decimal_value(digits.drop_last()) * 10 + (digits.last() - 0x30)) as nat
    }
}

/// The digits of a number text: the text without a leading plus sign.
pub open spec fn unsigned_part(text: Seq<u8>) -> Seq<u8> {
    if text.len() > 0 && text[0] == 0x2b {
        text.drop_first()
    } else {
        text
    }
}

/// The percentage that `text` denotes, if it denotes one: a whole number
/// from 1 to 100, written in decimal digits, with or without a leading
/// plus sign.
pub open spec fn percentage_of(text: Seq<u8>) -> Option<nat> {
    let digits = unsigned_part(text);
    if digits.len() >= 1 && all_digits(digits) && 1 <= decimal_value(digits) <= 100 {
        Some(decimal_value(digits))
    } else {
        None
    }
}

/// A string of digits denotes at least what any of its beginnings denotes.
pub proof fn lemma_decimal_value_grows(digits: Seq<u8>, upto: int)
    requires
        all_digits(digits),
        0 <= upto <= digits.len(),
    ensures
        decimal_value(digits.take(upto)) <= decimal_value(digits),
    decreases digits.len() - upto,
{
    if upto == digits.len() {
        assert(digits.take(upto) =~= digits);
    } else {
        lemma_decimal_value_grows(digits, upto + 1);
        let longer = digits.take(upto + 1);
        assert(longer.drop_last() =~= digits.take(upto));
    }
}

/// Reads a percentage: a whole number from 1 to 100, written in decimal
/// digits, with or without a leading plus sign.
///
/// Any other text is refused with `InvalidArgument`.
pub fn parse_percentage(text: &[u8]) -> (result: Result<u32, ResizeError>)
    ensures
        percentage_of(text@) matches Some(value) ==> result == Ok::<u32, ResizeError>(value as u32),
        percentage_of(text@) is None ==> result == Err::<u32, ResizeError>(
            ResizeError::InvalidArgument,
        ),
{
    let start: usize = if text.len() > 0 && text[0] == 0x2b {
        1
    } else {
        0
    };
    let ghost digits = unsigned_part(text@);
    if start == text.len() {
        return Err(ResizeError::InvalidArgument);
    }
    let mut value: u32 = 0;
    let mut at: usize = start;
    while at < text.len()
        invariant
            start <= at <= text.len(),
            digits == unsigned_part(text@),
            digits == text@.subrange(start as int, text@.len() as int),
            all_digits(digits.take(at - start)),
            value == decimal_value(digits.take(at - start)),
            value <= 100,
        decreases text.len() - at,
    {
        let byte: u8 = text[at];
        let ghost seen = digits.take(at - start + 1);
        assert(seen.drop_last() =~= digits.take(at - start));
        assert(digits[at - start] == byte);
        if byte < 0x30 || byte > 0x39 {
            return Err(ResizeError::InvalidArgument);
        }
        value = value * 10 + (byte - 0x30) as u32;
        if value > 100 {
            proof {
                if all_digits(digits) {
                    lemma_decimal_value_grows(digits, at - start + 1);
                }
            }
            return Err(ResizeError::InvalidArgument);
        }
        at += 1;
    }
    assert(digits.take(at - start) =~= digits);
    if value < 1 {
        Err(ResizeError::InvalidArgument)
    } else {
        Ok(value)
    }
}

} // verus!
