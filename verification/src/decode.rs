//! Turning the text of a reply into the value that the caller expects.

use vstd::prelude::*;
use crate::decimal::{
    all_digits, decimal, digit_value, digits_value, is_digit, lemma_decimal_is_digits,
    lemma_decimal_value,
};

verus! {

/// Why a text is not an unsigned 32-bit number.
#[derive(Debug, Clone, Copy, PartialEq, Eq)]
pub enum ParseFault {
    /// The text has no characters.
    Empty,
    /// A character stands where a digit is expected.
    InvalidDigit,
    /// The digits denote more than `u32::MAX`.
    PosOverflow,
}

/// The part of `text` that must consist of digits: the text without a
/// leading `+`, where something follows that `+`.
pub open spec fn unsigned_body(text: Seq<char>) -> Seq<char> {
    if text.len() >= 2 && text[0] == '+' {
        text.skip(1)
    } else {
        text
    }
}

/// The fault that reading `digits` from the left runs into first, if any:
/// a character that is no digit, or a digit with which the number read so
/// far no longer fits in 32 bits.
pub open spec fn first_fault(digits: Seq<char>) -> Option<ParseFault>
    decreases digits.len(),
{
    if digits.len() == 0 {
        None
    } else {
        match first_fault(digits.drop_last()) {
            Some(fault) => Some(fault),
            None => if !is_digit(digits.last()) {
                Some(ParseFault::InvalidDigit)
            } else if digits_value(digits) > u32::MAX {
                Some(ParseFault::PosOverflow)
            } else {
                None
            },
        }
    }
}

/// What `text` decodes to as an unsigned 32-bit number.
pub open spec fn decode_outcome(text: Seq<char>) -> Result<u32, ParseFault> {
    if text.len() == 0 {
        Err(ParseFault::Empty)
    } else {
        match first_fault(unsigned_body(text)) {
            Some(fault) => Err(fault),
            None => Ok(digits_value(unsigned_body(text)) as u32),
        }
    }
}

/// A fault within a prefix is the fault of the whole text.
pub proof fn lemma_fault_persists(digits: Seq<char>, k: int)
    requires
        0 <= k <= digits.len(),
        first_fault(digits.take(k)) is Some,
    ensures
        first_fault(digits) == first_fault(digits.take(k)),
    decreases digits.len(),
{
    if k == digits.len() {
        assert(digits.take(k) =~= digits);
    } else {
        assert(digits.drop_last().take(k) =~= digits.take(k));
        lemma_fault_persists(digits.drop_last(), k);
    }
}

/// Reading runs into no fault exactly when the text holds digits only and
/// the number they denote fits in 32 bits.
pub proof fn lemma_no_fault(digits: Seq<char>)
    ensures
        first_fault(digits) is None <==> all_digits(digits) && digits_value(digits) <= u32::MAX,
    decreases digits.len(),
{
    if digits.len() > 0 {
        let front = digits.drop_last();
        lemma_no_fault(front);
        if all_digits(digits) {
            assert forall|i: int| 0 <= i < front.len() implies is_digit(#[trigger] front[i]) by {
                assert(front[i] == digits[i]);
            }
        }
        if all_digits(front) && is_digit(digits.last()) {
            assert forall|i: int| 0 <= i < digits.len() implies is_digit(#[trigger] digits[i]) by {
                if i < front.len() {
                    assert(digits[i] == front[i]);
                }
            }
        }
    }
}

/// A text is accepted exactly when it is a run of one or more digits that
/// denotes at most `u32::MAX`, with or without a `+` before it, and the
/// value is then the number that the digits denote.
pub proof fn lemma_decode_accepts(text: Seq<char>)
    ensures
        decode_outcome(text) is Ok <==> {
            &&& text.len() > 0
            &&& all_digits(unsigned_body(text))
            &&& digits_value(unsigned_body(text)) <= u32::MAX
        },
        decode_outcome(text) matches Ok(v) ==> v == digits_value(unsigned_body(text)),
{
    lemma_no_fault(unsigned_body(text));
}

/// Decoding the decimal notation of a number that fits in 32 bits gives
/// that number back.
pub proof fn lemma_decode_decimal(n: u32)
    ensures
        decode_outcome(decimal(n as nat)) == Ok::<u32, ParseFault>(n),
{
    let text = decimal(n as nat);
    lemma_decimal_is_digits(n as nat);
    lemma_decimal_value(n as nat);
    assert(is_digit(text[0]));
    assert(unsigned_body(text) == text);
    lemma_no_fault(text);
}

/// The number that the digit `c` stands for, or `None` for any other
/// character.
pub fn digit_of(c: char) -> (d: Option<u32>)
    ensures
        d is Some <==> is_digit(c),
        d matches Some(v) ==> v == digit_value(c),
{
    if '0' <= c && c <= '9' {
        Some(c as u32 - '0' as u32)
    } else {
        None
    }
}

/// Decodes `text` as an unsigned 32-bit number in decimal notation.
///
/// A `+` may stand before the digits. Nothing else may: no sign alone, no
/// blank, no separator.
pub fn decode_unsigned(text: &str) -> (r: Result<u32, ParseFault>)
    ensures
        r == decode_outcome(text@),
{
    let mut at_start = true;
    let mut signed = false;
    let mut seen_digit = false;
    let mut value: u32 = 0;
    for c in it: text.chars()
        invariant
            it.seq() == text@,
            at_start <==> it.index() == 0,
            signed ==> it.index() >= 1 && text@[0] == '+',
            !signed && !at_start ==> text@[0] != '+',
            seen_digit <==> it.index() > (if signed { 1int } else { 0int }),
            first_fault(text@.subrange(if signed { 1int } else { 0int }, it.index() as int)) is None,
            value == digits_value(text@.subrange(if signed { 1int } else { 0int }, it.index() as int)),
    {
        let ghost k = it.index() as int;
        let ghost b = if signed { 1int } else { 0int };
        assert(c == text@[k]);
        if at_start && c == '+' {
            signed = true;
            assert(text@.subrange(1, 1) =~= Seq::<char>::empty());
        } else {
            let ghost body = unsigned_body(text@);
            let ghost read = text@.subrange(b, k + 1);
            assert(body =~= text@.subrange(b, text@.len() as int));
            assert(body.take(k + 1 - b) =~= read);
            assert(read.drop_last() =~= text@.subrange(b, k));
            assert(read.last() == c);
            match digit_of(c) {
                None => {
                    proof {
                        lemma_fault_persists(body, k + 1 - b);
                    }
                    return Err(ParseFault::InvalidDigit);
                },
                Some(d) => {
                    let wide: u64 = value as u64 * 10 + d as u64;
                    if wide > u32::MAX as u64 {
                        proof {
                            lemma_fault_persists(body, k + 1 - b);
                        }
                        return Err(ParseFault::PosOverflow);
                    }
                    value = wide as u32;
                    seen_digit = true;
                },
            }
        }
        at_start = false;
    }
    if at_start {
        Err(ParseFault::Empty)
    } else if !seen_digit {
        assert(unsigned_body(text@) =~= text@);
        assert(text@.drop_last() =~= Seq::<char>::empty());
        Err(ParseFault::InvalidDigit)
    } else {
        assert(unsigned_body(text@) =~= text@.subrange(
            if signed { 1int } else { 0int },
            text@.len() as int,
        ));
        Ok(value)
    }
}

/// Decodes `text` as text: every reply is one, and none is changed.
pub fn decode_text(text: String) -> (r: Result<String, ParseFault>)
    ensures
        r == Ok::<String, ParseFault>(text),
{
    Ok(text)
}

} // verus!
