//! Reading one field of a payload by a field description: where its bytes
//! stand, and what they say as a whole number or as text.

use crate::payload_field::PayloadField;
use crate::text::{bytes_as_chars, digits_value, is_digit, push_char};
use vstd::prelude::*;
use vstd::slice::slice_subrange;

verus! {

/// How many ASCII digits `bytes` open with.
pub open spec fn digit_run(bytes: Seq<u8>) -> nat
    decreases bytes.len(),
{
    if bytes.len() > 0 && is_digit(bytes.first()) {
        1 + digit_run(bytes.drop_first())
    } else {
        0
    }
}

/// The number that the digits spell which `bytes` open with; zero where
/// they open with none.
pub open spec fn leading_number(bytes: Seq<u8>) -> int {
    digits_value(bytes.take(digit_run(bytes) as int))
}

/// `bytes` open with a minus sign.
pub open spec fn is_negative(bytes: Seq<u8>) -> bool {
    bytes.len() > 0 && bytes[0] == '-' as u8
}

/// The digits of `bytes`, behind the minus sign where there is one.
pub open spec fn unsigned_part(bytes: Seq<u8>) -> Seq<u8> {
    if is_negative(bytes) {
        bytes.drop_first()
    } else {
        bytes
    }
}

/// The whole number that `bytes` open with: an optional minus sign and the
/// digits that follow it. What stands behind the digits is not read.
pub open spec fn leading_int(bytes: Seq<u8>) -> int {
    if is_negative(bytes) {
        -leading_number(unsigned_part(bytes))
    } else {
        leading_number(unsigned_part(bytes))
    }
}

/// The number that `bytes` open with can be held in an `i32`, sign apart.
pub open spec fn fits_i32(bytes: Seq<u8>) -> bool {
    leading_number(unsigned_part(bytes)) <= i32::MAX
}

/// `bytes` open with exactly `n` digits.
pub proof fn lemma_digit_run(bytes: Seq<u8>, n: nat)
    requires
        n <= bytes.len(),
        forall|k: int| 0 <= k < n ==> is_digit(#[trigger] bytes[k]),
        n == bytes.len() || !is_digit(bytes[n as int]),
    ensures
        digit_run(bytes) == n,
    decreases n,
{
    if n > 0 {
        assert(is_digit(bytes[0]));
        let rest = bytes.drop_first();
        assert forall|k: int| 0 <= k < n - 1 implies is_digit(#[trigger] rest[k]) by {
            assert(rest[k] == bytes[k + 1]);
        }
        lemma_digit_run(rest, (n - 1) as nat);
    }
}

/// The number that digits spell is not negative, and does not shrink when a
/// digit is added.
pub proof fn lemma_digits_value_grows(digits: Seq<u8>, shorter: int)
    requires
        0 <= shorter <= digits.len(),
        forall|k: int| 0 <= k < digits.len() ==> is_digit(#[trigger] digits[k]),
    ensures
        0 <= digits_value(digits.take(shorter)) <= digits_value(digits),
    decreases digits.len(),
{
    if digits.len() == 0 {
        assert(digits.take(shorter) =~= digits);
    } else if shorter == digits.len() {
        assert(digits.take(shorter) =~= digits);
        lemma_digits_value_grows(digits.drop_last(), shorter - 1);
        assert(is_digit(digits.last()));
    } else {
        let front = digits.drop_last();
        assert(front.take(shorter) =~= digits.take(shorter));
        lemma_digits_value_grows(front, shorter);
        assert(is_digit(digits.last()));
    }
}

/// The number that the digits of `bytes` spell from `start` on, or `None`
/// where it is beyond `i32`.
fn leading_magnitude(bytes: &[u8], start: usize) -> (res: Option<i32>)
    requires
        start <= bytes@.len(),
    ensures
        res is Some <==> leading_number(bytes@.skip(start as int)) <= i32::MAX,
        res matches Some(v) ==> 0 <= v == leading_number(bytes@.skip(start as int)),
{
    let ghost body = bytes@.skip(start as int);
    let mut result: i32 = 0;
    let mut i: usize = start;
    while i < bytes.len() && bytes[i] >= '0' as u8 && bytes[i] <= '9' as u8
        invariant
            start <= i <= bytes@.len(),
            body == bytes@.skip(start as int),
            forall|k: int| 0 <= k < i - start ==> is_digit(#[trigger] body[k]),
            result == digits_value(body.take(i - start)),
            0 <= result,
        decreases bytes@.len() - i,
    {
        let digit: i32 = (bytes[i] - '0' as u8) as i32;
        proof {
            let longer = body.take(i - start + 1);
            assert(longer.drop_last() =~= body.take(i - start));
            assert(longer.last() == bytes@[i as int]);
        }
        if result > (i32::MAX - digit) / 10 {
            proof {
                let longer = body.take(i - start + 1);
                assert(digits_value(longer) > i32::MAX);
                lemma_leading_number_at_least(body, (i - start + 1) as nat);
            }
            return None;
        }
        result = result * 10 + digit;
        i += 1;
    }
    proof {
        lemma_digit_run(body, (i - start) as nat);
    }
    Some(result)
}

/// The number that `bytes` open with is at least what any of its leading
/// digits spell.
pub proof fn lemma_leading_number_at_least(bytes: Seq<u8>, n: nat)
    requires
        n <= bytes.len(),
        forall|k: int| 0 <= k < n ==> is_digit(#[trigger] bytes[k]),
    ensures
        n <= digit_run(bytes),
        digits_value(bytes.take(n as int)) <= leading_number(bytes),
{
    lemma_digit_run_covers(bytes, n);
    let run = digit_run(bytes);
    let digits = bytes.take(run as int);
    lemma_digit_run_is_digits(bytes);
    assert(digits.take(n as int) =~= bytes.take(n as int));
    lemma_digits_value_grows(digits, n as int);
}

/// Digits that `bytes` open with are part of its digit run.
pub proof fn lemma_digit_run_covers(bytes: Seq<u8>, n: nat)
    requires
        n <= bytes.len(),
        forall|k: int| 0 <= k < n ==> is_digit(#[trigger] bytes[k]),
    ensures
        n <= digit_run(bytes),
    decreases n,
{
    if n > 0 {
        assert(is_digit(bytes[0]));
        let rest = bytes.drop_first();
        assert forall|k: int| 0 <= k < n - 1 implies is_digit(#[trigger] rest[k]) by {
            assert(rest[k] == bytes[k + 1]);
        }
        lemma_digit_run_covers(rest, (n - 1) as nat);
    }
}

/// The digit run of `bytes` is within `bytes`, and holds digits only.
pub proof fn lemma_digit_run_is_digits(bytes: Seq<u8>)
    ensures
        digit_run(bytes) <= bytes.len(),
        forall|k: int| 0 <= k < digit_run(bytes) ==> is_digit(#[trigger] bytes[k]),
        forall|k: int|
            0 <= k < digit_run(bytes) ==> is_digit(
                #[trigger] bytes.take(digit_run(bytes) as int)[k],
            ),
    decreases bytes.len(),
{
    if bytes.len() > 0 && is_digit(bytes.first()) {
        let rest = bytes.drop_first();
        lemma_digit_run_is_digits(rest);
        assert forall|k: int| 0 <= k < digit_run(bytes) implies is_digit(#[trigger] bytes[k]) by {
            if k > 0 {
                assert(bytes[k] == rest[k - 1]);
            }
        }
    }
}

fn has_minus(bytes: &[u8]) -> (res: bool)
    ensures
        res == is_negative(bytes@),
{
    bytes.len() > 0 && bytes[0] == '-' as u8
}

/// The whole number that `bytes` open with, or `None` where it cannot be
/// held in an `i32`.
pub fn try_bytes_to_i32(bytes: &[u8]) -> (res: Option<i32>)
    ensures
        res is Some <==> fits_i32(bytes@),
        res matches Some(v) ==> v == leading_int(bytes@),
{
    if has_minus(bytes) {
        match leading_magnitude(bytes, 1) {
            Some(v) => Some(-v),
            None => None,
        }
    } else {
        assert(bytes@.skip(0) =~= bytes@);
        leading_magnitude(bytes, 0)
    }
}

/// The whole number that `bytes` open with: an optional minus sign, then
/// digits. Bytes without a leading digit give zero.
pub fn bytes_to_i32(bytes: &[u8]) -> (res: i32)
    requires
        fits_i32(bytes@),
    ensures
        res == leading_int(bytes@),
{
    match try_bytes_to_i32(bytes) {
        Some(v) => v,
        None => 0,
    }
}

/// The text in which each byte of `bytes` stands for the character of the
/// same number.
pub fn bytes_to_string(bytes: &[u8]) -> (res: String)
    ensures
        res@ == bytes_as_chars(bytes@),
{
    let mut text = String::new();
    let mut i: usize = 0;
    while i < bytes.len()
        invariant
            i <= bytes@.len(),
            text@ == bytes_as_chars(bytes@.take(i as int)),
        decreases bytes@.len() - i,
    {
        push_char(&mut text, bytes[i] as char);
        proof {
            assert(bytes@.take(i + 1) =~= bytes@.take(i as int).push(bytes@[i as int]));
            assert(bytes_as_chars(bytes@.take(i + 1)) =~= bytes_as_chars(
                bytes@.take(i as int),
            ).push(bytes@[i as int] as char));
        }
        i += 1;
    }
    assert(bytes@.take(i as int) =~= bytes@);
    text
}

/// Where the bytes of a field stand in a payload: from the start point of
/// the field to its cumulative length.
pub open spec fn field_of(payload: Seq<u8>, field: PayloadField) -> Option<Seq<u8>> {
    if field.cumulative_length < 0 || payload.len() < field.cumulative_length {
        None
    } else {
        Some(payload.subrange(field.start_point as int, field.cumulative_length as int))
    }
}

/// The bytes of `field` in `payload`, or `None` where the payload ends
/// before the field does.
pub fn field_bytes<'a>(payload: &'a [u8], field: &PayloadField) -> (res: Option<&'a [u8]>)
    requires
        0 <= field.cumulative_length <= payload@.len() ==> 0 <= field.start_point
            <= field.cumulative_length,
    ensures
        res is None <==> field.cumulative_length < 0 || payload@.len() < field.cumulative_length,
        (match res {
            Some(bytes) => Some(bytes@),
            None => None,
        }) == field_of(payload@, *field),
{
    if field.cumulative_length < 0 {
        return None;
    }
    let end: usize = field.cumulative_length as usize;
    if payload.len() < end {
        return None;
    }
    Some(slice_subrange(payload, field.start_point as usize, end))
}

} // verus!
