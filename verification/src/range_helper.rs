//! Where the instrument code and the distribution index stand in a message.
//!
//! A message opens with a five-byte transaction code. Its first two bytes
//! name the message family; the whole code names the exact message type. The
//! positions of the two fields depend on the code alone. A table keyed by the
//! whole code is consulted before the table keyed by the family.

use crate::text::is_digit;
use std::ops::Range;
use vstd::prelude::*;

verus! {

/// `code` is the five bytes that spell `a b c d e` in ASCII.
pub open spec fn is_code(code: Seq<u8>, a: char, b: char, c: char, d: char, e: char) -> bool {
    &&& code.len() == 5
    &&& code[0] == a as u8
    &&& code[1] == b as u8
    &&& code[2] == c as u8
    &&& code[3] == d as u8
    &&& code[4] == e as u8
}

/// `payload` opens with the two bytes that spell `a b` in ASCII.
pub open spec fn in_family(payload: Seq<u8>, a: char, b: char) -> bool {
    &&& payload.len() >= 2
    &&& payload[0] == a as u8
    &&& payload[1] == b as u8
}

/// `payload` opens with the five bytes that spell `a b c d e` in ASCII.
pub open spec fn has_code(payload: Seq<u8>, a: char, b: char, c: char, d: char, e: char) -> bool {
    payload.len() >= 5 && is_code(payload.take(5), a, b, c, d, e)
}

/// The codes of family `A0` that carry a distribution index.
pub open spec fn is_a0_code(code: Seq<u8>) -> bool {
    ||| is_code(code, 'A', '0', '0', '1', 'S')
    ||| is_code(code, 'A', '0', '0', '2', 'S')
    ||| is_code(code, 'A', '0', '0', '3', 'S')
    ||| is_code(code, 'A', '0', '0', '4', 'S')
    ||| is_code(code, 'A', '0', '0', '1', 'Q')
    ||| is_code(code, 'A', '0', '0', '1', 'X')
    ||| is_code(code, 'A', '0', '0', '1', 'B')
    ||| is_code(code, 'A', '0', '0', '1', 'R')
    ||| is_code(code, 'A', '0', '0', '1', 'F')
    ||| is_code(code, 'A', '0', '0', '2', 'F')
    ||| is_code(code, 'A', '0', '0', '3', 'F')
    ||| is_code(code, 'A', '0', '0', '4', 'F')
    ||| is_code(code, 'A', '0', '0', '5', 'F')
    ||| is_code(code, 'A', '0', '0', '6', 'F')
    ||| is_code(code, 'A', '0', '0', '7', 'F')
    ||| is_code(code, 'A', '0', '0', '8', 'F')
    ||| is_code(code, 'A', '0', '0', '9', 'F')
    ||| is_code(code, 'A', '0', '1', '0', 'F')
    ||| is_code(code, 'A', '0', '1', '1', 'F')
    ||| is_code(code, 'A', '0', '1', '2', 'F')
    ||| is_code(code, 'A', '0', '1', '3', 'F')
    ||| is_code(code, 'A', '0', '1', '5', 'F')
    ||| is_code(code, 'A', '0', '1', '6', 'F')
    ||| is_code(code, 'A', '0', '1', '4', 'F')
    ||| is_code(code, 'A', '0', '0', '1', 'G')
    ||| is_code(code, 'A', '0', '0', '1', 'E')
}

/// The codes of family `B6` that carry a distribution index.
pub open spec fn is_b6_code(code: Seq<u8>) -> bool {
    ||| is_code(code, 'B', '6', '0', '1', 'B')
    ||| is_code(code, 'B', '6', '0', '1', 'K')
    ||| is_code(code, 'B', '6', '0', '1', 'M')
    ||| is_code(code, 'B', '6', '0', '1', 'R')
    ||| is_code(code, 'B', '6', '0', '1', 'F')
    ||| is_code(code, 'B', '6', '0', '2', 'F')
    ||| is_code(code, 'B', '6', '0', '3', 'F')
    ||| is_code(code, 'B', '6', '0', '4', 'F')
    ||| is_code(code, 'B', '6', '0', '5', 'F')
    ||| is_code(code, 'B', '6', '0', '6', 'F')
    ||| is_code(code, 'B', '6', '0', '7', 'F')
    ||| is_code(code, 'B', '6', '0', '8', 'F')
    ||| is_code(code, 'B', '6', '0', '9', 'F')
    ||| is_code(code, 'B', '6', '1', '0', 'F')
    ||| is_code(code, 'B', '6', '1', '1', 'F')
    ||| is_code(code, 'B', '6', '1', '2', 'F')
    ||| is_code(code, 'B', '6', '1', '3', 'F')
    ||| is_code(code, 'B', '6', '1', '4', 'F')
    ||| is_code(code, 'B', '6', '1', '5', 'F')
    ||| is_code(code, 'B', '6', '1', '6', 'F')
    ||| is_code(code, 'B', '6', '0', '1', 'G')
    ||| is_code(code, 'B', '6', '0', '1', 'E')
}

/// The codes of family `G7` that carry a distribution index.
pub open spec fn is_g7_code(code: Seq<u8>) -> bool {
    ||| is_code(code, 'G', '7', '0', '1', 'B')
    ||| is_code(code, 'G', '7', '0', '1', 'K')
    ||| is_code(code, 'G', '7', '0', '1', 'M')
    ||| is_code(code, 'G', '7', '0', '1', 'R')
    ||| is_code(code, 'G', '7', '0', '1', 'F')
    ||| is_code(code, 'G', '7', '0', '2', 'F')
    ||| is_code(code, 'G', '7', '0', '3', 'F')
    ||| is_code(code, 'G', '7', '0', '4', 'F')
    ||| is_code(code, 'G', '7', '0', '5', 'F')
    ||| is_code(code, 'G', '7', '0', '6', 'F')
    ||| is_code(code, 'G', '7', '0', '7', 'F')
    ||| is_code(code, 'G', '7', '0', '8', 'F')
    ||| is_code(code, 'G', '7', '0', '9', 'F')
    ||| is_code(code, 'G', '7', '1', '0', 'F')
    ||| is_code(code, 'G', '7', '1', '1', 'F')
    ||| is_code(code, 'G', '7', '1', '2', 'F')
    ||| is_code(code, 'G', '7', '1', '3', 'F')
    ||| is_code(code, 'G', '7', '1', '4', 'F')
    ||| is_code(code, 'G', '7', '1', '5', 'F')
    ||| is_code(code, 'G', '7', '1', '6', 'F')
    ||| is_code(code, 'G', '7', '0', '1', 'G')
    ||| is_code(code, 'G', '7', '0', '1', 'E')
}

/// The codes of family `A3` that carry a distribution index.
pub open spec fn is_a3_code(code: Seq<u8>) -> bool {
    ||| is_code(code, 'A', '3', '0', '1', 'S')
    ||| is_code(code, 'A', '3', '0', '2', 'S')
    ||| is_code(code, 'A', '3', '0', '3', 'S')
    ||| is_code(code, 'A', '3', '0', '4', 'S')
    ||| is_code(code, 'A', '3', '0', '1', 'Q')
    ||| is_code(code, 'A', '3', '0', '1', 'X')
    ||| is_code(code, 'A', '3', '0', '1', 'B')
    ||| is_code(code, 'A', '3', '0', '1', 'M')
    ||| is_code(code, 'A', '3', '0', '1', 'K')
    ||| is_code(code, 'A', '3', '0', '1', 'F')
    ||| is_code(code, 'A', '3', '0', '2', 'F')
    ||| is_code(code, 'A', '3', '0', '3', 'F')
    ||| is_code(code, 'A', '3', '0', '4', 'F')
    ||| is_code(code, 'A', '3', '0', '5', 'F')
    ||| is_code(code, 'A', '3', '0', '6', 'F')
    ||| is_code(code, 'A', '3', '0', '7', 'F')
    ||| is_code(code, 'A', '3', '0', '8', 'F')
    ||| is_code(code, 'A', '3', '0', '9', 'F')
    ||| is_code(code, 'A', '3', '1', '0', 'F')
    ||| is_code(code, 'A', '3', '1', '1', 'F')
    ||| is_code(code, 'A', '3', '1', '2', 'F')
    ||| is_code(code, 'A', '3', '1', '3', 'F')
    ||| is_code(code, 'A', '3', '1', '4', 'F')
    ||| is_code(code, 'A', '3', '1', '5', 'F')
    ||| is_code(code, 'A', '3', '1', '6', 'F')
    ||| is_code(code, 'A', '3', '0', '1', 'G')
    ||| is_code(code, 'A', '3', '0', '1', 'E')
}

/// The interval `[start, end)` as a value of the standard range type.
pub open spec fn span(start: usize, end: usize) -> Range<usize> {
    Range { start, end }
}

/// Where the instrument code stands in `payload`; `None` where the message
/// type has none.
pub open spec fn instcode_range(payload: Seq<u8>) -> Option<Range<usize>> {
    if has_code(payload, 'B', '6', '0', '5', '4') || has_code(payload, 'B', '6', '0', '4', '4') {
        None
    } else if has_code(payload, 'J', '9', '0', '7', '7') {
        Some(span(13, 25))
    } else if in_family(payload, 'A', '3') || in_family(payload, 'G', '7') || in_family(
        payload,
        'B',
        '6',
    ) {
        Some(span(17, 29))
    } else if in_family(payload, 'B', '7') {
        Some(span(9, 21))
    } else if in_family(payload, 'O', 'A') || in_family(payload, 'A', '6') {
        Some(span(15, 27))
    } else if in_family(payload, 'C', '4') {
        Some(span(7, 19))
    } else if in_family(payload, 'H', '2') {
        Some(span(5, 17))
    } else if in_family(payload, 'H', '1') {
        Some(span(21, 33))
    } else if in_family(payload, 'A', '0') {
        Some(span(27, 39))
    } else if in_family(payload, 'A', '1') {
        Some(span(13, 25))
    } else if in_family(payload, 'H', '6') {
        Some(span(24, 36))
    } else {
        None
    }
}

/// The transaction code of `payload` is one of those that carry a
/// distribution index right behind the code.
pub open spec fn has_indexed_code(payload: Seq<u8>) -> bool {
    let code = payload.take(5);
    payload.len() >= 5 && (is_a0_code(code) || is_b6_code(code) || is_a3_code(code) || is_g7_code(
        code,
    ))
}

/// Where the distribution index stands in `payload`; `None` where the
/// message type has none, or the payload is shorter than a transaction code.
pub open spec fn dist_index_range(payload: Seq<u8>) -> Option<Range<usize>> {
    if payload.len() < 5 {
        None
    } else if has_indexed_code(payload) {
        Some(span(5, 13))
    } else if in_family(payload, 'H', '2') || in_family(payload, 'C', '1') {
        Some(span(17, 23))
    } else if in_family(payload, 'H', '6') || in_family(payload, 'B', '7') {
        Some(span(5, 13))
    } else {
        None
    }
}

fn matches_code(trcode: &[u8; 5], a: char, b: char, c: char, d: char, e: char) -> (res: bool)
    ensures
        res == is_code(trcode@, a, b, c, d, e),
{
    trcode[0] == a as u8 && trcode[1] == b as u8 && trcode[2] == c as u8 && trcode[3] == d as u8
        && trcode[4] == e as u8
}

fn leads_with(payload: &[u8], a: char, b: char) -> (res: bool)
    ensures
        res == in_family(payload@, a, b),
{
    payload.len() >= 2 && payload[0] == a as u8 && payload[1] == b as u8
}

/// The transaction code of `payload`, where it has one.
fn leading_code(payload: &[u8]) -> (res: Option<[u8; 5]>)
    ensures
        res is Some <==> payload@.len() >= 5,
        res matches Some(code) ==> code@ == payload@.take(5),
{
    if payload.len() >= 5 {
        let code: [u8; 5] = [payload[0], payload[1], payload[2], payload[3], payload[4]];
        assert(code@ =~= payload@.take(5));
        Some(code)
    } else {
        None
    }
}

pub fn is_a0(trcode: &[u8; 5]) -> (res: bool)
    ensures
        res == is_a0_code(trcode@),
{
    matches_code(trcode, 'A', '0', '0', '1', 'S')
        || matches_code(trcode, 'A', '0', '0', '2', 'S')
        || matches_code(trcode, 'A', '0', '0', '3', 'S')
        || matches_code(trcode, 'A', '0', '0', '4', 'S')
        || matches_code(trcode, 'A', '0', '0', '1', 'Q')
        || matches_code(trcode, 'A', '0', '0', '1', 'X')
        || matches_code(trcode, 'A', '0', '0', '1', 'B')
        || matches_code(trcode, 'A', '0', '0', '1', 'R')
        || matches_code(trcode, 'A', '0', '0', '1', 'F')
        || matches_code(trcode, 'A', '0', '0', '2', 'F')
        || matches_code(trcode, 'A', '0', '0', '3', 'F')
        || matches_code(trcode, 'A', '0', '0', '4', 'F')
        || matches_code(trcode, 'A', '0', '0', '5', 'F')
        || matches_code(trcode, 'A', '0', '0', '6', 'F')
        || matches_code(trcode, 'A', '0', '0', '7', 'F')
        || matches_code(trcode, 'A', '0', '0', '8', 'F')
        || matches_code(trcode, 'A', '0', '0', '9', 'F')
        || matches_code(trcode, 'A', '0', '1', '0', 'F')
        || matches_code(trcode, 'A', '0', '1', '1', 'F')
        || matches_code(trcode, 'A', '0', '1', '2', 'F')
        || matches_code(trcode, 'A', '0', '1', '3', 'F')
        || matches_code(trcode, 'A', '0', '1', '5', 'F')
        || matches_code(trcode, 'A', '0', '1', '6', 'F')
        || matches_code(trcode, 'A', '0', '1', '4', 'F')
        || matches_code(trcode, 'A', '0', '0', '1', 'G')
        || matches_code(trcode, 'A', '0', '0', '1', 'E')
}

pub fn is_b6(trcode: &[u8; 5]) -> (res: bool)
    ensures
        res == is_b6_code(trcode@),
{
    matches_code(trcode, 'B', '6', '0', '1', 'B')
        || matches_code(trcode, 'B', '6', '0', '1', 'K')
        || matches_code(trcode, 'B', '6', '0', '1', 'M')
        || matches_code(trcode, 'B', '6', '0', '1', 'R')
        || matches_code(trcode, 'B', '6', '0', '1', 'F')
        || matches_code(trcode, 'B', '6', '0', '2', 'F')
        || matches_code(trcode, 'B', '6', '0', '3', 'F')
        || matches_code(trcode, 'B', '6', '0', '4', 'F')
        || matches_code(trcode, 'B', '6', '0', '5', 'F')
        || matches_code(trcode, 'B', '6', '0', '6', 'F')
        || matches_code(trcode, 'B', '6', '0', '7', 'F')
        || matches_code(trcode, 'B', '6', '0', '8', 'F')
        || matches_code(trcode, 'B', '6', '0', '9', 'F')
        || matches_code(trcode, 'B', '6', '1', '0', 'F')
        || matches_code(trcode, 'B', '6', '1', '1', 'F')
        || matches_code(trcode, 'B', '6', '1', '2', 'F')
        || matches_code(trcode, 'B', '6', '1', '3', 'F')
        || matches_code(trcode, 'B', '6', '1', '4', 'F')
        || matches_code(trcode, 'B', '6', '1', '5', 'F')
        || matches_code(trcode, 'B', '6', '1', '6', 'F')
        || matches_code(trcode, 'B', '6', '0', '1', 'G')
        || matches_code(trcode, 'B', '6', '0', '1', 'E')
}

pub fn is_g7(trcode: &[u8; 5]) -> (res: bool)
    ensures
        res == is_g7_code(trcode@),
{
    matches_code(trcode, 'G', '7', '0', '1', 'B')
        || matches_code(trcode, 'G', '7', '0', '1', 'K')
        || matches_code(trcode, 'G', '7', '0', '1', 'M')
        || matches_code(trcode, 'G', '7', '0', '1', 'R')
        || matches_code(trcode, 'G', '7', '0', '1', 'F')
        || matches_code(trcode, 'G', '7', '0', '2', 'F')
        || matches_code(trcode, 'G', '7', '0', '3', 'F')
        || matches_code(trcode, 'G', '7', '0', '4', 'F')
        || matches_code(trcode, 'G', '7', '0', '5', 'F')
        || matches_code(trcode, 'G', '7', '0', '6', 'F')
        || matches_code(trcode, 'G', '7', '0', '7', 'F')
        || matches_code(trcode, 'G', '7', '0', '8', 'F')
        || matches_code(trcode, 'G', '7', '0', '9', 'F')
        || matches_code(trcode, 'G', '7', '1', '0', 'F')
        || matches_code(trcode, 'G', '7', '1', '1', 'F')
        || matches_code(trcode, 'G', '7', '1', '2', 'F')
        || matches_code(trcode, 'G', '7', '1', '3', 'F')
        || matches_code(trcode, 'G', '7', '1', '4', 'F')
        || matches_code(trcode, 'G', '7', '1', '5', 'F')
        || matches_code(trcode, 'G', '7', '1', '6', 'F')
        || matches_code(trcode, 'G', '7', '0', '1', 'G')
        || matches_code(trcode, 'G', '7', '0', '1', 'E')
}

pub fn is_a3(trcode: &[u8; 5]) -> (res: bool)
    ensures
        res == is_a3_code(trcode@),
{
    matches_code(trcode, 'A', '3', '0', '1', 'S')
        || matches_code(trcode, 'A', '3', '0', '2', 'S')
        || matches_code(trcode, 'A', '3', '0', '3', 'S')
        || matches_code(trcode, 'A', '3', '0', '4', 'S')
        || matches_code(trcode, 'A', '3', '0', '1', 'Q')
        || matches_code(trcode, 'A', '3', '0', '1', 'X')
        || matches_code(trcode, 'A', '3', '0', '1', 'B')
        || matches_code(trcode, 'A', '3', '0', '1', 'M')
        || matches_code(trcode, 'A', '3', '0', '1', 'K')
        || matches_code(trcode, 'A', '3', '0', '1', 'F')
        || matches_code(trcode, 'A', '3', '0', '2', 'F')
        || matches_code(trcode, 'A', '3', '0', '3', 'F')
        || matches_code(trcode, 'A', '3', '0', '4', 'F')
        || matches_code(trcode, 'A', '3', '0', '5', 'F')
        || matches_code(trcode, 'A', '3', '0', '6', 'F')
        || matches_code(trcode, 'A', '3', '0', '7', 'F')
        || matches_code(trcode, 'A', '3', '0', '8', 'F')
        || matches_code(trcode, 'A', '3', '0', '9', 'F')
        || matches_code(trcode, 'A', '3', '1', '0', 'F')
        || matches_code(trcode, 'A', '3', '1', '1', 'F')
        || matches_code(trcode, 'A', '3', '1', '2', 'F')
        || matches_code(trcode, 'A', '3', '1', '3', 'F')
        || matches_code(trcode, 'A', '3', '1', '4', 'F')
        || matches_code(trcode, 'A', '3', '1', '5', 'F')
        || matches_code(trcode, 'A', '3', '1', '6', 'F')
        || matches_code(trcode, 'A', '3', '0', '1', 'G')
        || matches_code(trcode, 'A', '3', '0', '1', 'E')
}

/// Where the instrument code stands in `payload`.
pub fn krx_messages_instcode_range(payload: &[u8]) -> (res: Option<Range<usize>>)
    ensures
        res == instcode_range(payload@),
{
    match leading_code(payload) {
        Some(code) => {
            if matches_code(&code, 'B', '6', '0', '5', '4') || matches_code(
                &code,
                'B',
                '6',
                '0',
                '4',
                '4',
            ) {
                return None;
            } else if matches_code(&code, 'J', '9', '0', '7', '7') {
                return Some(13..25);
            }
        },
        None => {},
    }
    if leads_with(payload, 'A', '3') || leads_with(payload, 'G', '7') || leads_with(
        payload,
        'B',
        '6',
    ) {
        Some(17..29)
    } else if leads_with(payload, 'B', '7') {
        Some(9..21)
    } else if leads_with(payload, 'O', 'A') || leads_with(payload, 'A', '6') {
        Some(15..27)
    } else if leads_with(payload, 'C', '4') {
        Some(7..19)
    } else if leads_with(payload, 'H', '2') {
        Some(5..17)
    } else if leads_with(payload, 'H', '1') {
        Some(21..33)
    } else if leads_with(payload, 'A', '0') {
        Some(27..39)
    } else if leads_with(payload, 'A', '1') {
        Some(13..25)
    } else if leads_with(payload, 'H', '6') {
        Some(24..36)
    } else {
        None
    }
}

/// Where the distribution index stands in `payload`.
pub fn krx_message_dist_index_range(payload: &[u8]) -> (res: Option<Range<usize>>)
    ensures
        res == dist_index_range(payload@),
{
    let trcode = match leading_code(payload) {
        Some(code) => code,
        None => {
            return None;
        },
    };
    if is_a0(&trcode) || is_b6(&trcode) || is_a3(&trcode) || is_g7(&trcode) {
        return Some(5..13);
    }
    if leads_with(payload, 'H', '2') || leads_with(payload, 'C', '1') {
        Some(17..23)
    } else if leads_with(payload, 'H', '6') || leads_with(payload, 'B', '7') {
        Some(5..13)
    } else {
        None
    }
}

/// A payload of family `H2` that is as long as a transaction code has its
/// distribution index in `[17, 23)`, whatever the rest of the code is: no
/// code that carries the index right behind it is of that family.
pub proof fn lemma_open_interest_index(payload: Seq<u8>)
    requires
        payload.len() >= 5,
        in_family(payload, 'H', '2'),
    ensures
        !has_indexed_code(payload),
        dist_index_range(payload) == Some(span(17, 23)),
{
}

/// The excluded codes `B6054` and `B6044` have no instrument code, though
/// their family has one.
pub proof fn lemma_excluded_codes(payload: Seq<u8>)
    requires
        has_code(payload, 'B', '6', '0', '5', '4') || has_code(payload, 'B', '6', '0', '4', '4'),
    ensures
        in_family(payload, 'B', '6'),
        instcode_range(payload) is None,
{
}

/// The code `J9077` has its instrument code in `[13, 25)`.
pub proof fn lemma_bond_issue_code(payload: Seq<u8>)
    requires
        has_code(payload, 'J', '9', '0', '7', '7'),
    ensures
        instcode_range(payload) == Some(span(13, 25)),
{
}

/// Each code that carries a distribution index is of the family that its
/// set is named after, so no code is in two of the sets.
pub proof fn lemma_indexed_codes_by_family(code: Seq<u8>)
    ensures
        is_a0_code(code) ==> in_family(code, 'A', '0'),
        is_b6_code(code) ==> in_family(code, 'B', '6'),
        is_g7_code(code) ==> in_family(code, 'G', '7'),
        is_a3_code(code) ==> in_family(code, 'A', '3'),
{
}

/// An instrument code is twelve bytes long, a distribution index six or
/// eight, and both stand behind the transaction code.
pub proof fn lemma_fields_follow_the_code(payload: Seq<u8>)
    ensures
        instcode_range(payload) matches Some(r) ==> 5 <= r.start && r.end == r.start + 12,
        dist_index_range(payload) matches Some(r) ==> 5 <= r.start && (r.end == r.start + 8
            || r.end == r.start + 6),
{
}

/// Where a payload is as long as a transaction code, the code alone decides
/// where its fields stand.
pub proof fn lemma_code_decides(payload: Seq<u8>, other: Seq<u8>)
    requires
        payload.len() >= 5,
        other.len() >= 5,
        payload.take(5) == other.take(5),
    ensures
        instcode_range(payload) == instcode_range(other),
        dist_index_range(payload) == dist_index_range(other),
{
    assert forall|i: int| 0 <= i < 5 implies payload[i] == other[i] by {
        assert(payload.take(5)[i] == payload[i]);
        assert(other.take(5)[i] == other[i]);
    }
}

/// The serial number of a code: its third and fourth byte, read as two
/// decimal digits.
pub open spec fn serial(code: Seq<u8>) -> int {
    (code[2] - '0' as u8) * 10 + (code[3] - '0' as u8)
}

/// `code` is a code of family `a b` with a serial number from 1 to `last`
/// and the market letter `market`.
pub open spec fn is_serial_code(code: Seq<u8>, a: char, b: char, last: int, market: char) -> bool {
    &&& code.len() == 5
    &&& in_family(code, a, b)
    &&& is_digit(code[2])
    &&& is_digit(code[3])
    &&& 1 <= serial(code) <= last
    &&& code[4] == market as u8
}

/// The codes of family `A0` that carry a distribution index, by market:
/// sixteen of derivatives, four of stocks, and one each of six more.
pub proof fn lemma_a0_codes_by_market(code: Seq<u8>)
    ensures
        is_a0_code(code) <==> {
            ||| is_serial_code(code, 'A', '0', 16, 'F')
            ||| is_serial_code(code, 'A', '0', 4, 'S')
            ||| is_serial_code(code, 'A', '0', 1, 'Q')
            ||| is_serial_code(code, 'A', '0', 1, 'X')
            ||| is_serial_code(code, 'A', '0', 1, 'B')
            ||| is_serial_code(code, 'A', '0', 1, 'R')
            ||| is_serial_code(code, 'A', '0', 1, 'G')
            ||| is_serial_code(code, 'A', '0', 1, 'E')
        },
{
}

/// The codes of family `B6` that carry a distribution index, by market:
/// sixteen of derivatives, and one each of six more.
pub proof fn lemma_b6_codes_by_market(code: Seq<u8>)
    ensures
        is_b6_code(code) <==> {
            ||| is_serial_code(code, 'B', '6', 16, 'F')
            ||| is_serial_code(code, 'B', '6', 1, 'B')
            ||| is_serial_code(code, 'B', '6', 1, 'K')
            ||| is_serial_code(code, 'B', '6', 1, 'M')
            ||| is_serial_code(code, 'B', '6', 1, 'R')
            ||| is_serial_code(code, 'B', '6', 1, 'G')
            ||| is_serial_code(code, 'B', '6', 1, 'E')
        },
{
}

/// The codes of family `G7` that carry a distribution index, by market:
/// sixteen of derivatives, and one each of six more.
pub proof fn lemma_g7_codes_by_market(code: Seq<u8>)
    ensures
        is_g7_code(code) <==> {
            ||| is_serial_code(code, 'G', '7', 16, 'F')
            ||| is_serial_code(code, 'G', '7', 1, 'B')
            ||| is_serial_code(code, 'G', '7', 1, 'K')
            ||| is_serial_code(code, 'G', '7', 1, 'M')
            ||| is_serial_code(code, 'G', '7', 1, 'R')
            ||| is_serial_code(code, 'G', '7', 1, 'G')
            ||| is_serial_code(code, 'G', '7', 1, 'E')
        },
{
}

/// The codes of family `A3` that carry a distribution index, by market:
/// sixteen of derivatives, four of stocks, and one each of seven more.
pub proof fn lemma_a3_codes_by_market(code: Seq<u8>)
    ensures
        is_a3_code(code) <==> {
            ||| is_serial_code(code, 'A', '3', 16, 'F')
            ||| is_serial_code(code, 'A', '3', 4, 'S')
            ||| is_serial_code(code, 'A', '3', 1, 'Q')
            ||| is_serial_code(code, 'A', '3', 1, 'X')
            ||| is_serial_code(code, 'A', '3', 1, 'B')
            ||| is_serial_code(code, 'A', '3', 1, 'M')
            ||| is_serial_code(code, 'A', '3', 1, 'K')
            ||| is_serial_code(code, 'A', '3', 1, 'G')
            ||| is_serial_code(code, 'A', '3', 1, 'E')
        },
{
}

} // verus!
