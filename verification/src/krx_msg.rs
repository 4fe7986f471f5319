//! The decoded record of one message, and its assembly from a payload.

use crate::range_helper::{
    dist_index_range, instcode_range, krx_message_dist_index_range, krx_messages_instcode_range,
    lemma_fields_follow_the_code,
};
use crate::text::{
    all_ascii, all_digits, bytes_as_chars, decimal_i32, decodable_len, decode_euc_kr, decode_text,
    digits_value, euc_kr_text, lemma_ascii_is_utf8, lemma_short_numbers_fit, parse_decimal,
    utf8_text,
};
use std::ops::Range;
use std::string::FromUtf8Error;
use vstd::prelude::*;
use vstd::slice::{slice_subrange, slice_to_vec};

verus! {

/// The standard library's error for bytes that are no UTF-8. It is carried
/// in a signature only; nothing is said of what it holds.
#[verifier::external_type_specification]
#[verifier::external_body]
pub struct ExFromUtf8Error(FromUtf8Error);

/// Nanoseconds since the Unix epoch.
pub type UnixNano = u64;

/// The length of a transaction code.
pub const TRCODE_LEN: usize = 5;

/// One decoded message.
///
/// * `date`: the trading day as `yyyymmdd`
/// * `trcode`: the transaction code, five characters; empty where the
///   payload has none that is text
/// * `distidx`: the distribution index, the place of the message among
///   those of the same transaction code
/// * `instcode`: the instrument code, twelve bytes of text
/// * `packet_timestamp`: when the packet was captured
/// * `timestamp`: when the message was processed
/// * `payload`: the message as it arrived
#[derive(Debug, Clone)]
pub struct KrxMsg {
    pub date: i32,
    pub trcode: String,
    pub distidx: Option<i32>,
    pub instcode: Option<String>,
    pub packet_timestamp: Option<UnixNano>,
    pub timestamp: Option<UnixNano>,
    pub payload: Vec<u8>,
}

/// What a `KrxMsg` holds, as mathematical values.
pub struct KrxMsgView {
    pub date: i32,
    pub trcode: Seq<char>,
    pub distidx: Option<i32>,
    pub instcode: Option<Seq<char>>,
    pub packet_timestamp: Option<UnixNano>,
    pub timestamp: Option<UnixNano>,
    pub payload: Seq<u8>,
}

impl View for KrxMsg {
    type V = KrxMsgView;

    open spec fn view(&self) -> KrxMsgView {
        KrxMsgView {
            date: self.date,
            trcode: self.trcode@,
            distidx: self.distidx,
            instcode: match self.instcode {
                Some(text) => Some(text@),
                None => None,
            },
            packet_timestamp: self.packet_timestamp,
            timestamp: self.timestamp,
            payload: self.payload@,
        }
    }
}

/// The bytes of `payload` that stand in `range`; `None` where the payload
/// ends before the range does.
pub open spec fn field(payload: Seq<u8>, range: Range<usize>) -> Option<Seq<u8>> {
    if payload.len() < range.end {
        None
    } else {
        Some(payload.subrange(range.start as int, range.end as int))
    }
}

/// The bytes of the field that `range` gives, where it gives one and the
/// payload reaches its end.
pub open spec fn located_field(payload: Seq<u8>, range: Option<Range<usize>>) -> Option<Seq<u8>> {
    match range {
        Some(range) => field(payload, range),
        None => None,
    }
}

/// The transaction code of `payload` as text. Empty where the payload is
/// shorter than a code, or its first five bytes are no text.
pub open spec fn trcode_of(payload: Seq<u8>) -> Seq<char> {
    if payload.len() < TRCODE_LEN {
        Seq::empty()
    } else {
        match utf8_text(payload.take(TRCODE_LEN as int)) {
            Some(text) => text,
            None => Seq::empty(),
        }
    }
}

/// The instrument code of `payload`: absent where the message type has
/// none, the payload is cut short, or the bytes are no text.
pub open spec fn instcode_of(payload: Seq<u8>) -> Option<Seq<char>> {
    match located_field(payload, instcode_range(payload)) {
        Some(bytes) => utf8_text(bytes),
        None => None,
    }
}

/// The distribution index of `payload`: absent where the message type has
/// none, the payload is cut short, or the bytes spell no number that fits.
pub open spec fn distidx_of(payload: Seq<u8>) -> Option<i32> {
    match located_field(payload, dist_index_range(payload)) {
        Some(bytes) => decimal_i32(bytes),
        None => None,
    }
}

/// The record that a payload decodes to.
pub open spec fn decoded(
    date: i32,
    payload: Seq<u8>,
    packet_timestamp: Option<UnixNano>,
    timestamp: Option<UnixNano>,
) -> KrxMsgView {
    KrxMsgView {
        date,
        trcode: trcode_of(payload),
        distidx: distidx_of(payload),
        instcode: instcode_of(payload),
        packet_timestamp,
        timestamp,
        payload,
    }
}

/// The bytes of `payload` in `[range.start, range.end)`, or `None` where the
/// payload is shorter than `range.end`.
pub fn extract<'a>(payload: &'a [u8], range: &Range<usize>) -> (res: Option<&'a [u8]>)
    requires
        range.start <= range.end,
    ensures
        res is None <==> payload@.len() < range.end,
        res matches Some(bytes) ==> bytes@ == payload@.subrange(
            range.start as int,
            range.end as int,
        ),
        (match res {
            Some(bytes) => Some(bytes@),
            None => None,
        }) == field(payload@, *range),
{
    if payload.len() < range.end {
        None
    } else {
        Some(slice_subrange(payload, range.start, range.end))
    }
}

fn extract_located<'a>(payload: &'a [u8], range: &Option<Range<usize>>) -> (res: Option<&'a [u8]>)
    requires
        range matches Some(r) ==> r.start <= r.end,
    ensures
        (match res {
            Some(bytes) => Some(bytes@),
            None => None,
        }) == located_field(payload@, *range),
{
    match range {
        Some(range) => extract(payload, range),
        None => None,
    }
}

/// `a / b` as machine division gives it: rounded towards zero.
pub open spec fn quotient(a: int, b: int) -> int {
    if a >= 0 {
        a / b
    } else {
        -((-a) / b)
    }
}

/// What `quotient` leaves over.
pub open spec fn remainder(a: int, b: int) -> int {
    a - quotient(a, b) * b
}

/// The bytes of a payload that are shown as text: all but the last one.
pub open spec fn shown_bytes(payload: Seq<u8>) -> Seq<u8> {
    if payload.len() == 0 {
        payload
    } else {
        payload.drop_last()
    }
}

/// A payload that opens with five ASCII bytes has them as its transaction
/// code, character for byte.
pub proof fn lemma_ascii_trcode(payload: Seq<u8>)
    requires
        payload.len() >= TRCODE_LEN,
        all_ascii(payload.take(TRCODE_LEN as int)),
    ensures
        trcode_of(payload) == bytes_as_chars(payload.take(TRCODE_LEN as int)),
{
    lemma_ascii_is_utf8(payload.take(TRCODE_LEN as int));
}

/// A payload that reaches the end of its instrument code, and holds ASCII
/// there, has those bytes as its instrument code, character for byte.
pub proof fn lemma_ascii_instcode(payload: Seq<u8>, range: Range<usize>)
    requires
        instcode_range(payload) == Some(range),
        payload.len() >= range.end,
        all_ascii(payload.subrange(range.start as int, range.end as int)),
    ensures
        instcode_of(payload) == Some(
            bytes_as_chars(payload.subrange(range.start as int, range.end as int)),
        ),
{
    lemma_ascii_is_utf8(payload.subrange(range.start as int, range.end as int));
}

/// A payload that reaches the end of its distribution index, and holds
/// digits there, has the number that they spell as its distribution index.
pub proof fn lemma_digits_distidx(payload: Seq<u8>, range: Range<usize>)
    requires
        dist_index_range(payload) == Some(range),
        payload.len() >= range.end,
        all_digits(payload.subrange(range.start as int, range.end as int)),
    ensures
        distidx_of(payload) == Some(
            digits_value(payload.subrange(range.start as int, range.end as int)) as i32,
        ),
{
    lemma_fields_follow_the_code(payload);
    lemma_short_numbers_fit(payload.subrange(range.start as int, range.end as int));
}

impl KrxMsg {
    /// The year, the month and the day of the trading day.
    pub fn date_parts(&self) -> (res: (i32, i32, i32))
        ensures
            res.0 == quotient(self.date as int, 10000),
            res.1 == quotient(remainder(self.date as int, 10000), 100),
            res.2 == remainder(self.date as int, 100),
    {
        (self.date / 10000, (self.date % 10000) / 100, self.date % 100)
    }

    /// The payload as text, read as EUC-KR and without its last byte.
    pub fn payload_text(&self) -> (res: String)
        requires
            self.payload@.len() <= decodable_len(),
        ensures
            res@ == euc_kr_text(shown_bytes(self.payload@)),
    {
        let payload = self.payload.as_slice();
        let shown = if payload.len() == 0 {
            payload
        } else {
            slice_subrange(payload, 0, payload.len() - 1)
        };
        decode_euc_kr(shown)
    }

    /// Decodes `payload` into a record. Every payload decodes: a field that
    /// cannot be read is left out, and a transaction code that is no text
    /// is left empty.
    pub fn new_from_payload(
        date: i32,
        payload: &[u8],
        packet_timestamp: Option<UnixNano>,
        timestamp: Option<UnixNano>,
    ) -> (res: Result<Self, FromUtf8Error>)
        ensures
            res matches Ok(msg) && msg@ == decoded(date, payload@, packet_timestamp, timestamp),
    {
        let trcode = if payload.len() < TRCODE_LEN {
            String::new()
        } else {
            match decode_text(slice_subrange(payload, 0, TRCODE_LEN)) {
                Some(text) => text,
                None => String::new(),
            }
        };
        let instcode = match extract_located(payload, &krx_messages_instcode_range(payload)) {
            Some(bytes) => decode_text(bytes),
            None => None,
        };
        let distidx = match extract_located(payload, &krx_message_dist_index_range(payload)) {
            Some(bytes) => parse_decimal(bytes),
            None => None,
        };
        Ok(
            KrxMsg {
                date,
                trcode,
                distidx,
                instcode,
                packet_timestamp,
                timestamp,
                payload: slice_to_vec(payload),
            },
        )
    }
}

} // verus!
