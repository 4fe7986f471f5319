//! Which captured frames are kept: those that carry an application payload
//! opening with one of a configured list of prefixes.

use crate::frame::{application_payload, decapsulate};
use vstd::prelude::*;
use vstd::string::StringSliceAdditionalSpecFns;
use vstd::utf8::encode_utf8;

verus! {

/// `payload` opens with the bytes of one of `prefixes`.
pub open spec fn has_listed_prefix(payload: Seq<u8>, prefixes: Seq<String>) -> bool {
    exists|i: int|
        0 <= i < prefixes.len() && (#[trigger] encode_utf8(prefixes[i]@)).is_prefix_of(payload)
}

/// `payload` passes the filter: there is none, or the payload opens with
/// one of its prefixes.
pub open spec fn accepted(payload: Seq<u8>, header_filter: Option<Vec<String>>) -> bool {
    match header_filter {
        Some(prefixes) => has_listed_prefix(payload, prefixes@),
        None => true,
    }
}

/// `bytes` opens with `prefix`.
pub fn starts_with(bytes: &[u8], prefix: &[u8]) -> (res: bool)
    ensures
        res == prefix@.is_prefix_of(bytes@),
{
    if prefix.len() > bytes.len() {
        return false;
    }
    let mut i: usize = 0;
    while i < prefix.len()
        invariant
            i <= prefix@.len() <= bytes@.len(),
            forall|k: int| 0 <= k < i ==> prefix@[k] == bytes@[k],
        decreases prefix@.len() - i,
    {
        if prefix[i] != bytes[i] {
            assert(bytes@.subrange(0, prefix@.len() as int)[i as int] != prefix@[i as int]);
            return false;
        }
        i += 1;
    }
    assert(prefix@ =~= bytes@.subrange(0, prefix@.len() as int));
    true
}

/// Whether `payload` passes `header_filter`. Without a filter every payload
/// passes; with one, a payload passes that opens with one of its prefixes,
/// byte for byte.
pub fn filter(payload: &[u8], header_filter: &Option<Vec<String>>) -> (res: bool)
    ensures
        res == accepted(payload@, *header_filter),
{
    match header_filter {
        Some(prefixes) => {
            let mut i: usize = 0;
            while i < prefixes.len()
                invariant
                    *header_filter == Some(*prefixes),
                    i <= prefixes@.len(),
                    forall|k: int|
                        0 <= k < i ==> !(#[trigger] encode_utf8(prefixes@[k]@)).is_prefix_of(
                            payload@,
                        ),
                decreases prefixes@.len() - i,
            {
                if starts_with(payload, prefixes[i].as_str().as_bytes()) {
                    assert(encode_utf8(prefixes@[i as int]@).is_prefix_of(payload@));
                    return true;
                }
                i += 1;
            }
            false
        },
        None => true,
    }
}

/// Copies the frames of one capture file that pass a header filter into
/// another.
#[derive(Debug, Clone)]
pub struct PacketExtractor {
    file_input: String,
    file_output: String,
    header_filter: Option<Vec<String>>,
}

impl PacketExtractor {
    /// The path of the capture that is read.
    pub closed spec fn input_path(&self) -> Seq<char> {
        self.file_input@
    }

    /// The path of the capture that is written.
    pub closed spec fn output_path(&self) -> Seq<char> {
        self.file_output@
    }

    /// The prefixes of the payloads that are kept; `None` keeps all.
    pub closed spec fn prefixes(&self) -> Option<Vec<String>> {
        self.header_filter
    }

    pub fn new(file_input: String, file_output: String, header_filter: Option<Vec<String>>) -> (res:
        PacketExtractor)
        ensures
            res.input_path() == file_input@,
            res.output_path() == file_output@,
            res.prefixes() == header_filter,
    {
        PacketExtractor { file_input, file_output, header_filter }
    }

    pub fn file_input(&self) -> (res: &String)
        ensures
            res@ == self.input_path(),
    {
        &self.file_input
    }

    pub fn file_output(&self) -> (res: &String)
        ensures
            res@ == self.output_path(),
    {
        &self.file_output
    }

    pub fn header_filter(&self) -> (res: &Option<Vec<String>>)
        ensures
            *res == self.prefixes(),
    {
        &self.header_filter
    }

    /// Whether `packet` is kept: it carries an application payload, and the
    /// payload passes the filter.
    pub fn is_valid_packet(&self, packet: &[u8]) -> (res: bool)
        ensures
            res == match application_payload(packet@) {
                Some(payload) => accepted(payload, self.prefixes()),
                None => false,
            },
    {
        match decapsulate(packet) {
            Some(payload) => filter(payload.as_slice(), &self.header_filter),
            None => false,
        }
    }

    /// `payload` where it passes the filter.
    pub fn filter_payload(&self, payload: Vec<u8>) -> (res: Option<Vec<u8>>)
        ensures
            res == if accepted(payload@, self.prefixes()) {
                Some(payload)
            } else {
                None
            },
    {
        if filter(payload.as_slice(), &self.header_filter) {
            Some(payload)
        } else {
            None
        }
    }

    /// The application payload of `packet`, where it carries one that
    /// passes the filter.
    pub fn extract_payload(&self, packet: &[u8]) -> (res: Option<Vec<u8>>)
        ensures
            (match res {
                Some(payload) => Some(payload@),
                None => None,
            }) == match application_payload(packet@) {
                Some(payload) => if accepted(payload, self.prefixes()) {
                    Some(payload)
                } else {
                    None
                },
                None => None,
            },
    {
        match decapsulate(packet) {
            Some(payload) => self.filter_payload(payload),
            None => None,
        }
    }
}

} // verus!
