//! The description of one field of a message, as a field table gives it.
//!
//! A field table is a CSV file in EUC-KR with a header line. Its columns
//! are the Korean name of the field, its item name, its subsection, its data
//! type, its length, its cumulative length and its start point.
//!
//! The text is decoded by `encoding_rs` and cut into records by `csv`. What
//! the two return is named here and not described; how a record becomes a
//! field description is proved.

use crate::text::{
    decimal_i32, decodable_len, decode_euc_kr, euc_kr_text, parse_i32, trim, trimmed,
};
use csv::Error as CsvError;
use csv::ReaderBuilder;
use vstd::prelude::*;
use vstd::utf8::encode_utf8;

verus! {

/// The error of the `csv` crate. It is carried to the caller; nothing is
/// said of what it holds.
#[verifier::external_type_specification]
#[verifier::external_body]
pub struct ExCsvError(CsvError);

/// Why a field table could not be read.
pub enum SchemaError {
    /// The text is no CSV that the reader accepts.
    Malformed(CsvError),
}

/// One field of a message.
#[derive(Debug)]
pub struct PayloadField {
    pub korean_name: String,
    pub item_name: String,
    pub sub_section: String,
    pub data_type: String,
    pub length: i32,
    pub cumulative_length: i32,
    pub start_point: i32,
}

/// What a `PayloadField` holds, as mathematical values.
pub struct PayloadFieldView {
    pub korean_name: Seq<char>,
    pub item_name: Seq<char>,
    pub sub_section: Seq<char>,
    pub data_type: Seq<char>,
    pub length: i32,
    pub cumulative_length: i32,
    pub start_point: i32,
}

impl View for PayloadField {
    type V = PayloadFieldView;

    open spec fn view(&self) -> PayloadFieldView {
        PayloadFieldView {
            korean_name: self.korean_name@,
            item_name: self.item_name@,
            sub_section: self.sub_section@,
            data_type: self.data_type@,
            length: self.length,
            cumulative_length: self.cumulative_length,
            start_point: self.start_point,
        }
    }
}

/// The records that `csv` cuts `text` into, the header line left out; `None`
/// where it reports an error.
pub uninterp spec fn csv_records(text: Seq<char>) -> Option<Seq<Seq<Seq<char>>>>;

/// The texts of the columns of one record.
pub open spec fn columns(record: Seq<String>) -> Seq<Seq<char>> {
    record.map_values(|column: String| column@)
}

/// The texts of the columns of each record.
pub open spec fn rows(records: Seq<Vec<String>>) -> Seq<Seq<Seq<char>>> {
    records.map_values(|record: Vec<String>| columns(record@))
}

/// What each of `fields` holds.
pub open spec fn views(fields: Seq<PayloadField>) -> Seq<PayloadFieldView> {
    fields.map_values(|field: PayloadField| field@)
}

/// Column `i` of `record`; empty where the record has no such column.
pub open spec fn column(record: Seq<Seq<char>>, i: int) -> Seq<char> {
    if 0 <= i < record.len() {
        record[i]
    } else {
        Seq::empty()
    }
}

/// The number in a column: what its text spells in decimal once the white
/// space at its ends is taken off, and zero where that is no number that
/// fits.
pub open spec fn count(text: Seq<char>) -> i32 {
    match decimal_i32(encode_utf8(trimmed(text))) {
        Some(v) => v,
        None => 0,
    }
}

/// The field that a record describes.
pub open spec fn field_of_record(record: Seq<Seq<char>>) -> PayloadFieldView {
    PayloadFieldView {
        korean_name: column(record, 0),
        item_name: column(record, 1),
        sub_section: column(record, 2),
        data_type: column(record, 3),
        length: count(column(record, 4)),
        cumulative_length: count(column(record, 5)),
        start_point: count(column(record, 6)),
    }
}

/// The fields that records describe, one for one and in their order.
pub open spec fn fields_of_records(records: Seq<Seq<Seq<char>>>) -> Seq<PayloadFieldView> {
    records.map_values(|record: Seq<Seq<char>>| field_of_record(record))
}

/// `ReaderBuilder::from_reader` with a header line, and `Reader::records`:
/// the records of the text, or the first error that the reader reports.
#[verifier::external_body]
fn read_records(text: &str) -> (res: Result<Vec<Vec<String>>, CsvError>)
    ensures
        (match res {
            Ok(records) => Some(rows(records@)),
            Err(_) => None,
        }) == csv_records(text@),
{
    let mut reader = ReaderBuilder::new().has_headers(true).from_reader(text.as_bytes());
    let mut records = Vec::new();
    for record in reader.records() {
        records.push(record?.iter().map(|column| column.to_string()).collect());
    }
    Ok(records)
}

fn column_text(record: &Vec<String>, i: usize) -> (res: String)
    ensures
        res@ == column(columns(record@), i as int),
{
    if i < record.len() {
        record[i].clone()
    } else {
        String::new()
    }
}

/// The number that a column holds; zero for a column that holds none.
pub fn parse_count(text: &str) -> (res: i32)
    ensures
        res == count(text@),
{
    match parse_i32(trim(text)) {
        Some(v) => v,
        None => 0,
    }
}

fn column_count(record: &Vec<String>, i: usize) -> (res: i32)
    ensures
        res == count(column(columns(record@), i as int)),
{
    if i < record.len() {
        parse_count(record[i].as_str())
    } else {
        proof {
            assert(trimmed(Seq::<char>::empty()) =~= Seq::<char>::empty());
            assert(encode_utf8(Seq::<char>::empty()) =~= Seq::<u8>::empty());
        }
        0
    }
}

impl PayloadField {
    /// The field that `record` describes. A column that the record lacks
    /// counts as empty, and a length that is no number as zero.
    pub fn from_record(record: &Vec<String>) -> (res: PayloadField)
        ensures
            res@ == field_of_record(columns(record@)),
    {
        PayloadField {
            korean_name: column_text(record, 0),
            item_name: column_text(record, 1),
            sub_section: column_text(record, 2),
            data_type: column_text(record, 3),
            length: column_count(record, 4),
            cumulative_length: column_count(record, 5),
            start_point: column_count(record, 6),
        }
    }

    /// The fields that `records` describe, one for one and in their order.
    pub fn from_records(records: &Vec<Vec<String>>) -> (res: Vec<PayloadField>)
        ensures
            views(res@) == fields_of_records(rows(records@)),
    {
        let mut fields: Vec<PayloadField> = Vec::new();
        let mut i: usize = 0;
        while i < records.len()
            invariant
                i <= records@.len(),
                fields@.len() == i,
                forall|k: int|
                    0 <= k < i ==> (#[trigger] fields@[k])@ == field_of_record(
                        columns(records@[k]@),
                    ),
            decreases records@.len() - i,
        {
            fields.push(PayloadField::from_record(&records[i]));
            i += 1;
        }
        assert(views(fields@) =~= fields_of_records(rows(records@)));
        fields
    }

    /// The fields that a field table describes. The table is given as the
    /// bytes of the file.
    pub fn load_from_bytes(bytes: &[u8]) -> (res: Result<Vec<PayloadField>, SchemaError>)
        requires
            bytes@.len() <= decodable_len(),
        ensures
            (match res {
                Ok(fields) => Some(views(fields@)),
                Err(_) => None,
            }) == (match csv_records(euc_kr_text(bytes@)) {
                Some(records) => Some(fields_of_records(records)),
                None => None,
            }),
    {
        let text = decode_euc_kr(bytes);
        match read_records(text.as_str()) {
            Ok(records) => Ok(PayloadField::from_records(&records)),
            Err(error) => Err(SchemaError::Malformed(error)),
        }
    }
}

} // verus!
