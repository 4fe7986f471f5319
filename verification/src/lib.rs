//! Decoding of exchange market-data messages recovered from captured
//! network traffic: decapsulation, prefix filtering, classification by
//! transaction code, field extraction and assembly of the decoded record.
//!
//! Beside that stand the field tables by which any field of a message is
//! read, and series of values by time.

pub mod error;
pub mod frame;
pub mod index_range;
pub mod krx_msg;
pub mod packet_extractor;
pub mod payload_field;
pub mod payload_parser;
pub mod range_helper;
pub mod text;
pub mod timeseries;

pub use error::Error;
pub use index_range::IndexRange;
pub use krx_msg::{KrxMsg, UnixNano};
pub use packet_extractor::PacketExtractor;
pub use payload_field::PayloadField;
pub use range_helper::{krx_message_dist_index_range, krx_messages_instcode_range};
pub use timeseries::HftTimeseries;
