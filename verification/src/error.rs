//! What can be wrong with a time series.

use vstd::prelude::*;

verus! {

#[derive(Debug, Clone, Copy, PartialEq, Eq, Structural)]
pub enum Error {
    /// The values and the timestamps are not equally many.
    LengthMismatch,
    /// A value was added to a series whose values and timestamps are not
    /// equally many.
    TimestampOrderMismatch,
}

impl Error {
    /// The text that describes the error.
    pub open spec fn text(self) -> Seq<char> {
        match self {
            Error::LengthMismatch => "Length mismatch"@,
            Error::TimestampOrderMismatch => "Timestamp order mismatch"@,
        }
    }

    /// The text that describes the error.
    pub fn message(&self) -> (res: String)
        ensures
            res@ == self.text(),
    {
        match self {
            Error::LengthMismatch => "Length mismatch".to_owned(),
            Error::TimestampOrderMismatch => "Timestamp order mismatch".to_owned(),
        }
    }
}

} // verus!
