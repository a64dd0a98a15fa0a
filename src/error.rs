use vstd::prelude::*;

verus! {

/// The two fields that every data row must carry.
#[derive(Clone, Copy, Debug, PartialEq, Eq, Structural)]
pub enum RecordField {
    Start,
    End,
}

/// Every way a run can fail.
#[derive(Clone, Copy, Debug, PartialEq, Eq, Structural)]
pub enum SplitError {
    /// The input could not be read.
    IoError,
    /// The tabular structure of the input is invalid.
    MalformedRecord,
    /// A data row lacks a field; `line` is the row's line in the input when known.
    MissingField { field: RecordField, line: Option<u64> },
    /// The reference path has no usable stem or extension, or is not text.
    BadFilename,
    /// The transcoder could not be started.
    LaunchFailure,
    /// At least one transcoder run exited unsuccessfully.
    SplitFailed,
}

} // verus!
