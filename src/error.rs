use vstd::prelude::*;

verus! {

/// The failures that extraction reports.
#[derive(Debug, PartialEq, Eq, Clone, Copy)]
pub enum StationError {
    /// The text is not a `YYYY-M-D H:MM` timestamp of a real instant.
    MalformedTimestamp,
    /// The page holds no `<table>` element.
    NoTableFound,
    /// A row that names a station carries no anchor element.
    MalformedRow,
}

} // verus!
