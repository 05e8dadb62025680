//! The error taxonomy of the library: every fallible step of the query
//! pipeline reports one of these variants, and all of them propagate to
//! the caller without retry or recovery.

use vstd::prelude::*;

verus! {

/// An error of one step of the query pipeline.
#[derive(Debug, PartialEq, Eq)]
pub enum EcbError {
    /// The series key contains no `.` delimiter; raised before any
    /// request is attempted.
    InvalidSeriesKey,
    /// The network call could not complete; carries the transport's
    /// message.
    TransportFailure(String),
    /// The response status lay outside the success range; carries the
    /// status code.
    RemoteRejection(u16),
    /// The response body could not be parsed as a table.
    ParseFailure,
    /// The requested export format is neither CSV nor JSON; carries the
    /// format as requested.
    UnsupportedExportFormat(String),
    /// The output file could not be created or written; carries the
    /// message.
    ExportIOFailure(String),
}

} // verus!
