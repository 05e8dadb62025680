//! The response side of the pipeline: classifying the HTTP status and
//! turning a successful response body into a table. The network call
//! itself is the caller's step; this module decides what every
//! possible outcome of it means.

use vstd::prelude::*;

use crate::errors::EcbError;
use crate::table::ResultTable;
use crate::table::parse_csv;
use crate::table::spec_parse_ok;
use crate::table::spec_parsed_header;
use crate::table::spec_parsed_rows;

verus! {

/// Whether an HTTP status lies in the success range.
pub open spec fn spec_is_success(status: u16) -> bool {
    200 <= status < 300
}

/// Whether an HTTP status lies in the success range.
pub fn is_success_status(status: u16) -> (r: bool)
    ensures
        r == spec_is_success(status),
{
    200 <= status && status < 300
}

/// Turns one response — status and body — into a table or a failure.
/// A status outside the success range is a `RemoteRejection` carrying
/// that status, whatever the body; a success status yields the parsed
/// table exactly when the body parses as CSV, and a `ParseFailure`
/// otherwise. There is no retry and no partial table.
pub fn process_response(status: u16, body: &str) -> (r: Result<ResultTable, EcbError>)
    ensures
        r is Ok <==> (spec_is_success(status) && spec_parse_ok(body@)),
        r matches Ok(t) ==> {
            &&& t.well_formed()
            &&& t.spec_header() == spec_parsed_header(body@)
            &&& t.spec_rows() == spec_parsed_rows(body@)
        },
        !spec_is_success(status) ==> (r matches Err(e) && e == EcbError::RemoteRejection(status)),
        spec_is_success(status) && !spec_parse_ok(body@) ==> (r matches Err(e) && e
            == EcbError::ParseFailure),
{
    if !is_success_status(status) {
        return Err(EcbError::RemoteRejection(status));
    }
    parse_csv(body)
}

} // verus!
