//! A small library for querying the European Central Bank's public
//! statistical data API: it builds request URLs from a series key and
//! optional filter parameters, classifies HTTP responses, parses CSV
//! response bodies into an in-memory table, and renders that table for
//! display or for export as semicolon-separated CSV or as JSON.

use vstd::prelude::*;

pub mod errors;
pub mod export;
pub mod pipeline;
pub mod query;
pub mod render;
pub mod strutil;
pub mod table;

verus! {

/// The fixed base address of the remote statistical data service.
pub open spec fn spec_entrypoint() -> Seq<char> {
    "https://data-api.ecb.europa.eu"@
}

/// Returns the base address of the remote statistical data service.
pub fn entrypoint() -> (r: &'static str)
    ensures
        r@ == spec_entrypoint(),
{
    "https://data-api.ecb.europa.eu"
}

} // verus!
