//! Export of a parsed table: choosing the format, naming the output
//! file after the current local time and the series key, and producing
//! the file's content. Writing the bytes to disk is the caller's step;
//! everything before it is computed here.

use vstd::prelude::*;

use crate::errors::EcbError;
use crate::render::render_csv;
use crate::render::render_json;
use crate::render::spec_json_content;
use crate::render::spec_table_content;
use crate::strutil::eq_ignore_ascii_case;
use crate::strutil::str_eq_ignore_ascii_case;
use crate::table::ResultTable;

verus! {

/// A supported export format.
#[derive(Clone, Copy, Debug, PartialEq, Eq, Structural)]
pub enum ExportFormat {
    Csv,
    Json,
}

/// The file extension of an export format.
pub open spec fn spec_extension(f: ExportFormat) -> Seq<char> {
    match f {
        ExportFormat::Csv => "csv"@,
        ExportFormat::Json => "json"@,
    }
}

/// Selects the export format named by `s`, case-insensitively: `csv`
/// and `json` are supported, anything else is an
/// `UnsupportedExportFormat` error carrying the request verbatim.
pub fn parse_export_format(s: &str) -> (r: Result<ExportFormat, EcbError>)
    ensures
        eq_ignore_ascii_case(s@, "csv"@) ==> r == Result::<ExportFormat, EcbError>::Ok(
            ExportFormat::Csv,
        ),
        eq_ignore_ascii_case(s@, "json"@) ==> r == Result::<ExportFormat, EcbError>::Ok(
            ExportFormat::Json,
        ),
        !eq_ignore_ascii_case(s@, "csv"@) && !eq_ignore_ascii_case(s@, "json"@) ==> (r matches Err(
            e,
        ) && (e matches EcbError::UnsupportedExportFormat(m) && m@ == s@)),
{
    proof {
        reveal_strlit("csv");
        reveal_strlit("json");
    }
    if str_eq_ignore_ascii_case(s, "csv") {
        Ok(ExportFormat::Csv)
    } else if str_eq_ignore_ascii_case(s, "json") {
        Ok(ExportFormat::Json)
    } else {
        Err(EcbError::UnsupportedExportFormat(s.to_owned()))
    }
}

/// The name of an export file: the timestamp, the series key and the
/// format's extension, as `{timestamp}_{series_key}.{extension}`.
pub open spec fn spec_file_name(ts: Seq<char>, key: Seq<char>, f: ExportFormat) -> Seq<char> {
    ts + "_"@ + key + "."@ + spec_extension(f)
}

/// Builds the name of an export file from a timestamp, the series key
/// and the export format.
pub fn export_file_name(timestamp: &str, series_key: &str, format: ExportFormat) -> (r: String)
    ensures
        r@ == spec_file_name(timestamp@, series_key@, format),
{
    let mut name = String::new();
    name.append(timestamp);
    proof {
        assert(name@ =~= timestamp@);
    }
    name.append("_");
    name.append(series_key);
    name.append(".");
    match format {
        ExportFormat::Csv => name.append("csv"),
        ExportFormat::Json => name.append("json"),
    }
    name
}

/// Relies on chrono's `Local::now` and `DateTime::format`: renders the
/// current local time as `%Y-%m-%d_%H-%M-%S`, with second-level
/// resolution. The result depends on the clock, so nothing is promised
/// of it.
#[verifier::external_body]
fn local_timestamp() -> String {
    chrono::Local::now().format("%Y-%m-%d_%H-%M-%S").to_string()
}

/// Builds the name of an export file from the current local time, the
/// series key and the export format. Two calls within the same clock
/// second yield the same name; the caller decides what a collision
/// means.
pub fn fresh_export_file_name(series_key: &str, format: ExportFormat) -> (r: String)
    ensures
        exists|ts: Seq<char>| r@ == spec_file_name(ts, series_key@, format),
{
    let ts = local_timestamp();
    let name = export_file_name(ts.as_str(), series_key, format);
    proof {
        assert(name@ == spec_file_name(ts@, series_key@, format));
    }
    name
}

/// A fully prepared export: the file to create and the bytes to put in
/// it, ready for the caller to write out.
#[derive(Debug, PartialEq, Eq)]
pub struct ExportArtifact {
    pub file_name: String,
    pub content: String,
}

/// Prepares the export of a parsed table: selects the format named by
/// `format`, names the file after the current local time and the
/// series key, and renders the content — semicolon-separated CSV or an
/// array of JSON row objects. Fails exactly when the format is neither
/// CSV nor JSON, case-insensitively.
pub fn prepare_export(t: &ResultTable, series_key: &str, format: &str) -> (r: Result<
    ExportArtifact,
    EcbError,
>)
    requires
        t.well_formed(),
    ensures
        r is Ok <==> (eq_ignore_ascii_case(format@, "csv"@) || eq_ignore_ascii_case(
            format@,
            "json"@,
        )),
        eq_ignore_ascii_case(format@, "csv"@) ==> (r matches Ok(a) && a.content@
            == spec_table_content(t.spec_header(), t.spec_rows(), ';') && (exists|ts: Seq<char>|
            a.file_name@ == spec_file_name(ts, series_key@, ExportFormat::Csv))),
        eq_ignore_ascii_case(format@, "json"@) ==> (r matches Ok(a) && a.content@
            == spec_json_content(t.spec_header(), t.spec_rows()) && (exists|ts: Seq<char>|
            a.file_name@ == spec_file_name(ts, series_key@, ExportFormat::Json))),
        r matches Err(e) ==> (e matches EcbError::UnsupportedExportFormat(m) && m@ == format@),
{
    proof {
        reveal_strlit("csv");
        reveal_strlit("json");
    }
    let f = match parse_export_format(format) {
        Ok(f) => f,
        Err(e) => {
            return Err(e);
        },
    };
    let file_name = fresh_export_file_name(series_key, f);
    let content = match f {
        ExportFormat::Csv => render_csv(t),
        ExportFormat::Json => render_json(t),
    };
    Ok(ExportArtifact { file_name, content })
}

} // verus!
