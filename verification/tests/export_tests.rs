use ecb_data::errors::EcbError;
use ecb_data::export::ExportFormat;
use ecb_data::export::export_file_name;
use ecb_data::export::fresh_export_file_name;
use ecb_data::export::parse_export_format;
use ecb_data::export::prepare_export;
use ecb_data::render::render_csv;
use ecb_data::render::render_display;
use ecb_data::render::render_json;
use ecb_data::table::parse_csv;

#[test]
fn csv_export_uses_semicolon_separator() {
    let t = parse_csv("a,b\n1,2").unwrap();
    let a = prepare_export(&t, "ILM.M.U2", "csv").unwrap();
    assert_eq!(a.content, "a;b\n1;2\n");
    assert!(a.file_name.ends_with("_ILM.M.U2.csv"));
}

#[test]
fn format_selection_is_case_insensitive() {
    let t = parse_csv("a,b\n1,2").unwrap();
    let upper = prepare_export(&t, "K.X", "CSV").unwrap();
    assert_eq!(upper.content, "a;b\n1;2\n");
    let mixed = prepare_export(&t, "K.X", "JsOn").unwrap();
    assert_eq!(mixed.content, "[{\"a\":\"1\",\"b\":\"2\"}]");
    assert!(mixed.file_name.ends_with("_K.X.json"));
}

#[test]
fn unsupported_format_is_reported_verbatim() {
    let t = parse_csv("a,b\n1,2").unwrap();
    let r = prepare_export(&t, "K.X", "xlsx");
    assert_eq!(
        r.err(),
        Some(EcbError::UnsupportedExportFormat("xlsx".to_string()))
    );
    assert_eq!(
        parse_export_format("Xlsx").err(),
        Some(EcbError::UnsupportedExportFormat("Xlsx".to_string()))
    );
}

#[test]
fn parse_export_format_accepts_both_formats() {
    assert_eq!(parse_export_format("csv"), Ok(ExportFormat::Csv));
    assert_eq!(parse_export_format("JSON"), Ok(ExportFormat::Json));
}

#[test]
fn json_export_writes_row_objects() {
    let t = parse_csv("KEY,OBS_VALUE\nEXR.D,1.23\nEXR.M,4.56").unwrap();
    let s = render_json(&t);
    assert_eq!(
        s,
        "[{\"KEY\":\"EXR.D\",\"OBS_VALUE\":\"1.23\"},{\"KEY\":\"EXR.M\",\"OBS_VALUE\":\"4.56\"}]"
    );
}

#[test]
fn json_export_of_empty_table_is_empty_array() {
    let t = parse_csv("a,b").unwrap();
    assert_eq!(render_json(&t), "[]");
}

#[test]
fn json_strings_are_escaped() {
    let t = parse_csv("h\nsay \"hi\"\\now").unwrap();
    assert_eq!(render_json(&t), "[{\"h\":\"say \\\"hi\\\"\\\\now\"}]");
    let tabbed = parse_csv("h\ncol\tumn").unwrap();
    assert_eq!(render_json(&tabbed), "[{\"h\":\"col\\tumn\"}]");
    let control = parse_csv("h\na\u{1}b\u{1f}c").unwrap();
    assert_eq!(render_json(&control), "[{\"h\":\"a\\u0001b\\u001fc\"}]");
}

#[test]
fn csv_render_keeps_header_and_rows() {
    let t = parse_csv("a,b\n1,2\n3,4").unwrap();
    assert_eq!(render_csv(&t), "a;b\n1;2\n3;4\n");
}

#[test]
fn display_render_uses_tabs() {
    let t = parse_csv("a,b\n1,2").unwrap();
    assert_eq!(render_display(&t), "a\tb\n1\t2\n");
}

#[test]
fn file_name_encodes_timestamp_key_and_extension() {
    let name = export_file_name("2024-01-02_03-04-05", "ILM.M.U2", ExportFormat::Json);
    assert_eq!(name, "2024-01-02_03-04-05_ILM.M.U2.json");
}

#[test]
fn fresh_file_name_has_timestamp_prefix_and_key_suffix() {
    let name = fresh_export_file_name("EXR.D.USD", ExportFormat::Csv);
    assert!(name.ends_with("_EXR.D.USD.csv"));
    let stamp = &name[..name.len() - "_EXR.D.USD.csv".len()];
    assert_eq!(stamp.len(), 19);
    assert!(stamp.chars().all(|c| c.is_ascii_digit() || c == '-' || c == '_'));
}
