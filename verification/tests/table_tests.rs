use ecb_data::errors::EcbError;
use ecb_data::pipeline::process_response;
use ecb_data::table::parse_csv;

#[test]
fn two_line_body_parses_to_one_row() {
    let t = parse_csv("a,b\n1,2").unwrap();
    assert_eq!(t.header, vec!["a".to_string(), "b".to_string()]);
    assert_eq!(t.rows, vec![vec!["1".to_string(), "2".to_string()]]);
    assert_eq!(t.num_columns(), 2);
    assert_eq!(t.num_rows(), 1);
}

#[test]
fn trailing_line_break_is_tolerated() {
    let t = parse_csv("a,b\n1,2\n").unwrap();
    assert_eq!(t.header, vec!["a".to_string(), "b".to_string()]);
    assert_eq!(t.rows, vec![vec!["1".to_string(), "2".to_string()]]);
}

#[test]
fn header_only_body_gives_empty_table() {
    let t = parse_csv("KEY,TIME_PERIOD,OBS_VALUE").unwrap();
    assert_eq!(t.num_columns(), 3);
    assert_eq!(t.num_rows(), 0);
}

#[test]
fn empty_body_fails_to_parse() {
    assert_eq!(parse_csv(""), Err(EcbError::ParseFailure));
}

#[test]
fn ragged_row_fails_to_parse() {
    assert_eq!(parse_csv("a,b\n1"), Err(EcbError::ParseFailure));
    assert_eq!(parse_csv("a,b\n1,2,3"), Err(EcbError::ParseFailure));
    assert_eq!(parse_csv("a,b\n1,2\n3"), Err(EcbError::ParseFailure));
}

#[test]
fn empty_cells_are_kept() {
    let t = parse_csv("a,,c\n,x,").unwrap();
    assert_eq!(t.header, vec!["a".to_string(), String::new(), "c".to_string()]);
    assert_eq!(
        t.rows,
        vec![vec![String::new(), "x".to_string(), String::new()]]
    );
}

#[test]
fn success_status_yields_parsed_table() {
    let t = process_response(200, "a,b\n1,2").unwrap();
    assert_eq!(t.header, vec!["a".to_string(), "b".to_string()]);
    assert_eq!(t.rows, vec![vec!["1".to_string(), "2".to_string()]]);
}

#[test]
fn non_success_status_is_rejected_without_a_table() {
    let r = process_response(404, "a,b\n1,2");
    assert_eq!(r, Err(EcbError::RemoteRejection(404)));
}

#[test]
fn success_range_boundaries() {
    assert!(process_response(299, "a\n1").is_ok());
    assert_eq!(
        process_response(300, "a\n1"),
        Err(EcbError::RemoteRejection(300))
    );
    assert_eq!(
        process_response(199, "a\n1"),
        Err(EcbError::RemoteRejection(199))
    );
}

#[test]
fn success_status_with_bad_body_is_a_parse_failure() {
    assert_eq!(process_response(200, ""), Err(EcbError::ParseFailure));
    assert_eq!(
        process_response(204, "a,b\nonly-one"),
        Err(EcbError::ParseFailure)
    );
}
