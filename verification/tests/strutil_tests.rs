use ecb_data::errors::EcbError;
use ecb_data::strutil::index_of_char;
use ecb_data::strutil::join_strings;
use ecb_data::strutil::split_string;
use ecb_data::strutil::str_eq;
use ecb_data::strutil::str_eq_ignore_ascii_case;

#[test]
fn index_of_char_finds_first_occurrence() {
    assert_eq!(index_of_char("ILM.M.U2", '.'), Some(3));
    assert_eq!(index_of_char(".x", '.'), Some(0));
    assert_eq!(index_of_char("ILM", '.'), None);
    assert_eq!(index_of_char("", '.'), None);
}

#[test]
fn split_string_keeps_empty_pieces() {
    assert_eq!(split_string("a,b,c", ','), vec!["a", "b", "c"]);
    assert_eq!(split_string("a,,c", ','), vec!["a", "", "c"]);
    assert_eq!(split_string(",", ','), vec!["", ""]);
    assert_eq!(split_string("abc", ','), vec!["abc"]);
    assert_eq!(split_string("", ','), vec![""]);
}

#[test]
fn join_strings_is_inverse_of_split_on_clean_pieces() {
    let pieces = split_string("a;b;;d", ';');
    assert_eq!(join_strings(&pieces, ";"), "a;b;;d");
    assert_eq!(join_strings(&Vec::new(), ";"), "");
    assert_eq!(join_strings(&vec!["x".to_string()], ";"), "x");
}

#[test]
fn string_equality_helpers() {
    assert!(str_eq("abc", "abc"));
    assert!(!str_eq("abc", "abd"));
    assert!(!str_eq("abc", "ab"));
    assert!(str_eq_ignore_ascii_case("CsV", "csv"));
    assert!(str_eq_ignore_ascii_case("JSON", "json"));
    assert!(!str_eq_ignore_ascii_case("csv", "json"));
    assert!(!str_eq_ignore_ascii_case("csv", "csvx"));
}

#[test]
fn transport_and_io_errors_carry_their_messages() {
    let t = EcbError::TransportFailure("connection refused".to_string());
    assert_eq!(
        t,
        EcbError::TransportFailure("connection refused".to_string())
    );
    let io = EcbError::ExportIOFailure("permission denied".to_string());
    assert!(matches!(io, EcbError::ExportIOFailure(m) if m == "permission denied"));
}
