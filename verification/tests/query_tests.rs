use ecb_data::errors::EcbError;
use ecb_data::query::QueryParameters;
use ecb_data::query::build_query_url;

fn no_params() -> QueryParameters {
    QueryParameters::none()
}

#[test]
fn bare_key_builds_exact_url() {
    let url = build_query_url("ILM.M.U2.C.L020200.U2.EUR", &no_params()).unwrap();
    assert_eq!(
        url,
        "https://data-api.ecb.europa.eu/service/data/ILM/M.U2.C.L020200.U2.EUR?format=csvdata"
    );
}

#[test]
fn start_and_end_period_append_in_order() {
    let mut p = no_params();
    p.start_period = Some("2007-01".to_string());
    p.end_period = Some("2022-12".to_string());
    let url = build_query_url("ILM.M.U2.C.L020200.U2.EUR", &p).unwrap();
    assert_eq!(
        url,
        "https://data-api.ecb.europa.eu/service/data/ILM/M.U2.C.L020200.U2.EUR?format=csvdata&startPeriod=2007-01&endPeriod=2022-12"
    );
}

#[test]
fn all_parameters_append_in_fixed_order() {
    let p = QueryParameters {
        start_period: Some("2000".to_string()),
        end_period: Some("2001".to_string()),
        detail: Some("dataonly".to_string()),
        updated_after: Some("2009-05-15T14:15:00+01:00".to_string()),
        first_n_observations: Some("3".to_string()),
        last_n_observations: Some("5".to_string()),
        include_history: true,
    };
    let url = build_query_url("EXR.D.USD.EUR.SP00.A", &p).unwrap();
    assert_eq!(
        url,
        "https://data-api.ecb.europa.eu/service/data/EXR/D.USD.EUR.SP00.A?format=csvdata\
         &startPeriod=2000&endPeriod=2001&detail=dataonly\
         &updatedAfter=2009-05-15T14:15:00+01:00\
         &firstNObservations=3&lastNObservations=5&includeHistory=true"
    );
}

#[test]
fn order_does_not_depend_on_which_are_supplied() {
    let mut late_only = no_params();
    late_only.last_n_observations = Some("7".to_string());
    late_only.detail = Some("full".to_string());
    let url = build_query_url("A.B", &late_only).unwrap();
    assert_eq!(
        url,
        "https://data-api.ecb.europa.eu/service/data/A/B?format=csvdata&detail=full&lastNObservations=7"
    );
}

#[test]
fn empty_optional_value_is_appended_verbatim() {
    let mut p = no_params();
    p.start_period = Some(String::new());
    let url = build_query_url("A.B", &p).unwrap();
    assert_eq!(
        url,
        "https://data-api.ecb.europa.eu/service/data/A/B?format=csvdata&startPeriod="
    );
}

#[test]
fn key_without_delimiter_is_invalid() {
    let r = build_query_url("ILM", &no_params());
    assert_eq!(r, Err(EcbError::InvalidSeriesKey));
}

#[test]
fn empty_key_is_invalid() {
    let r = build_query_url("", &no_params());
    assert_eq!(r, Err(EcbError::InvalidSeriesKey));
}

#[test]
fn split_happens_on_first_delimiter_only() {
    let url = build_query_url("DB.T1.T2", &no_params()).unwrap();
    assert_eq!(
        url,
        "https://data-api.ecb.europa.eu/service/data/DB/T1.T2?format=csvdata"
    );
}

#[test]
fn trailing_delimiter_gives_empty_ticker() {
    let url = build_query_url("DB.", &no_params()).unwrap();
    assert_eq!(
        url,
        "https://data-api.ecb.europa.eu/service/data/DB/?format=csvdata"
    );
}
