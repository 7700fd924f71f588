use shodan_ingest::page::page_matches;
use shodan_ingest::page::PageError;

#[test]
fn one_match_is_one_record() {
    let records = page_matches(r#"{"matches":[{"ip_str":"1.2.3.4"}]}"#).unwrap();
    assert_eq!(records.len(), 1);
    assert_eq!(records[0]["ip_str"], "1.2.3.4");
    assert_eq!(records[0].to_string(), r#"{"ip_str":"1.2.3.4"}"#);
}

#[test]
fn records_keep_order_and_fields() {
    let body = r#"{"total":3,"matches":[{"ip_str":"10.0.0.1","port":80},{"ip_str":"10.0.0.2","port":443,"ok":true},{"ip_str":"10.0.0.3","data":null}]}"#;
    let records = page_matches(body).unwrap();
    assert_eq!(records.len(), 3);
    assert_eq!(records[0]["ip_str"], "10.0.0.1");
    assert_eq!(records[0]["port"], 80);
    assert_eq!(records[1]["ip_str"], "10.0.0.2");
    assert_eq!(records[1]["ok"], true);
    assert_eq!(records[2]["ip_str"], "10.0.0.3");
    assert!(records[2]["data"].is_null());
}

#[test]
fn empty_matches_give_no_records() {
    assert_eq!(page_matches(r#"{"matches":[]}"#).unwrap().len(), 0);
}

#[test]
fn missing_matches_is_an_error() {
    assert_eq!(page_matches(r#"{"error":"no plan"}"#).unwrap_err(), PageError::NoMatches);
}

#[test]
fn matches_not_an_array_is_an_error() {
    assert_eq!(page_matches(r#"{"matches":{"ip_str":"1.2.3.4"}}"#).unwrap_err(), PageError::NoMatches);
    assert_eq!(page_matches(r#"[{"ip_str":"1.2.3.4"}]"#).unwrap_err(), PageError::NoMatches);
}

#[test]
fn malformed_body_is_a_parse_error() {
    assert_eq!(page_matches("<html>502 Bad Gateway</html>").unwrap_err(), PageError::Malformed);
    assert_eq!(page_matches("").unwrap_err(), PageError::Malformed);
    assert_eq!(page_matches(r#"{"matches":[]} trailing"#).unwrap_err(), PageError::Malformed);
}
