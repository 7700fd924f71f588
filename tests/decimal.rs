use shodan_ingest::decimal::parse_usize;
use shodan_ingest::decimal::render_usize;

#[test]
fn parses_plain_numeral() {
    assert_eq!(parse_usize("3"), Some(3));
    assert_eq!(parse_usize("0"), Some(0));
    assert_eq!(parse_usize("0042"), Some(42));
}

#[test]
fn parses_leading_plus() {
    assert_eq!(parse_usize("+7"), Some(7));
    assert_eq!(parse_usize("+"), None);
}

#[test]
fn rejects_non_numerals() {
    assert_eq!(parse_usize(""), None);
    assert_eq!(parse_usize("abc"), None);
    assert_eq!(parse_usize("12a"), None);
    assert_eq!(parse_usize(" 3"), None);
    assert_eq!(parse_usize("-1"), None);
}

#[test]
fn parse_matches_std_at_the_limit() {
    let max = usize::MAX.to_string();
    assert_eq!(parse_usize(&max), Some(usize::MAX));
    let over = format!("{}0", max);
    assert_eq!(parse_usize(&over), None);
    assert_eq!(parse_usize(&over), over.parse::<usize>().ok());
}

#[test]
fn renders_numerals() {
    assert_eq!(render_usize(0), "0");
    assert_eq!(render_usize(7), "7");
    assert_eq!(render_usize(1234), "1234");
    assert_eq!(render_usize(usize::MAX), usize::MAX.to_string());
}
