use shodan_ingest::shodan::api_info_url;
use shodan_ingest::shodan::host_search_paged_url;
use shodan_ingest::shodan::host_search_url;
use shodan_ingest::shodan::search_url;
use shodan_ingest::shodan::Request;

#[test]
fn api_info_address() {
    assert_eq!(
        api_info_url("SECRET-REDACTED").unwrap(),
        "https://api.shodan.io/api-info?key=SECRET-REDACTED"
    );
}

#[test]
fn unpaged_search_address() {
    assert_eq!(
        host_search_url("k1", "apache").unwrap(),
        "https://api.shodan.io/shodan/host/search?key=k1&minify=false&query=apache"
    );
}

#[test]
fn paged_search_address() {
    assert_eq!(
        host_search_paged_url("k1", "apache", 3).unwrap(),
        "https://api.shodan.io/shodan/host/search?key=k1&minify=false&query=apache&page=3"
    );
    assert_eq!(
        search_url("k1", "apache", Request::Page(12)).unwrap(),
        "https://api.shodan.io/shodan/host/search?key=k1&minify=false&query=apache&page=12"
    );
}

#[test]
fn query_is_form_encoded() {
    assert_eq!(
        host_search_url("k", "port:22 country:DE").unwrap(),
        "https://api.shodan.io/shodan/host/search?key=k&minify=false&query=port%3A22+country%3ADE"
    );
}
