//! Addresses of the search service's endpoints.
use vstd::prelude::*;

use crate::decimal::render_usize;
use crate::decimal::numeral_of;

verus! {

pub const API_INFO_URL: &'static str = "https://api.shodan.io/api-info";

pub const HOST_SEARCH_URL: &'static str = "https://api.shodan.io/shodan/host/search";

#[verifier::external_type_specification]
#[verifier::external_body]
pub struct ExUrlParseError(url::ParseError);

/// The text of the URL that `base`, read as an absolute URL, becomes once
/// `pairs` are appended to its query; `None` where `base` is not one.
pub uninterp spec fn url_with_query(base: Seq<char>, pairs: Seq<(Seq<char>, Seq<char>)>) -> Option<Seq<char>>;

pub open spec fn pair_views(pairs: Seq<(String, String)>) -> Seq<(Seq<char>, Seq<char>)> {
    pairs.map_values(|p: (String, String)| (p.0@, p.1@))
}

/// Relies on url::Url::parse_with_params: it parses `base` and appends the
/// pairs, form-encoded and in order, to the query; it fails only where
/// `base` does not parse. Its text depends on the arguments alone.
#[verifier::external_body]
fn parse_with_params(base: &str, pairs: &Vec<(String, String)>) -> (r: Result<String, url::ParseError>)
    ensures
        match r {
            Ok(u) => url_with_query(base@, pair_views(pairs@)) == Some(u@),
            Err(_) => url_with_query(base@, pair_views(pairs@)) is None,
        },
{
    url::Url::parse_with_params(base, pairs.iter()).map(String::from)
}

/// A request address could not be formed.
#[derive(Debug, Clone, Copy, PartialEq, Eq, Structural)]
pub enum RequestError {
    InvalidUrl,
}

/// Which result set a search asks for.
#[derive(Debug, Clone, Copy, PartialEq, Eq, Structural)]
pub enum Request {
    /// The service's default result set, without a page parameter.
    Unpaged,
    /// The given page, counted from 1.
    Page(usize),
}

/// What an address request yields, given what the URL library makes of it.
pub open spec fn address(base: Seq<char>, pairs: Seq<(Seq<char>, Seq<char>)>) -> Result<Seq<char>, RequestError> {
    match url_with_query(base, pairs) {
        Some(u) => Ok(u),
        None => Err(RequestError::InvalidUrl),
    }
}

pub open spec fn result_view(r: Result<String, RequestError>) -> Result<Seq<char>, RequestError> {
    match r {
        Ok(s) => Ok(s@),
        Err(e) => Err(e),
    }
}

/// The query pairs of a search: the key, full records, the query and, for a
/// paged request, the page number.
pub open spec fn search_pairs(api_key: Seq<char>, query: Seq<char>, request: Request) -> Seq<(Seq<char>, Seq<char>)> {
    let base = seq![("key"@, api_key), ("minify"@, "false"@), ("query"@, query)];
    match request {
        Request::Unpaged => base,
        Request::Page(p) => base.push(("page"@, numeral_of(p as nat))),
    }
}

fn build(base: &str, pairs: &Vec<(String, String)>) -> (r: Result<String, RequestError>)
    ensures
        result_view(r) == address(base@, pair_views(pairs@)),
{
    match parse_with_params(base, pairs) {
        Ok(u) => Ok(u),
        Err(_) => Err(RequestError::InvalidUrl),
    }
}

/// The address of the account-information endpoint for `api_key`.
pub fn api_info_url(api_key: &str) -> (r: Result<String, RequestError>)
    ensures
        result_view(r) == address(API_INFO_URL@, seq![("key"@, api_key@)]),
{
    let mut pairs: Vec<(String, String)> = Vec::new();
    pairs.push((String::from_str("key"), String::from_str(api_key)));
    assert(pair_views(pairs@) =~= seq![("key"@, api_key@)]);
    build(API_INFO_URL, &pairs)
}

/// The address of a host search for `query`, unpaged or for one page.
pub fn search_url(api_key: &str, query: &str, request: Request) -> (r: Result<String, RequestError>)
    ensures
        result_view(r) == address(HOST_SEARCH_URL@, search_pairs(api_key@, query@, request)),
{
    let mut pairs: Vec<(String, String)> = Vec::new();
    pairs.push((String::from_str("key"), String::from_str(api_key)));
    pairs.push((String::from_str("minify"), String::from_str("false")));
    pairs.push((String::from_str("query"), String::from_str(query)));
    match request {
        Request::Unpaged => {},
        Request::Page(p) => {
            pairs.push((String::from_str("page"), render_usize(p)));
        },
    }
    assert(pair_views(pairs@) =~= search_pairs(api_key@, query@, request));
    build(HOST_SEARCH_URL, &pairs)
}

/// The address of an unpaged host search for `query`.
pub fn host_search_url(api_key: &str, query: &str) -> (r: Result<String, RequestError>)
    ensures
        result_view(r) == address(HOST_SEARCH_URL@, search_pairs(api_key@, query@, Request::Unpaged)),
{
    search_url(api_key, query, Request::Unpaged)
}

/// The address of page `page` of a host search for `query`.
pub fn host_search_paged_url(api_key: &str, query: &str, page: usize) -> (r: Result<String, RequestError>)
    ensures
        result_view(r) == address(HOST_SEARCH_URL@, search_pairs(api_key@, query@, Request::Page(page))),
{
    search_url(api_key, query, Request::Page(page))
}

} // verus!
