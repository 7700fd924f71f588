//! Collects host-search results page by page and hands each matched record
//! on for storage: request addresses, page decoding and the paging policy.
pub mod decimal;
pub mod page;
pub mod session;
pub mod shodan;
