//! A scraping engine: given a page and named CSS selectors, it extracts the
//! first matching text for each field. The extraction policy — the
//! invalid-selector sentinel, the empty string for an unmatched selector, the
//! trimming and space-joining of text nodes, total coverage of the requested
//! fields, and how fetch failures are reported — is specified and verified
//! here; HTML parsing and selector matching are delegated to the scraper
//! crate, and the HTTP surface lives outside the library.

pub mod extract;
pub mod response;
pub mod text;
