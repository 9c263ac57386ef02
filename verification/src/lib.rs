//! Extraction of structured vehicle-inventory records from semi-structured
//! text pages, together with the search-URL catalog that drives the lookups.
//!
//! The heart of the crate is [`parser::parse_junkyard_page`], which classifies
//! a page, walks its pipe-delimited inventory table (or a free-text fallback
//! pattern), enriches each row with a location guess and a parsed set date,
//! and returns the records in document order.

pub mod date;
pub mod location;
pub mod models;
pub mod parser;
pub mod pick_n_pull;
pub mod search;
pub mod text;
