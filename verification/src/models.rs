//! The data shapes the pipeline produces and the requests/responses built
//! around them, together with the mathematical model of an extracted record.

use vstd::prelude::*;

verus! {

/// One extracted inventory record.
///
/// `added_date` is the set date of the row as seconds since the Unix epoch
/// at midnight UTC, or the wall-clock time of construction when the set
/// date did not parse (a stand-in, not an authoritative value).
#[derive(Debug, Clone)]
pub struct JunkyardItem {
    pub id: String,
    pub make: String,
    pub model: String,
    pub year: Option<u32>,
    pub location: Option<String>,
    pub availability: bool,
    pub added_date: i64,
}

/// A vehicle search request.
#[derive(Debug, Clone)]
pub struct SearchRequest {
    pub make: String,
    pub model: String,
    pub year_min: u32,
    pub year_max: u32,
    pub zip_code: String,
    /// Search radius in miles; defaults to 50 when absent.
    pub distance: Option<u32>,
}

/// A successful search response.
#[derive(Debug)]
pub struct SearchResponse {
    pub success: bool,
    pub vehicles: Vec<JunkyardItem>,
    pub search_params: SearchRequest,
    pub total_found: usize,
}

/// An error response.
#[derive(Debug, Clone)]
pub struct ErrorResponse {
    pub success: bool,
    pub error: String,
}

/// The envelope the scraping service answers with.
#[derive(Debug)]
pub struct CrawlResponse {
    pub success: bool,
    pub data: Option<CrawlData>,
}

/// The page payload inside a crawl response.
#[derive(Debug, Clone)]
pub struct CrawlData {
    pub markdown: Option<String>,
    pub html: Option<String>,
    pub url: Option<String>,
}

/// The mathematical model of one extracted record: every field the
/// extractor determines, with the set date kept as `None` where the row's
/// date token did not parse (the record then carries a wall-clock stand-in).
pub ghost struct RecordModel {
    pub id: Seq<char>,
    pub make: Seq<char>,
    pub model: Seq<char>,
    pub year: u32,
    pub location: Seq<char>,
    pub date: Option<int>,
}

/// Whether the concrete record `it` realises the model `m`.  The date is
/// pinned exactly when the row's set date parsed; otherwise the record
/// holds a construction-time stand-in that the model does not constrain.
pub open spec fn item_matches(it: JunkyardItem, m: RecordModel) -> bool {
    &&& it.id@ == m.id
    &&& it.make@ == m.make
    &&& it.model@ == m.model
    &&& it.year == Some(m.year)
    &&& match it.location {
        Some(l) => l@ == m.location,
        None => false,
    }
    &&& it.availability == true
    &&& match m.date {
        Some(d) => it.added_date == d,
        None => true,
    }
}

/// The view of an optional character vector.
pub open spec fn opt_view(o: Option<Vec<char>>) -> Option<Seq<char>> {
    match o {
        Some(v) => Some(v@),
        None => None,
    }
}

} // verus!
