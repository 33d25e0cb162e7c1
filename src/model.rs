use vstd::prelude::*;

verus! {

/// Declares `serde_json::Value`, the JSON value that the search endpoint sends
/// for each version entry; the library only carries such values along, unread.
#[verifier::external_type_specification]
#[verifier::external_body]
pub struct ExJsonValue(serde_json::Value);

/// One hit of a documentation search.
///
/// Every field but `id` may be absent from the endpoint's answer.
/// The trust score is kept as the IEEE-754 bit pattern of the 64-bit float
/// that the endpoint sends (`f64::to_bits`), so that the logic can order it
/// without floating-point arithmetic.
#[derive(Clone, Debug)]
pub struct SearchResult {
    pub branch: Option<String>,
    pub description: Option<String>,
    pub id: String,
    pub last_update_date: Option<String>,
    pub stars: Option<i64>,
    pub state: Option<String>,
    pub title: Option<String>,
    pub total_pages: Option<i64>,
    pub total_snippets: Option<i64>,
    pub total_tokens: Option<i64>,
    pub trust_score_bits: Option<u64>,
    pub versions: Option<Vec<serde_json::Value>>,
}

/// The body of a search answer: the hits in the order the endpoint sent them.
#[derive(Debug)]
pub struct SearchResponse {
    pub results: Vec<SearchResult>,
}

} // verus!
