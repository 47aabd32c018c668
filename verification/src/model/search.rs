//! The search request, its filters, and the answer.
use vstd::prelude::*;

verus! {

/// A search: by text, by picture, or both.
#[derive(Debug, Clone)]
pub struct SearchRequest {
    pub query_text: Option<String>,
    /// The picture, base64 encoded, possibly behind a `data:...;base64,` prefix.
    pub query_image: Option<String>,
    pub top_k: u64,
    /// The lowest score kept, an `f32` carried as its IEEE-754 bit pattern.
    pub score_threshold_bits: u32,
    /// The stem / analysis / knowledge weights, `f32` bit patterns.
    pub weights_bits: Option<Vec<u32>>,
    pub filters: Option<SearchFilters>,
}

/// The number of results when the request names none.
pub fn default_top_k() -> (r: u64)
    ensures
        r == 10,
{
    10
}

/// Conditions that every result must meet (all of them).
#[derive(Debug, Clone)]
pub struct SearchFilters {
    pub subject_id: Option<u64>,
    pub grade_id: Option<u64>,
    pub ptype_id: Option<u64>,
    pub knowledge_point: Option<String>,
}

/// One hit.
#[derive(Debug, Clone)]
pub struct SearchResult {
    pub question_id: u64,
    pub stem: String,
    /// The fused score, an `f32` bit pattern.
    pub score_bits: u32,
    pub subject_id: Option<u64>,
    pub grade_id: Option<u64>,
    pub knowledge_points: Vec<String>,
    pub ptype_id: Option<u64>,
    /// The difficulty, an `f32` bit pattern.
    pub difficult_bits: Option<u32>,
}

/// The answer to a search.
#[derive(Debug, Clone)]
pub struct SearchResponse {
    pub results: Vec<SearchResult>,
    pub total: usize,
    pub status: String,
}

/// The answer that carries `results`.
pub fn search_response(results: Vec<SearchResult>) -> (r: SearchResponse)
    ensures
        r.results@ == results@,
        r.total == results.len(),
        r.status@ == "ok"@,
{
    let total = results.len();
    SearchResponse { results, total, status: String::from_str("ok") }
}

} // verus!
