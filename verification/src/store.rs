//! Documents as the store hands them out.
use vstd::prelude::*;

verus! {

/// A document of the index.
#[derive(Clone, Debug)]
pub struct DocumentResult {
    /// The `qmd://` path.
    pub filepath: String,
    /// The path as `collection/path`.
    pub display_path: String,
    pub title: String,
    pub context: Option<String>,
    pub hash: String,
    pub docid: String,
    pub collection_name: String,
    pub modified_at: String,
    pub body_length: usize,
    pub body: Option<String>,
}

/// One document of a batch: found, or left out.
#[derive(Clone, Debug)]
pub enum MultiGetResult {
    Found(DocumentResult),
    Skipped { filepath: String, display_path: String, skip_reason: String },
}

/// A score, as it is compared and as it is written.
#[derive(Debug)]
pub struct HitScore {
    /// The bits of the score, as `f64::to_bits` gives them.
    pub bits: u64,
    /// A hundred times the score, rounded.
    pub percent: i64,
    /// The score with two decimals.
    pub two: String,
    /// The score with four decimals.
    pub four: String,
}

impl Clone for HitScore {
    fn clone(&self) -> (r: Self)
        ensures
            r == *self,
    {
        HitScore {
            bits: self.bits,
            percent: self.percent,
            two: self.two.clone(),
            four: self.four.clone(),
        }
    }
}

/// A document that a full-text search found.
#[derive(Debug)]
pub struct SearchResult {
    pub doc: DocumentResult,
    pub score: HitScore,
    /// Where the chunk that was found starts in the body, where that is known.
    pub chunk_pos: Option<i64>,
}

/// A document that a vector search found.
#[derive(Debug)]
pub struct VectorSearchResult {
    pub display_path: String,
    pub title: String,
    pub body: String,
    pub score: HitScore,
    pub context: Option<String>,
    pub docid: String,
}

/// A document that a hybrid search found.
#[derive(Debug)]
pub struct HybridQueryResult {
    pub display_path: String,
    pub title: String,
    pub body: String,
    pub best_chunk: String,
    /// Where the best chunk starts in the body, in bytes.
    pub best_chunk_pos: usize,
    pub score: HitScore,
    pub context: Option<String>,
    pub docid: String,
}

/// What a snippet is asked for.
#[derive(Debug)]
pub struct SnippetRequest {
    pub body: String,
    pub query: String,
    /// How long it may be, where that is not left to the extractor.
    pub max_len: Option<usize>,
    /// Where the chunk to look in starts, and how long it is.
    pub chunk_pos: Option<usize>,
    pub chunk_len: Option<usize>,
    pub intent: Option<String>,
}

/// The part of a body that is shown, and its line, counted from one.
#[derive(Debug)]
pub struct SnippetResult {
    pub line: usize,
    pub snippet: String,
}

/// Which search a ranked list came from.
#[derive(Clone, Copy, Debug, PartialEq, Eq, Structural)]
pub enum SearchSource {
    Fts,
    Vec,
}

/// Which query a ranked list came from.
#[derive(Clone, Copy, Debug, PartialEq, Eq, Structural)]
pub enum QueryType {
    Original,
    Lex,
    Vec,
    Hyde,
}

/// What one ranked list adds to the fused score of a document.
#[derive(Debug)]
pub struct ContributionText {
    pub source: SearchSource,
    pub query_type: QueryType,
    pub rank: usize,
    /// The contribution with four decimals.
    pub contribution: String,
    /// The bits of the contribution.
    pub contribution_bits: u64,
}

/// How the score of a document came about; numbers with four decimals.
#[derive(Debug)]
pub struct ExplainText {
    pub fts_scores: Vec<String>,
    pub vector_scores: Vec<String>,
    pub total_score: String,
    pub base_score: String,
    pub top_rank_bonus: String,
    pub rank: usize,
    /// A hundred times the weight of the fused rank, rounded.
    pub weight_percent: i64,
    pub position_score: String,
    /// A hundred times the weight of the reranker, rounded.
    pub rerank_percent: i64,
    pub rerank_score: String,
    pub blended_score: String,
    pub contributions: Vec<ContributionText>,
}

} // verus!
