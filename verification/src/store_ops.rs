//! What the search operations are asked for.
use vstd::prelude::*;

verus! {

/// How one line of a query is searched for.
#[derive(Clone, Copy, Debug, PartialEq, Eq, Structural)]
pub enum ExpandedQueryType {
    /// Full-text search.
    Lex,
    /// Vector search with the text itself.
    Vec,
    /// Vector search with a hypothetical answer.
    Hyde,
}

/// How documents are cut into chunks.
#[derive(Clone, Copy, Debug, PartialEq, Eq, Structural)]
pub enum ChunkStrategy {
    /// By the syntax of the document where it is known.
    Auto,
    /// By patterns alone.
    Regex,
}

/// One typed search.
#[derive(Clone, Debug)]
pub struct ExpandedQuery {
    pub type_: ExpandedQueryType,
    pub query: String,
    /// The line of the query document that it came from, counted from one.
    pub line: Option<usize>,
}

/// What an [`ExpandedQuery`] holds.
pub struct ExpandedQueryModel {
    pub type_: ExpandedQueryType,
    pub query: Seq<char>,
    pub line: Option<usize>,
}

impl View for ExpandedQuery {
    type V = ExpandedQueryModel;

    open spec fn view(&self) -> ExpandedQueryModel {
        ExpandedQueryModel { type_: self.type_, query: self.query@, line: self.line }
    }
}

/// What a list of searches holds.
pub open spec fn query_models(v: Seq<ExpandedQuery>) -> Seq<ExpandedQueryModel> {
    Seq::new(v.len(), |i: int| v[i]@)
}

} // verus!
