//! What the language models are asked and what they answer.
use vstd::prelude::*;

verus! {

/// The embedding of a text.
#[derive(Clone, Debug)]
pub struct EmbeddingResult<E> {
    pub embedding: E,
    pub model: String,
}

/// A generated text.
#[derive(Clone, Debug)]
pub struct GenerateResult {
    pub text: String,
    pub model: String,
    pub done: bool,
}

/// The score of a document, and its position among the documents that were asked about.
#[derive(Clone, Debug)]
pub struct RerankDocumentResult {
    pub file: String,
    /// The bits of the score, as `f32::to_bits` gives them.
    pub score_bits: u32,
    pub index: usize,
}

/// The scores of documents.
#[derive(Clone, Debug)]
pub struct RerankResult {
    pub results: Vec<RerankDocumentResult>,
    pub model: String,
}

/// Whether a model is there.
#[derive(Clone, Debug)]
pub struct ModelInfo {
    pub name: String,
    pub exists: bool,
    /// The file of a local model.
    pub path: Option<String>,
}

/// How a text is embedded.
#[derive(Clone, Debug, Default)]
pub struct EmbedOptions {
    /// The model, where it is not the configured one.
    pub model: Option<String>,
    /// Whether the text is a query.
    pub is_query: bool,
    /// The title of a document.
    pub title: Option<String>,
}

/// How a text is generated.
#[derive(Clone, Debug, Default)]
pub struct GenerateOptions {
    pub model: Option<String>,
    pub max_tokens: Option<usize>,
    /// The bits of the temperature, as `f32::to_bits` gives them.
    pub temperature_bits: Option<u32>,
}

/// How documents are scored.
#[derive(Clone, Debug, Default)]
pub struct RerankOptions {
    pub model: Option<String>,
}

/// How a query is expanded.
#[derive(Clone, Debug, Default)]
pub struct ExpandQueryOptions {
    pub context: Option<String>,
    /// Whether lexical queries are wanted; they are where nothing is said.
    pub include_lexical: Option<bool>,
    pub intent: Option<String>,
}

/// Which search a query is for.
#[derive(Clone, Copy, Debug, PartialEq, Eq, Hash, Structural)]
pub enum QueryType {
    Lex,
    Vec,
    Hyde,
}

impl QueryType {
    /// The name of the type.
    pub open spec fn name(self) -> Seq<char> {
        match self {
            QueryType::Lex => "lex"@,
            QueryType::Vec => "vec"@,
            QueryType::Hyde => "hyde"@,
        }
    }

    /// The name of the type.
    pub fn as_str(self) -> (r: &'static str)
        ensures
            r@ == self.name(),
    {
        match self {
            QueryType::Lex => "lex",
            QueryType::Vec => "vec",
            QueryType::Hyde => "hyde",
        }
    }
}

/// One query of an expansion.
#[derive(Clone, Debug)]
pub struct Queryable {
    pub type_: QueryType,
    pub text: String,
}

impl View for Queryable {
    type V = (QueryType, Seq<char>);

    open spec fn view(&self) -> (QueryType, Seq<char>) {
        (self.type_, self.text@)
    }
}

/// What queries hold.
pub open spec fn queryable_views(v: Seq<Queryable>) -> Seq<(QueryType, Seq<char>)> {
    Seq::new(v.len(), |i: int| v[i]@)
}

/// A document that is scored.
#[derive(Clone, Debug)]
pub struct RerankDocument {
    pub file: String,
    pub text: String,
    pub title: Option<String>,
}

/// The configured models.
#[derive(Clone, Debug, Default)]
pub struct ModelResolutionConfig {
    pub embed: Option<String>,
    pub generate: Option<String>,
    pub rerank: Option<String>,
}

/// How models are downloaded.
#[derive(Clone, Debug, Default)]
pub struct PullOptions {
    /// Download what is cached already, too.
    pub refresh: bool,
    /// Where to, where it is not the default directory.
    pub cache_dir: Option<String>,
}

/// A downloaded model.
#[derive(Clone, Debug)]
pub struct PullResult {
    pub model: String,
    pub path: String,
    pub size_bytes: u64,
    /// Whether a cached file was replaced.
    pub refreshed: bool,
}

} // verus!
