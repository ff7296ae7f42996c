//! The command line, as plain values.
use vstd::prelude::*;

use crate::store_ops::ChunkStrategy;

verus! {

/// The command line.
#[derive(Debug)]
pub struct Cli {
    /// The name of the index, where another than the default one is used.
    pub index: Option<String>,
    /// Keep the language models off the GPU.
    pub no_gpu: bool,
    pub no_color: bool,
    /// Print the bundled skill, as `skill show` does.
    pub skill: bool,
    pub command: Option<Command>,
}

/// A subcommand.
#[derive(Debug)]
pub enum Command {
    Collection(CollectionCmd),
    Context(ContextCmd),
    Get(GetArgs),
    MultiGet(MultiGetArgs),
    Ls(LsArgs),
    Status,
    Update,
    Cleanup,
    Search(SearchArgs),
    Vsearch(VsearchArgs),
    Query(QueryArgs),
    Bench(BenchArgs),
    Embed(EmbedArgs),
    Pull(PullArgs),
    Mcp(McpArgs),
    Skill(SkillCmd),
    Skills(SkillsCmd),
}

/// `skill`.
#[derive(Debug)]
pub enum SkillCmd {
    Show,
    Install(SkillInstallArgs),
}

/// `skill install`.
#[derive(Debug)]
pub struct SkillInstallArgs {
    /// Into the home directory rather than the project.
    pub global: bool,
    /// Make the link without asking.
    pub yes: bool,
    /// Replace what is there.
    pub force: bool,
}

/// `skills`.
#[derive(Debug)]
pub enum SkillsCmd {
    List(SkillsListArgs),
    Get(SkillsGetArgs),
    Path(SkillsPathArgs),
}

/// `skills list`.
#[derive(Debug)]
pub struct SkillsListArgs {
    pub json: bool,
}

/// `skills get`.
#[derive(Debug)]
pub struct SkillsGetArgs {
    pub name: Option<String>,
    pub full: bool,
    pub all: bool,
    pub json: bool,
}

/// `skills path`.
#[derive(Debug)]
pub struct SkillsPathArgs {
    pub name: Option<String>,
}

/// `collection`.
#[derive(Debug)]
pub enum CollectionCmd {
    List,
    Add(CollectionAddArgs),
    Remove(CollectionRemoveArgs),
    Rename(CollectionRenameArgs),
    Show(CollectionShowArgs),
    UpdateCmd(CollectionUpdateCmdArgs),
    Include(CollectionNameArg),
    Exclude(CollectionNameArg),
}

/// `collection add`.
#[derive(Debug)]
pub struct CollectionAddArgs {
    /// The directory, or the current one.
    pub path: Option<String>,
    /// The name, or the last part of the path.
    pub name: Option<String>,
    /// The pattern of the files, or all Markdown files.
    pub mask: Option<String>,
}

/// `collection remove`.
#[derive(Debug)]
pub struct CollectionRemoveArgs {
    pub name: String,
}

/// `collection rename`.
#[derive(Debug)]
pub struct CollectionRenameArgs {
    pub old_name: String,
    pub new_name: String,
}

/// `collection show`.
#[derive(Debug)]
pub struct CollectionShowArgs {
    pub name: String,
}

/// `collection update-cmd`.
#[derive(Debug)]
pub struct CollectionUpdateCmdArgs {
    pub name: String,
    /// The words of the command; none clears it.
    pub command: Vec<String>,
}

/// `collection include` and `collection exclude`.
#[derive(Debug)]
pub struct CollectionNameArg {
    pub name: String,
}

/// `context`.
#[derive(Debug)]
pub enum ContextCmd {
    Add(ContextAddArgs),
    List,
    Rm(ContextRmArgs),
}

/// `context add`: a path and a text, or only a text.
#[derive(Debug)]
pub struct ContextAddArgs {
    pub args: Vec<String>,
}

/// `context rm`.
#[derive(Debug)]
pub struct ContextRmArgs {
    pub path: String,
}

/// `get`.
#[derive(Debug)]
pub struct GetArgs {
    /// A path, a `qmd://` path, `collection/path` or a document id, with or without `:line`.
    pub file: String,
    /// The first line, counted from one.
    pub from: Option<usize>,
    /// At most this many lines.
    pub lines: Option<usize>,
    pub line_numbers: bool,
}

/// `multi-get`.
#[derive(Debug)]
pub struct MultiGetArgs {
    /// A pattern, or paths with commas between them.
    pub pattern: String,
    /// At most this many lines of each file.
    pub lines: Option<usize>,
    /// Leave out files with more bytes.
    pub max_bytes: Option<usize>,
    pub format: FormatFlags,
}

/// `ls`.
#[derive(Debug)]
pub struct LsArgs {
    pub path: Option<String>,
}

/// What `search`, `vsearch` and `query` have in common.
#[derive(Clone, Debug)]
pub struct SearchFlags {
    /// The collections to search, or the default ones.
    pub collection: Vec<String>,
    pub limit: Option<usize>,
    /// As many results as there are.
    pub all: bool,
    /// The bits of the least score.
    pub min_score_bits: Option<u64>,
    /// Show the whole body.
    pub full: bool,
    pub line_numbers: bool,
}

/// `search`.
#[derive(Debug)]
pub struct SearchArgs {
    pub flags: SearchFlags,
    pub format: FormatFlags,
    /// The words of the query.
    pub query: Vec<String>,
}

/// `vsearch`.
#[derive(Debug)]
pub struct VsearchArgs {
    pub flags: SearchFlags,
    pub format: FormatFlags,
    /// What the search is about.
    pub intent: Option<String>,
    /// The words of the query.
    pub query: Vec<String>,
}

/// `query`.
#[derive(Debug)]
pub struct QueryArgs {
    pub flags: SearchFlags,
    pub format: FormatFlags,
    /// What the search is about.
    pub intent: Option<String>,
    /// How many candidates the reranker gets.
    pub candidate_limit: Option<usize>,
    pub no_rerank: bool,
    /// Show how the scores came about.
    pub explain: bool,
    pub chunk_strategy: Option<ChunkStrategyArg>,
    /// The words of the query.
    pub query: Vec<String>,
}

/// `bench`.
#[derive(Debug)]
pub struct BenchArgs {
    /// The file with the labelled queries.
    pub fixture: String,
    pub json: bool,
    pub collection: Option<String>,
}

/// `embed`.
#[derive(Debug)]
pub struct EmbedArgs {
    /// Drop the embeddings and make them anew.
    pub force: bool,
    pub max_docs_per_batch: Option<usize>,
    pub max_batch_mb: Option<usize>,
    pub chunk_strategy: Option<ChunkStrategyArg>,
    /// At most one collection.
    pub collection: Vec<String>,
}

/// `pull`.
#[derive(Debug)]
pub struct PullArgs {
    /// Download what is cached already, too.
    pub refresh: bool,
}

/// `mcp`.
#[derive(Debug)]
pub struct McpArgs {
    /// What to do with a running server; none starts one.
    pub action: Option<McpAction>,
    pub http: bool,
    pub port: Option<u16>,
    /// In the background.
    pub daemon: bool,
}

/// What to do with a running server.
#[derive(Clone, Copy, Debug, PartialEq, Eq, Structural)]
pub enum McpAction {
    Stop,
}

/// How documents are cut into chunks.
#[derive(Clone, Copy, Debug, PartialEq, Eq, Structural)]
pub enum ChunkStrategyArg {
    Auto,
    Regex,
}

/// The strategy that the argument names.
pub open spec fn strategy_of(v: ChunkStrategyArg) -> ChunkStrategy {
    match v {
        ChunkStrategyArg::Auto => ChunkStrategy::Auto,
        ChunkStrategyArg::Regex => ChunkStrategy::Regex,
    }
}

impl From<ChunkStrategyArg> for ChunkStrategy {
    fn from(v: ChunkStrategyArg) -> (r: ChunkStrategy) {
        match v {
            ChunkStrategyArg::Auto => ChunkStrategy::Auto,
            ChunkStrategyArg::Regex => ChunkStrategy::Regex,
        }
    }
}

impl vstd::std_specs::convert::FromSpecImpl<ChunkStrategyArg> for ChunkStrategy {
    open spec fn obeys_from_spec() -> bool {
        true
    }

    open spec fn from_spec(v: ChunkStrategyArg) -> ChunkStrategy {
        strategy_of(v)
    }
}

/// Which output format was asked for. At most one is set.
#[derive(Clone, Copy, Debug, PartialEq, Eq, Structural)]
pub struct FormatFlags {
    pub json: bool,
    pub csv: bool,
    pub md: bool,
    pub xml: bool,
    pub files: bool,
}

impl Default for FormatFlags {
    fn default() -> (r: FormatFlags)
        ensures
            r == (FormatFlags { json: false, csv: false, md: false, xml: false, files: false }),
    {
        FormatFlags { json: false, csv: false, md: false, xml: false, files: false }
    }
}

/// Each name is that of a strategy of its own.
pub proof fn law_strategies_have_names_of_their_own(a: ChunkStrategyArg, b: ChunkStrategyArg)
    ensures
        strategy_of(a) == strategy_of(b) ==> a == b,
        a is Auto <==> strategy_of(a) is Auto,
        a is Regex <==> strategy_of(a) is Regex,
{
}

} // verus!
