//! `rqmd vsearch`: what vector search is asked for.
use vstd::prelude::*;

use crate::cli::{SearchFlags, VsearchArgs};
use crate::collection_filter::single_collection;
use crate::commands::query;
use crate::commands::query::{expanded_text, SearchEvent};
use crate::output::OutputFormat;
use crate::text::chars;
use crate::text::chars::join;

verus! {

/// The bits of 0.3, the least score of a vector search.
pub const DEFAULT_MIN_SCORE_BITS: u64 = 0x3fd3_3333_3333_3333;

/// How many results vector and hybrid search return.
pub open spec fn result_count(flags: SearchFlags) -> usize {
    if flags.all {
        500
    } else {
        match flags.limit {
            Some(n) => n,
            None => 10,
        }
    }
}

/// How many results vector and hybrid search return.
pub fn result_limit(flags: &SearchFlags) -> (n: usize)
    ensures
        n == result_count(*flags),
        flags.all ==> n == 500,
        !flags.all ==> (flags.limit matches Some(limit) ==> n == limit),
        !flags.all && flags.limit is None ==> n == 10,
{
    if flags.all {
        500
    } else {
        match flags.limit {
            Some(n) => n,
            None => 10,
        }
    }
}

/// What vector search is asked for.
#[derive(Debug)]
pub struct VsearchPlan {
    pub query: String,
    /// The only collection to search, where there is only one.
    pub collection: Option<String>,
    pub limit: usize,
    /// The bits of the least score.
    pub min_score_bits: u64,
    pub intent: Option<String>,
}

/// What vector search is asked for, by the arguments and the collections that they name.
pub fn plan_vsearch(args: &VsearchArgs, collection_names: &[String]) -> (p: VsearchPlan)
    ensures
        p.query@ == chars::joined(chars::texts(args.query@), " "@),
        chars::opt_string(p.collection) == if collection_names@.len() == 1 {
            Some(collection_names@[0]@)
        } else {
            None
        },
        p.limit == result_count(args.flags),
        args.flags.all ==> p.limit == 500,
        !args.flags.all ==> (args.flags.limit matches Some(n) ==> p.limit == n),
        !args.flags.all && args.flags.limit is None ==> p.limit == 10,
        p.min_score_bits == match args.flags.min_score_bits {
            Some(b) => b,
            None => DEFAULT_MIN_SCORE_BITS,
        },
        chars::opt_string(p.intent) == chars::opt_string(args.intent),
{
    VsearchPlan {
        query: join(args.query.as_slice(), " "),
        collection: single_collection(collection_names),
        limit: result_limit(&args.flags),
        min_score_bits: match args.flags.min_score_bits {
            Some(b) => b,
            None => DEFAULT_MIN_SCORE_BITS,
        },
        intent: match &args.intent {
            Some(s) => Some(s.clone()),
            None => None,
        },
    }
}

/// What is said of an event of a vector search: only of the expansion of the query, and only on
/// a terminal.
pub fn vsearch_event_text(fmt: OutputFormat, event: &SearchEvent) -> (r: Option<String>)
    ensures
        chars::opt_string(r) == match *event {
            SearchEvent::Expanded { original, queries, ms } if fmt == OutputFormat::Cli => Some(
                query::expansion(original@, queries@, ms as nat),
            ),
            _ => None,
        },
{
    if fmt != OutputFormat::Cli {
        return None;
    }
    match event {
        SearchEvent::Expanded { original, queries, ms } => Some(
            expanded_text(original.as_str(), queries, *ms),
        ),
        _ => None,
    }
}

// Laws.

/// With `--all` the limit changes nothing, and without it the limit is how many results come.
pub proof fn law_limit_counts_unless_all(flags: SearchFlags, other: SearchFlags)
    ensures
        flags.all && other.all ==> result_count(flags) == result_count(other),
        !flags.all ==> (flags.limit matches Some(n) ==> result_count(flags) == n),
        !flags.all && flags.limit is None ==> result_count(flags) == 10,
        flags.all ==> result_count(flags) == 500,
{
}

} // verus!
