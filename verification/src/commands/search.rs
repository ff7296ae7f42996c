//! `rqmd search`: what full-text search is asked for, and which of its results are shown.
use vstd::prelude::*;

use crate::cli::{SearchArgs, SearchFlags};
use crate::collection_filter::single_collection;
use crate::float_order;
use crate::float_order::ge;
use crate::lists;
use crate::store::SearchResult;
use crate::text::chars;
use crate::text::chars::{join, same_text};

verus! {

/// The name of the index that links carry: none for the default index.
pub fn link_index(index_name: &str) -> (r: Option<&str>)
    ensures
        match r {
            Some(n) => n@ == index_name@ && index_name@ != "index"@,
            None => index_name@ == "index"@,
        },
{
    if same_text(index_name, "index") {
        None
    } else {
        Some(index_name)
    }
}

/// How many results are shown.
pub open spec fn shown_results(flags: SearchFlags) -> nat {
    if flags.all {
        100_000
    } else {
        match flags.limit {
            Some(n) => n as nat,
            None => 20,
        }
    }
}

/// How many results are fetched: twice as many as are shown, and at least fifty, so that there
/// are enough once other collections are left out.
pub open spec fn fetched_results(flags: SearchFlags) -> nat {
    if flags.all {
        100_000
    } else {
        let twice = 2 * shown_results(flags);
        if twice > usize::MAX {
            usize::MAX as nat
        } else if twice < 50 {
            50
        } else {
            twice
        }
    }
}

/// What full-text search is asked for.
#[derive(Debug)]
pub struct SearchPlan {
    pub query: String,
    /// The only collection to search, where there is only one.
    pub collection: Option<String>,
    pub fetch_limit: usize,
    pub display_limit: usize,
    /// The bits of the least score.
    pub min_score_bits: u64,
}

/// What full-text search is asked for, by the arguments and the collections that they name.
pub fn plan_search(args: &SearchArgs, collection_names: &[String]) -> (p: SearchPlan)
    ensures
        p.query@ == chars::joined(chars::texts(args.query@), " "@),
        chars::opt_string(p.collection) == if collection_names@.len() == 1 {
            Some(collection_names@[0]@)
        } else {
            None
        },
        p.fetch_limit == fetched_results(args.flags),
        p.display_limit == shown_results(args.flags),
        p.min_score_bits == match args.flags.min_score_bits {
            Some(b) => b,
            None => 0,
        },
        args.flags.all ==> p.display_limit == 100_000 && p.fetch_limit == 100_000,
        !args.flags.all ==> (args.flags.limit matches Some(n) ==> p.display_limit == n),
        !args.flags.all && args.flags.limit is None ==> p.display_limit == 20,
        p.fetch_limit >= p.display_limit,
        p.fetch_limit >= 50,
        !args.flags.all && 25 <= p.display_limit <= usize::MAX / 2 ==> p.fetch_limit == 2
            * p.display_limit,
{
    let display_limit: usize = if args.flags.all {
        100_000
    } else {
        match args.flags.limit {
            Some(n) => n,
            None => 20,
        }
    };
    let fetch_limit: usize = if args.flags.all {
        100_000
    } else {
        let twice: usize = if display_limit > usize::MAX / 2 {
            usize::MAX
        } else {
            display_limit * 2
        };
        if twice < 50 {
            50
        } else {
            twice
        }
    };
    SearchPlan {
        query: join(args.query.as_slice(), " "),
        collection: single_collection(collection_names),
        fetch_limit,
        display_limit,
        min_score_bits: match args.flags.min_score_bits {
            Some(b) => b,
            None => 0,
        },
    }
}

/// The results whose score is no less than the least one, in order.
pub open spec fn passing(results: Seq<SearchResult>, min_score_bits: u64) -> Seq<SearchResult>
    decreases results.len(),
{
    if results.len() == 0 {
        Seq::empty()
    } else {
        let before = passing(results.drop_last(), min_score_bits);
        if float_order::at_least(results.last().score.bits, min_score_bits) {
            before.push(results.last())
        } else {
            before
        }
    }
}

/// The first `limit` of the results whose score is no less than the least one.
pub open spec fn selected(
    results: Seq<SearchResult>,
    min_score_bits: u64,
    limit: nat,
) -> Seq<SearchResult> {
    let all = passing(results, min_score_bits);
    if all.len() > limit {
        all.take(limit as int)
    } else {
        all
    }
}

/// The results that are shown: those whose score is no less than the least one, as many as the
/// limit allows.
pub fn select_results(results: Vec<SearchResult>, min_score_bits: u64, limit: usize) -> (out: Vec<
    SearchResult,
>)
    ensures
        out@ == selected(results@, min_score_bits, limit as nat),
        shows_first_passing(out@, results@, min_score_bits, limit as nat),
{
    let ghost all = results@;
    let mut out: Vec<SearchResult> = Vec::new();
    assert(all.take(0) =~= Seq::empty());
    for r in it: results
        invariant
            it.seq() == all,
            out@ == selected(all.take(it.index()), min_score_bits, limit as nat),
            out@.len() <= limit,
    {
        let ghost k = it.index();
        assert(all.take(k + 1).drop_last() =~= all.take(k));
        let ghost before = passing(all.take(k), min_score_bits);
        if ge(r.score.bits, min_score_bits) && out.len() < limit {
            out.push(r);
        }
        assert(out@ =~= selected(all.take(k + 1), min_score_bits, limit as nat));
    }
    assert(all.take(all.len() as int) =~= all);
    proof {
        law_first_passing_results_are_shown(all, min_score_bits, limit as nat);
    }
    out
}

// Laws.

/// Which results have a score that is no less than the least one.
pub open spec fn passes(results: Seq<SearchResult>, min_score_bits: u64) -> Seq<bool> {
    Seq::new(results.len(), |i: int| float_order::at_least(results[i].score.bits, min_score_bits))
}

/// Whether `out` holds the first `limit` of the results that pass, each once and in order.
pub open spec fn shows_first_passing(
    out: Seq<SearchResult>,
    results: Seq<SearchResult>,
    min_score_bits: u64,
    limit: nat,
) -> bool {
    exists|at: Seq<int>|
        {
            &&& #[trigger] lists::picks(at, passes(results, min_score_bits))
            &&& out.len() <= limit
            &&& out.len() <= at.len()
            &&& out.len() == limit || out.len() == at.len()
            &&& forall|k: int| 0 <= k < out.len() ==> #[trigger] out[k] == results[at[k]]
        }
}

proof fn lemma_passing_picks(results: Seq<SearchResult>, min_score_bits: u64) -> (at: Seq<int>)
    ensures
        lists::picks(at, passes(results, min_score_bits)),
        at.len() == passing(results, min_score_bits).len(),
        at.len() <= results.len(),
        forall|k: int|
            0 <= k < at.len() ==> #[trigger] passing(results, min_score_bits)[k] == results[at[k]],
    decreases results.len(),
{
    let keep = passes(results, min_score_bits);
    if results.len() == 0 {
        Seq::empty()
    } else {
        let at = lemma_passing_picks(results.drop_last(), min_score_bits);
        assert(keep.drop_last() =~= passes(results.drop_last(), min_score_bits));
        lists::lemma_picks_step(at, keep);
        if keep.last() {
            at.push(keep.len() - 1)
        } else {
            at
        }
    }
}

/// The results that are shown are the first of those whose score is no less than the least one,
/// each once, in the order in which they came, as many as there are or as the limit allows.
pub proof fn law_first_passing_results_are_shown(
    results: Seq<SearchResult>,
    min_score_bits: u64,
    limit: nat,
)
    ensures
        shows_first_passing(
            selected(results, min_score_bits, limit),
            results,
            min_score_bits,
            limit,
        ),
{
    let at = lemma_passing_picks(results, min_score_bits);
    assert(lists::picks(at, passes(results, min_score_bits)));
}

/// With `--all` every result that was fetched and whose score is no less than the least one is
/// shown, whatever the limit says, and the limit changes nothing of what is fetched.
pub proof fn law_all_shows_every_passing_result(
    flags: SearchFlags,
    other: SearchFlags,
    results: Seq<SearchResult>,
    min_score_bits: u64,
)
    requires
        flags.all,
        other.all,
        results.len() <= fetched_results(flags),
    ensures
        shown_results(flags) >= fetched_results(flags),
        shown_results(flags) == shown_results(other),
        fetched_results(flags) == fetched_results(other),
        forall|i: int|
            0 <= i < results.len() && float_order::at_least(
                (#[trigger] results[i]).score.bits,
                min_score_bits,
            ) ==> selected(results, min_score_bits, shown_results(flags)).contains(results[i]),
{
    let shown = selected(results, min_score_bits, shown_results(flags));
    let at = lemma_passing_picks(results, min_score_bits);
    let keep = passes(results, min_score_bits);
    assert forall|i: int|
        0 <= i < results.len() && float_order::at_least(
            (#[trigger] results[i]).score.bits,
            min_score_bits,
        ) implies shown.contains(results[i]) by {
        assert(keep[i]);
        assert(at.contains(i));
        let k = choose|k: int| 0 <= k < at.len() && at[k] == i;
        assert(passing(results, min_score_bits)[k] == results[i]);
        assert(shown[k] == results[i]);
    }
}

/// Without `--all` the limit says how many results are shown, and no fewer are fetched than are
/// shown, nor fewer than fifty.
pub proof fn law_limit_is_what_is_shown(flags: SearchFlags)
    requires
        !flags.all,
    ensures
        flags.limit matches Some(n) ==> shown_results(flags) == n,
        flags.limit is None ==> shown_results(flags) == 20,
        fetched_results(flags) >= shown_results(flags),
        fetched_results(flags) >= 50,
{
}

} // verus!
