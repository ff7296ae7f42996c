//! The fixture of a benchmark and its results.
use indexmap::IndexMap;
use vstd::prelude::*;

use crate::bench::score::{Ratio, ScoreMetrics};

verus! {

/// One labelled query.
#[derive(Clone, Debug)]
pub struct BenchmarkQuery {
    pub id: String,
    /// The text that is searched for; it may be a structured query of several lines.
    pub query: String,
    /// How hard the query is, or of what type: any text.
    pub kind: String,
    pub description: String,
    /// The paths, relative to the collection, that should be found.
    pub expected_files: Vec<String>,
    /// How many of them should be among the first results.
    pub expected_in_top_k: usize,
}

/// The labelled queries of a benchmark.
#[derive(Clone, Debug)]
pub struct BenchmarkFixture {
    pub description: String,
    pub version: u32,
    /// The collection to search, if only one is searched.
    pub collection: Option<String>,
    pub queries: Vec<BenchmarkQuery>,
}

/// How one backend did on one query.
#[derive(Clone, Debug)]
pub struct BackendResult {
    pub precision_at_k: Ratio,
    pub recall: Ratio,
    pub recall_at_1: Ratio,
    pub recall_at_3: Ratio,
    pub recall_at_5: Ratio,
    pub mrr: Ratio,
    pub f1: Ratio,
    pub hits_at_k: usize,
    pub total_expected: usize,
    pub latency_ms: u128,
    /// The first results, at most ten.
    pub top_files: Vec<String>,
    pub matched_files: Vec<String>,
    pub unmatched_expected_files: Vec<String>,
}

impl BackendResult {
    /// The metrics, with the bookkeeping of the run.
    pub fn from_scores(
        scores: ScoreMetrics,
        total_expected: usize,
        latency_ms: u128,
        top_files: Vec<String>,
    ) -> (r: Self)
        ensures
            r == (BackendResult {
                precision_at_k: scores.precision_at_k,
                recall: scores.recall,
                recall_at_1: scores.recall_at_1,
                recall_at_3: scores.recall_at_3,
                recall_at_5: scores.recall_at_5,
                mrr: scores.mrr,
                f1: scores.f1,
                hits_at_k: scores.hits_at_k,
                total_expected,
                latency_ms,
                top_files,
                matched_files: scores.matched_files,
                unmatched_expected_files: scores.unmatched_expected_files,
            }),
    {
        BackendResult {
            precision_at_k: scores.precision_at_k,
            recall: scores.recall,
            recall_at_1: scores.recall_at_1,
            recall_at_3: scores.recall_at_3,
            recall_at_5: scores.recall_at_5,
            mrr: scores.mrr,
            f1: scores.f1,
            hits_at_k: scores.hits_at_k,
            total_expected,
            latency_ms,
            top_files,
            matched_files: scores.matched_files,
            unmatched_expected_files: scores.unmatched_expected_files,
        }
    }

    /// The result of a backend that failed: nothing was found.
    pub fn zeroed(
        total_expected: usize,
        latency_ms: u128,
        unmatched_expected_files: Vec<String>,
    ) -> (r: Self)
        ensures
            r.precision_at_k == (Ratio { num: 0, den: 1 }),
            r.recall == (Ratio { num: 0, den: 1 }),
            r.recall_at_1 == (Ratio { num: 0, den: 1 }),
            r.recall_at_3 == (Ratio { num: 0, den: 1 }),
            r.recall_at_5 == (Ratio { num: 0, den: 1 }),
            r.mrr == (Ratio { num: 0, den: 1 }),
            r.f1 == (Ratio { num: 0, den: 1 }),
            r.hits_at_k == 0,
            r.total_expected == total_expected,
            r.latency_ms == latency_ms,
            r.top_files@ == Seq::<String>::empty(),
            r.matched_files@ == Seq::<String>::empty(),
            r.unmatched_expected_files == unmatched_expected_files,
    {
        let zero: Ratio = Ratio { num: 0, den: 1 };
        BackendResult {
            precision_at_k: zero,
            recall: zero,
            recall_at_1: zero,
            recall_at_3: zero,
            recall_at_5: zero,
            mrr: zero,
            f1: zero,
            hits_at_k: 0,
            total_expected,
            latency_ms,
            top_files: Vec::new(),
            matched_files: Vec::new(),
            unmatched_expected_files,
        }
    }
}

/// A map of the `indexmap` crate, which keeps the order in which its keys were inserted.
#[verifier::external_type_specification]
#[verifier::external_body]
#[verifier::reject_recursive_types(K)]
#[verifier::reject_recursive_types(V)]
#[verifier::reject_recursive_types(S)]
pub struct ExIndexMap<K, V, S>(indexmap::IndexMap<K, V, S>);

/// The entries of a map from backend names to results, in the order of the map.
pub uninterp spec fn backend_entries(m: IndexMap<String, BackendResult>) -> Seq<
    (Seq<char>, BackendResult),
>;

/// Whether one of the entries has the key `k`.
pub open spec fn has_key(entries: Seq<(Seq<char>, BackendResult)>, k: Seq<char>) -> bool {
    exists|i: int| 0 <= i < entries.len() && (#[trigger] entries[i]).0 == k
}

/// The entries once `v` is stored under `k`: in the place of the entry with that key, or last
/// where there is none.
pub open spec fn with_entry(
    entries: Seq<(Seq<char>, BackendResult)>,
    k: Seq<char>,
    v: BackendResult,
) -> Seq<(Seq<char>, BackendResult)> {
    if has_key(entries, k) {
        Seq::new(
            entries.len(),
            |i: int|
                if entries[i].0 == k {
                    (k, v)
                } else {
                    entries[i]
                },
        )
    } else {
        entries.push((k, v))
    }
}

/// `IndexMap::new` makes a map without entries.
#[verifier::external_body]
pub(crate) fn no_backends() -> (m: IndexMap<String, BackendResult>)
    ensures
        backend_entries(m) == Seq::<(Seq<char>, BackendResult)>::empty(),
{
    IndexMap::new()
}

/// `IndexMap::insert` stores a value under a key: in the place of the entry that has the key,
/// whose value it returns, or last where no entry has it.
#[verifier::external_body]
pub(crate) fn insert_backend(
    m: &mut IndexMap<String, BackendResult>,
    name: String,
    result: BackendResult,
) -> (r: Option<BackendResult>)
    ensures
        backend_entries(*final(m)) == with_entry(backend_entries(*old(m)), name@, result),
        match r {
            Some(v) => backend_entries(*old(m)).contains((name@, v)),
            None => !has_key(backend_entries(*old(m)), name@),
        },
{
    m.insert(name, result)
}

/// `IndexMap::len` is the number of entries.
#[verifier::external_body]
pub(crate) fn backend_count(m: &IndexMap<String, BackendResult>) -> (n: usize)
    ensures
        n == backend_entries(*m).len(),
{
    m.len()
}

/// `IndexMap::get_index` gives the entry at a position in the order of the map.
#[verifier::external_body]
pub(crate) fn backend_at(m: &IndexMap<String, BackendResult>, i: usize) -> (r: Option<
    (&String, &BackendResult),
>)
    ensures
        match r {
            Some(e) => i < backend_entries(*m).len() && backend_entries(*m)[i as int] == (e.0@, *e.1),
            None => i >= backend_entries(*m).len(),
        },
{
    m.get_index(i)
}

/// `IndexMap::get` gives the value stored under a key.
#[verifier::external_body]
pub(crate) fn backend_named<'a>(m: &'a IndexMap<String, BackendResult>, name: &str) -> (r: Option<
    &'a BackendResult,
>)
    ensures
        match r {
            Some(v) => backend_entries(*m).contains((name@, *v)),
            None => !has_key(backend_entries(*m), name@),
        },
{
    m.get(name)
}

/// How the backends did on one query, in the order in which they ran.
#[derive(Debug)]
pub struct QueryResult {
    pub id: String,
    pub query: String,
    pub kind: String,
    pub backends: IndexMap<String, BackendResult>,
}

impl QueryResult {
    /// The backends' results, in order.
    pub open spec fn entries(self) -> Seq<(Seq<char>, BackendResult)> {
        backend_entries(self.backends)
    }
}

/// Storing a result keeps those of the other backends and their order.
pub proof fn law_storing_keeps_the_other_results(
    entries: Seq<(Seq<char>, BackendResult)>,
    k: Seq<char>,
    v: BackendResult,
    i: int,
)
    requires
        0 <= i < entries.len(),
    ensures
        with_entry(entries, k, v).len() == if has_key(entries, k) {
            entries.len()
        } else {
            entries.len() + 1
        },
        with_entry(entries, k, v)[i].0 == entries[i].0,
        entries[i].0 != k ==> with_entry(entries, k, v)[i] == entries[i],
        has_key(with_entry(entries, k, v), k),
        forall|j: int|
            0 <= j < with_entry(entries, k, v).len() && (#[trigger] with_entry(entries, k, v)[j]).0
                == k ==> with_entry(entries, k, v)[j].1 == v,
{
    let w = with_entry(entries, k, v);
    if has_key(entries, k) {
        let j = choose|j: int| 0 <= j < entries.len() && (#[trigger] entries[j]).0 == k;
        assert(w[j].0 == k);
    } else {
        assert(w[entries.len() as int].0 == k);
    }
}

} // verus!
