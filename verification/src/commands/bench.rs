//! `rqmd bench`: what each backend is asked, how its answers are scored, and the report.
use vstd::prelude::*;

use crate::bench::score::score_results;
use crate::bench::types;
use crate::bench::types::{
    backend_at, backend_count, backend_named, insert_backend, no_backends, BackendResult,
    BenchmarkQuery, QueryResult,
};
use crate::commands::structured;
use crate::commands::structured::{
    parse_structured, Dialect, ParsedStructuredQuery, StructuredQueryError,
};
use crate::lists;
use crate::store_ops;
use crate::store_ops::{ExpandedQuery, ExpandedQueryType};
use crate::text::{chars, number, search};
use crate::text::chars::{
    chars_of, contains_text, join, pad_start, repeat_char, same_text, string_of, take_chars,
};
use crate::text::number::{decimal_of, signed_decimal_of};

verus! {

/// Reads a benchmark query as a structured query.
pub fn parse_structured_query(query: &str) -> (r: Result<
    Option<ParsedStructuredQuery>,
    StructuredQueryError,
>)
    ensures
        structured::outcome(r) == structured::document(
            structured::lines_of(query@),
            Dialect::Benchmark,
        ),
{
    parse_structured(query, Dialect::Benchmark)
}

/// Why a backend could not run.
#[derive(Clone, Debug)]
pub enum BackendError {
    Query(StructuredQueryError),
    UnknownBackend(String),
}

impl BackendError {
    /// What is said of the error.
    pub open spec fn text(self) -> Seq<char> {
        match self {
            BackendError::Query(e) => e.text(Dialect::Benchmark),
            BackendError::UnknownBackend(name) => "unknown backend: "@ + name@,
        }
    }

    /// What is said of the error.
    pub fn message(&self) -> (s: String)
        ensures
            s@ == self.text(),
    {
        match self {
            BackendError::Query(e) => e.message(Dialect::Benchmark),
            BackendError::UnknownBackend(name) => {
                let mut s: String = "unknown backend: ".to_owned();
                s.append(name.as_str());
                s
            },
        }
    }
}

/// What a backend is asked to search for.
#[derive(Debug)]
pub enum BackendPlan {
    /// Full-text search for each text in turn. Where `merge` is set the files are put
    /// together, else the one list of files is the answer.
    Lexical { queries: Vec<String>, merge: bool },
    /// Vector search for each text in turn; `merge` as for [`BackendPlan::Lexical`].
    Vector { queries: Vec<String>, merge: bool },
    /// Structured search.
    Structured { parsed: ParsedStructuredQuery, skip_rerank: bool },
    /// Hybrid search for the query as it stands.
    Hybrid { skip_rerank: bool },
}

/// What a [`BackendPlan`] holds.
pub enum PlanModel {
    Lexical { queries: Seq<Seq<char>>, merge: bool },
    Vector { queries: Seq<Seq<char>>, merge: bool },
    Structured { parsed: structured::ParsedModel, skip_rerank: bool },
    Hybrid { skip_rerank: bool },
}

impl View for BackendPlan {
    type V = PlanModel;

    open spec fn view(&self) -> PlanModel {
        match *self {
            BackendPlan::Lexical { queries, merge } => PlanModel::Lexical {
                queries: chars::texts(queries@),
                merge,
            },
            BackendPlan::Vector { queries, merge } => PlanModel::Vector {
                queries: chars::texts(queries@),
                merge,
            },
            BackendPlan::Structured { parsed, skip_rerank } => PlanModel::Structured {
                parsed: parsed@,
                skip_rerank,
            },
            BackendPlan::Hybrid { skip_rerank } => PlanModel::Hybrid { skip_rerank },
        }
    }
}

/// The texts of the searches that are lexical, or of those that are not, in order.
pub open spec fn texts_of(
    searches: Seq<store_ops::ExpandedQueryModel>,
    lexical: bool,
) -> Seq<Seq<char>>
    decreases searches.len(),
{
    if searches.len() == 0 {
        Seq::empty()
    } else {
        let before = texts_of(searches.drop_last(), lexical);
        if (searches.last().type_ == ExpandedQueryType::Lex) == lexical {
            before.push(searches.last().query)
        } else {
            before
        }
    }
}

fn select_texts(searches: &Vec<ExpandedQuery>, lexical: bool) -> (r: Vec<String>)
    ensures
        chars::texts(r@) == texts_of(store_ops::query_models(searches@), lexical),
{
    let ghost all = store_ops::query_models(searches@);
    let mut r: Vec<String> = Vec::new();
    assert(all.take(0) =~= Seq::empty());
    for i in 0..searches.len()
        invariant
            all == store_ops::query_models(searches@),
            chars::texts(r@) =~= texts_of(all.take(i as int), lexical),
    {
        assert(all.take(i + 1).drop_last() =~= all.take(i as int));
        let ghost r0 = r@;
        if (searches[i].type_ == ExpandedQueryType::Lex) == lexical {
            r.push(searches[i].query.clone());
            assert(chars::texts(r@) =~= chars::texts(r0).push(all[i as int].query));
        }
    }
    assert(all.take(all.len() as int) =~= all);
    r
}

/// What a backend is asked for, given how the query reads.
pub open spec fn plan(
    backend: Seq<char>,
    query: Seq<char>,
    parsed: Option<structured::ParsedModel>,
) -> Option<PlanModel> {
    if backend == "bm25"@ {
        Some(
            match parsed {
                Some(p) => PlanModel::Lexical { queries: texts_of(p.searches, true), merge: true },
                None => PlanModel::Lexical { queries: seq![query], merge: false },
            },
        )
    } else if backend == "vector"@ {
        Some(
            match parsed {
                Some(p) => PlanModel::Vector { queries: texts_of(p.searches, false), merge: true },
                None => PlanModel::Vector { queries: seq![query], merge: false },
            },
        )
    } else if backend == "hybrid"@ || backend == "full"@ {
        let skip_rerank = backend == "hybrid"@;
        Some(
            match parsed {
                Some(parsed) => PlanModel::Structured { parsed, skip_rerank },
                None => PlanModel::Hybrid { skip_rerank },
            },
        )
    } else {
        None
    }
}

/// What a backend is asked to search for: the lexical lines of a structured query for `bm25`,
/// its other lines for `vector`, all of it for `hybrid` and `full`; a query that is not
/// structured as it stands.
pub fn plan_backend(backend: &str, query: &str) -> (r: Result<BackendPlan, BackendError>)
    ensures
        match structured::document(structured::lines_of(query@), Dialect::Benchmark) {
            Err(e) => r == Err::<BackendPlan, BackendError>(BackendError::Query(e)),
            Ok(parsed) => match plan(backend@, query@, parsed) {
                Some(p) => r is Ok && r->Ok_0@ == p,
                None => r is Err && r->Err_0 is UnknownBackend && r->Err_0->UnknownBackend_0@
                    == backend@,
            },
        },
{
    let parsed: Option<ParsedStructuredQuery> = match parse_structured_query(query) {
        Ok(p) => p,
        Err(e) => {
            return Err(BackendError::Query(e));
        },
    };
    if same_text(backend, "bm25") || same_text(backend, "vector") {
        let lexical: bool = same_text(backend, "bm25");
        let (queries, merge): (Vec<String>, bool) = match parsed {
            Some(p) => (select_texts(&p.searches, lexical), true),
            None => {
                let mut q: Vec<String> = Vec::new();
                q.push(query.to_owned());
                assert(chars::texts(q@) =~= seq![query@]);
                (q, false)
            },
        };
        if lexical {
            Ok(BackendPlan::Lexical { queries, merge })
        } else {
            Ok(BackendPlan::Vector { queries, merge })
        }
    } else if same_text(backend, "hybrid") || same_text(backend, "full") {
        let skip_rerank: bool = same_text(backend, "hybrid");
        match parsed {
            Some(parsed) => Ok(BackendPlan::Structured { parsed, skip_rerank }),
            None => Ok(BackendPlan::Hybrid { skip_rerank }),
        }
    } else {
        Err(BackendError::UnknownBackend(backend.to_owned()))
    }
}

/// The files without repetitions, of equal ones the first, and no more than `limit` of them.
pub open spec fn unique(files: Seq<Seq<char>>, limit: nat) -> Seq<Seq<char>> {
    let d = lists::distinct(files);
    if d.len() > limit {
        d.take(limit as int)
    } else {
        d
    }
}

/// The files without repetitions, and no more than `limit` of them.
pub fn unique_files(files: Vec<String>, limit: usize) -> (out: Vec<String>)
    ensures
        chars::texts(out@) == unique(chars::texts(files@), limit as nat),
{
    let ghost all = chars::texts(files@);
    let mut out: Vec<String> = Vec::new();
    assert(all.take(0) =~= Seq::empty());
    for i in 0..files.len()
        invariant
            all == chars::texts(files@),
            chars::texts(out@) =~= lists::distinct(all.take(i as int)),
            out@.len() <= limit,
    {
        if out.len() >= limit {
            proof {
                lists::lemma_distinct_grows(all, i as int);
                let d = lists::distinct(all);
                assert(d.take(d.len() as int) =~= d);
            }
            return out;
        }
        assert(all.take(i + 1).drop_last() =~= all.take(i as int));
        let ghost o0 = out@;
        if !contains_text(&out, files[i].as_str()) {
            out.push(files[i].clone());
            assert(chars::texts(out@) =~= chars::texts(o0).push(all[i as int]));
        }
    }
    assert(all.take(all.len() as int) =~= all);
    out
}

/// The lists of files, one after the other.
pub open spec fn all_files(lists: Seq<Vec<String>>) -> Seq<Seq<char>>
    decreases lists.len(),
{
    if lists.len() == 0 {
        Seq::empty()
    } else {
        all_files(lists.drop_last()) + chars::texts(lists.last()@)
    }
}

/// The files that a plan's searches found: put together without repetitions where the plan
/// says so, else the files of the one search.
pub fn collect_files(found: &Vec<Vec<String>>, merge: bool, limit: usize) -> (out: Vec<String>)
    ensures
        chars::texts(out@) == if merge {
            unique(all_files(found@), limit as nat)
        } else {
            all_files(found@)
        },
{
    let mut files: Vec<String> = Vec::new();
    assert(found@.take(0) =~= Seq::empty());
    for i in 0..found.len()
        invariant
            chars::texts(files@) =~= all_files(found@.take(i as int)),
    {
        let ghost before = files@;
        let list: &Vec<String> = &found[i];
        for j in 0..list.len()
            invariant
                i < found@.len(),
                *list == found@[i as int],
                chars::texts(files@) =~= chars::texts(before) + chars::texts(
                    found@[i as int]@,
                ).take(j as int),
        {
            let ghost f0 = files@;
            files.push(list[j].clone());
            assert(chars::texts(files@) =~= chars::texts(f0).push(found@[i as int]@[j as int]@));
        }
        assert(found@.take(i + 1).drop_last() =~= found@.take(i as int));
        let ghost t = chars::texts(found@[i as int]@);
        assert(t.take(t.len() as int) =~= t);
    }
    assert(found@.take(found@.len() as int) =~= found@);
    if merge {
        unique_files(files, limit)
    } else {
        files
    }
}

/// How many results a backend is asked for: what the query says, but at least ten.
pub fn result_limit(expected_in_top_k: usize) -> (n: usize)
    ensures
        n == if expected_in_top_k > 10 {
            expected_in_top_k
        } else {
            10
        },
{
    if expected_in_top_k > 10 {
        expected_in_top_k
    } else {
        10
    }
}

/// The collection that is searched: the one of the command line, else that of the fixture.
pub fn bench_collection(flag: Option<String>, fixture: Option<String>) -> (r: Option<String>)
    ensures
        r == if flag is Some {
            flag
        } else {
            fixture
        },
{
    match flag {
        Some(c) => Some(c),
        None => fixture,
    }
}

/// The result of one query on one backend: scored where the backend found files, without a
/// hit where it failed.
///
/// The bound is what a `Vec` can hold.
pub fn score_outcome(
    query: &BenchmarkQuery,
    outcome: Option<Vec<String>>,
    latency_ms: u128,
) -> (r: BackendResult)
    requires
        query.expected_files@.len() <= isize::MAX,
    ensures
        r.total_expected == query.expected_files@.len(),
        r.latency_ms == latency_ms,
        match outcome {
            Some(files) => {
                let metrics = crate::bench::score::ScoreMetrics {
                    precision_at_k: r.precision_at_k,
                    recall: r.recall,
                    recall_at_1: r.recall_at_1,
                    recall_at_3: r.recall_at_3,
                    recall_at_5: r.recall_at_5,
                    mrr: r.mrr,
                    f1: r.f1,
                    hits_at_k: r.hits_at_k,
                    matched_files: r.matched_files,
                    unmatched_expected_files: r.unmatched_expected_files,
                };
                &&& metrics.describes(
                    chars::texts(files@),
                    chars::texts(query.expected_files@),
                    query.expected_in_top_k as nat,
                )
                &&& chars::texts(r.top_files@) == (if files@.len() > 10 {
                    chars::texts(files@).take(10)
                } else {
                    chars::texts(files@)
                })
            },
            None => {
                let zero = crate::bench::score::Ratio { num: 0, den: 1 };
                &&& r.precision_at_k == zero && r.recall == zero && r.recall_at_1 == zero
                &&& r.recall_at_3 == zero && r.recall_at_5 == zero && r.mrr == zero && r.f1 == zero
                &&& r.hits_at_k == 0
                &&& r.top_files@.len() == 0 && r.matched_files@.len() == 0
                &&& chars::texts(r.unmatched_expected_files@) == chars::texts(
                    query.expected_files@,
                )
            },
        },
{
    let total_expected: usize = query.expected_files.len();
    match outcome {
        Some(files) => {
            let scores = score_results(
                files.as_slice(),
                query.expected_files.as_slice(),
                query.expected_in_top_k,
            );
            let n: usize = if files.len() > 10 {
                10
            } else {
                files.len()
            };
            let top_files: Vec<String> = copy_texts(&files, n);
            assert(chars::texts(files@).take(files@.len() as int) =~= chars::texts(files@));
            BackendResult::from_scores(scores, total_expected, latency_ms, top_files)
        },
        None => {
            let missing: Vec<String> = copy_texts(&query.expected_files, total_expected);
            assert(chars::texts(query.expected_files@).take(total_expected as int) =~= chars::texts(
                query.expected_files@,
            ));
            BackendResult::zeroed(total_expected, latency_ms, missing)
        },
    }
}

/// Copies of the first `n` strings.
pub fn copy_texts(v: &Vec<String>, n: usize) -> (r: Vec<String>)
    requires
        n <= v@.len(),
    ensures
        chars::texts(r@) == chars::texts(v@).take(n as int),
{
    let mut r: Vec<String> = Vec::new();
    for i in 0..n
        invariant
            n <= v@.len(),
            chars::texts(r@) =~= chars::texts(v@).take(i as int),
    {
        let ghost r0 = r@;
        r.push(v[i].clone());
        assert(chars::texts(r@) =~= chars::texts(r0).push(v@[i as int]@));
    }
    r
}

/// The names of the backends, in the order in which they run.
pub open spec fn backend_order() -> Seq<Seq<char>> {
    seq!["bm25"@, "vector"@, "hybrid"@, "full"@]
}

/// The names of the backends, in the order in which they run.
pub fn backends() -> (r: Vec<String>)
    ensures
        chars::texts(r@) == backend_order(),
{
    let mut r: Vec<String> = Vec::new();
    r.push("bm25".to_owned());
    r.push("vector".to_owned());
    r.push("hybrid".to_owned());
    r.push("full".to_owned());
    assert(chars::texts(r@) =~= backend_order());
    r
}

/// The result of a query on which no backend has run yet.
pub fn new_query_result(query: &BenchmarkQuery) -> (r: QueryResult)
    ensures
        r.id@ == query.id@,
        r.query@ == query.query@,
        r.kind@ == query.kind@,
        r.entries() == Seq::<(Seq<char>, BackendResult)>::empty(),
{
    QueryResult {
        id: query.id.clone(),
        query: query.query.clone(),
        kind: query.kind.clone(),
        backends: no_backends(),
    }
}

/// Records how a backend did.
pub fn record_backend(r: &mut QueryResult, backend: &str, result: BackendResult)
    ensures
        final(r).id == old(r).id,
        final(r).query == old(r).query,
        final(r).kind == old(r).kind,
        final(r).entries() == types::with_entry(old(r).entries(), backend@, result),
{
    let _ = insert_backend(&mut r.backends, backend.to_owned(), result);
}

/// One backend of the summary: its name, and the positions of the query results that it is
/// averaged over.
#[derive(Debug)]
pub struct SummaryGroup {
    pub name: String,
    pub members: Vec<usize>,
}

impl View for SummaryGroup {
    type V = (Seq<char>, Seq<usize>);

    open spec fn view(&self) -> (Seq<char>, Seq<usize>) {
        (self.name@, self.members@)
    }
}

/// The keys of the entries, in order.
pub open spec fn keys_of(entries: Seq<(Seq<char>, BackendResult)>) -> Seq<Seq<char>> {
    Seq::new(entries.len(), |i: int| entries[i].0)
}

/// The backends of all results, one result after the other.
pub open spec fn names_seen(results: Seq<QueryResult>) -> Seq<Seq<char>>
    decreases results.len(),
{
    if results.len() == 0 {
        Seq::empty()
    } else {
        names_seen(results.drop_last()) + keys_of(results.last().entries())
    }
}

/// The positions, of the first `k`, of the results that have the backend.
pub open spec fn members_of(results: Seq<QueryResult>, name: Seq<char>, k: int) -> Seq<usize>
    decreases k,
{
    if k <= 0 {
        Seq::empty()
    } else {
        let before = members_of(results, name, k - 1);
        if types::has_key(results[k - 1].entries(), name) {
            before.push((k - 1) as usize)
        } else {
            before
        }
    }
}

/// The groups of the summary: the backends in the order in which they are first seen, each
/// with the results that have it.
pub open spec fn summary(results: Seq<QueryResult>) -> Seq<(Seq<char>, Seq<usize>)> {
    let names = lists::distinct(names_seen(results));
    Seq::new(
        names.len(),
        |i: int| (names[i], members_of(results, names[i], results.len() as int)),
    )
}

/// What the groups hold.
pub open spec fn group_views(v: Seq<SummaryGroup>) -> Seq<(Seq<char>, Seq<usize>)> {
    Seq::new(v.len(), |i: int| v[i]@)
}

fn backend_names(results: &[QueryResult]) -> (names: Vec<String>)
    ensures
        chars::texts(names@) == lists::distinct(names_seen(results@)),
{
    let mut names: Vec<String> = Vec::new();
    assert(results@.take(0) =~= Seq::empty());
    for i in 0..results.len()
        invariant
            chars::texts(names@) =~= lists::distinct(names_seen(results@.take(i as int))),
    {
        let ghost before = names_seen(results@.take(i as int));
        let ghost keys = keys_of(results@[i as int].entries());
        let n: usize = backend_count(&results[i].backends);
        assert(before + keys.take(0) =~= before);
        for j in 0..n
            invariant
                i < results@.len(),
                keys == keys_of(results@[i as int].entries()),
                n == keys.len(),
                chars::texts(names@) =~= lists::distinct(before + keys.take(j as int)),
        {
            let ghost more = before + keys.take(j + 1);
            assert(more.drop_last() =~= before + keys.take(j as int));
            assert(more.last() == keys[j as int]);
            match backend_at(&results[i].backends, j) {
                Some((name, _)) => {
                    let ghost n0 = names@;
                    if !contains_text(&names, name.as_str()) {
                        names.push(name.clone());
                        assert(chars::texts(names@) =~= chars::texts(n0).push(keys[j as int]));
                    }
                },
                None => {},
            }
        }
        assert(keys.take(keys.len() as int) =~= keys);
        assert(results@.take(i + 1).drop_last() =~= results@.take(i as int));
    }
    assert(results@.take(results@.len() as int) =~= results@);
    names
}

/// The groups of the summary. A backend is averaged over the results that have it.
pub fn compute_summary(results: &[QueryResult]) -> (r: Vec<SummaryGroup>)
    ensures
        group_views(r@) == summary(results@),
{
    let names: Vec<String> = backend_names(results);
    let ghost all = lists::distinct(names_seen(results@));
    let mut r: Vec<SummaryGroup> = Vec::new();
    for i in 0..names.len()
        invariant
            chars::texts(names@) == all,
            all == lists::distinct(names_seen(results@)),
            r@.len() == i,
            forall|k: int|
                0 <= k < i ==> (#[trigger] r@[k])@ == (
                    all[k],
                    members_of(results@, all[k], results@.len() as int),
                ),
    {
        let mut members: Vec<usize> = Vec::new();
        for j in 0..results.len()
            invariant
                i < names@.len(),
                members@ =~= members_of(results@, names@[i as int]@, j as int),
        {
            match backend_named(&results[j].backends, names[i].as_str()) {
                Some(b) => {
                    let ghost e = results@[j as int].entries();
                    proof {
                        let k = choose|k: int|
                            0 <= k < e.len() && e[k] == (names@[i as int]@, *b);
                        assert(e[k].0 == names@[i as int]@);
                    }
                    members.push(j);
                },
                None => {},
            }
        }
        assert(all[i as int] == names@[i as int]@);
        r.push(SummaryGroup { name: names[i].clone(), members });
    }
    assert(group_views(r@) =~= summary(results@));
    r
}

/// The first `n` characters of `s`, filled up with spaces to `n`.
pub open spec fn padded(s: Seq<char>, n: nat) -> Seq<char> {
    let t = chars::first_chars(s, n);
    t + chars::repeated(' ', (n - t.len()) as nat)
}

/// The first `n` characters of `s`, filled up with spaces to `n`.
pub fn pad(s: &str, n: usize) -> (r: String)
    ensures
        r@ == padded(s@, n as nat),
{
    let mut r: String = take_chars(s, n);
    let len: usize = r.as_str().unicode_len();
    r.append(repeat_char(' ', n - len).as_str());
    r
}

/// A number with two decimals, given as it is written, moved right in five columns.
pub fn num2(written: &str) -> (r: String)
    ensures
        r@ == chars::padded_start(written@, 5),
{
    pad_start(written, 5)
}

/// A number with three decimals, given as it is written, moved right in six columns.
pub fn num3(written: &str) -> (r: String)
    ensures
        r@ == chars::padded_start(written@, 6),
{
    pad_start(written, 6)
}

/// The metrics of one backend on one query, as they are written.
#[derive(Clone, Debug)]
pub struct MetricCells {
    pub precision_at_k: String,
    pub recall_at_1: String,
    pub recall_at_3: String,
    pub recall_at_5: String,
    pub mrr: String,
    pub f1: String,
}

impl View for MetricCells {
    type V = Seq<Seq<char>>;

    open spec fn view(&self) -> Seq<Seq<char>> {
        seq![
            self.precision_at_k@,
            self.recall_at_1@,
            self.recall_at_3@,
            self.recall_at_5@,
            self.mrr@,
            self.f1@,
        ]
    }
}

/// The head of the table.
pub open spec fn table_head() -> Seq<char> {
    padded("Query"@, 25) + " "@ + padded("Backend"@, 8) + " "@ + padded("P@k"@, 6) + " "@ + padded(
        "R@1"@,
        6,
    ) + " "@ + padded("R@3"@, 6) + " "@ + padded("R@5"@, 6) + " "@ + padded("MRR"@, 6) + " "@
        + padded("F1"@, 6) + " "@ + padded("ms"@, 8)
}

/// A row of the table.
pub open spec fn table_row(
    id: Seq<char>,
    backend: Seq<char>,
    cells: Seq<Seq<char>>,
    latency_ms: nat,
) -> Seq<char> {
    padded(id, 25) + " "@ + padded(backend, 8) + " "@ + chars::padded_start(cells[0], 5) + " "@
        + chars::padded_start(cells[1], 5) + " "@ + chars::padded_start(cells[2], 5) + " "@
        + chars::padded_start(cells[3], 5) + " "@ + chars::padded_start(cells[4], 5) + " "@
        + chars::padded_start(cells[5], 5) + " "@ + chars::padded_start(
        number::decimal(latency_ms),
        7,
    ) + "ms"@
}

/// The rows of one query.
pub open spec fn query_rows(r: QueryResult, cells: Seq<MetricCells>) -> Seq<Seq<char>> {
    Seq::new(
        r.entries().len(),
        |j: int|
            table_row(
                r.id@,
                r.entries()[j].0,
                cells[j]@,
                r.entries()[j].1.latency_ms as nat,
            ),
    )
}

/// The lines of the table below its head: the rows of each query, and an empty line after
/// them.
pub open spec fn table_body(results: Seq<QueryResult>, cells: Seq<Vec<MetricCells>>) -> Seq<
    Seq<char>,
>
    decreases results.len(),
{
    if results.len() == 0 {
        Seq::empty()
    } else {
        let i = results.len() - 1;
        table_body(results.drop_last(), cells) + query_rows(results[i], cells[i]@) + seq![
            Seq::<char>::empty(),
        ]
    }
}

/// The table of the results.
pub open spec fn table(results: Seq<QueryResult>, cells: Seq<Vec<MetricCells>>) -> Seq<char> {
    chars::joined(
        seq![table_head(), chars::repeated('-', 88)] + table_body(results, cells),
        "\n"@,
    )
}

/// Whether there are written metrics for each backend of each query.
pub open spec fn cells_fit(results: Seq<QueryResult>, cells: Seq<Vec<MetricCells>>) -> bool {
    cells.len() == results.len() && forall|i: int|
        0 <= i < results.len() ==> (#[trigger] cells[i])@.len() == results[i].entries().len()
}

fn write_head() -> (s: String)
    ensures
        s@ == table_head(),
{
    let mut s: String = pad("Query", 25);
    s.append(" ");
    s.append(pad("Backend", 8).as_str());
    s.append(" ");
    s.append(pad("P@k", 6).as_str());
    s.append(" ");
    s.append(pad("R@1", 6).as_str());
    s.append(" ");
    s.append(pad("R@3", 6).as_str());
    s.append(" ");
    s.append(pad("R@5", 6).as_str());
    s.append(" ");
    s.append(pad("MRR", 6).as_str());
    s.append(" ");
    s.append(pad("F1", 6).as_str());
    s.append(" ");
    s.append(pad("ms", 8).as_str());
    s
}

fn write_row(id: &str, backend: &str, cells: &MetricCells, latency_ms: u128) -> (s: String)
    ensures
        s@ == table_row(id@, backend@, cells@, latency_ms as nat),
{
    let mut s: String = pad(id, 25);
    s.append(" ");
    s.append(pad(backend, 8).as_str());
    s.append(" ");
    s.append(num2(cells.precision_at_k.as_str()).as_str());
    s.append(" ");
    s.append(num2(cells.recall_at_1.as_str()).as_str());
    s.append(" ");
    s.append(num2(cells.recall_at_3.as_str()).as_str());
    s.append(" ");
    s.append(num2(cells.recall_at_5.as_str()).as_str());
    s.append(" ");
    s.append(num2(cells.mrr.as_str()).as_str());
    s.append(" ");
    s.append(num2(cells.f1.as_str()).as_str());
    s.append(" ");
    s.append(pad_start(decimal_of(latency_ms).as_str(), 7).as_str());
    s.append("ms");
    s
}

/// The table of the results, whose metrics are given as they are written.
pub fn format_table(results: &[QueryResult], cells: &[Vec<MetricCells>]) -> (s: String)
    requires
        cells_fit(results@, cells@),
    ensures
        s@ == table(results@, cells@),
{
    let mut lines: Vec<String> = Vec::new();
    lines.push(write_head());
    lines.push(repeat_char('-', 88));
    let ghost top = seq![table_head(), chars::repeated('-', 88)];
    assert(chars::texts(lines@) =~= top);
    assert(results@.take(0) =~= Seq::empty());
    assert(top + table_body(Seq::empty(), cells@) =~= top);
    for i in 0..results.len()
        invariant
            cells_fit(results@, cells@),
            chars::texts(lines@) =~= top + table_body(results@.take(i as int), cells@),
    {
        let ghost before = chars::texts(lines@);
        let ghost rows = query_rows(results@[i as int], cells@[i as int]@);
        let n: usize = backend_count(&results[i].backends);
        assert(before + rows.take(0) =~= before);
        assert(cells@[i as int]@.len() == n);
        for j in 0..n
            invariant
                i < results@.len(),
                i < cells@.len(),
                n == results@[i as int].entries().len(),
                n == cells@[i as int]@.len(),
                rows == query_rows(results@[i as int], cells@[i as int]@),
                chars::texts(lines@) =~= before + rows.take(j as int),
        {
            match backend_at(&results[i].backends, j) {
                Some((name, result)) => {
                    let ghost l0 = lines@;
                    lines.push(
                        write_row(
                            results[i].id.as_str(),
                            name.as_str(),
                            &cells[i][j],
                            result.latency_ms,
                        ),
                    );
                    assert(chars::texts(lines@) =~= chars::texts(l0).push(rows[j as int]));
                    assert(before + rows.take(j + 1) =~= (before + rows.take(j as int)).push(
                        rows[j as int],
                    ));
                },
                None => {},
            }
        }
        assert(rows.take(rows.len() as int) =~= rows);
        let ghost l0 = lines@;
        lines.push(String::new());
        assert(chars::texts(lines@) =~= chars::texts(l0).push(Seq::empty()));
        assert(results@.take(i + 1).drop_last() =~= results@.take(i as int));
    }
    assert(results@.take(results@.len() as int) =~= results@);
    join(lines.as_slice(), "\n")
}

/// The averages of one backend, as they are written.
#[derive(Clone, Debug)]
pub struct SummaryCells {
    pub name: String,
    pub cells: MetricCells,
    pub avg_latency_ms: i64,
}

/// A line of the summary.
pub open spec fn summary_line(c: SummaryCells) -> Seq<char> {
    "  "@ + padded(c.name@, 8) + " P@k="@ + chars::padded_start(c.cells@[0], 6) + " R@1="@
        + chars::padded_start(c.cells@[1], 6) + " R@3="@ + chars::padded_start(c.cells@[2], 6)
        + " R@5="@ + chars::padded_start(c.cells@[3], 6) + " MRR="@ + chars::padded_start(
        c.cells@[4],
        6,
    ) + " F1="@ + chars::padded_start(c.cells@[5], 6) + " Avg="@ + number::signed_decimal(
        c.avg_latency_ms as int,
    ) + "ms"@
}

fn write_summary_line(c: &SummaryCells) -> (s: String)
    ensures
        s@ == summary_line(*c),
{
    let mut s: String = "  ".to_owned();
    s.append(pad(c.name.as_str(), 8).as_str());
    s.append(" P@k=");
    s.append(num3(c.cells.precision_at_k.as_str()).as_str());
    s.append(" R@1=");
    s.append(num3(c.cells.recall_at_1.as_str()).as_str());
    s.append(" R@3=");
    s.append(num3(c.cells.recall_at_3.as_str()).as_str());
    s.append(" R@5=");
    s.append(num3(c.cells.recall_at_5.as_str()).as_str());
    s.append(" MRR=");
    s.append(num3(c.cells.mrr.as_str()).as_str());
    s.append(" F1=");
    s.append(num3(c.cells.f1.as_str()).as_str());
    s.append(" Avg=");
    s.append(signed_decimal_of(c.avg_latency_ms).as_str());
    s.append("ms");
    s
}

/// The lines of the summary, each with a line feed behind it.
pub open spec fn summary_lines(v: Seq<SummaryCells>) -> Seq<char>
    decreases v.len(),
{
    if v.len() == 0 {
        Seq::empty()
    } else {
        summary_lines(v.drop_last()) + summary_line(v.last()) + "\n"@
    }
}

/// The report for a terminal: the table, a rule, and the averages of each backend.
pub fn format_report(
    results: &[QueryResult],
    cells: &[Vec<MetricCells>],
    averages: &[SummaryCells],
) -> (s: String)
    requires
        cells_fit(results@, cells@),
    ensures
        s@ == "\n"@ + table(results@, cells@) + "\nSummary:\n"@ + chars::repeated('-', 70) + "\n"@
            + summary_lines(averages@),
{
    let mut s: String = "\n".to_owned();
    s.append(format_table(results, cells).as_str());
    s.append("\nSummary:\n");
    s.append(repeat_char('-', 70).as_str());
    s.append("\n");
    let ghost head = s@;
    assert(averages@.take(0) =~= Seq::empty());
    assert(head + summary_lines(Seq::empty()) =~= head);
    for i in 0..averages.len()
        invariant
            s@ == head + summary_lines(averages@.take(i as int)),
    {
        let ghost before = summary_lines(averages@.take(i as int));
        s.append(write_summary_line(&averages[i]).as_str());
        s.append("\n");
        proof {
            assert(averages@.take(i + 1).drop_last() =~= averages@.take(i as int));
            assert(averages@.take(i + 1).last() == averages@[i as int]);
            lemma_two_more(head, before, summary_line(averages@[i as int]), "\n"@);
        }
    }
    assert(averages@.take(averages@.len() as int) =~= averages@);
    s
}

/// The characters of `s` but for colons and full stops.
pub open spec fn without_marks(s: Seq<char>) -> Seq<char>
    decreases s.len(),
{
    if s.len() == 0 {
        Seq::empty()
    } else {
        let before = without_marks(s.drop_last());
        if s.last() == ':' || s.last() == '.' {
            before
        } else {
            before.push(s.last())
        }
    }
}

/// The time stamp of a run, from the time as RFC 3339 writes it: without colons and full
/// stops, the first fifteen characters.
pub fn make_timestamp(iso: &str) -> (s: String)
    ensures
        s@ == chars::first_chars(without_marks(iso@), 15),
{
    let v: Vec<char> = chars_of(iso);
    let mut kept: Vec<char> = Vec::new();
    assert(v@.take(0) =~= Seq::empty());
    for i in 0..v.len()
        invariant
            kept@ =~= without_marks(v@.take(i as int)),
    {
        assert(v@.take(i + 1).drop_last() =~= v@.take(i as int));
        if v[i] != ':' && v[i] != '.' {
            kept.push(v[i]);
        }
    }
    assert(v@.take(v@.len() as int) =~= v@);
    take_chars(string_of(kept.as_slice()).as_str(), 15)
}

// Laws.

/// No file is listed twice, only files that were found are listed, and all of them where the
/// limit leaves room.
pub proof fn law_unique_files(files: Seq<Seq<char>>, limit: nat)
    ensures
        unique(files, limit).no_duplicates(),
        unique(files, limit).len() <= limit,
        forall|f: Seq<char>| unique(files, limit).contains(f) ==> files.contains(f),
        files.len() <= limit ==> forall|f: Seq<char>|
            files.contains(f) ==> unique(files, limit).contains(f),
{
    lists::lemma_distinct(files);
    let d = lists::distinct(files);
    let u = unique(files, limit);
    assert forall|f: Seq<char>| u.contains(f) implies files.contains(f) by {
        let i = choose|i: int| 0 <= i < u.len() && u[i] == f;
        assert(d[i] == f);
        assert(d.contains(f));
    }
}

/// The results of the backends stand in the order in which the backends run.
pub proof fn law_backends_stay_in_order(
    a: BackendResult,
    b: BackendResult,
    c: BackendResult,
    d: BackendResult,
)
    ensures
        ({
            let e0 = Seq::<(Seq<char>, BackendResult)>::empty();
            let e1 = types::with_entry(e0, backend_order()[0], a);
            let e2 = types::with_entry(e1, backend_order()[1], b);
            let e3 = types::with_entry(e2, backend_order()[2], c);
            let e4 = types::with_entry(e3, backend_order()[3], d);
            keys_of(e4) == backend_order()
        }),
{
    reveal_strlit("bm25");
    reveal_strlit("vector");
    reveal_strlit("hybrid");
    reveal_strlit("full");
    let o = backend_order();
    assert(o[0].len() == 4 && o[1].len() == 6 && o[2].len() == 6 && o[3].len() == 4);
    assert(o[0][0] == 'b' && o[1][0] == 'v' && o[2][0] == 'h' && o[3][0] == 'f');
    let e0 = Seq::<(Seq<char>, BackendResult)>::empty();
    let e1 = types::with_entry(e0, o[0], a);
    assert(e1 =~= seq![(o[0], a)]);
    let e2 = types::with_entry(e1, o[1], b);
    assert(e2 =~= seq![(o[0], a), (o[1], b)]);
    let e3 = types::with_entry(e2, o[2], c);
    assert(e3 =~= seq![(o[0], a), (o[1], b), (o[2], c)]);
    let e4 = types::with_entry(e3, o[3], d);
    assert(e4 =~= seq![(o[0], a), (o[1], b), (o[2], c), (o[3], d)]);
    assert(keys_of(e4) =~= o);
}

/// The summary names each backend once, and each backend that has a result.
pub proof fn law_summary_names_each_backend_once(results: Seq<QueryResult>)
    ensures
        forall|i: int, j: int|
            0 <= i < j < summary(results).len() ==> (#[trigger] summary(results)[i]).0 != (
            #[trigger] summary(results)[j]).0,
        forall|q: int, name: Seq<char>|
            0 <= q < results.len() && #[trigger] types::has_key(results[q].entries(), name)
                ==> exists|i: int| 0 <= i < summary(results).len() && (#[trigger] summary(results)[i]).0
                == name,
{
    let seen = names_seen(results);
    lists::lemma_distinct(seen);
    let names = lists::distinct(seen);
    assert forall|q: int, name: Seq<char>|
        0 <= q < results.len() && #[trigger] types::has_key(
            results[q].entries(),
            name,
        ) implies exists|i: int| 0 <= i < summary(results).len() && (#[trigger] summary(results)[i]).0
        == name by {
        lemma_key_is_seen(results, q, name);
        assert(names.contains(name));
        let i = choose|i: int| 0 <= i < names.len() && names[i] == name;
        assert(summary(results)[i].0 == name);
    }
}

proof fn lemma_key_is_seen(results: Seq<QueryResult>, q: int, name: Seq<char>)
    requires
        0 <= q < results.len(),
        types::has_key(results[q].entries(), name),
    ensures
        names_seen(results).contains(name),
    decreases results.len(),
{
    let before = names_seen(results.drop_last());
    let keys = keys_of(results.last().entries());
    if q == results.len() - 1 {
        let e = results[q].entries();
        let i = choose|i: int| 0 <= i < e.len() && (#[trigger] e[i]).0 == name;
        assert((before + keys)[before.len() + i] == name);
    } else {
        lemma_key_is_seen(results.drop_last(), q, name);
        let i = choose|i: int| 0 <= i < before.len() && before[i] == name;
        assert((before + keys)[i] == name);
    }
}

/// Which of the searches are lexical, or which are not.
pub open spec fn are_lexical(
    searches: Seq<store_ops::ExpandedQueryModel>,
    lexical: bool,
) -> Seq<bool> {
    Seq::new(searches.len(), |i: int| (searches[i].type_ is Lex) == lexical)
}

proof fn lemma_texts_picks(searches: Seq<store_ops::ExpandedQueryModel>, lexical: bool) -> (at: Seq<
    int,
>)
    ensures
        lists::picks(at, are_lexical(searches, lexical)),
        texts_of(searches, lexical) == Seq::new(at.len(), |k: int| searches[at[k]].query),
    decreases searches.len(),
{
    let keep = are_lexical(searches, lexical);
    if searches.len() == 0 {
        assert(texts_of(searches, lexical) =~= Seq::new(0, |k: int| searches[k].query));
        Seq::empty()
    } else {
        let b = searches.drop_last();
        let at = lemma_texts_picks(b, lexical);
        assert(keep.drop_last() =~= are_lexical(b, lexical));
        lists::lemma_picks_step(at, keep);
        assert forall|k: int| 0 <= k < at.len() implies #[trigger] b[at[k]] == searches[at[k]] by {
            assert(0 <= at[k] < are_lexical(b, lexical).len());
        }
        let next = if keep.last() {
            at.push(searches.len() - 1)
        } else {
            at
        };
        assert(texts_of(searches, lexical) =~= Seq::new(
            next.len(),
            |k: int| searches[next[k]].query,
        ));
        next
    }
}

/// Full-text search gets the texts of all lexical lines of a structured query and vector search
/// those of all others, each once and in order; together they get every line.
pub proof fn law_each_line_goes_to_its_backend(
    query: Seq<char>,
    parsed: structured::ParsedModel,
)
    ensures
        plan("bm25"@, query, Some(parsed)) matches Some(PlanModel::Lexical { queries, merge })
            && merge && exists|at: Seq<int>| #[trigger]
            lists::picks(at, are_lexical(parsed.searches, true)) && queries == Seq::new(
                at.len(),
                |k: int| parsed.searches[at[k]].query,
            ),
        plan("vector"@, query, Some(parsed)) matches Some(PlanModel::Vector { queries, merge })
            && merge && exists|at: Seq<int>| #[trigger]
            lists::picks(at, are_lexical(parsed.searches, false)) && queries == Seq::new(
                at.len(),
                |k: int| parsed.searches[at[k]].query,
            ),
{
    reveal_strlit("bm25");
    reveal_strlit("vector");
    assert("bm25"@.len() != "vector"@.len());
    let a = lemma_texts_picks(parsed.searches, true);
    let b = lemma_texts_picks(parsed.searches, false);
    assert(lists::picks(a, are_lexical(parsed.searches, true)));
    assert(lists::picks(b, are_lexical(parsed.searches, false)));
}

/// A plain query goes to each backend as it stands, and a structured one goes whole to `hybrid`
/// and `full`. Only `hybrid` goes without reranking, and no other name is that of a backend.
pub proof fn law_backends_differ_by_what_they_run(
    query: Seq<char>,
    parsed: structured::ParsedModel,
    name: Seq<char>,
)
    ensures
        plan("bm25"@, query, None) == Some(
            PlanModel::Lexical { queries: seq![query], merge: false },
        ),
        plan("vector"@, query, None) == Some(
            PlanModel::Vector { queries: seq![query], merge: false },
        ),
        plan("hybrid"@, query, None) == Some(PlanModel::Hybrid { skip_rerank: true }),
        plan("full"@, query, None) == Some(PlanModel::Hybrid { skip_rerank: false }),
        plan("hybrid"@, query, Some(parsed)) == Some(
            PlanModel::Structured { parsed, skip_rerank: true },
        ),
        plan("full"@, query, Some(parsed)) == Some(
            PlanModel::Structured { parsed, skip_rerank: false },
        ),
        plan(name, query, None) is Some <==> backend_order().contains(name),
        plan(name, query, Some(parsed)) is Some <==> backend_order().contains(name),
{
    reveal_strlit("bm25");
    reveal_strlit("vector");
    reveal_strlit("hybrid");
    reveal_strlit("full");
    let o = backend_order();
    assert(o[0] == "bm25"@ && o[1] == "vector"@ && o[2] == "hybrid"@ && o[3] == "full"@);
    assert("bm25"@[0] == 'b' && "vector"@[0] == 'v' && "hybrid"@[0] == 'h' && "full"@[0] == 'f');
    if o.contains(name) {
        let i = choose|i: int| 0 <= i < o.len() && o[i] == name;
        assert(i == 0 || i == 1 || i == 2 || i == 3);
    }
}

/// Of the files without repetitions the first are listed, each where it is first found, as many
/// as there are or as the limit allows.
pub proof fn law_first_distinct_files_are_listed(files: Seq<Seq<char>>, limit: nat)
    ensures
        exists|at: Seq<int>| #[trigger]
            lists::picks(at, lists::first_seen(files)) && unique(files, limit) == Seq::new(
                if at.len() < limit {
                    at.len()
                } else {
                    limit
                },
                |k: int| files[at[k]],
            ),
{
    let at = lists::lemma_distinct_picks(files);
    assert(lists::picks(at, lists::first_seen(files)));
    assert(unique(files, limit) =~= Seq::new(
        if at.len() < limit {
            at.len()
        } else {
            limit
        },
        |k: int| files[at[k]],
    ));
}

/// The files of all searches are put together, those of one search after those of the search
/// before it.
pub proof fn law_files_of_all_searches_are_put_together(
    a: Seq<Vec<String>>,
    list: Vec<String>,
    b: Seq<Vec<String>>,
)
    ensures
        all_files(a.push(list) + b) == all_files(a) + chars::texts(list@) + all_files(b),
    decreases b.len(),
{
    let s = a.push(list) + b;
    if b.len() == 0 {
        assert(s =~= a.push(list));
        assert(a.push(list).drop_last() =~= a);
        assert(all_files(s) =~= all_files(a) + chars::texts(list@) + all_files(b));
    } else {
        law_files_of_all_searches_are_put_together(a, list, b.drop_last());
        assert(s.drop_last() =~= a.push(list) + b.drop_last());
        assert(all_files(s) =~= all_files(a) + chars::texts(list@) + all_files(b));
    }
}

proof fn lemma_members(results: Seq<QueryResult>, name: Seq<char>, k: int)
    requires
        0 <= k <= results.len() <= usize::MAX,
    ensures
        forall|m: int|
            0 <= m < members_of(results, name, k).len() ==> (#[trigger] members_of(
                results,
                name,
                k,
            )[m]) < k && types::has_key(
                results[members_of(results, name, k)[m] as int].entries(),
                name,
            ),
        forall|a: int, b: int|
            0 <= a < b < members_of(results, name, k).len() ==> (#[trigger] members_of(
                results,
                name,
                k,
            )[a]) < (#[trigger] members_of(results, name, k)[b]),
        forall|q: int|
            0 <= q < k && types::has_key((#[trigger] results[q]).entries(), name) ==> members_of(
                results,
                name,
                k,
            ).contains(q as usize),
    decreases k,
{
    if k > 0 {
        lemma_members(results, name, k - 1);
        let before = members_of(results, name, k - 1);
        let now = members_of(results, name, k);
        assert forall|q: int|
            0 <= q < k && types::has_key((#[trigger] results[q]).entries(), name) implies now.contains(
            q as usize,
        ) by {
            if q < k - 1 {
                let m = choose|m: int| 0 <= m < before.len() && before[m] == q as usize;
                assert(now[m] == q as usize);
            } else {
                assert(now[before.len() as int] == q as usize);
            }
        }
    }
}

/// A backend is averaged over every result that has it, each once, and over no other.
pub proof fn law_averages_are_over_the_results_of_the_backend(results: Seq<QueryResult>, g: int)
    requires
        results.len() <= usize::MAX,
        0 <= g < summary(results).len(),
    ensures
        ({
            let (name, members) = summary(results)[g];
            &&& members.no_duplicates()
            &&& forall|q: int|
                0 <= q < results.len() ==> (members.contains(q as usize) <==> types::has_key(
                    (#[trigger] results[q]).entries(),
                    name,
                ))
            &&& forall|m: int| 0 <= m < members.len() ==> (#[trigger] members[m]) < results.len()
        }),
{
    let (name, members) = summary(results)[g];
    lemma_members(results, name, results.len() as int);
    assert forall|q: int|
        0 <= q < results.len() && members.contains(q as usize) implies types::has_key(
        (#[trigger] results[q]).entries(),
        name,
    ) by {
        let m = choose|m: int| 0 <= m < members.len() && members[m] == q as usize;
        assert(types::has_key(results[members[m] as int].entries(), name));
    }
}

/// A column is as wide as asked for and begins with the text, as far as that fits.
pub proof fn law_columns_have_their_width(s: Seq<char>, n: nat)
    ensures
        padded(s, n).len() == n,
        forall|i: int| 0 <= i < n ==> #[trigger] padded(s, n)[i] == (if i < s.len() {
            s[i]
        } else {
            ' '
        }),
{
}

/// Which characters are neither a colon nor a full stop.
pub open spec fn no_marks(s: Seq<char>) -> Seq<bool> {
    Seq::new(s.len(), |i: int| s[i] != ':' && s[i] != '.')
}

proof fn lemma_marks_picks(s: Seq<char>) -> (at: Seq<int>)
    ensures
        lists::picks(at, no_marks(s)),
        without_marks(s) == Seq::new(at.len(), |k: int| s[at[k]]),
    decreases s.len(),
{
    let keep = no_marks(s);
    if s.len() == 0 {
        assert(without_marks(s) =~= Seq::new(0, |k: int| s[k]));
        Seq::empty()
    } else {
        let b = s.drop_last();
        let at = lemma_marks_picks(b);
        assert(keep.drop_last() =~= no_marks(b));
        lists::lemma_picks_step(at, keep);
        assert forall|k: int| 0 <= k < at.len() implies #[trigger] b[at[k]] == s[at[k]] by {
            assert(0 <= at[k] < no_marks(b).len());
        }
        let next = if keep.last() {
            at.push(s.len() - 1)
        } else {
            at
        };
        assert(without_marks(s) =~= Seq::new(next.len(), |k: int| s[next[k]]));
        next
    }
}

/// A time stamp loses its colons and full stops and nothing else.
pub proof fn law_time_stamps_lose_only_marks(s: Seq<char>)
    ensures
        exists|at: Seq<int>| #[trigger]
            lists::picks(at, no_marks(s)) && without_marks(s) == Seq::new(
                at.len(),
                |k: int| s[at[k]],
            ),
{
    let at = lemma_marks_picks(s);
    assert(lists::picks(at, no_marks(s)));
}

proof fn lemma_body_holds(
    results: Seq<QueryResult>,
    cells: Seq<Vec<MetricCells>>,
    q: int,
    j: int,
)
    requires
        0 <= q < results.len(),
        0 <= j < results[q].entries().len(),
    ensures
        table_body(results, cells).contains(query_rows(results[q], cells[q]@)[j]),
    decreases results.len(),
{
    let n = results.len() - 1;
    let before = table_body(results.drop_last(), cells);
    let rows = query_rows(results[n], cells[n]@);
    let all = table_body(results, cells);
    if q == n {
        assert(all[before.len() + j] == rows[j]);
    } else {
        lemma_body_holds(results.drop_last(), cells, q, j);
        let row = query_rows(results[q], cells[q]@)[j];
        let k = choose|k: int| 0 <= k < before.len() && before[k] == row;
        assert(all[k] == row);
    }
}

/// The table has a row for each backend of each query, which begins with the name of the query
/// and that of the backend, as far as they fit their columns.
pub proof fn law_table_has_a_row_for_each_result(
    results: Seq<QueryResult>,
    cells: Seq<Vec<MetricCells>>,
    q: int,
    j: int,
)
    requires
        0 <= q < results.len(),
        0 <= j < results[q].entries().len(),
    ensures
        exists|row: Seq<char>| #[trigger]
            table_body(results, cells).contains(row) && row.take(25) == padded(results[q].id@, 25)
                && row.subrange(26, 34) == padded(results[q].entries()[j].0, 8),
{
    lemma_body_holds(results, cells, q, j);
    let row = query_rows(results[q], cells[q]@)[j];
    reveal_strlit(" ");
    law_columns_have_their_width(results[q].id@, 25);
    law_columns_have_their_width(results[q].entries()[j].0, 8);
    assert(row.take(25) =~= padded(results[q].id@, 25));
    assert(row.subrange(26, 34) =~= padded(results[q].entries()[j].0, 8));
}

/// A line of the summary names its backend, gives each metric behind its name, and the time.
pub proof fn law_summary_line_gives_every_metric(c: SummaryCells)
    ensures
        search::begins_with(summary_line(c), "  "@ + padded(c.name@, 8)),
        search::holds_text(summary_line(c), " P@k="@ + chars::padded_start(c.cells@[0], 6)),
        search::holds_text(summary_line(c), " R@1="@ + chars::padded_start(c.cells@[1], 6)),
        search::holds_text(summary_line(c), " R@3="@ + chars::padded_start(c.cells@[2], 6)),
        search::holds_text(summary_line(c), " R@5="@ + chars::padded_start(c.cells@[3], 6)),
        search::holds_text(summary_line(c), " MRR="@ + chars::padded_start(c.cells@[4], 6)),
        search::holds_text(summary_line(c), " F1="@ + chars::padded_start(c.cells@[5], 6)),
        search::holds_text(summary_line(c), " Avg="@ + number::signed_decimal(c.avg_latency_ms as int) + "ms"@),
{
    let c0 = "  "@;
    let c1 = c0 + padded(c.name@, 8);
    let c2 = c1 + " P@k="@;
    let c3 = c2 + chars::padded_start(c.cells@[0], 6);
    let c4 = c3 + " R@1="@;
    let c5 = c4 + chars::padded_start(c.cells@[1], 6);
    let c6 = c5 + " R@3="@;
    let c7 = c6 + chars::padded_start(c.cells@[2], 6);
    let c8 = c7 + " R@5="@;
    let c9 = c8 + chars::padded_start(c.cells@[3], 6);
    let c10 = c9 + " MRR="@;
    let c11 = c10 + chars::padded_start(c.cells@[4], 6);
    let c12 = c11 + " F1="@;
    let c13 = c12 + chars::padded_start(c.cells@[5], 6);
    let c14 = c13 + " Avg="@;
    let c15 = c14 + number::signed_decimal(c.avg_latency_ms as int);
    let c16 = c15 + "ms"@;
    search::lemma_holds_two(c1, " P@k="@, chars::padded_start(c.cells@[0], 6));
    search::lemma_holds_longer(c3, " R@1="@, " P@k="@ + chars::padded_start(c.cells@[0], 6));
    search::lemma_holds_longer(c4, chars::padded_start(c.cells@[1], 6), " P@k="@ + chars::padded_start(c.cells@[0], 6));
    search::lemma_holds_longer(c5, " R@3="@, " P@k="@ + chars::padded_start(c.cells@[0], 6));
    search::lemma_holds_longer(c6, chars::padded_start(c.cells@[2], 6), " P@k="@ + chars::padded_start(c.cells@[0], 6));
    search::lemma_holds_longer(c7, " R@5="@, " P@k="@ + chars::padded_start(c.cells@[0], 6));
    search::lemma_holds_longer(c8, chars::padded_start(c.cells@[3], 6), " P@k="@ + chars::padded_start(c.cells@[0], 6));
    search::lemma_holds_longer(c9, " MRR="@, " P@k="@ + chars::padded_start(c.cells@[0], 6));
    search::lemma_holds_longer(c10, chars::padded_start(c.cells@[4], 6), " P@k="@ + chars::padded_start(c.cells@[0], 6));
    search::lemma_holds_longer(c11, " F1="@, " P@k="@ + chars::padded_start(c.cells@[0], 6));
    search::lemma_holds_longer(c12, chars::padded_start(c.cells@[5], 6), " P@k="@ + chars::padded_start(c.cells@[0], 6));
    search::lemma_holds_longer(c13, " Avg="@, " P@k="@ + chars::padded_start(c.cells@[0], 6));
    search::lemma_holds_longer(c14, number::signed_decimal(c.avg_latency_ms as int), " P@k="@ + chars::padded_start(c.cells@[0], 6));
    search::lemma_holds_longer(c15, "ms"@, " P@k="@ + chars::padded_start(c.cells@[0], 6));
    search::lemma_holds_two(c3, " R@1="@, chars::padded_start(c.cells@[1], 6));
    search::lemma_holds_longer(c5, " R@3="@, " R@1="@ + chars::padded_start(c.cells@[1], 6));
    search::lemma_holds_longer(c6, chars::padded_start(c.cells@[2], 6), " R@1="@ + chars::padded_start(c.cells@[1], 6));
    search::lemma_holds_longer(c7, " R@5="@, " R@1="@ + chars::padded_start(c.cells@[1], 6));
    search::lemma_holds_longer(c8, chars::padded_start(c.cells@[3], 6), " R@1="@ + chars::padded_start(c.cells@[1], 6));
    search::lemma_holds_longer(c9, " MRR="@, " R@1="@ + chars::padded_start(c.cells@[1], 6));
    search::lemma_holds_longer(c10, chars::padded_start(c.cells@[4], 6), " R@1="@ + chars::padded_start(c.cells@[1], 6));
    search::lemma_holds_longer(c11, " F1="@, " R@1="@ + chars::padded_start(c.cells@[1], 6));
    search::lemma_holds_longer(c12, chars::padded_start(c.cells@[5], 6), " R@1="@ + chars::padded_start(c.cells@[1], 6));
    search::lemma_holds_longer(c13, " Avg="@, " R@1="@ + chars::padded_start(c.cells@[1], 6));
    search::lemma_holds_longer(c14, number::signed_decimal(c.avg_latency_ms as int), " R@1="@ + chars::padded_start(c.cells@[1], 6));
    search::lemma_holds_longer(c15, "ms"@, " R@1="@ + chars::padded_start(c.cells@[1], 6));
    search::lemma_holds_two(c5, " R@3="@, chars::padded_start(c.cells@[2], 6));
    search::lemma_holds_longer(c7, " R@5="@, " R@3="@ + chars::padded_start(c.cells@[2], 6));
    search::lemma_holds_longer(c8, chars::padded_start(c.cells@[3], 6), " R@3="@ + chars::padded_start(c.cells@[2], 6));
    search::lemma_holds_longer(c9, " MRR="@, " R@3="@ + chars::padded_start(c.cells@[2], 6));
    search::lemma_holds_longer(c10, chars::padded_start(c.cells@[4], 6), " R@3="@ + chars::padded_start(c.cells@[2], 6));
    search::lemma_holds_longer(c11, " F1="@, " R@3="@ + chars::padded_start(c.cells@[2], 6));
    search::lemma_holds_longer(c12, chars::padded_start(c.cells@[5], 6), " R@3="@ + chars::padded_start(c.cells@[2], 6));
    search::lemma_holds_longer(c13, " Avg="@, " R@3="@ + chars::padded_start(c.cells@[2], 6));
    search::lemma_holds_longer(c14, number::signed_decimal(c.avg_latency_ms as int), " R@3="@ + chars::padded_start(c.cells@[2], 6));
    search::lemma_holds_longer(c15, "ms"@, " R@3="@ + chars::padded_start(c.cells@[2], 6));
    search::lemma_holds_two(c7, " R@5="@, chars::padded_start(c.cells@[3], 6));
    search::lemma_holds_longer(c9, " MRR="@, " R@5="@ + chars::padded_start(c.cells@[3], 6));
    search::lemma_holds_longer(c10, chars::padded_start(c.cells@[4], 6), " R@5="@ + chars::padded_start(c.cells@[3], 6));
    search::lemma_holds_longer(c11, " F1="@, " R@5="@ + chars::padded_start(c.cells@[3], 6));
    search::lemma_holds_longer(c12, chars::padded_start(c.cells@[5], 6), " R@5="@ + chars::padded_start(c.cells@[3], 6));
    search::lemma_holds_longer(c13, " Avg="@, " R@5="@ + chars::padded_start(c.cells@[3], 6));
    search::lemma_holds_longer(c14, number::signed_decimal(c.avg_latency_ms as int), " R@5="@ + chars::padded_start(c.cells@[3], 6));
    search::lemma_holds_longer(c15, "ms"@, " R@5="@ + chars::padded_start(c.cells@[3], 6));
    search::lemma_holds_two(c9, " MRR="@, chars::padded_start(c.cells@[4], 6));
    search::lemma_holds_longer(c11, " F1="@, " MRR="@ + chars::padded_start(c.cells@[4], 6));
    search::lemma_holds_longer(c12, chars::padded_start(c.cells@[5], 6), " MRR="@ + chars::padded_start(c.cells@[4], 6));
    search::lemma_holds_longer(c13, " Avg="@, " MRR="@ + chars::padded_start(c.cells@[4], 6));
    search::lemma_holds_longer(c14, number::signed_decimal(c.avg_latency_ms as int), " MRR="@ + chars::padded_start(c.cells@[4], 6));
    search::lemma_holds_longer(c15, "ms"@, " MRR="@ + chars::padded_start(c.cells@[4], 6));
    search::lemma_holds_two(c11, " F1="@, chars::padded_start(c.cells@[5], 6));
    search::lemma_holds_longer(c13, " Avg="@, " F1="@ + chars::padded_start(c.cells@[5], 6));
    search::lemma_holds_longer(c14, number::signed_decimal(c.avg_latency_ms as int), " F1="@ + chars::padded_start(c.cells@[5], 6));
    search::lemma_holds_longer(c15, "ms"@, " F1="@ + chars::padded_start(c.cells@[5], 6));
    search::lemma_holds_three(c13, " Avg="@, number::signed_decimal(c.avg_latency_ms as int), "ms"@);
    search::lemma_begins_longer(c1, " P@k="@, c1);
    search::lemma_begins_longer(c2, chars::padded_start(c.cells@[0], 6), c1);
    search::lemma_begins_longer(c3, " R@1="@, c1);
    search::lemma_begins_longer(c4, chars::padded_start(c.cells@[1], 6), c1);
    search::lemma_begins_longer(c5, " R@3="@, c1);
    search::lemma_begins_longer(c6, chars::padded_start(c.cells@[2], 6), c1);
    search::lemma_begins_longer(c7, " R@5="@, c1);
    search::lemma_begins_longer(c8, chars::padded_start(c.cells@[3], 6), c1);
    search::lemma_begins_longer(c9, " MRR="@, c1);
    search::lemma_begins_longer(c10, chars::padded_start(c.cells@[4], 6), c1);
    search::lemma_begins_longer(c11, " F1="@, c1);
    search::lemma_begins_longer(c12, chars::padded_start(c.cells@[5], 6), c1);
    search::lemma_begins_longer(c13, " Avg="@, c1);
    search::lemma_begins_longer(c14, number::signed_decimal(c.avg_latency_ms as int), c1);
    search::lemma_begins_longer(c15, "ms"@, c1);
}

/// A row gives the metrics in the order of the head of the table, and the time at its end.
pub proof fn law_row_gives_the_metrics_in_order(
    id: Seq<char>,
    backend: Seq<char>,
    cells: Seq<Seq<char>>,
    latency_ms: nat,
)
    ensures
        search::holds_text(
            table_row(id, backend, cells, latency_ms),
            chars::joined(
                Seq::new(6, |k: int| chars::padded_start(cells[k], 5)),
                " "@,
            ),
        ),
        search::ends_in(
            table_row(id, backend, cells, latency_ms),
            chars::padded_start(number::decimal(latency_ms), 7) + "ms"@,
        ),
{
    let all = Seq::new(6, |k: int| chars::padded_start(cells[k], 5));
    let head = padded(id, 25) + " "@ + padded(backend, 8) + " "@;
    let time = chars::padded_start(number::decimal(latency_ms), 7);
    let middle = chars::joined(all, " "@);
    lemma_joined_six(all, head);
    search::lemma_holds_behind(head, middle);
    search::lemma_holds_longer(head + middle, " "@, middle);
    search::lemma_holds_longer(head + middle + " "@, time, middle);
    search::lemma_holds_longer(head + middle + " "@ + time, "ms"@, middle);
    let row = table_row(id, backend, cells, latency_ms);
    assert(row == head + middle + " "@ + time + "ms"@);
    let before = head + middle + " "@;
    assert(before + time + "ms"@ =~= before + (time + "ms"@));
    assert(row.subrange(before.len() as int, row.len() as int) =~= time + "ms"@);
}

proof fn lemma_joined_six(all: Seq<Seq<char>>, head: Seq<char>)
    requires
        all.len() == 6,
    ensures
        head + chars::joined(all, " "@) == head + all[0] + " "@ + all[1] + " "@ + all[2] + " "@
            + all[3] + " "@ + all[4] + " "@ + all[5],
{
    let b5 = all.drop_last();
    let b4 = b5.drop_last();
    let b3 = b4.drop_last();
    let b2 = b3.drop_last();
    let b1 = b2.drop_last();
    assert(chars::joined(b1, " "@) == all[0]);
    let j2 = all[0] + " "@ + all[1];
    let j3 = j2 + " "@ + all[2];
    let j4 = j3 + " "@ + all[3];
    let j5 = j4 + " "@ + all[4];
    assert(chars::joined(b2, " "@) == j2);
    assert(chars::joined(b3, " "@) == j3);
    assert(chars::joined(b4, " "@) == j4);
    assert(chars::joined(b5, " "@) == j5);
    lemma_two_more(head, all[0], " "@, all[1]);
    lemma_two_more(head, j2, " "@, all[2]);
    lemma_two_more(head, j3, " "@, all[3]);
    lemma_two_more(head, j4, " "@, all[4]);
    lemma_two_more(head, j5, " "@, all[5]);
}

proof fn lemma_two_more(head: Seq<char>, a: Seq<char>, b: Seq<char>, c: Seq<char>)
    ensures
        head + (a + b + c) == head + a + b + c,
{
    assert(head + (a + b + c) =~= head + a + b + c);
}

} // verus!
