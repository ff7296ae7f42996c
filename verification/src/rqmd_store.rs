//! What is asked of a store, and what it does with it.
use vstd::prelude::*;

use crate::lists;
use crate::store_ops::{ChunkStrategy, ExpandedQuery};
use crate::text::chars;
use crate::text::chars::contains_text;

verus! {

/// Why the store refuses.
#[derive(Clone, Debug)]
pub enum StoreError {
    /// The options contradict each other.
    InvalidOptions(String),
    /// There is nothing to search for.
    MissingSearchQuery,
}

impl StoreError {
    /// The message of an error.
    pub open spec fn text(self) -> Seq<char> {
        match self {
            StoreError::InvalidOptions(why) => "invalid options: "@ + why@,
            StoreError::MissingSearchQuery => "search requires either 'query' or 'queries'"@,
        }
    }

    /// The message of an error.
    pub fn message(&self) -> (s: String)
        ensures
            s@ == self.text(),
    {
        match self {
            StoreError::InvalidOptions(why) => {
                let mut s: String = "invalid options: ".to_owned();
                s.append(why.as_str());
                s
            },
            StoreError::MissingSearchQuery => {
                "search requires either 'query' or 'queries'".to_owned()
            },
        }
    }
}

/// How a store is opened: the index, and a configuration file or a configuration, not both.
#[derive(Debug)]
pub struct RqmdStoreOptions<P, C> {
    pub db_path: P,
    pub config_path: Option<P>,
    pub config: Option<C>,
}

/// Where the configuration of a store comes from.
#[derive(Debug)]
pub enum ConfigSource<P, C> {
    /// There is none: the index is all there is.
    Nothing,
    File(P),
    Inline(C),
}

/// Where the configuration of a store comes from; not from two places.
pub fn config_source<P, C>(opts: RqmdStoreOptions<P, C>) -> (r: Result<
    ConfigSource<P, C>,
    StoreError,
>)
    ensures
        match r {
            Err(e) => opts.config_path is Some && opts.config is Some && e is InvalidOptions
                && e->InvalidOptions_0@ == "provide either config_path or config, not both"@,
            Ok(s) => !(opts.config_path is Some && opts.config is Some) && s == (
            match opts.config_path {
                Some(p) => ConfigSource::<P, C>::File(p),
                None => match opts.config {
                    Some(c) => ConfigSource::<P, C>::Inline(c),
                    None => ConfigSource::<P, C>::Nothing,
                },
            }),
        },
{
    if opts.config_path.is_some() && opts.config.is_some() {
        return Err(
            StoreError::InvalidOptions(
                "provide either config_path or config, not both".to_owned(),
            ),
        );
    }
    match opts.config_path {
        Some(p) => Ok(ConfigSource::File(p)),
        None => match opts.config {
            Some(c) => Ok(ConfigSource::Inline(c)),
            None => Ok(ConfigSource::Nothing),
        },
    }
}

// Searching.

/// What is searched for and how.
#[derive(Debug)]
pub struct SearchOptions {
    pub query: Option<String>,
    pub queries: Option<Vec<ExpandedQuery>>,
    pub intent: Option<String>,
    /// Whether the results are reranked; they are where nothing is said.
    pub rerank: Option<bool>,
    pub collection: Option<String>,
    pub collections: Option<Vec<String>>,
    pub limit: Option<usize>,
    pub candidate_limit: Option<usize>,
    /// The bits of the least score.
    pub min_score_bits: Option<u64>,
    pub explain: bool,
    pub chunk_strategy: Option<ChunkStrategy>,
}

/// What is the same for both ways to search.
#[derive(Debug)]
pub struct SearchLimits {
    pub limit: Option<usize>,
    pub min_score_bits: Option<u64>,
    pub explain: bool,
    pub intent: Option<String>,
    pub candidate_limit: Option<usize>,
    pub skip_rerank: bool,
    pub chunk_strategy: Option<ChunkStrategy>,
}

/// A search.
#[derive(Debug)]
pub enum SearchRequest {
    /// Typed queries, in all of the collections that are named, if any is.
    Structured {
        queries: Vec<ExpandedQuery>,
        collections: Option<Vec<String>>,
        limits: SearchLimits,
    },
    /// A plain query, in the first of the collections that are named, if any is.
    Hybrid { query: String, collection: Option<String>, limits: SearchLimits },
}

/// The collections that are named, the single one first.
pub open spec fn named_collections(
    collection: Option<String>,
    collections: Option<Vec<String>>,
) -> Seq<Seq<char>> {
    (match collection {
        Some(c) => seq![c@],
        None => Seq::empty(),
    }) + (match collections {
        Some(v) => chars::texts(v@),
        None => Seq::empty(),
    })
}

fn join_collections(collection: Option<String>, collections: Option<Vec<String>>) -> (r: Vec<
    String,
>)
    ensures
        chars::texts(r@) == named_collections(collection, collections),
{
    let ghost expected = named_collections(collection, collections);
    let mut r: Vec<String> = Vec::new();
    match collection {
        Some(c) => r.push(c),
        None => {},
    }
    let ghost first = r@;
    match collections {
        Some(v) => {
            let ghost rest = v@;
            let mut v: Vec<String> = v;
            r.append(&mut v);
            assert(chars::texts(r@) =~= chars::texts(first) + chars::texts(rest));
        },
        None => {},
    }
    assert(chars::texts(r@) =~= expected);
    r
}

/// Whether the limits are those of the options; the results are reranked unless that is declined.
pub open spec fn limits_of(o: SearchOptions, l: SearchLimits) -> bool {
    &&& l.limit == o.limit
    &&& l.min_score_bits == o.min_score_bits
    &&& l.explain == o.explain
    &&& l.intent == o.intent
    &&& l.candidate_limit == o.candidate_limit
    &&& l.skip_rerank == (o.rerank == Some(false))
    &&& l.chunk_strategy == o.chunk_strategy
}

/// The search that the options ask for. Typed queries go first; without any query there is
/// nothing to search for.
pub fn plan_search(o: SearchOptions) -> (r: Result<SearchRequest, StoreError>)
    ensures
        match r {
            Err(e) => o.query is None && o.queries is None && e is MissingSearchQuery,
            Ok(SearchRequest::Structured { queries, collections, limits }) => {
                let names = named_collections(o.collection, o.collections);
                &&& o.queries == Some(queries)
                &&& collections is Some <==> names.len() > 0
                &&& collections is Some ==> chars::texts(collections->0@) == names
                &&& limits_of(o, limits)
            },
            Ok(SearchRequest::Hybrid { query, collection, limits }) => {
                let names = named_collections(o.collection, o.collections);
                &&& o.queries is None
                &&& o.query == Some(query)
                &&& chars::opt_string(collection) == (if names.len() > 0 {
                    Some(names[0])
                } else {
                    None
                })
                &&& limits_of(o, limits)
            },
        },
{
    if o.query.is_none() && o.queries.is_none() {
        return Err(StoreError::MissingSearchQuery);
    }
    let ghost names = named_collections(o.collection, o.collections);
    let joined: Vec<String> = join_collections(o.collection, o.collections);
    assert(names.len() == joined@.len());
    let skip_rerank: bool = match o.rerank {
        Some(wanted) => !wanted,
        None => false,
    };
    let limits = SearchLimits {
        limit: o.limit,
        min_score_bits: o.min_score_bits,
        explain: o.explain,
        intent: o.intent,
        candidate_limit: o.candidate_limit,
        skip_rerank,
        chunk_strategy: o.chunk_strategy,
    };
    match o.queries {
        Some(queries) => {
            let collections: Option<Vec<String>> = if joined.len() == 0 {
                None
            } else {
                Some(joined)
            };
            Ok(SearchRequest::Structured { queries, collections, limits })
        },
        None => match o.query {
            Some(query) => {
                let collection: Option<String> = if joined.len() == 0 {
                    None
                } else {
                    assert(names[0] == joined@[0]@);
                    Some(joined[0].clone())
                };
                Ok(SearchRequest::Hybrid { query, collection, limits })
            },
            None => Err(StoreError::MissingSearchQuery),
        },
    }
}

/// How many results a search by one vector gives: ten where nothing is said.
pub fn vector_limit(limit: Option<usize>) -> (n: usize)
    ensures
        n == (match limit {
            Some(n) => n,
            None => 10,
        }),
{
    match limit {
        Some(n) => n,
        None => 10,
    }
}

// Collections.

/// How a collection is added.
#[derive(Clone, Debug)]
pub struct AddCollectionOptions {
    pub path: String,
    pub pattern: Option<String>,
    pub ignore: Option<Vec<String>>,
}

/// A collection of the store.
#[derive(Debug)]
pub struct StoreCollection {
    pub name: String,
    pub path: String,
    pub pattern: String,
    pub ignore: Option<Vec<String>>,
    /// Whether a search that names no collection covers it.
    pub include_by_default: bool,
}

/// The collection that is added: with the default pattern where none is given, and covered by
/// searches that name none.
pub fn new_collection(name: &str, opts: AddCollectionOptions, default_pattern: &str) -> (c:
    StoreCollection)
    ensures
        c.name@ == name@,
        c.path == opts.path,
        c.pattern@ == (match opts.pattern {
            Some(p) => p@,
            None => default_pattern@,
        }),
        c.ignore == opts.ignore,
        c.include_by_default,
{
    let pattern: String = match opts.pattern {
        Some(p) => p,
        None => default_pattern.to_owned(),
    };
    StoreCollection {
        name: name.to_owned(),
        path: opts.path,
        pattern,
        ignore: opts.ignore,
        include_by_default: true,
    }
}

/// There is a collection of that name.
#[derive(Clone, Debug)]
pub struct DuplicateCollection {
    pub name: String,
}

/// Refuses a new name that a collection has.
pub fn check_rename(new_name: &str, target_exists: bool) -> (r: Result<(), DuplicateCollection>)
    ensures
        match r {
            Ok(_) => !target_exists,
            Err(e) => target_exists && e.name@ == new_name@,
        },
{
    if target_exists {
        Err(DuplicateCollection { name: new_name.to_owned() })
    } else {
        Ok(())
    }
}

/// The names of the collections that a search covers which names none, in order.
pub open spec fn default_names(v: Seq<StoreCollection>) -> Seq<Seq<char>>
    decreases v.len(),
{
    if v.len() == 0 {
        Seq::empty()
    } else {
        let before = default_names(v.drop_last());
        if v.last().include_by_default {
            before.push(v.last().name@)
        } else {
            before
        }
    }
}

/// The names of the collections that a search covers which names none, in order.
pub fn default_collection_names(v: &[StoreCollection]) -> (r: Vec<String>)
    ensures
        chars::texts(r@) == default_names(v@),
{
    let mut r: Vec<String> = Vec::new();
    assert(v@.take(0) =~= Seq::empty());
    for i in 0..v.len()
        invariant
            chars::texts(r@) =~= default_names(v@.take(i as int)),
    {
        assert(v@.take(i + 1).drop_last() =~= v@.take(i as int));
        if v[i].include_by_default {
            let ghost before = r@;
            r.push(v[i].name.clone());
            assert(chars::texts(r@) =~= chars::texts(before).push(v@[i as int].name@));
        }
    }
    assert(v@.take(v@.len() as int) =~= v@);
    r
}

// Updating.

/// Which collections are updated: those that are named, else all.
#[derive(Clone, Debug)]
pub struct UpdateOptions {
    pub collections: Option<Vec<String>>,
}

/// How far an update is.
#[derive(Clone, Debug)]
pub struct UpdateProgress {
    pub collection: String,
    pub file: String,
    pub current: usize,
    pub total: usize,
}

/// What came of the update of a collection.
#[derive(Clone, Copy, Debug, PartialEq, Eq, Structural)]
pub struct ReindexCounts {
    pub indexed: usize,
    pub updated: usize,
    pub unchanged: usize,
    pub removed: usize,
}

/// What came of an update.
#[derive(Clone, Copy, Debug, PartialEq, Eq, Structural)]
pub struct UpdateResult {
    pub collections: usize,
    pub indexed: usize,
    pub updated: usize,
    pub unchanged: usize,
    pub removed: usize,
    pub needs_embedding: i64,
}

/// Whether a collection is updated.
pub open spec fn is_selected(name: Seq<char>, names: Option<Vec<String>>) -> bool {
    match names {
        Some(v) => chars::texts(v@).contains(name),
        None => true,
    }
}

/// The collections that are updated, in order.
pub open spec fn selected(v: Seq<StoreCollection>, names: Option<Vec<String>>) -> Seq<
    StoreCollection,
>
    decreases v.len(),
{
    if v.len() == 0 {
        Seq::empty()
    } else {
        let before = selected(v.drop_last(), names);
        if is_selected(v.last().name@, names) {
            before.push(v.last())
        } else {
            before
        }
    }
}

fn selects(name: &str, names: &Option<Vec<String>>) -> (r: bool)
    ensures
        r == is_selected(name@, *names),
{
    match names {
        Some(v) => contains_text(v, name),
        None => true,
    }
}

/// The collections that are updated.
pub fn select_collections(all: Vec<StoreCollection>, opts: &UpdateOptions) -> (r: Vec<
    StoreCollection,
>)
    ensures
        r@ == selected(all@, opts.collections),
{
    let ghost given = all@;
    let mut r: Vec<StoreCollection> = Vec::new();
    assert(given.take(0) =~= Seq::empty());
    for c in it: all
        invariant
            it.seq() == given,
            r@ == selected(given.take(it.index()), opts.collections),
    {
        assert(given.take(it.index() + 1).drop_last() =~= given.take(it.index()));
        if selects(c.name.as_str(), &opts.collections) {
            r.push(c);
        }
    }
    assert(given.take(given.len() as int) =~= given);
    r
}

/// What the updates of collections come to, together.
pub open spec fn summed(counts: Seq<ReindexCounts>) -> (int, int, int, int)
    decreases counts.len(),
{
    if counts.len() == 0 {
        (0, 0, 0, 0)
    } else {
        let before = summed(counts.drop_last());
        let c = counts.last();
        (
            before.0 + c.indexed,
            before.1 + c.updated,
            before.2 + c.unchanged,
            before.3 + c.removed,
        )
    }
}

proof fn lemma_sums_grow(counts: Seq<ReindexCounts>, n: int)
    requires
        0 <= n <= counts.len(),
    ensures
        0 <= summed(counts.take(n)).0 <= summed(counts).0,
        0 <= summed(counts.take(n)).1 <= summed(counts).1,
        0 <= summed(counts.take(n)).2 <= summed(counts).2,
        0 <= summed(counts.take(n)).3 <= summed(counts).3,
    decreases counts.len(),
{
    if counts.len() > 0 {
        let b = counts.drop_last();
        if n == counts.len() {
            assert(counts.take(n) =~= counts);
            lemma_sums_grow(b, b.len() as int);
            assert(b.take(b.len() as int) =~= b);
        } else {
            lemma_sums_grow(b, n);
            assert(b.take(n) =~= counts.take(n));
        }
    }
}

impl UpdateResult {
    /// The result of an update, given what came of each collection and how many documents have
    /// no embedding after it.
    pub fn of(counts: &[ReindexCounts], needs_embedding: i64) -> (r: Self)
        requires
            summed(counts@).0 <= usize::MAX,
            summed(counts@).1 <= usize::MAX,
            summed(counts@).2 <= usize::MAX,
            summed(counts@).3 <= usize::MAX,
        ensures
            r.collections == counts@.len(),
            (r.indexed as int, r.updated as int, r.unchanged as int, r.removed as int) == summed(
                counts@,
            ),
            r.needs_embedding == needs_embedding,
    {
        let mut r: UpdateResult = UpdateResult::begin(counts.len());
        assert(counts@.take(0) =~= Seq::empty());
        for i in 0..counts.len()
            invariant
                summed(counts@).0 <= usize::MAX,
                summed(counts@).1 <= usize::MAX,
                summed(counts@).2 <= usize::MAX,
                summed(counts@).3 <= usize::MAX,
                r.collections == counts@.len(),
                (r.indexed as int, r.updated as int, r.unchanged as int, r.removed as int)
                    == summed(counts@.take(i as int)),
        {
            proof {
                lemma_sums_grow(counts@, i + 1);
                assert(counts@.take(i + 1).drop_last() =~= counts@.take(i as int));
            }
            r.record(&counts[i]);
        }
        assert(counts@.take(counts@.len() as int) =~= counts@);
        r.finish(needs_embedding)
    }

    /// The result before any collection was updated.
    pub fn begin(collections: usize) -> (r: Self)
        ensures
            r == (UpdateResult {
                collections,
                indexed: 0,
                updated: 0,
                unchanged: 0,
                removed: 0,
                needs_embedding: 0,
            }),
    {
        UpdateResult {
            collections,
            indexed: 0,
            updated: 0,
            unchanged: 0,
            removed: 0,
            needs_embedding: 0,
        }
    }

    /// Adds what came of the update of a collection.
    pub fn record(&mut self, c: &ReindexCounts)
        requires
            old(self).indexed + c.indexed <= usize::MAX,
            old(self).updated + c.updated <= usize::MAX,
            old(self).unchanged + c.unchanged <= usize::MAX,
            old(self).removed + c.removed <= usize::MAX,
        ensures
            final(self).collections == old(self).collections,
            final(self).indexed == old(self).indexed + c.indexed,
            final(self).updated == old(self).updated + c.updated,
            final(self).unchanged == old(self).unchanged + c.unchanged,
            final(self).removed == old(self).removed + c.removed,
            final(self).needs_embedding == old(self).needs_embedding,
    {
        self.indexed = self.indexed + c.indexed;
        self.updated = self.updated + c.updated;
        self.unchanged = self.unchanged + c.unchanged;
        self.removed = self.removed + c.removed;
    }

    /// Adds how many documents have no embedding.
    pub fn finish(self, needs_embedding: i64) -> (r: Self)
        ensures
            r == (UpdateResult { needs_embedding, ..self }),
    {
        UpdateResult {
            collections: self.collections,
            indexed: self.indexed,
            updated: self.updated,
            unchanged: self.unchanged,
            removed: self.removed,
            needs_embedding,
        }
    }
}

// Laws.

/// Without names every collection is updated, in order.
pub proof fn law_no_names_select_all(v: Seq<StoreCollection>)
    ensures
        selected(v, None) == v,
    decreases v.len(),
{
    if v.len() > 0 {
        law_no_names_select_all(v.drop_last());
        assert(v.drop_last().push(v.last()) =~= v);
    }
}

/// Only collections that are named are updated.
pub proof fn law_only_named_collections_are_updated(
    v: Seq<StoreCollection>,
    names: Vec<String>,
    i: int,
)
    requires
        0 <= i < selected(v, Some(names)).len(),
    ensures
        chars::texts(names@).contains(selected(v, Some(names))[i].name@),
        v.contains(selected(v, Some(names))[i]),
    decreases v.len(),
{
    let before = selected(v.drop_last(), Some(names));
    if i < before.len() {
        law_only_named_collections_are_updated(v.drop_last(), names, i);
        let x = selected(v, Some(names))[i];
        assert(x == before[i]);
        let k = choose|k: int| 0 <= k < v.drop_last().len() && v.drop_last()[k] == x;
        assert(v[k] == x);
    } else {
        assert(v[v.len() - 1] == v.last());
    }
}

proof fn lemma_selected_picks(v: Seq<StoreCollection>, names: Option<Vec<String>>, keep: Seq<bool>)
    -> (at: Seq<int>)
    requires
        keep.len() == v.len(),
        forall|i: int| 0 <= i < v.len() ==> #[trigger] keep[i] == is_selected(v[i].name@, names),
    ensures
        lists::picks(at, keep),
        selected(v, names) == Seq::new(at.len(), |k: int| v[at[k]]),
    decreases v.len(),
{
    if v.len() == 0 {
        assert(selected(v, names) =~= Seq::new(0, |k: int| v[k]));
        Seq::empty()
    } else {
        let b = v.drop_last();
        let kb = keep.drop_last();
        assert forall|i: int| 0 <= i < b.len() implies #[trigger] kb[i] == is_selected(
            b[i].name@,
            names,
        ) by {
            assert(kb[i] == keep[i]);
        }
        let at = lemma_selected_picks(b, names, kb);
        lists::lemma_picks_step(at, keep);
        assert(keep.last() == keep[v.len() - 1]);
        assert forall|k: int| 0 <= k < at.len() implies #[trigger] b[at[k]] == v[at[k]] by {
            assert(0 <= at[k] < kb.len());
        }
        let next = if keep.last() {
            at.push(v.len() - 1)
        } else {
            at
        };
        assert(selected(v, names) =~= Seq::new(next.len(), |k: int| v[next[k]]));
        next
    }
}

/// Which collections have a name that is on the list.
pub open spec fn are_named(v: Seq<StoreCollection>, names: Seq<Seq<char>>) -> Seq<bool> {
    Seq::new(v.len(), |i: int| names.contains(v[i].name@))
}

/// Where collections are named, those with one of the names are updated, each of them once and in
/// order, and no other.
pub proof fn law_every_named_collection_is_updated(v: Seq<StoreCollection>, names: Vec<String>)
    ensures
        exists|at: Seq<int>| #[trigger]
            lists::picks(at, are_named(v, chars::texts(names@))) && selected(v, Some(names))
                == Seq::new(at.len(), |k: int| v[at[k]]),
{
    let keep = are_named(v, chars::texts(names@));
    let at = lemma_selected_picks(v, Some(names), keep);
    assert(lists::picks(at, keep));
}

/// Which collections a search covers that names none.
pub open spec fn are_default(v: Seq<StoreCollection>) -> Seq<bool> {
    Seq::new(v.len(), |i: int| v[i].include_by_default)
}

proof fn lemma_default_picks(v: Seq<StoreCollection>) -> (at: Seq<int>)
    ensures
        lists::picks(at, are_default(v)),
        default_names(v) == Seq::new(at.len(), |k: int| v[at[k]].name@),
    decreases v.len(),
{
    let keep = are_default(v);
    if v.len() == 0 {
        assert(default_names(v) =~= Seq::new(0, |k: int| v[k].name@));
        Seq::empty()
    } else {
        let b = v.drop_last();
        let at = lemma_default_picks(b);
        assert(keep.drop_last() =~= are_default(b));
        lists::lemma_picks_step(at, keep);
        assert forall|k: int| 0 <= k < at.len() implies #[trigger] b[at[k]] == v[at[k]] by {
            assert(0 <= at[k] < are_default(b).len());
        }
        let next = if keep.last() {
            at.push(v.len() - 1)
        } else {
            at
        };
        assert(default_names(v) =~= Seq::new(next.len(), |k: int| v[next[k]].name@));
        next
    }
}

/// A search that names no collection covers those that are marked for it, each once and in order,
/// and no other.
pub proof fn law_marked_collections_are_the_default(v: Seq<StoreCollection>)
    ensures
        exists|at: Seq<int>| #[trigger]
            lists::picks(at, are_default(v)) && default_names(v) == Seq::new(
                at.len(),
                |k: int| v[at[k]].name@,
            ),
{
    let at = lemma_default_picks(v);
    assert(lists::picks(at, are_default(v)));
}

/// The sums of two updates one after the other are the sums of both, whatever their order.
pub proof fn law_sums_are_of_every_collection(a: Seq<ReindexCounts>, b: Seq<ReindexCounts>)
    ensures
        ({
            let (x, y, z) = (summed(a), summed(b), summed(a + b));
            z == (x.0 + y.0, x.1 + y.1, x.2 + y.2, x.3 + y.3)
        }),
        forall|c: ReindexCounts| #[trigger]
            summed(seq![c]) == (
                c.indexed as int,
                c.updated as int,
                c.unchanged as int,
                c.removed as int,
            ),
    decreases b.len(),
{
    assert forall|c: ReindexCounts| #[trigger]
        summed(seq![c]) == (
            c.indexed as int,
            c.updated as int,
            c.unchanged as int,
            c.removed as int,
        ) by {
        assert(seq![c].drop_last() =~= Seq::empty());
        reveal_with_fuel(summed, 2);
    }
    if b.len() == 0 {
        assert(a + b =~= a);
    } else {
        law_sums_are_of_every_collection(a, b.drop_last());
        assert((a + b).drop_last() =~= a + b.drop_last());
    }
}

/// The single collection that is named comes first, then those of the list; nothing is left out.
pub proof fn law_named_collections_are_all_there(
    collection: Option<String>,
    collections: Option<Vec<String>>,
)
    ensures
        collection matches Some(c) ==> named_collections(collection, collections).len() > 0
            && named_collections(collection, collections)[0] == c@,
        collections matches Some(v) ==> forall|i: int|
            0 <= i < v@.len() ==> named_collections(collection, collections).contains(
                #[trigger] chars::texts(v@)[i],
            ),
        named_collections(collection, collections).len() == (if collection is Some {
            1int
        } else {
            0
        }) + (match collections {
            Some(v) => v@.len() as int,
            None => 0,
        }),
        collection is None && (collections matches Some(v) ==> v@.len() == 0)
            ==> named_collections(collection, collections).len() == 0,
{
    let all = named_collections(collection, collections);
    if let Some(v) = collections {
        assert forall|i: int| 0 <= i < v@.len() implies all.contains(
            #[trigger] chars::texts(v@)[i],
        ) by {
            let first = if collection is Some {
                1int
            } else {
                0
            };
            assert(all[first + i] == chars::texts(v@)[i]);
        }
    }
}

/// What a search is limited by is what was asked for, and the results are reranked exactly where
/// that was not declined.
pub proof fn law_search_is_limited_as_asked(o: SearchOptions, l: SearchLimits)
    requires
        limits_of(o, l),
    ensures
        l.limit == o.limit,
        l.min_score_bits == o.min_score_bits,
        l.candidate_limit == o.candidate_limit,
        l.explain == o.explain,
        l.intent == o.intent,
        l.chunk_strategy == o.chunk_strategy,
        o.rerank is None ==> !l.skip_rerank,
        o.rerank matches Some(wanted) ==> l.skip_rerank == !wanted,
{
}

} // verus!
