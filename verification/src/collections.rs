//! The configured collections.
use vstd::prelude::*;

use crate::lists;
use crate::text::chars;
use crate::text::chars::{chars_of, same_text};

verus! {

/// A configured collection.
#[derive(Clone, Debug)]
pub struct Collection {
    pub name: String,
    /// Whether a search that names no collection covers it.
    pub include_by_default: bool,
    /// The command that updates its files, if one is set.
    pub update: Option<String>,
}

/// The configured collections, in the order of the configuration.
#[derive(Clone, Debug)]
pub struct Config {
    pub collections: Vec<Collection>,
}

/// The names of the collections that a search covers which names none, in order.
pub open spec fn default_names(collections: Seq<Collection>) -> Seq<Seq<char>>
    decreases collections.len(),
{
    if collections.len() == 0 {
        Seq::empty()
    } else {
        let before = default_names(collections.drop_last());
        if collections.last().include_by_default {
            before.push(collections.last().name@)
        } else {
            before
        }
    }
}

/// Whether a collection has the name.
pub open spec fn is_known(collections: Seq<Collection>, name: Seq<char>) -> bool {
    exists|i: int| 0 <= i < collections.len() && (#[trigger] collections[i]).name@ == name
}

/// A name for an index as it can stand in a file name: `_` for each `/`.
pub open spec fn clean_name(name: Seq<char>) -> Seq<char> {
    Seq::new(
        name.len(),
        |i: int|
            if name[i] == '/' {
                '_'
            } else {
                name[i]
            },
    )
}

/// A name for an index as it can stand in a file name.
pub fn sanitize_index_name(name: &str) -> (s: String)
    ensures
        s@ == clean_name(name@),
{
    let v: Vec<char> = chars_of(name);
    let mut s: String = String::new();
    for i in 0..v.len()
        invariant
            v@ == name@,
            s@ =~= clean_name(name@).take(i as int),
    {
        s.push(
            if v[i] == '/' {
                '_'
            } else {
                v[i]
            },
        );
    }
    s
}

/// A cleaned-up name holds no `/`, and a name without one is kept as it is.
pub proof fn law_clean_names_have_no_slash(name: Seq<char>)
    ensures
        !clean_name(name).contains('/'),
        !name.contains('/') ==> clean_name(name) == name,
{
    if !name.contains('/') {
        assert forall|i: int| 0 <= i < name.len() implies name[i] != '/' by {
            assert(name.contains(name[i]));
        }
        assert(clean_name(name) =~= name);
    }
}

impl Config {
    /// The names of the collections that a search covers which names none.
    pub fn default_collection_names(&self) -> (names: Vec<String>)
        ensures
            chars::texts(names@) == default_names(self.collections@),
    {
        let mut names: Vec<String> = Vec::new();
        assert(self.collections@.take(0) =~= Seq::empty());
        for i in 0..self.collections.len()
            invariant
                chars::texts(names@) =~= default_names(self.collections@.take(i as int)),
        {
            assert(self.collections@.take(i + 1).drop_last() =~= self.collections@.take(i as int));
            let ghost n0 = names@;
            if self.collections[i].include_by_default {
                names.push(self.collections[i].name.clone());
                assert(chars::texts(names@) =~= chars::texts(n0).push(
                    self.collections@[i as int].name@,
                ));
            }
        }
        assert(self.collections@.take(self.collections@.len() as int) =~= self.collections@);
        names
    }

    /// The first collection with the name.
    pub fn get_collection(&self, name: &str) -> (r: Option<&Collection>)
        ensures
            match r {
                Some(c) => exists|i: int|
                    0 <= i < self.collections@.len() && *c == (#[trigger] self.collections@[i])
                        && c.name@ == name@ && forall|j: int|
                        0 <= j < i ==> (#[trigger] self.collections@[j]).name@ != name@,
                None => !is_known(self.collections@, name@),
            },
    {
        for i in 0..self.collections.len()
            invariant
                forall|j: int| 0 <= j < i ==> (#[trigger] self.collections@[j]).name@ != name@,
        {
            if same_text(self.collections[i].name.as_str(), name) {
                return Some(&self.collections[i]);
            }
        }
        None
    }
}

// Laws.

/// Which collections a search covers that names none.
pub open spec fn are_default(collections: Seq<Collection>) -> Seq<bool> {
    Seq::new(collections.len(), |i: int| collections[i].include_by_default)
}

proof fn lemma_default_picks(v: Seq<Collection>) -> (at: Seq<int>)
    ensures
        lists::picks(at, are_default(v)),
        default_names(v) == Seq::new(at.len(), |k: int| v[at[k]].name@),
    decreases v.len(),
{
    let keep = are_default(v);
    if v.len() == 0 {
        assert(default_names(v) =~= Seq::new(0, |k: int| v[k].name@));
        Seq::empty()
    } else {
        let b = v.drop_last();
        let at = lemma_default_picks(b);
        assert(keep.drop_last() =~= are_default(b));
        lists::lemma_picks_step(at, keep);
        assert forall|k: int| 0 <= k < at.len() implies #[trigger] b[at[k]] == v[at[k]] by {
            assert(0 <= at[k] < are_default(b).len());
        }
        let next = if keep.last() {
            at.push(v.len() - 1)
        } else {
            at
        };
        assert(default_names(v) =~= Seq::new(next.len(), |k: int| v[next[k]].name@));
        next
    }
}

/// A search that names no collection covers those that are marked for it, each once and in order,
/// and no other.
pub proof fn law_marked_collections_are_the_default(v: Seq<Collection>)
    ensures
        exists|at: Seq<int>| #[trigger]
            lists::picks(at, are_default(v)) && default_names(v) == Seq::new(
                at.len(),
                |k: int| v[at[k]].name@,
            ),
{
    let at = lemma_default_picks(v);
    assert(lists::picks(at, are_default(v)));
}

} // verus!
