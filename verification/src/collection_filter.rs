//! Which collections a search covers.
use vstd::prelude::*;

use crate::collections;
use crate::collections::Config;
use crate::lists;
use crate::text::{chars, search};
use crate::text::search::starts_with;

verus! {

/// A name that no collection has.
#[derive(Clone, Debug)]
pub struct UnknownCollection {
    pub name: String,
}

impl UnknownCollection {
    /// What is said of the error.
    pub fn message(&self) -> (s: String)
        ensures
            s@ == "Collection not found: "@ + self.name@,
    {
        let mut s: String = "Collection not found: ".to_owned();
        s.append(self.name.as_str());
        s
    }
}

/// Whether all of the first `k` names are those of collections.
pub open spec fn all_known(config: Config, names: Seq<String>, k: int) -> bool {
    forall|i: int|
        0 <= i < k ==> collections::is_known(config.collections@, (#[trigger] names[i])@)
}

/// The collections that a search covers: those that are named, or the default ones where none
/// is named and defaults are in use. The first name that no collection has is an error.
pub fn resolve_collection_filter(config: &Config, raw: &[String], use_defaults: bool) -> (r: Result<
    Vec<String>,
    UnknownCollection,
>)
    ensures
        match r {
            Ok(names) => chars::texts(names@) == if raw@.len() > 0 {
                chars::texts(raw@)
            } else if use_defaults {
                collections::default_names(config.collections@)
            } else {
                Seq::empty()
            },
            Err(e) => exists|i: int|
                0 <= i < raw@.len() && all_known(*config, raw@, i) && !collections::is_known(
                    config.collections@,
                    raw@[i]@,
                ) && e.name@ == (#[trigger] raw@[i])@,
        },
        r is Ok <==> all_known(*config, raw@, raw@.len() as int),
{
    if raw.len() == 0 {
        if use_defaults {
            return Ok(config.default_collection_names());
        }
        let none: Vec<String> = Vec::new();
        assert(chars::texts(none@) =~= Seq::empty());
        return Ok(none);
    }
    let mut validated: Vec<String> = Vec::new();
    for i in 0..raw.len()
        invariant
            all_known(*config, raw@, i as int),
            chars::texts(validated@) =~= chars::texts(raw@).take(i as int),
    {
        if config.get_collection(raw[i].as_str()).is_none() {
            assert(!collections::is_known(config.collections@, raw@[i as int]@));
            return Err(UnknownCollection { name: raw[i].clone() });
        }
        let ghost v0 = validated@;
        validated.push(raw[i].clone());
        assert(chars::texts(validated@) =~= chars::texts(v0).push(raw@[i as int]@));
    }
    assert(chars::texts(raw@).take(raw@.len() as int) =~= chars::texts(raw@));
    Ok(validated)
}

/// The collection that the search itself is limited to: the only one, where there is only one.
pub fn single_collection(names: &[String]) -> (r: Option<String>)
    ensures
        chars::opt_string(r) == if names@.len() == 1 {
            Some(names@[0]@)
        } else {
            None
        },
{
    if names.len() == 1 {
        Some(names[0].clone())
    } else {
        None
    }
}

/// Whether a file lies in one of the collections.
pub open spec fn is_in(file: Seq<char>, names: Seq<Seq<char>>) -> bool {
    exists|i: int|
        0 <= i < names.len() && search::begins_with(file, "qmd://"@ + (#[trigger] names[i]) + "/"@)
}

/// The results whose file lies in one of the collections, in order.
pub open spec fn kept<T>(results: Seq<T>, files: Seq<Seq<char>>, names: Seq<Seq<char>>) -> Seq<T>
    decreases results.len(),
{
    if results.len() == 0 {
        Seq::empty()
    } else {
        let before = kept(results.drop_last(), files.drop_last(), names);
        if is_in(files.last(), names) {
            before.push(results.last())
        } else {
            before
        }
    }
}

/// Whether `file_of` may say that the file of a result is `file`.
pub open spec fn is_file_of<T, F: Fn(&T) -> &str>(file_of: F, result: T, file: Seq<char>) -> bool {
    exists|f: &str| #[trigger] call_ensures(file_of, (&result,), f) && f@ == file
}

/// Whether `file_of` may say that the files of the results are `files`.
pub open spec fn are_files_of<T, F: Fn(&T) -> &str>(
    file_of: F,
    results: Seq<T>,
    files: Seq<Seq<char>>,
) -> bool {
    &&& files.len() == results.len()
    &&& forall|i: int|
        0 <= i < results.len() ==> is_file_of(file_of, results[i], #[trigger] files[i])
}

fn prefixes_of(names: &[String]) -> (r: Vec<String>)
    ensures
        r@.len() == names@.len(),
        forall|i: int|
            0 <= i < r@.len() ==> (#[trigger] r@[i])@ == "qmd://"@ + chars::texts(names@)[i] + "/"@,
{
    let mut r: Vec<String> = Vec::new();
    for i in 0..names.len()
        invariant
            r@.len() == i,
            forall|k: int|
                0 <= k < i ==> (#[trigger] r@[k])@ == "qmd://"@ + chars::texts(names@)[k] + "/"@,
    {
        let mut s: String = "qmd://".to_owned();
        s.append(names[i].as_str());
        s.append("/");
        r.push(s);
    }
    r
}

fn file_is_in(file: &str, prefixes: &Vec<String>, names: &[String]) -> (r: bool)
    requires
        prefixes@.len() == names@.len(),
        forall|i: int|
            0 <= i < prefixes@.len() ==> (#[trigger] prefixes@[i])@ == "qmd://"@ + chars::texts(
                names@,
            )[i] + "/"@,
    ensures
        r == is_in(file@, chars::texts(names@)),
{
    let ghost all = chars::texts(names@);
    for i in 0..prefixes.len()
        invariant
            all == chars::texts(names@),
            prefixes@.len() == names@.len(),
            forall|k: int|
                0 <= k < prefixes@.len() ==> (#[trigger] prefixes@[k])@ == "qmd://"@ + all[k]
                    + "/"@,
            forall|k: int|
                0 <= k < i ==> !search::begins_with(file@, "qmd://"@ + (#[trigger] all[k]) + "/"@),
    {
        if starts_with(file, prefixes[i].as_str()) {
            assert(search::begins_with(file@, "qmd://"@ + all[i as int] + "/"@));
            return true;
        }
    }
    false
}

/// The results whose file lies in one of the collections. With one collection or none the
/// search itself was limited already, and all results stay.
pub fn filter_by_collections<T, F: Fn(&T) -> &str>(
    results: Vec<T>,
    names: &[String],
    file_of: F,
) -> (out: Vec<T>)
    requires
        forall|i: int| 0 <= i < results@.len() ==> call_requires(file_of, (&#[trigger] results@[i],)),
    ensures
        names@.len() <= 1 ==> out@ == results@,
        names@.len() > 1 ==> exists|files: Seq<Seq<char>>| #[trigger]
            are_files_of(file_of, results@, files) && out@ == kept(
                results@,
                files,
                chars::texts(names@),
            ),
{
    if names.len() <= 1 {
        return results;
    }
    let prefixes: Vec<String> = prefixes_of(names);
    let ghost all = results@;
    let ghost mut files: Seq<Seq<char>> = Seq::empty();
    let mut out: Vec<T> = Vec::new();
    assert(all.take(0) =~= Seq::empty());
    for r in it: results
        invariant
            it.seq() == all,
            forall|i: int| 0 <= i < all.len() ==> call_requires(file_of, (&#[trigger] all[i],)),
            prefixes@.len() == names@.len(),
            forall|i: int|
                0 <= i < prefixes@.len() ==> (#[trigger] prefixes@[i])@ == "qmd://"@ + chars::texts(
                    names@,
                )[i] + "/"@,
            are_files_of(file_of, all.take(it.index()), files),
            out@ == kept(all.take(it.index()), files, chars::texts(names@)),
    {
        let ghost k = it.index();
        let f: &str = file_of(&r);
        let inside: bool = file_is_in(f, &prefixes, names);
        proof {
            let before = files;
            files = files.push(f@);
            assert(all.take(k + 1).drop_last() =~= all.take(k));
            assert(files.drop_last() =~= before);
            assert(is_file_of(file_of, r, f@));
            assert forall|i: int| 0 <= i < all.take(k + 1).len() implies is_file_of(
                file_of,
                all.take(k + 1)[i],
                #[trigger] files[i],
            ) by {
                if i < k {
                    assert(all.take(k)[i] == all.take(k + 1)[i]);
                    assert(is_file_of(file_of, all.take(k)[i], before[i]));
                }
            }
        }
        if inside {
            out.push(r);
        }
    }
    assert(all.take(all.len() as int) =~= all);
    out
}

// Laws.

/// A name of a collection does not cover a collection whose name it begins.
pub proof fn law_names_do_not_collide(file: Seq<char>, name: Seq<char>, longer: Seq<char>)
    requires
        search::begins_with(file, "qmd://"@ + longer + "/"@),
        search::begins_with(longer, name),
        longer.len() > name.len(),
        !longer.contains('/'),
    ensures
        !search::begins_with(file, "qmd://"@ + name + "/"@),
{
    reveal_strlit("qmd://");
    reveal_strlit("/");
    let a = "qmd://"@ + longer + "/"@;
    let b = "qmd://"@ + name + "/"@;
    if search::begins_with(file, b) {
        let n = 6 + name.len() as int;
        assert(b[n] == '/');
        assert(file[n] == file.subrange(0, b.len() as int)[n]);
        assert(file[n] == file.subrange(0, a.len() as int)[n]);
        assert(a[n] == longer[name.len() as int]);
        assert(longer.contains('/'));
    }
}

/// Filtering only drops results: what stays was there, and there is no more of it.
pub proof fn law_filter_only_drops<T>(
    results: Seq<T>,
    files: Seq<Seq<char>>,
    names: Seq<Seq<char>>,
)
    requires
        files.len() == results.len(),
    ensures
        kept(results, files, names).len() <= results.len(),
        forall|x: T| #[trigger]
            kept(results, files, names).contains(x) ==> results.contains(x),
        (forall|i: int| 0 <= i < files.len() ==> is_in(#[trigger] files[i], names)) ==> kept(
            results,
            files,
            names,
        ) == results,
    decreases results.len(),
{
    if results.len() > 0 {
        let b = results.drop_last();
        let g = files.drop_last();
        law_filter_only_drops(b, g, names);
        assert forall|x: T| #[trigger]
            kept(results, files, names).contains(x) implies results.contains(x) by {
            let k = kept(results, files, names);
            let i = choose|i: int| 0 <= i < k.len() && k[i] == x;
            if i < kept(b, g, names).len() {
                assert(kept(b, g, names)[i] == x);
                assert(kept(b, g, names).contains(x));
                let j = choose|j: int| 0 <= j < b.len() && b[j] == x;
                assert(results[j] == x);
            } else {
                assert(results[results.len() - 1] == x);
            }
        }
        if forall|i: int| 0 <= i < files.len() ==> is_in(#[trigger] files[i], names) {
            assert forall|i: int| 0 <= i < g.len() implies is_in(#[trigger] g[i], names) by {
                assert(g[i] == files[i]);
            }
            assert(files[files.len() - 1] == files.last());
            assert(kept(results, files, names) =~= results);
        }
    }
}

/// Which files lie in one of the collections.
pub open spec fn lie_in(files: Seq<Seq<char>>, names: Seq<Seq<char>>) -> Seq<bool> {
    Seq::new(
        files.len(),
        |i: int|
            exists|n: int|
                0 <= n < names.len() && search::begins_with(
                    files[i],
                    "qmd://"@ + (#[trigger] names[n]) + "/"@,
                ),
    )
}

proof fn lemma_kept_picks<T>(results: Seq<T>, files: Seq<Seq<char>>, names: Seq<Seq<char>>) -> (at:
    Seq<int>)
    requires
        files.len() == results.len(),
    ensures
        lists::picks(at, lie_in(files, names)),
        kept(results, files, names) == Seq::new(at.len(), |k: int| results[at[k]]),
    decreases results.len(),
{
    let keep = lie_in(files, names);
    if results.len() == 0 {
        assert(kept(results, files, names) =~= Seq::new(0, |k: int| results[k]));
        Seq::empty()
    } else {
        let b = results.drop_last();
        let g = files.drop_last();
        let at = lemma_kept_picks(b, g, names);
        assert(keep.drop_last() =~= lie_in(g, names));
        lists::lemma_picks_step(at, keep);
        assert(keep.last() == is_in(files.last(), names));
        assert forall|k: int| 0 <= k < at.len() implies #[trigger] b[at[k]] == results[at[k]] by {
            assert(0 <= at[k] < lie_in(g, names).len());
        }
        let next = if keep.last() {
            at.push(results.len() - 1)
        } else {
            at
        };
        assert(kept(results, files, names) =~= Seq::new(next.len(), |k: int| results[next[k]]));
        next
    }
}

/// Filtering keeps every result whose file lies in one of the collections, each once and in
/// order, and no other.
pub proof fn law_filter_keeps_every_file_of_the_collections<T>(
    results: Seq<T>,
    files: Seq<Seq<char>>,
    names: Seq<Seq<char>>,
)
    requires
        files.len() == results.len(),
    ensures
        exists|at: Seq<int>| #[trigger]
            lists::picks(at, lie_in(files, names)) && kept(results, files, names) == Seq::new(
                at.len(),
                |k: int| results[at[k]],
            ),
{
    let at = lemma_kept_picks(results, files, names);
    assert(lists::picks(at, lie_in(files, names)));
}

} // verus!
