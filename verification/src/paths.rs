//! Where the configuration and the index are kept.
use vstd::prelude::*;

use crate::text::chars;

verus! {

/// A directory that the environment names, and whether its name is empty.
#[derive(Clone, Copy, Debug)]
pub struct EnvDir<P> {
    pub value: P,
    pub empty: bool,
}

/// The directory, where one is named.
pub open spec fn named<P>(d: Option<EnvDir<P>>) -> Option<P> {
    match d {
        Some(e) if !e.empty => Some(e.value),
        _ => None,
    }
}

fn take_named<P>(d: Option<EnvDir<P>>) -> (r: Option<P>)
    ensures
        r == named(d),
{
    match d {
        Some(e) => if e.empty {
            None
        } else {
            Some(e.value)
        },
        None => None,
    }
}

/// The home directory: the first that is named of `HOME`, `USERPROFILE` and the one that the
/// system knows, else `fallback`.
pub open spec fn home<P>(
    home: Option<EnvDir<P>>,
    user_profile: Option<EnvDir<P>>,
    system: Option<P>,
    fallback: P,
) -> P {
    match named(home) {
        Some(p) => p,
        None => match named(user_profile) {
            Some(p) => p,
            None => match system {
                Some(p) => p,
                None => fallback,
            },
        },
    }
}

/// The home directory: the first that is named of `HOME`, `USERPROFILE` and the one that the
/// system knows, else `fallback`.
pub fn rqmd_homedir<P>(
    home: Option<EnvDir<P>>,
    user_profile: Option<EnvDir<P>>,
    system: Option<P>,
    fallback: P,
) -> (r: P)
    ensures
        r == self::home(home, user_profile, system, fallback),
{
    match take_named(home) {
        Some(p) => p,
        None => match take_named(user_profile) {
            Some(p) => p,
            None => match system {
                Some(p) => p,
                None => fallback,
            },
        },
    }
}

/// A directory: the base, and the names of the directories on the way down from it.
#[derive(Clone, Debug)]
pub struct Below<P> {
    pub base: P,
    pub names: Vec<String>,
}

/// Where data is kept: in the directory named for it, else in `rqmd` in the one named for all
/// programs, else in `rqmd` in the hidden directory at home.
pub open spec fn kept_in<P>(
    own: Option<EnvDir<P>>,
    shared: Option<EnvDir<P>>,
    home: P,
    hidden: Seq<char>,
) -> (P, Seq<Seq<char>>) {
    match named(own) {
        Some(p) => (p, Seq::empty()),
        None => match named(shared) {
            Some(p) => (p, seq!["rqmd"@]),
            None => (home, seq![hidden, "rqmd"@]),
        },
    }
}

fn data_dir<P>(
    own: Option<EnvDir<P>>,
    shared: Option<EnvDir<P>>,
    home: P,
    hidden: &str,
) -> (r: Below<P>)
    ensures
        (r.base, chars::texts(r.names@)) == kept_in(own, shared, home, hidden@),
{
    let mut names: Vec<String> = Vec::new();
    match take_named(own) {
        Some(base) => {
            assert(chars::texts(names@) =~= Seq::empty());
            Below { base, names }
        },
        None => match take_named(shared) {
            Some(base) => {
                names.push("rqmd".to_owned());
                assert(chars::texts(names@) =~= seq!["rqmd"@]);
                Below { base, names }
            },
            None => {
                names.push(hidden.to_owned());
                names.push("rqmd".to_owned());
                assert(chars::texts(names@) =~= seq![hidden@, "rqmd"@]);
                Below { base: home, names }
            },
        },
    }
}

/// Where the configuration is kept; `own` is `RQMD_CONFIG_DIR` and `shared` is
/// `XDG_CONFIG_HOME`.
pub fn config_dir<P>(own: Option<EnvDir<P>>, shared: Option<EnvDir<P>>, home: P) -> (r: Below<P>)
    ensures
        (r.base, chars::texts(r.names@)) == kept_in(own, shared, home, ".config"@),
{
    data_dir(own, shared, home, ".config")
}

/// Where the index is kept; `own` is `RQMD_CACHE_DIR` and `shared` is `XDG_CACHE_HOME`.
pub fn cache_dir<P>(own: Option<EnvDir<P>>, shared: Option<EnvDir<P>>, home: P) -> (r: Below<P>)
    ensures
        (r.base, chars::texts(r.names@)) == kept_in(own, shared, home, ".cache"@),
{
    data_dir(own, shared, home, ".cache")
}

/// The configuration file of an index: `<index>.yml` where the configuration is kept.
pub fn config_file_path<P>(
    own: Option<EnvDir<P>>,
    shared: Option<EnvDir<P>>,
    home: P,
    index_name: &str,
) -> (r: Below<P>)
    ensures
        ({
            let dir = kept_in(own, shared, home, ".config"@);
            r.base == dir.0 && chars::texts(r.names@) == dir.1.push(index_name@ + ".yml"@)
        }),
{
    let mut r: Below<P> = config_dir(own, shared, home);
    let ghost before = r.names@;
    let mut file: String = index_name.to_owned();
    file.append(".yml");
    r.names.push(file);
    assert(chars::texts(r.names@) =~= chars::texts(before).push(index_name@ + ".yml"@));
    r
}

/// Where models are kept: in `qmd/models` in the directory named for all programs' caches, else in
/// the one that the system knows, else in the hidden one at home; nowhere where there is none.
pub open spec fn models_in<P>(
    shared: Option<EnvDir<P>>,
    system: Option<P>,
    home: Option<P>,
) -> Option<(P, Seq<Seq<char>>)> {
    match named(shared) {
        Some(p) => Some((p, seq!["qmd"@, "models"@])),
        None => match system {
            Some(p) => Some((p, seq!["qmd"@, "models"@])),
            None => match home {
                Some(p) => Some((p, seq![".cache"@, "qmd"@, "models"@])),
                None => None,
            },
        },
    }
}

/// Where models are kept; `shared` is `XDG_CACHE_HOME`, and `system` and `home` are the
/// directories that the system knows.
pub fn default_model_cache_dir<P>(
    shared: Option<EnvDir<P>>,
    system: Option<P>,
    home: Option<P>,
) -> (r: Option<Below<P>>)
    ensures
        match r {
            Some(b) => models_in(shared, system, home) == Some((b.base, chars::texts(b.names@))),
            None => models_in(shared, system, home) is None,
        },
{
    let mut names: Vec<String> = Vec::new();
    let cache: Option<P> = match take_named(shared) {
        Some(p) => Some(p),
        None => system,
    };
    match cache {
        Some(base) => {
            names.push("qmd".to_owned());
            names.push("models".to_owned());
            assert(chars::texts(names@) =~= seq!["qmd"@, "models"@]);
            Some(Below { base, names })
        },
        None => match home {
            Some(base) => {
                names.push(".cache".to_owned());
                names.push("qmd".to_owned());
                names.push("models".to_owned());
                assert(chars::texts(names@) =~= seq![".cache"@, "qmd"@, "models"@]);
                Some(Below { base, names })
            },
            None => None,
        },
    }
}

// Laws.

/// A directory that is named for the purpose wins over all others, and one whose name is empty
/// counts as none.
pub proof fn law_own_directory_wins<P>(
    own: EnvDir<P>,
    shared: Option<EnvDir<P>>,
    home: P,
    hidden: Seq<char>,
)
    ensures
        !own.empty ==> kept_in(Some(own), shared, home, hidden) == (
            own.value,
            Seq::<Seq<char>>::empty(),
        ),
        own.empty ==> kept_in(Some(own), shared, home, hidden) == kept_in(
            None,
            shared,
            home,
            hidden,
        ),
{
}

/// Where no directory is named for the purpose, data is kept in `rqmd` in the one named for all
/// programs, and without that in the hidden directory at home; an empty name counts as none.
pub proof fn law_shared_directory_comes_before_home<P>(
    shared: EnvDir<P>,
    home: P,
    hidden: Seq<char>,
)
    ensures
        !shared.empty ==> kept_in(None, Some(shared), home, hidden) == (shared.value, seq!["rqmd"@]),
        shared.empty ==> kept_in(None, Some(shared), home, hidden) == kept_in(
            None::<EnvDir<P>>,
            None,
            home,
            hidden,
        ),
        kept_in(None::<EnvDir<P>>, None, home, hidden) == (home, seq![hidden, "rqmd"@]),
{
}

/// The home directory is the first that is named; an empty name counts as none.
pub proof fn law_first_named_home_counts<P>(
    a: EnvDir<P>,
    b: Option<EnvDir<P>>,
    system: Option<P>,
    fallback: P,
)
    ensures
        !a.empty ==> home(Some(a), b, system, fallback) == a.value,
        a.empty ==> home(Some(a), b, system, fallback) == home(None, b, system, fallback),
        !a.empty ==> home(None, Some(a), system, fallback) == a.value,
        a.empty ==> home(None, Some(a), system, fallback) == home(
            None::<EnvDir<P>>,
            None,
            system,
            fallback,
        ),
        system matches Some(p) ==> home(None::<EnvDir<P>>, None, system, fallback) == p,
        home(None::<EnvDir<P>>, None, None, fallback) == fallback,
{
}

/// Models are kept in `qmd/models` in the first cache directory that is known, and without one in
/// the hidden cache at home.
pub proof fn law_models_are_kept_in_the_first_cache<P>(
    shared: EnvDir<P>,
    system: Option<P>,
    home: Option<P>,
)
    ensures
        !shared.empty ==> models_in(Some(shared), system, home) == Some(
            (shared.value, seq!["qmd"@, "models"@]),
        ),
        shared.empty ==> models_in(Some(shared), system, home) == models_in(None, system, home),
        system matches Some(p) ==> models_in(None, system, home) == Some(
            (p, seq!["qmd"@, "models"@]),
        ),
        home matches Some(p) ==> models_in(None::<EnvDir<P>>, None, home) == Some(
            (p, seq![".cache"@, "qmd"@, "models"@]),
        ),
        models_in(None::<EnvDir<P>>, None, None::<P>) is None,
{
}

} // verus!
