//! Which index a command works on, and what was opened for it.
use vstd::prelude::*;

use crate::collections;
use crate::collections::sanitize_index_name;
use crate::llm::llama_cpp;
use crate::llm::llama_cpp::LlamaCppConfig;
use crate::llm::types::ModelResolutionConfig;
use crate::text::chars;

verus! {

/// A configuration file in a directory at or above the current one, and the index beside it.
#[derive(Clone, Debug)]
pub struct LocalIndex<P> {
    pub config_path: P,
    pub db_path: P,
}

/// Where something is: at a given place, or at the one that belongs to the name of the index.
#[derive(Clone, Debug)]
pub enum Place<P> {
    Given(P),
    ByName(String),
}

/// The chosen index, and the store, the configuration and the models, each opened when it is
/// first needed.
#[derive(Debug)]
pub struct IndexState<P, S, C, L> {
    index_name: String,
    db_path_override: Option<P>,
    config_path_override: Option<P>,
    store: Option<S>,
    config: Option<C>,
    llama: Option<L>,
}

/// What an [`IndexState`] holds.
pub struct StateModel<P, S, C, L> {
    pub index_name: Seq<char>,
    pub db_path_override: Option<P>,
    pub config_path_override: Option<P>,
    pub store: Option<S>,
    pub config: Option<C>,
    pub llama: Option<L>,
}

impl<P, S, C, L> View for IndexState<P, S, C, L> {
    type V = StateModel<P, S, C, L>;

    closed spec fn view(&self) -> StateModel<P, S, C, L> {
        StateModel {
            index_name: self.index_name@,
            db_path_override: self.db_path_override,
            config_path_override: self.config_path_override,
            store: self.store,
            config: self.config,
            llama: self.llama,
        }
    }
}

impl<P: Clone, S, C, L> IndexState<P, S, C, L> {
    /// The state for a named index; without a name, for a local one where there is one, else for
    /// the default one. Nothing is opened yet.
    pub fn new(index_name: Option<&str>, local: Option<LocalIndex<P>>) -> (s: Self)
        ensures
            s@.index_name == (match index_name {
                Some(n) => n@,
                None => "index"@,
            }),
            s@.db_path_override == (match local {
                Some(l) if index_name is None => Some(l.db_path),
                _ => None,
            }),
            s@.config_path_override == (match local {
                Some(l) if index_name is None => Some(l.config_path),
                _ => None,
            }),
            s@.store is None,
            s@.config is None,
            s@.llama is None,
    {
        match index_name {
            Some(name) => IndexState {
                index_name: name.to_owned(),
                db_path_override: None,
                config_path_override: None,
                store: None,
                config: None,
                llama: None,
            },
            None => {
                let (db, config): (Option<P>, Option<P>) = match local {
                    Some(l) => (Some(l.db_path), Some(l.config_path)),
                    None => (None, None),
                };
                IndexState {
                    index_name: "index".to_owned(),
                    db_path_override: db,
                    config_path_override: config,
                    store: None,
                    config: None,
                    llama: None,
                }
            },
        }
    }

    /// The name of the index.
    pub fn index_name(&self) -> (r: &str)
        ensures
            r@ == self@.index_name,
    {
        self.index_name.as_str()
    }

    /// Whether the index or the configuration of a local index is used.
    pub fn is_local(&self) -> (r: bool)
        ensures
            r == (self@.db_path_override is Some || self@.config_path_override is Some),
    {
        self.db_path_override.is_some() || self.config_path_override.is_some()
    }

    /// Goes over to another index, by its name without path separators; what was opened for the last one is
    /// let go, and so is a local index. The models stay.
    pub fn set_index_name(&mut self, name: &str)
        ensures
            !final(self)@.index_name.contains('/'),
            final(self)@ == (StateModel {
                index_name: collections::clean_name(name@),
                db_path_override: None::<P>,
                config_path_override: None::<P>,
                store: None::<S>,
                config: None::<C>,
                llama: old(self)@.llama,
            }),
    {
        proof {
            collections::law_clean_names_have_no_slash(name@);
        }
        self.index_name = sanitize_index_name(name);
        self.db_path_override = None;
        self.config_path_override = None;
        self.store = None;
        self.config = None;
    }

    /// Where the index is.
    pub fn db_path(&self) -> (r: Place<P>)
        ensures
            match r {
                Place::Given(p) => self@.db_path_override is Some && cloned(
                    self@.db_path_override->0,
                    p,
                ),
                Place::ByName(n) => self@.db_path_override is None && n@ == self@.index_name,
            },
    {
        match &self.db_path_override {
            Some(p) => Place::Given(p.clone()),
            None => Place::ByName(self.index_name.clone()),
        }
    }

    /// Where the configuration is.
    pub fn config_path(&self) -> (r: Place<P>)
        ensures
            match r {
                Place::Given(p) => self@.config_path_override is Some && cloned(
                    self@.config_path_override->0,
                    p,
                ),
                Place::ByName(n) => self@.config_path_override is None && n@ == self@.index_name,
            },
    {
        match &self.config_path_override {
            Some(p) => Place::Given(p.clone()),
            None => Place::ByName(self.index_name.clone()),
        }
    }

    /// The store, where it was opened.
    pub fn store(&self) -> (r: Option<&S>)
        ensures
            match r {
                Some(s) => self@.store == Some(*s),
                None => self@.store is None,
            },
    {
        self.store.as_ref()
    }

    /// Keeps the store, unless one was opened before.
    pub fn keep_store(&mut self, store: S)
        ensures
            final(self)@ == (if old(self)@.store is Some {
                old(self)@
            } else {
                StateModel { store: Some(store), ..old(self)@ }
            }),
    {
        if self.store.is_none() {
            self.store = Some(store);
        }
    }

    /// The configuration, where it was read.
    pub fn config(&self) -> (r: Option<&C>)
        ensures
            match r {
                Some(c) => self@.config == Some(*c),
                None => self@.config is None,
            },
    {
        self.config.as_ref()
    }

    /// Keeps the configuration, unless one was read before.
    pub fn keep_config(&mut self, config: C)
        ensures
            final(self)@ == (if old(self)@.config is Some {
                old(self)@
            } else {
                StateModel { config: Some(config), ..old(self)@ }
            }),
    {
        if self.config.is_none() {
            self.config = Some(config);
        }
    }

    /// Lets the configuration go, so that it is read anew.
    pub fn forget_config(&mut self)
        ensures
            final(self)@ == (StateModel { config: None::<C>, ..old(self)@ }),
    {
        self.config = None;
    }

    /// The models, where they were set up.
    pub fn llama_cpp(&self) -> (r: Option<&L>)
        ensures
            match r {
                Some(l) => self@.llama == Some(*l),
                None => self@.llama is None,
            },
    {
        self.llama.as_ref()
    }

    /// Keeps the models, unless they were set up before.
    pub fn keep_llama_cpp(&mut self, llama: L)
        ensures
            final(self)@ == (if old(self)@.llama is Some {
                old(self)@
            } else {
                StateModel { llama: Some(llama), ..old(self)@ }
            }),
    {
        if self.llama.is_none() {
            self.llama = Some(llama);
        }
    }

    /// Ends the work; the models are handed over to be shut down, where they were set up.
    pub fn close(self) -> (r: Option<L>)
        ensures
            r == self@.llama,
    {
        self.llama
    }
}

/// The configuration that the store is opened with: the candidate, where it is a file.
pub fn existing_config<P>(candidate: P, is_file: bool) -> (r: Option<P>)
    ensures
        r == (if is_file {
            Some(candidate)
        } else {
            None
        }),
{
    if is_file {
        Some(candidate)
    } else {
        None
    }
}

/// The models that the configuration names; where there is no configuration it names none.
pub fn models_config(models: Option<&ModelResolutionConfig>) -> (r: ModelResolutionConfig)
    ensures
        chars::opt_string(r.embed) == (match models {
            Some(m) => chars::opt_string(m.embed),
            None => None,
        }),
        chars::opt_string(r.generate) == (match models {
            Some(m) => chars::opt_string(m.generate),
            None => None,
        }),
        chars::opt_string(r.rerank) == (match models {
            Some(m) => chars::opt_string(m.rerank),
            None => None,
        }),
{
    match models {
        Some(m) => ModelResolutionConfig {
            embed: copy_text(&m.embed),
            generate: copy_text(&m.generate),
            rerank: copy_text(&m.rerank),
        },
        None => ModelResolutionConfig { embed: None, generate: None, rerank: None },
    }
}

fn copy_text(o: &Option<String>) -> (r: Option<String>)
    ensures
        chars::opt_string(r) == chars::opt_string(*o),
{
    match o {
        Some(s) => Some(s.clone()),
        None => None,
    }
}

/// How the models are set up for a command: as the configuration names them; all else as the
/// environment says.
pub fn llama_config(models: ModelResolutionConfig, ci: Option<&str>) -> (c: LlamaCppConfig)
    ensures
        c == (LlamaCppConfig {
            embed_model: models.embed,
            generate_model: models.generate,
            rerank_model: models.rerank,
            ..llama_cpp::env_config(chars::opt_text(ci))
        }),
{
    let mut c: LlamaCppConfig = LlamaCppConfig::from_env(ci);
    c.embed_model = models.embed;
    c.generate_model = models.generate;
    c.rerank_model = models.rerank;
    c
}

} // verus!
