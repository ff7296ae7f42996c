//! The life of the loaded models: how they are set up, which operations they take, how batches
//! are put together and taken apart, and how they are shut down.
use vstd::prelude::*;

use crate::env_keys;
use crate::float_order;
use crate::float_order::key32_of;
use crate::lists;
use crate::llm::config;
use crate::llm::config::{
    context_size_warning, resolve_embed_context_size, resolve_expand_context_size, resolve_models,
    resolve_rerank_context_size, ModelEnv, ResolvedModels, DEFAULT_EMBED_CONTEXT_SIZE,
    DEFAULT_EXPAND_CONTEXT_SIZE, DEFAULT_RERANK_CONTEXT_SIZE,
};
use crate::llm::error::Error;
use crate::llm::format::{format_doc_for_embedding, format_query_for_embedding};
use crate::llm::gpu;
use crate::llm::gpu::{parallelism_warning, resolve_safe_parallelism, ParallelismOptions};
use crate::llm::prompt;
use crate::llm::prompt::{
    build_expand_query_user_message, build_qwen3_rerank_prompt, finish_expansion,
};
use crate::llm::types;
use crate::llm::types::{
    EmbedOptions, EmbeddingResult, ExpandQueryOptions, GenerateOptions, GenerateResult, ModelInfo,
    ModelResolutionConfig, Queryable, RerankDocument, RerankDocumentResult, RerankResult,
};
use crate::llm::worker;
use crate::ranking;
use crate::ranking::rank_descending;
use crate::text::{chars, number, search};
use crate::text::number::decimal_of;
use crate::text::search::starts_with;

verus! {

/// How many contexts embed side by side where nothing is said.
pub const DEFAULT_EMBED_PARALLELISM: usize = 2;

/// How many contexts rerank side by side where nothing is said.
pub const DEFAULT_RERANK_PARALLELISM: usize = 2;

/// How many tokens are generated at most where nothing is said.
pub const DEFAULT_MAX_TOKENS: usize = 150;

/// The bits of 0.7: the temperature where nothing is said.
pub const DEFAULT_TEMPERATURE_BITS: u32 = 0x3f33_3333;

/// How many tokens the expansion of a query has at most.
pub const EXPAND_MAX_TOKENS: i32 = 600;

/// For how many milliseconds a shutdown waits for operations that are under way.
pub const DRAIN_TIMEOUT_MS: u64 = 30_000;

// How the models are set up.

/// How the models are configured.
#[derive(Clone, Debug, Default)]
pub struct LlamaCppConfig {
    pub embed_model: Option<String>,
    pub generate_model: Option<String>,
    pub rerank_model: Option<String>,
    pub model_cache_dir: Option<String>,
    pub expand_context_size: Option<usize>,
    pub embed_context_size: Option<usize>,
    pub rerank_context_size: Option<usize>,
    pub embed_parallelism: Option<usize>,
    pub rerank_parallelism: Option<usize>,
    /// Whether no model may be loaded for most operations.
    pub ci_mode: bool,
}

/// The configuration where nothing is said but by `CI`.
pub open spec fn env_config(ci: Option<Seq<char>>) -> LlamaCppConfig {
    LlamaCppConfig {
        embed_model: None,
        generate_model: None,
        rerank_model: None,
        model_cache_dir: None,
        expand_context_size: None,
        embed_context_size: None,
        rerank_context_size: None,
        embed_parallelism: None,
        rerank_parallelism: None,
        ci_mode: match ci {
            Some(v) => v.len() > 0,
            None => false,
        },
    }
}

impl LlamaCppConfig {
    /// The configuration where nothing is said but by `CI`: any value but an empty one keeps the
    /// models from being loaded.
    pub fn from_env(ci: Option<&str>) -> (c: Self)
        ensures
            c == env_config(chars::opt_text(ci)),
    {
        LlamaCppConfig {
            embed_model: None,
            generate_model: None,
            rerank_model: None,
            model_cache_dir: None,
            expand_context_size: None,
            embed_context_size: None,
            rerank_context_size: None,
            embed_parallelism: None,
            rerank_parallelism: None,
            ci_mode: match ci {
                Some(v) => !v.is_empty(),
                None => false,
            },
        }
    }
}

/// What the environment says of the models.
#[derive(Clone, Copy, Debug)]
pub struct LlmEnv<'a> {
    pub models: ModelEnv<'a>,
    pub expand_context_size: Option<&'a str>,
    pub embed_context_size: Option<&'a str>,
    pub rerank_context_size: Option<&'a str>,
    pub embed_parallelism: Option<&'a str>,
    pub rerank_parallelism: Option<&'a str>,
    /// Whether only one context can run.
    pub serialize_windows_cuda: bool,
}

/// How many contexts a pool has: as configured and at least one, else as the environment says,
/// else the default.
pub open spec fn pool_parallelism(
    config_value: Option<usize>,
    env_value: Option<&str>,
    default: usize,
    serialize_windows_cuda: bool,
) -> nat {
    match config_value {
        Some(n) => if n == 0 {
            1
        } else {
            n as nat
        },
        None => gpu::safe_parallelism(
            (ParallelismOptions { env_value, computed: default, serialize_windows_cuda }),
        ),
    }
}

/// How many contexts a pool has.
pub fn resolve_pool_parallelism(
    config_value: Option<usize>,
    env_value: Option<&str>,
    default: usize,
    serialize_windows_cuda: bool,
) -> (n: usize)
    ensures
        n == pool_parallelism(config_value, env_value, default, serialize_windows_cuda),
{
    match config_value {
        Some(n) => if n == 0 {
            1
        } else {
            n
        },
        None => resolve_safe_parallelism(
            ParallelismOptions { env_value, computed: default, serialize_windows_cuda },
        ),
    }
}

/// How the models are set up.
#[derive(Clone, Debug)]
pub struct LlamaSettings {
    pub models: ResolvedModels,
    pub model_cache_dir: Option<String>,
    pub expand_context_size: usize,
    pub embed_context_size: usize,
    pub rerank_context_size: usize,
    pub embed_parallelism: usize,
    pub rerank_parallelism: usize,
    pub ci_mode: bool,
}

/// The configured size, else the one that the environment gives. A configured size of zero for
/// the expansion counts as none, with the default in its place.
pub open spec fn expand_size(config_value: Option<usize>, env: Option<&str>) -> nat {
    match config_value {
        Some(v) => if v == 0 {
            DEFAULT_EXPAND_CONTEXT_SIZE as nat
        } else {
            v as nat
        },
        None => config::env_size(env, DEFAULT_EXPAND_CONTEXT_SIZE),
    }
}

/// Whether the settings are what the configuration and the environment ask for.
pub open spec fn settled(c: LlamaCppConfig, env: LlmEnv<'_>, s: LlamaSettings) -> bool {
    &&& s.models.embed@ == config::first_non_empty(
        chars::opt_string(c.embed_model),
        chars::opt_text(env.models.embed),
        config::DEFAULT_EMBED_MODEL@,
    )
    &&& s.models.generate@ == config::first_non_empty(
        chars::opt_string(c.generate_model),
        chars::opt_text(env.models.generate),
        config::DEFAULT_GENERATE_MODEL@,
    )
    &&& s.models.rerank@ == config::first_non_empty(
        chars::opt_string(c.rerank_model),
        chars::opt_text(env.models.rerank),
        config::DEFAULT_RERANK_MODEL@,
    )
    &&& s.model_cache_dir == c.model_cache_dir
    &&& s.expand_context_size == expand_size(c.expand_context_size, env.expand_context_size)
    &&& s.embed_context_size == (match c.embed_context_size {
        Some(n) => n as nat,
        None => config::env_size(env.embed_context_size, config::DEFAULT_EMBED_CONTEXT_SIZE),
    })
    &&& s.rerank_context_size == (match c.rerank_context_size {
        Some(n) => n as nat,
        None => config::env_size(env.rerank_context_size, config::DEFAULT_RERANK_CONTEXT_SIZE),
    })
    &&& s.embed_parallelism == pool_parallelism(
        c.embed_parallelism,
        env.embed_parallelism,
        DEFAULT_EMBED_PARALLELISM,
        env.serialize_windows_cuda,
    )
    &&& s.rerank_parallelism == pool_parallelism(
        c.rerank_parallelism,
        env.rerank_parallelism,
        DEFAULT_RERANK_PARALLELISM,
        env.serialize_windows_cuda,
    )
    &&& s.ci_mode == c.ci_mode
}

/// The settings that the configuration and the environment ask for.
pub fn settle(c: LlamaCppConfig, env: &LlmEnv<'_>) -> (s: LlamaSettings)
    ensures
        settled(c, *env, s),
{
    let expand_context_size: usize = match resolve_expand_context_size(
        c.expand_context_size,
        env.expand_context_size,
    ) {
        Ok(n) => n,
        Err(_) => DEFAULT_EXPAND_CONTEXT_SIZE,
    };
    let embed_context_size: usize = match c.embed_context_size {
        Some(n) => n,
        None => resolve_embed_context_size(env.embed_context_size),
    };
    let rerank_context_size: usize = match c.rerank_context_size {
        Some(n) => n,
        None => resolve_rerank_context_size(env.rerank_context_size),
    };
    let embed_parallelism: usize = resolve_pool_parallelism(
        c.embed_parallelism,
        env.embed_parallelism,
        DEFAULT_EMBED_PARALLELISM,
        env.serialize_windows_cuda,
    );
    let rerank_parallelism: usize = resolve_pool_parallelism(
        c.rerank_parallelism,
        env.rerank_parallelism,
        DEFAULT_RERANK_PARALLELISM,
        env.serialize_windows_cuda,
    );
    let resolution = ModelResolutionConfig {
        embed: c.embed_model,
        generate: c.generate_model,
        rerank: c.rerank_model,
    };
    LlamaSettings {
        models: resolve_models(Some(&resolution), &env.models),
        model_cache_dir: c.model_cache_dir,
        expand_context_size,
        embed_context_size,
        rerank_context_size,
        embed_parallelism,
        rerank_parallelism,
        ci_mode: c.ci_mode,
    }
}

/// The texts that are there, in order.
pub open spec fn given(v: Seq<Option<Seq<char>>>) -> Seq<Seq<char>>
    decreases v.len(),
{
    if v.len() == 0 {
        Seq::empty()
    } else {
        match v.last() {
            Some(s) => given(v.drop_last()).push(s),
            None => given(v.drop_last()),
        }
    }
}

fn given_texts(v: Vec<Option<String>>) -> (r: Vec<String>)
    ensures
        chars::texts(r@) == given(Seq::new(v@.len(), |i: int| chars::opt_string(v@[i]))),
{
    let ghost all = Seq::new(v@.len(), |i: int| chars::opt_string(v@[i]));
    let mut r: Vec<String> = Vec::new();
    assert(all.take(0) =~= Seq::empty());
    for i in 0..v.len()
        invariant
            all == Seq::new(v@.len(), |i: int| chars::opt_string(v@[i])),
            chars::texts(r@) =~= given(all.take(i as int)),
    {
        assert(all.take(i + 1).drop_last() =~= all.take(i as int));
        assert(all.take(i + 1).last() == chars::opt_string(v@[i as int]));
        match &v[i] {
            Some(s) => {
                let ghost r0 = r@;
                r.push(s.clone());
                assert(chars::texts(r@) =~= chars::texts(r0).push(s@));
            },
            None => {},
        }
    }
    assert(all.take(all.len() as int) =~= all);
    r
}

/// What is to be said against a setting that counts only where nothing is configured.
pub open spec fn unless_configured(config_value: Option<usize>, said: Option<Seq<char>>) -> Option<
    Seq<char>,
> {
    if config_value is Some {
        None
    } else {
        said
    }
}

/// What is to be said against each of the settings, where they are looked at.
pub open spec fn complaints(c: LlamaCppConfig, env: LlmEnv<'_>) -> Seq<Option<Seq<char>>> {
    seq![
        unless_configured(
            c.expand_context_size,
            config::size_complaint(
                env_keys::EXPAND_CONTEXT_SIZE@,
                env.expand_context_size,
                DEFAULT_EXPAND_CONTEXT_SIZE,
            ),
        ),
        unless_configured(
            c.embed_context_size,
            config::size_complaint(
                env_keys::EMBED_CONTEXT_SIZE@,
                env.embed_context_size,
                DEFAULT_EMBED_CONTEXT_SIZE,
            ),
        ),
        unless_configured(
            c.rerank_context_size,
            config::size_complaint(
                env_keys::RERANK_CONTEXT_SIZE@,
                env.rerank_context_size,
                DEFAULT_RERANK_CONTEXT_SIZE,
            ),
        ),
        unless_configured(c.embed_parallelism, gpu::parallelism_complaint(env.embed_parallelism)),
        unless_configured(c.rerank_parallelism, gpu::parallelism_complaint(env.rerank_parallelism)),
    ]
}

/// What is to be said against the settings of the environment when the models are set up.
pub fn settings_warnings(c: &LlamaCppConfig, env: &LlmEnv<'_>) -> (r: Vec<String>)
    ensures
        chars::texts(r@) == given(complaints(*c, *env)),
{
    let expand: Option<String> = if c.expand_context_size.is_some() {
        None
    } else {
        context_size_warning(
            env_keys::EXPAND_CONTEXT_SIZE,
            env.expand_context_size,
            DEFAULT_EXPAND_CONTEXT_SIZE,
        )
    };
    let embed: Option<String> = if c.embed_context_size.is_some() {
        None
    } else {
        context_size_warning(
            env_keys::EMBED_CONTEXT_SIZE,
            env.embed_context_size,
            DEFAULT_EMBED_CONTEXT_SIZE,
        )
    };
    let rerank: Option<String> = if c.rerank_context_size.is_some() {
        None
    } else {
        context_size_warning(
            env_keys::RERANK_CONTEXT_SIZE,
            env.rerank_context_size,
            DEFAULT_RERANK_CONTEXT_SIZE,
        )
    };
    let embed_pool: Option<String> = if c.embed_parallelism.is_some() {
        None
    } else {
        parallelism_warning(env.embed_parallelism)
    };
    let rerank_pool: Option<String> = if c.rerank_parallelism.is_some() {
        None
    } else {
        parallelism_warning(env.rerank_parallelism)
    };
    let mut v: Vec<Option<String>> = Vec::new();
    v.push(expand);
    v.push(embed);
    v.push(rerank);
    v.push(embed_pool);
    v.push(rerank_pool);
    assert(Seq::new(v@.len(), |i: int| chars::opt_string(v@[i])) =~= complaints(*c, *env));
    given_texts(v)
}

// The life of the models.

/// What the models are asked to do.
#[derive(Clone, Copy, Debug, PartialEq, Eq, Structural)]
pub enum Operation {
    Embed,
    EmbedBatch,
    Generate,
    ExpandQuery,
    Rerank,
    Tokenize,
    Detokenize,
}

impl Operation {
    /// Whether the operation is refused where no model may be loaded.
    pub open spec fn needs_models(self) -> bool {
        match self {
            Operation::EmbedBatch | Operation::Generate | Operation::ExpandQuery
            | Operation::Rerank => true,
            Operation::Embed | Operation::Tokenize | Operation::Detokenize => false,
        }
    }

    /// Whether the operation is refused where no model may be loaded.
    pub fn refused_in_ci(self) -> (r: bool)
        ensures
            r == self.needs_models(),
    {
        match self {
            Operation::EmbedBatch | Operation::Generate | Operation::ExpandQuery
            | Operation::Rerank => true,
            Operation::Embed | Operation::Tokenize | Operation::Detokenize => false,
        }
    }
}

/// Where the models are in their life.
pub struct LifeState {
    /// Whether they were shut down.
    pub disposed: bool,
    /// Whether no model may be loaded for most operations.
    pub ci_mode: bool,
    /// How many operations are under way.
    pub in_flight: int,
}

/// What happens in the life of the models.
pub enum LifeEvent {
    /// An operation is to begin.
    Begin(Operation),
    /// An operation that has begun is to go on.
    Confirm,
    /// An operation is over.
    End,
    /// The models are shut down.
    Dispose,
}

/// Whether an operation begins, or why not.
pub open spec fn admission(s: LifeState, op: Operation) -> Result<(), Error> {
    if s.disposed {
        Err(Error::Disposed)
    } else if op.needs_models() && s.ci_mode {
        Err(Error::CiDisabled)
    } else {
        Ok(())
    }
}

/// Where the models are after an event.
pub open spec fn after(s: LifeState, e: LifeEvent) -> LifeState {
    match e {
        LifeEvent::Begin(op) => if admission(s, op) is Ok {
            LifeState { in_flight: s.in_flight + 1, ..s }
        } else {
            s
        },
        LifeEvent::Confirm => if s.disposed {
            LifeState { in_flight: s.in_flight - 1, ..s }
        } else {
            s
        },
        LifeEvent::End => LifeState { in_flight: s.in_flight - 1, ..s },
        LifeEvent::Dispose => LifeState { disposed: true, ..s },
    }
}

/// Where the models are after events.
pub open spec fn after_all(s: LifeState, events: Seq<LifeEvent>) -> LifeState
    decreases events.len(),
{
    if events.len() == 0 {
        s
    } else {
        after(after_all(s, events.drop_last()), events.last())
    }
}

/// How far a shutdown is with the operations that are under way.
#[derive(Clone, Copy, Debug, PartialEq, Eq, Structural)]
pub enum DrainStep {
    /// None is under way any more.
    Drained,
    /// Wait a little.
    Wait,
    /// So many are still under way; go on without them.
    GiveUp(usize),
}

/// The loaded models, whether they were shut down, and how many operations are under way.
#[derive(Debug)]
pub struct LlamaCpp {
    settings: LlamaSettings,
    disposed: bool,
    in_flight: usize,
}

impl LlamaCpp {
    /// How the models are set up.
    pub closed spec fn settings(&self) -> LlamaSettings {
        self.settings
    }

    /// Whether the models were shut down.
    pub closed spec fn disposed(&self) -> bool {
        self.disposed
    }

    /// How many operations are under way.
    pub closed spec fn in_flight(&self) -> usize {
        self.in_flight
    }

    /// Where the models are in their life.
    pub open spec fn life(&self) -> LifeState {
        LifeState {
            disposed: self.disposed(),
            ci_mode: self.settings().ci_mode,
            in_flight: self.in_flight() as int,
        }
    }

    /// Models that are set up as the configuration and the environment ask for, with no operation
    /// under way.
    pub fn new(config: LlamaCppConfig, env: &LlmEnv<'_>) -> (l: Self)
        ensures
            settled(config, *env, l.settings()),
            !l.disposed(),
            l.in_flight() == 0,
    {
        LlamaCpp { settings: settle(config, env), disposed: false, in_flight: 0 }
    }

    /// Models that are set up as the environment asks for; `ci` is the value of `CI`.
    pub fn with_env(ci: Option<&str>, env: &LlmEnv<'_>) -> (l: Self)
        ensures
            settled(env_config(chars::opt_text(ci)), *env, l.settings()),
            !l.disposed(),
            l.in_flight() == 0,
    {
        LlamaCpp::new(LlamaCppConfig::from_env(ci), env)
    }

    pub fn embed_model_uri(&self) -> (r: &str)
        ensures
            r@ == self.settings().models.embed@,
    {
        self.settings.models.embed.as_str()
    }

    pub fn generate_model_uri(&self) -> (r: &str)
        ensures
            r@ == self.settings().models.generate@,
    {
        self.settings.models.generate.as_str()
    }

    pub fn rerank_model_uri(&self) -> (r: &str)
        ensures
            r@ == self.settings().models.rerank@,
    {
        self.settings.models.rerank.as_str()
    }

    pub fn expand_context_size(&self) -> (n: usize)
        ensures
            n == self.settings().expand_context_size,
    {
        self.settings.expand_context_size
    }

    pub fn embed_context_size(&self) -> (n: usize)
        ensures
            n == self.settings().embed_context_size,
    {
        self.settings.embed_context_size
    }

    pub fn rerank_context_size(&self) -> (n: usize)
        ensures
            n == self.settings().rerank_context_size,
    {
        self.settings.rerank_context_size
    }

    pub fn embed_parallelism(&self) -> (n: usize)
        ensures
            n == self.settings().embed_parallelism,
    {
        self.settings.embed_parallelism
    }

    pub fn rerank_parallelism(&self) -> (n: usize)
        ensures
            n == self.settings().rerank_parallelism,
    {
        self.settings.rerank_parallelism
    }

    pub fn ci_mode(&self) -> (r: bool)
        ensures
            r == self.settings().ci_mode,
    {
        self.settings.ci_mode
    }

    pub fn is_disposed(&self) -> (r: bool)
        ensures
            r == self.disposed(),
    {
        self.disposed
    }

    pub fn in_flight_count(&self) -> (n: usize)
        ensures
            n == self.in_flight(),
    {
        self.in_flight
    }

    fn ensure_alive(&self) -> (r: Result<(), Error>)
        ensures
            r == (if self.disposed() {
                Err(Error::Disposed)
            } else {
                Ok::<(), Error>(())
            }),
    {
        if self.disposed {
            Err(Error::Disposed)
        } else {
            Ok(())
        }
    }

    fn ensure_not_ci(&self) -> (r: Result<(), Error>)
        ensures
            r == (if self.settings().ci_mode {
                Err(Error::CiDisabled)
            } else {
                Ok::<(), Error>(())
            }),
    {
        if self.settings.ci_mode {
            Err(Error::CiDisabled)
        } else {
            Ok(())
        }
    }

    /// Lets an operation begin and counts it, unless the models were shut down, or it is one that
    /// is refused because no model may be loaded.
    pub fn begin(&mut self, op: Operation) -> (r: Result<(), Error>)
        requires
            old(self).in_flight() < usize::MAX,
        ensures
            final(self).settings() == old(self).settings(),
            final(self).life() == after(old(self).life(), LifeEvent::Begin(op)),
            r == admission(old(self).life(), op),
    {
        match self.ensure_alive() {
            Err(e) => return Err(e),
            Ok(_) => {},
        }
        if op.refused_in_ci() {
            match self.ensure_not_ci() {
                Err(e) => return Err(e),
                Ok(_) => {},
            }
        }
        self.in_flight = self.in_flight + 1;
        Ok(())
    }

    /// Lets an operation that has begun go on, unless the models were shut down in the meantime:
    /// then it is over.
    pub fn confirm(&mut self) -> (r: Result<(), Error>)
        requires
            old(self).in_flight() > 0,
        ensures
            final(self).settings() == old(self).settings(),
            final(self).life() == after(old(self).life(), LifeEvent::Confirm),
            r == (if old(self).disposed() {
                Err(Error::Disposed)
            } else {
                Ok::<(), Error>(())
            }),
    {
        match self.ensure_alive() {
            Err(e) => {
                self.in_flight = self.in_flight - 1;
                Err(e)
            },
            Ok(_) => Ok(()),
        }
    }

    /// An operation is over.
    pub fn end(&mut self)
        requires
            old(self).in_flight() > 0,
        ensures
            final(self).settings() == old(self).settings(),
            final(self).life() == after(old(self).life(), LifeEvent::End),
    {
        self.in_flight = self.in_flight - 1;
    }

    /// Begins a shutdown; whether this is the first one, which does the work.
    pub fn dispose(&mut self) -> (first: bool)
        ensures
            first == !old(self).disposed(),
            final(self).settings() == old(self).settings(),
            final(self).life() == after(old(self).life(), LifeEvent::Dispose),
    {
        let first: bool = !self.disposed;
        self.disposed = true;
        first
    }

    /// Whether a shutdown that has waited for so many milliseconds waits on.
    pub fn drain_step(&self, elapsed_ms: u64) -> (r: DrainStep)
        ensures
            r == (if self.in_flight() == 0 {
                DrainStep::Drained
            } else if elapsed_ms > DRAIN_TIMEOUT_MS {
                DrainStep::GiveUp(self.in_flight())
            } else {
                DrainStep::Wait
            }),
            self.in_flight() > 0 && elapsed_ms <= 30_000 ==> r == DrainStep::Wait,
            self.in_flight() > 0 && elapsed_ms > 30_000 ==> r == DrainStep::GiveUp(
                self.in_flight(),
            ),
    {
        if self.in_flight == 0 {
            DrainStep::Drained
        } else if elapsed_ms > DRAIN_TIMEOUT_MS {
            DrainStep::GiveUp(self.in_flight)
        } else {
            DrainStep::Wait
        }
    }
}

/// What a shutdown does with a pool of workers.
#[derive(Clone, Copy, Debug, PartialEq, Eq, Structural)]
pub enum PoolTeardown {
    /// There is none.
    Nothing,
    /// Wait for each worker.
    Join,
    /// Something still holds it; it goes when that does.
    Leave,
}

/// What a shutdown does with a pool of workers.
pub fn pool_teardown(loaded: bool, sole_owner: bool) -> (r: PoolTeardown)
    ensures
        r == (if !loaded {
            PoolTeardown::Nothing
        } else if sole_owner {
            PoolTeardown::Join
        } else {
            PoolTeardown::Leave
        }),
{
    if !loaded {
        PoolTeardown::Nothing
    } else if sole_owner {
        PoolTeardown::Join
    } else {
        PoolTeardown::Leave
    }
}

/// A pool of workers.
#[derive(Clone, Copy, Debug, PartialEq, Eq, Structural)]
pub enum PoolKind {
    Embed,
    Rerank,
}

impl PoolKind {
    /// The name of the pool.
    pub open spec fn name(self) -> Seq<char> {
        match self {
            PoolKind::Embed => "embed"@,
            PoolKind::Rerank => "rerank"@,
        }
    }

    /// The name of the pool.
    pub fn as_str(self) -> (r: &'static str)
        ensures
            r@ == self.name(),
    {
        match self {
            PoolKind::Embed => "embed",
            PoolKind::Rerank => "rerank",
        }
    }
}

/// What a shutdown says while it waits: that it goes on without waiting any longer, where it does.
pub fn drain_warning(step: DrainStep) -> (r: Option<String>)
    ensures
        chars::opt_string(r) == (match step {
            DrainStep::GiveUp(n) => Some(
                "llm dispose: "@ + number::decimal(n as nat)
                    + " in-flight op(s) did not drain in 30s; proceeding"@,
            ),
            _ => None,
        }),
{
    match step {
        DrainStep::GiveUp(n) => {
            let mut s: String = "llm dispose: ".to_owned();
            s.append(decimal_of(n as u128).as_str());
            s.append(" in-flight op(s) did not drain in 30s; proceeding");
            Some(s)
        },
        _ => None,
    }
}

/// What a shutdown says of a pool: that something still holds it, where that is so.
pub fn pool_warning(kind: PoolKind, step: PoolTeardown) -> (r: Option<String>)
    ensures
        chars::opt_string(r) == (match step {
            PoolTeardown::Leave => Some(
                "llm dispose: "@ + kind.name()
                    + " pool still has Arc holders; workers will be cleaned up by Drop instead of explicit join"@,
            ),
            _ => None,
        }),
{
    match step {
        PoolTeardown::Leave => {
            let mut s: String = "llm dispose: ".to_owned();
            s.append(kind.as_str());
            s.append(
                " pool still has Arc holders; workers will be cleaned up by Drop instead of explicit join",
            );
            Some(s)
        },
        _ => None,
    }
}

/// What a shutdown says of a worker: that it did not end in time, where that is so.
pub fn worker_warning(kind: PoolKind, index: usize, joined: bool) -> (r: Option<String>)
    ensures
        chars::opt_string(r) == (if joined {
            None
        } else {
            Some(
                "llm dispose: "@ + kind.name() + " worker #"@ + number::decimal(index as nat)
                    + " did not join within 2s; leaking the thread"@,
            )
        }),
{
    if joined {
        None
    } else {
        let mut s: String = "llm dispose: ".to_owned();
        s.append(kind.as_str());
        s.append(" worker #");
        s.append(decimal_of(index as u128).as_str());
        s.append(" did not join within 2s; leaking the thread");
        Some(s)
    }
}

/// What is said of a chunk of inputs that failed.
pub fn chunk_warning(size: usize, reason: &str) -> (s: String)
    ensures
        s@ == "llm: chunk of "@ + number::decimal(size as nat)
            + " input(s) failed and will be reported as None slots: "@ + reason@,
{
    let mut s: String = "llm: chunk of ".to_owned();
    s.append(decimal_of(size as u128).as_str());
    s.append(" input(s) failed and will be reported as None slots: ");
    s.append(reason);
    s
}

/// What is next on the way to a model or a pool that is loaded when it is first needed.
#[derive(Clone, Copy, Debug, PartialEq, Eq, Structural)]
pub enum LoadStep {
    /// It is there.
    Ready,
    /// Wait for the lock, then look again.
    Lock,
    /// Load it.
    Load,
}

/// What is next on the way to a model or a pool: it is loaded only under the lock, and only where
/// it is not there, so that it is loaded once.
pub fn load_step(loaded: bool, lock_held: bool) -> (r: LoadStep)
    ensures
        r == (if loaded {
            LoadStep::Ready
        } else if lock_held {
            LoadStep::Load
        } else {
            LoadStep::Lock
        }),
{
    if loaded {
        LoadStep::Ready
    } else if lock_held {
        LoadStep::Load
    } else {
        LoadStep::Lock
    }
}

// Embedding.

/// The model that an answer names: the one that was asked for, else the configured one.
pub open spec fn named_model(asked: Option<String>, configured: Seq<char>) -> Seq<char> {
    match asked {
        Some(m) => m@,
        None => configured,
    }
}

/// The model that an answer names.
pub fn model_name(asked: &Option<String>, configured: &str) -> (s: String)
    ensures
        s@ == named_model(*asked, configured@),
{
    match asked {
        Some(m) => m.clone(),
        None => configured.to_owned(),
    }
}

/// How a text is put to the model.
pub open spec fn embedding_input(text: Seq<char>, opts: EmbedOptions, uri: Seq<char>) -> Seq<char> {
    if opts.is_query {
        crate::llm::format::query_input(text, crate::llm::format::is_qwen(uri))
    } else {
        crate::llm::format::doc_input(
            text,
            chars::opt_string(opts.title),
            crate::llm::format::is_qwen(uri),
        )
    }
}

/// How a text is put to the model.
pub fn format_for_embedding(text: &str, opts: &EmbedOptions, embed_model_uri: &str) -> (s: String)
    ensures
        s@ == embedding_input(text@, *opts, embed_model_uri@),
{
    if opts.is_query {
        format_query_for_embedding(text, embed_model_uri)
    } else {
        let title: Option<&str> = match &opts.title {
            Some(t) => Some(t.as_str()),
            None => None,
        };
        format_doc_for_embedding(text, title, embed_model_uri)
    }
}

/// How texts are put to the model.
pub open spec fn embedding_inputs(
    texts: Seq<Seq<char>>,
    opts: EmbedOptions,
    uri: Seq<char>,
) -> Seq<Seq<char>> {
    Seq::new(texts.len(), |i: int| embedding_input(texts[i], opts, uri))
}

/// How texts are put to the model, in order.
pub fn embed_batch_inputs(texts: &[String], opts: &EmbedOptions, embed_model_uri: &str) -> (out:
    Vec<String>)
    ensures
        chars::texts(out@) == embedding_inputs(chars::texts(texts@), *opts, embed_model_uri@),
{
    let mut out: Vec<String> = Vec::new();
    for i in 0..texts.len()
        invariant
            out@.len() == i,
            forall|k: int|
                0 <= k < i ==> (#[trigger] out@[k])@ == embedding_input(
                    texts@[k]@,
                    *opts,
                    embed_model_uri@,
                ),
    {
        out.push(format_for_embedding(texts[i].as_str(), opts, embed_model_uri));
    }
    assert(chars::texts(out@) =~= embedding_inputs(
        chars::texts(texts@),
        *opts,
        embed_model_uri@,
    ));
    out
}

/// The embedding of a single text, of the last slot of the answer.
pub fn embed_result<E>(raw: Vec<Option<E>>, model: String) -> (r: Option<EmbeddingResult<E>>)
    ensures
        match r {
            Some(e) => raw@.len() > 0 && raw@.last() == Some(e.embedding) && e.model == model,
            None => raw@.len() == 0 || raw@.last() is None,
        },
{
    let mut raw: Vec<Option<E>> = raw;
    match raw.pop() {
        Some(Some(embedding)) => Some(EmbeddingResult { embedding, model }),
        _ => None,
    }
}

/// The lengths of chunks.
pub fn chunk_sizes<T>(chunks: &Vec<Vec<T>>) -> (sizes: Vec<usize>)
    ensures
        sizes@ == Seq::new(chunks@.len(), |i: int| chunks@[i]@.len() as usize),
{
    let mut sizes: Vec<usize> = Vec::new();
    for i in 0..chunks.len()
        invariant
            sizes@ =~= Seq::new(i as nat, |k: int| chunks@[k]@.len() as usize),
    {
        sizes.push(chunks[i].len());
    }
    sizes
}

/// The slots of a chunk: as they came, or as many empty ones as it has inputs where it failed.
pub open spec fn slots<T>(answer: Result<Vec<Option<T>>, Error>, size: usize) -> Seq<Option<T>> {
    match answer {
        Ok(v) => v@,
        Err(_) => Seq::new(size as nat, |i: int| None::<T>),
    }
}

/// The slots of all chunks, in order.
pub open spec fn flattened<T>(
    raw: Seq<Result<Vec<Option<T>>, Error>>,
    sizes: Seq<usize>,
) -> Seq<Option<T>>
    decreases raw.len(),
{
    if raw.len() == 0 {
        Seq::empty()
    } else {
        flattened(raw.drop_last(), sizes) + slots(raw.last(), sizes[raw.len() - 1])
    }
}

/// The slots of all chunks, in order; a chunk that failed leaves as many empty slots as it has
/// inputs.
pub fn flatten_with_chunk_fallback<T>(
    raw: Vec<Result<Vec<Option<T>>, Error>>,
    sizes: &[usize],
) -> (out: Vec<Option<T>>)
    requires
        raw@.len() == sizes@.len(),
    ensures
        out@ == flattened(raw@, sizes@),
{
    let ghost all = raw@;
    let mut out: Vec<Option<T>> = Vec::new();
    let n: usize = sizes.len();
    let mut i: usize = 0;
    assert(all.take(0) =~= Seq::empty());
    for answer in it: raw
        invariant
            it.seq() == all,
            i == it.index(),
            all.len() == sizes@.len(),
            n == sizes@.len(),
            out@ =~= flattened(all.take(it.index()), sizes@),
    {
        let ghost before = out@;
        assert(all.take(it.index() + 1).drop_last() =~= all.take(it.index()));
        match answer {
            Ok(v) => {
                let mut v: Vec<Option<T>> = v;
                out.append(&mut v);
            },
            Err(_) => {
                let size: usize = sizes[i];
                for k in 0..size
                    invariant
                        out@ =~= before + Seq::new(k as nat, |j: int| None::<T>),
                {
                    out.push(None);
                }
            },
        }
        assert(out@ =~= before + slots(answer, sizes@[i as int]));
        i = i + 1;
    }
    assert(all.take(all.len() as int) =~= all);
    out
}

/// The slots with the name of the model.
pub open spec fn labelled<E>(slot: Option<E>, out: Option<EmbeddingResult<E>>, model: Seq<char>) -> bool {
    match slot {
        Some(e) => out is Some && out->0.embedding == e && out->0.model@ == model,
        None => out is None,
    }
}

/// The embeddings of a batch, one slot for each input, with the name of the model.
pub fn embed_results_to_output<E>(
    raw: Vec<Result<Vec<Option<E>>, Error>>,
    sizes: &[usize],
    model_name: &str,
) -> (out: Vec<Option<EmbeddingResult<E>>>)
    requires
        raw@.len() == sizes@.len(),
    ensures
        out@.len() == flattened(raw@, sizes@).len(),
        forall|i: int|
            0 <= i < out@.len() ==> labelled(
                flattened(raw@, sizes@)[i],
                #[trigger] out@[i],
                model_name@,
            ),
{
    let flat: Vec<Option<E>> = flatten_with_chunk_fallback(raw, sizes);
    let ghost all = flat@;
    let mut out: Vec<Option<EmbeddingResult<E>>> = Vec::new();
    for slot in it: flat
        invariant
            it.seq() == all,
            out@.len() == it.index(),
            forall|i: int|
                0 <= i < out@.len() ==> labelled(all[i], #[trigger] out@[i], model_name@),
    {
        match slot {
            Some(embedding) => out.push(
                Some(EmbeddingResult { embedding, model: model_name.to_owned() }),
            ),
            None => out.push(None),
        }
    }
    out
}

// Generating.

/// How many tokens are generated at most, and at which temperature.
pub fn generate_limits(opts: &GenerateOptions) -> (r: (i32, u32))
    ensures
        r.0 == (match opts.max_tokens {
            Some(n) => n as i32,
            None => DEFAULT_MAX_TOKENS as i32,
        }),
        r.1 == (match opts.temperature_bits {
            Some(t) => t,
            None => DEFAULT_TEMPERATURE_BITS,
        }),
        opts.max_tokens is None ==> r.0 == 150,
        opts.temperature_bits is None ==> r.1 == 0x3f33_3333,
{
    let max_tokens: usize = match opts.max_tokens {
        Some(n) => n,
        None => DEFAULT_MAX_TOKENS,
    };
    let temperature_bits: u32 = match opts.temperature_bits {
        Some(t) => t,
        None => DEFAULT_TEMPERATURE_BITS,
    };
    (
        #[verifier::truncate]
        (max_tokens as i32),
        temperature_bits,
    )
}

/// A generated text; the model is the configured one.
pub fn generate_result(text: String, model: &str) -> (r: GenerateResult)
    ensures
        r.text == text,
        r.model@ == model@,
        r.done,
{
    GenerateResult { text, model: model.to_owned(), done: true }
}

/// A message of a conversation.
#[derive(Clone, Debug)]
pub struct ChatMessage {
    pub role: String,
    pub text: String,
}

impl View for ChatMessage {
    type V = (Seq<char>, Seq<char>);

    open spec fn view(&self) -> (Seq<char>, Seq<char>) {
        (self.role@, self.text@)
    }
}

/// What messages hold.
pub open spec fn message_views(v: Seq<ChatMessage>) -> Seq<(Seq<char>, Seq<char>)> {
    Seq::new(v.len(), |i: int| v[i]@)
}

/// A conversation: what the system says, where it says something, and what the user asks.
pub open spec fn conversation(system: Option<Seq<char>>, user: Seq<char>) -> Seq<
    (Seq<char>, Seq<char>),
> {
    match system {
        Some(s) => seq![("system"@, s), ("user"@, user)],
        None => seq![("user"@, user)],
    }
}

/// The conversation that asks a model something.
pub fn chat_messages(system: Option<&str>, user: &str) -> (v: Vec<ChatMessage>)
    ensures
        message_views(v@) == conversation(chars::opt_text(system), user@),
{
    let mut v: Vec<ChatMessage> = Vec::new();
    match system {
        Some(s) => v.push(ChatMessage { role: "system".to_owned(), text: s.to_owned() }),
        None => {},
    }
    v.push(ChatMessage { role: "user".to_owned(), text: user.to_owned() });
    assert(message_views(v@) =~= conversation(chars::opt_text(system), user@));
    v
}

/// The conversation that asks for the expansion of a query.
pub fn expand_query_messages(
    query: &str,
    opts: &ExpandQueryOptions,
    prefix: &str,
    system: Option<&str>,
) -> (v: Vec<ChatMessage>)
    ensures
        message_views(v@) == conversation(
            chars::opt_text(system),
            prompt::expand_message(query@, chars::opt_string(opts.intent), prefix@),
        ),
{
    let intent: Option<&str> = match &opts.intent {
        Some(i) => Some(i.as_str()),
        None => None,
    };
    let user: String = build_expand_query_user_message(query, intent, prefix);
    chat_messages(system, user.as_str())
}

/// The queries that an expansion gives, as a model wrote it; lexical ones are among them unless
/// they are declined.
pub fn expand_query_result(
    query: &str,
    opts: &ExpandQueryOptions,
    raw: &str,
    hyde_template: &str,
) -> (out: Vec<Queryable>)
    ensures
        types::queryable_views(out@) == prompt::expansion(
            query@,
            raw@,
            opts.include_lexical != Some(false),
            hyde_template@,
        ),
{
    let include_lexical: bool = match opts.include_lexical {
        Some(wanted) => wanted,
        None => true,
    };
    finish_expansion(query, raw, include_lexical, hyde_template)
}

/// Whether a model is there: one with an `hf:` address always counts as there; another one is a
/// file, and `path_exists` says whether that is there.
pub fn model_exists(model_uri: &str, path_exists: bool) -> (r: ModelInfo)
    ensures
        r.name@ == model_uri@,
        r.exists == (search::begins_with(model_uri@, "hf:"@) || path_exists),
        chars::opt_string(r.path) == (if !search::begins_with(model_uri@, "hf:"@) && path_exists {
            Some(model_uri@)
        } else {
            None
        }),
{
    if starts_with(model_uri, "hf:") {
        return ModelInfo { name: model_uri.to_owned(), exists: true, path: None };
    }
    let path: Option<String> = if path_exists {
        Some(model_uri.to_owned())
    } else {
        None
    };
    ModelInfo { name: model_uri.to_owned(), exists: path_exists, path }
}

/// What came of the last token that a model was asked for.
#[derive(Clone, Debug)]
pub enum Sampled {
    /// The text is at its end.
    EndOfGeneration,
    /// A token with its text, or without one where the token has none that can be read.
    Token(Option<String>),
}

/// The text of a token.
pub open spec fn piece_text(piece: Option<String>) -> Seq<char> {
    match piece {
        Some(p) => p@,
        None => "\u{FFFD}"@,
    }
}

/// A text that is generated token by token.
#[derive(Debug)]
pub struct ChatDecode {
    prompt_tokens: i32,
    max_new_tokens: i32,
    produced: i32,
    ended: bool,
    output: String,
}

impl ChatDecode {
    /// How many tokens the prompt has.
    pub closed spec fn prompt_tokens(&self) -> i32 {
        self.prompt_tokens
    }

    /// How many tokens may follow.
    pub closed spec fn max_new_tokens(&self) -> i32 {
        self.max_new_tokens
    }

    /// How many tokens followed.
    pub closed spec fn produced(&self) -> i32 {
        self.produced
    }

    /// Whether the model ended the text.
    pub closed spec fn ended(&self) -> bool {
        self.ended
    }

    /// The text so far.
    pub closed spec fn output(&self) -> Seq<char> {
        self.output@
    }

    /// No more tokens follow than may.
    pub open spec fn wf(&self) -> bool {
        &&& self.prompt_tokens() > 0
        &&& 0 <= self.produced()
        &&& self.produced() <= self.max_new_tokens() || self.produced() == 0
        &&& self.max_new_tokens() > 0 ==> self.prompt_tokens() + self.max_new_tokens() <= i32::MAX
    }

    /// Whether another token is asked for.
    pub open spec fn goes_on(&self) -> bool {
        !self.ended() && self.produced() < self.max_new_tokens()
    }

    /// Begins a text behind a prompt of so many tokens, which has to have one. The positions of
    /// all tokens fit in thirty-two bits.
    pub fn start(prompt_tokens: usize, max_new_tokens: i32) -> (r: Result<Self, Error>)
        requires
            prompt_tokens <= i32::MAX,
            max_new_tokens > 0 ==> prompt_tokens + max_new_tokens <= i32::MAX,
        ensures
            match r {
                Ok(d) => prompt_tokens > 0 && d.wf() && d.prompt_tokens() == prompt_tokens
                    && d.max_new_tokens() == max_new_tokens && d.produced() == 0 && !d.ended()
                    && d.output() == ""@,
                Err(e) => prompt_tokens == 0 && e is Tokenize && e->Tokenize_0@
                    == "empty prompt tokenization"@,
            },
    {
        if prompt_tokens == 0 {
            return Err(Error::Tokenize("empty prompt tokenization".to_owned()));
        }
        Ok(
            ChatDecode {
                prompt_tokens: prompt_tokens as i32,
                max_new_tokens,
                produced: 0,
                ended: false,
                output: "".to_owned(),
            },
        )
    }

    /// The place in the last batch of the token that the next one is sampled behind, or none
    /// where the text is at its end.
    pub fn next_index(&self) -> (r: Option<i32>)
        requires
            self.wf(),
        ensures
            r == (if !self.goes_on() {
                None
            } else if self.produced() == 0 {
                Some((self.prompt_tokens() - 1) as i32)
            } else {
                Some(0i32)
            }),
    {
        if self.ended || self.produced >= self.max_new_tokens {
            None
        } else if self.produced == 0 {
            Some(self.prompt_tokens - 1)
        } else {
            Some(0)
        }
    }

    /// Takes the next token; the position at which it goes to the model, or none where the text
    /// is at its end.
    pub fn accept(&mut self, sampled: Sampled) -> (r: Option<i32>)
        requires
            old(self).wf(),
            old(self).goes_on(),
        ensures
            final(self).wf(),
            final(self).prompt_tokens() == old(self).prompt_tokens(),
            final(self).max_new_tokens() == old(self).max_new_tokens(),
            match sampled {
                Sampled::EndOfGeneration => r is None && final(self).ended()
                    && final(self).produced() == old(self).produced() && final(self).output()
                    == old(self).output(),
                Sampled::Token(piece) => r == Some(
                    (old(self).prompt_tokens() + old(self).produced()) as i32,
                ) && !final(self).ended() && final(self).produced() == old(self).produced() + 1
                    && final(self).output() == old(self).output() + piece_text(piece),
            },
    {
        match sampled {
            Sampled::EndOfGeneration => {
                self.ended = true;
                None
            },
            Sampled::Token(piece) => {
                match piece {
                    Some(p) => self.output.append(p.as_str()),
                    None => self.output.append("\u{FFFD}"),
                }
                let position: i32 = self.prompt_tokens + self.produced;
                self.produced = self.produced + 1;
                Some(position)
            },
        }
    }

    /// The text.
    pub fn finish(self) -> (s: String)
        ensures
            s@ == self.output(),
    {
        self.output
    }
}

// Reranking.

/// The prompts for documents.
pub open spec fn rerank_inputs(query: Seq<char>, docs: Seq<RerankDocument>) -> Seq<Seq<char>> {
    Seq::new(docs.len(), |i: int| prompt::rerank_prompt(query, docs[i].text@))
}

/// The prompts for documents, in order.
pub fn rerank_prompts(query: &str, docs: &[RerankDocument]) -> (out: Vec<String>)
    ensures
        chars::texts(out@) == rerank_inputs(query@, docs@),
{
    let mut out: Vec<String> = Vec::new();
    for i in 0..docs.len()
        invariant
            out@.len() == i,
            forall|k: int|
                0 <= k < i ==> (#[trigger] out@[k])@ == prompt::rerank_prompt(
                    query@,
                    docs@[k].text@,
                ),
    {
        out.push(build_qwen3_rerank_prompt(query, docs[i].text.as_str()));
    }
    assert(chars::texts(out@) =~= rerank_inputs(query@, docs@));
    out
}

/// The positions below `n` that have a score, in order.
pub open spec fn scored(scores: Seq<Option<u32>>, n: nat) -> Seq<usize>
    decreases n,
{
    if n == 0 {
        Seq::empty()
    } else {
        let before = scored(scores, (n - 1) as nat);
        if scores[n - 1] is Some {
            before.push((n - 1) as usize)
        } else {
            before
        }
    }
}

/// The scores of the positions, as integers that are ordered as they are.
pub open spec fn score_keys(scores: Seq<Option<u32>>, at: Seq<usize>) -> Seq<i64> {
    Seq::new(at.len(), |k: int| float_order::key32(scores[at[k] as int]->0) as i64)
}

/// The positions that have a score, the greatest first.
pub open spec fn ranked(scores: Seq<Option<u32>>, n: nat) -> Seq<usize> {
    let at = scored(scores, n);
    let order = ranking::descending(score_keys(scores, at), at.len());
    Seq::new(order.len(), |k: int| at[order[k] as int])
}

/// The scored documents, those with the greatest scores first; of equal ones the earlier first.
/// Documents without a score are left out. A score that is no number goes by its bits.
pub fn rerank_results(docs: &[RerankDocument], scores: &[Option<u32>], model: String) -> (r:
    RerankResult)
    requires
        docs@.len() == scores@.len(),
    ensures
        r.model == model,
        r.results@.len() == ranked(scores@, docs@.len()).len(),
        forall|k: int|
            0 <= k < r.results@.len() ==> {
                let i = ranked(scores@, docs@.len())[k] as int;
                &&& (#[trigger] r.results@[k]).file@ == docs@[i].file@
                &&& Some(r.results@[k].score_bits) == scores@[i]
                &&& r.results@[k].index == i
            },
        forall|i: int|
            0 <= i < scores@.len() && (#[trigger] scores@[i]) is Some ==> exists|k: int|
                0 <= k < r.results@.len() && (#[trigger] r.results@[k]).index == i,
        forall|j: int, k: int|
            0 <= j < k < r.results@.len() ==> (#[trigger] r.results@[j]).index != (
            #[trigger] r.results@[k]).index,
        forall|j: int, k: int|
            0 <= j < k < r.results@.len() ==> float_order::key32(
                (#[trigger] r.results@[j]).score_bits,
            ) >= float_order::key32((#[trigger] r.results@[k]).score_bits),
{
    let mut at: Vec<usize> = Vec::new();
    let mut keys: Vec<i64> = Vec::new();
    for i in 0..scores.len()
        invariant
            at@ == scored(scores@, i as nat),
            forall|k: int|
                0 <= k < at@.len() ==> (#[trigger] at@[k]) < i && scores@[at@[k] as int] is Some,
            keys@ =~= score_keys(scores@, at@),
    {
        match scores[i] {
            Some(bits) => {
                at.push(i);
                keys.push(key32_of(bits));
            },
            None => {},
        }
    }
    let order: Vec<usize> = rank_descending(keys.as_slice());
    let ghost expected = ranked(scores@, docs@.len());
    let mut results: Vec<RerankDocumentResult> = Vec::new();
    for k in 0..order.len()
        invariant
            docs@.len() == scores@.len(),
            at@.len() == keys@.len(),
            expected.len() == order@.len(),
            forall|j: int| 0 <= j < order@.len() ==> (#[trigger] order@[j]) < keys@.len(),
            forall|j: int|
                0 <= j < order@.len() ==> (#[trigger] expected[j]) == at@[order@[j] as int],
            forall|j: int|
                0 <= j < at@.len() ==> (#[trigger] at@[j]) < scores@.len()
                    && scores@[at@[j] as int] is Some,
            results@.len() == k,
            forall|j: int|
                0 <= j < k ==> {
                    let i = expected[j] as int;
                    &&& (#[trigger] results@[j]).file@ == docs@[i].file@
                    &&& Some(results@[j].score_bits) == scores@[i]
                    &&& results@[j].index == i
                },
    {
        let index: usize = at[order[k]];
        assert(expected[k as int] == index);
        match scores[index] {
            Some(score_bits) => results.push(
                RerankDocumentResult { file: docs[index].file.clone(), score_bits, index },
            ),
            None => {},
        }
    }
    proof {
        law_every_scored_document_is_ranked_once(scores@);
        law_reranking_sorts(scores@);
        assert forall|i: int| 0 <= i < scores@.len() && (#[trigger] scores@[i]) is Some implies exists|
            k: int,
        | 0 <= k < results@.len() && (#[trigger] results@[k]).index == i by {
            assert(expected.contains(i as usize));
            let k = choose|k: int| 0 <= k < expected.len() && expected[k] == i as usize;
            assert(results@[k].index == i);
        }
        assert forall|j: int, k: int| 0 <= j < k < results@.len() implies (
        #[trigger] results@[j]).index != (#[trigger] results@[k]).index && float_order::key32(
            results@[j].score_bits,
        ) >= float_order::key32(results@[k].score_bits) by {
            assert(expected[j] != expected[k]);
        }
    }
    RerankResult { results, model }
}

// Laws.

/// A shutdown is for good: whatever happens later, the models stay shut down, and no further
/// operation begins.
pub proof fn law_shutdown_is_final(s: LifeState, events: Seq<LifeEvent>, op: Operation)
    requires
        s.disposed,
    ensures
        after_all(s, events).disposed,
        after_all(s, events).in_flight <= s.in_flight,
        admission(after_all(s, events), op) == Err::<(), Error>(Error::Disposed),
    decreases events.len(),
{
    if events.len() > 0 {
        law_shutdown_is_final(s, events.drop_last(), op);
    }
}

/// An operation that is refused is not counted, and one that begins and ends leaves the count as
/// it was.
pub proof fn law_operations_are_counted(s: LifeState, op: Operation)
    ensures
        admission(s, op) is Err ==> after(s, LifeEvent::Begin(op)) == s,
        admission(s, op) is Ok ==> after(after(s, LifeEvent::Begin(op)), LifeEvent::End) == s,
{
}

/// An operation that begins just before a shutdown does not go on, and is not left counted.
pub proof fn law_shutdown_stops_what_has_just_begun(s: LifeState, op: Operation)
    requires
        admission(s, op) is Ok,
    ensures
        after_all(s, seq![LifeEvent::Begin(op), LifeEvent::Dispose, LifeEvent::Confirm]).in_flight
            == s.in_flight,
{
    let e = seq![LifeEvent::Begin(op), LifeEvent::Dispose, LifeEvent::Confirm];
    let e2 = seq![LifeEvent::Begin(op), LifeEvent::Dispose];
    let e1 = seq![LifeEvent::Begin(op)];
    assert(e.drop_last() =~= e2);
    assert(e2.drop_last() =~= e1);
    assert(e1.drop_last() =~= Seq::empty());
    assert(after_all(s, e1.drop_last()) == s);
    assert(after_all(s, e1) == after(s, LifeEvent::Begin(op)));
    assert(after_all(s, e2) == after(after_all(s, e1), LifeEvent::Dispose));
}

/// Whether an answer has one slot for each input of its chunk, and each is what `g` gives for
/// the input.
pub open spec fn answers<T, U>(
    answer: Result<Vec<Option<U>>, Error>,
    chunk: Seq<T>,
    g: spec_fn(T) -> Option<U>,
) -> bool {
    answer is Ok ==> answer->Ok_0@ == Seq::new(chunk.len(), |j: int| g(chunk[j]))
}

/// The slots of a batch line up with its inputs, whichever chunks failed: there is one for each
/// input, and it is what the model gave for that input, or empty.
pub proof fn law_answers_line_up<T, U>(
    chunks: Seq<Seq<T>>,
    raw: Seq<Result<Vec<Option<U>>, Error>>,
    sizes: Seq<usize>,
    g: spec_fn(T) -> Option<U>,
)
    requires
        raw.len() == chunks.len(),
        sizes.len() >= chunks.len(),
        forall|k: int| 0 <= k < chunks.len() ==> sizes[k] == (#[trigger] chunks[k]).len(),
        forall|k: int|
            0 <= k < chunks.len() ==> #[trigger] answers(raw[k], chunks[k], g),
    ensures
        flattened(raw, sizes).len() == worker::flat(chunks).len(),
        forall|i: int|
            0 <= i < flattened(raw, sizes).len() ==> (#[trigger] flattened(raw, sizes)[i]) is None
                || flattened(raw, sizes)[i] == g(worker::flat(chunks)[i]),
    decreases chunks.len(),
{
    if chunks.len() > 0 {
        let c = chunks.drop_last();
        let r = raw.drop_last();
        assert forall|k: int| 0 <= k < c.len() implies #[trigger] answers(r[k], c[k], g) by {
            assert(answers(raw[k], chunks[k], g));
        }
        law_answers_line_up(c, r, sizes, g);
        let n = chunks.len() - 1;
        assert(answers(raw[n], chunks[n], g));
        let last = slots(raw[n], sizes[n]);
        assert(last.len() == chunks[n].len());
        let f = flattened(raw, sizes);
        assert(f == flattened(r, sizes) + last);
        assert forall|i: int| 0 <= i < f.len() implies (#[trigger] f[i]) is None || f[i] == g(
            worker::flat(chunks)[i],
        ) by {
            let m = flattened(r, sizes).len();
            if i < m {
                assert(f[i] == flattened(r, sizes)[i]);
                assert(worker::flat(chunks)[i] == worker::flat(c)[i]);
            } else {
                assert(f[i] == last[i - m]);
                assert(worker::flat(chunks)[i] == chunks[n][i - m]);
            }
        }
    }
}

proof fn lemma_scored(scores: Seq<Option<u32>>, n: nat)
    requires
        n <= usize::MAX,
    ensures
        scored(scores, n).len() <= n,
        forall|k: int|
            0 <= k < scored(scores, n).len() ==> (#[trigger] scored(scores, n)[k]) < n
                && scores[scored(scores, n)[k] as int] is Some,
        forall|a: int, b: int|
            0 <= a < b < scored(scores, n).len() ==> (#[trigger] scored(scores, n)[a]) < (
            #[trigger] scored(scores, n)[b]),
        forall|i: int|
            0 <= i < n && (#[trigger] scores[i]) is Some ==> scored(scores, n).contains(i as usize),
    decreases n,
{
    if n > 0 {
        let before = scored(scores, (n - 1) as nat);
        let now = scored(scores, n);
        lemma_scored(scores, (n - 1) as nat);
        assert forall|i: int| 0 <= i < n && (#[trigger] scores[i]) is Some implies now.contains(
            i as usize,
        ) by {
            if i < n - 1 {
                assert(before.contains(i as usize));
                let k = choose|k: int| 0 <= k < before.len() && before[k] == i as usize;
                assert(now[k] == i as usize);
            } else {
                assert(now[before.len() as int] == i as usize);
            }
        }
    }
}

/// Reranking puts greater scores first and leaves documents with equal scores in the order in
/// which they came; documents without a score are left out.
pub proof fn law_reranking_sorts(scores: Seq<Option<u32>>)
    requires
        scores.len() <= usize::MAX,
    ensures
        forall|k: int|
            0 <= k < ranked(scores, scores.len()).len() ==> scores[(#[trigger] ranked(
                scores,
                scores.len(),
            )[k]) as int] is Some,
        forall|a: int, b: int|
            #![trigger ranked(scores, scores.len())[a], ranked(scores, scores.len())[b]]
            0 <= a < b < ranked(scores, scores.len()).len() ==> {
                let i = ranked(scores, scores.len())[a];
                let j = ranked(scores, scores.len())[b];
                float_order::key32(scores[i as int]->0) > float_order::key32(scores[j as int]->0)
                    || (float_order::key32(scores[i as int]->0) == float_order::key32(
                    scores[j as int]->0,
                ) && i < j)
            },
{
    let n = scores.len();
    let at = scored(scores, n);
    let keys = score_keys(scores, at);
    let order = ranking::descending(keys, at.len());
    lemma_scored(scores, n);
    ranking::law_descending_is_stable(keys, at.len());
    let r = ranked(scores, n);
    assert forall|k: int| 0 <= k < r.len() implies scores[(#[trigger] r[k]) as int] is Some by {
        assert(order[k] < at.len());
        assert(r[k] == at[order[k] as int]);
    }
    assert forall|a: int, b: int|
        #![trigger r[a], r[b]]
        0 <= a < b < r.len() implies {
        let i = r[a];
        let j = r[b];
        float_order::key32(scores[i as int]->0) > float_order::key32(scores[j as int]->0) || (
        float_order::key32(scores[i as int]->0) == float_order::key32(scores[j as int]->0) && i < j)
    } by {
        assert(order[a] < at.len());
        assert(order[b] < at.len());
        assert(r[a] == at[order[a] as int]);
        assert(r[b] == at[order[b] as int]);
        assert(keys[order[a] as int] == float_order::key32(scores[r[a] as int]->0) as i64);
        assert(keys[order[b] as int] == float_order::key32(scores[r[b] as int]->0) as i64);
    }
}

/// Which positions have a score.
pub open spec fn has_score(scores: Seq<Option<u32>>) -> Seq<bool> {
    Seq::new(scores.len(), |i: int| scores[i] is Some)
}

proof fn lemma_scored_picks(scores: Seq<Option<u32>>, n: nat) -> (at: Seq<int>)
    requires
        n <= scores.len() <= usize::MAX,
    ensures
        lists::picks(at, has_score(scores).take(n as int)),
        scored(scores, n).len() == at.len(),
    decreases n,
{
    let keep = has_score(scores).take(n as int);
    if n == 0 {
        Seq::empty()
    } else {
        let at = lemma_scored_picks(scores, (n - 1) as nat);
        assert(keep.drop_last() =~= has_score(scores).take(n - 1));
        lists::lemma_picks_step(at, keep);
        if keep.last() {
            at.push(keep.len() - 1)
        } else {
            at
        }
    }
}

/// Reranking loses no document that has a score, repeats none, and adds none: there are as many
/// results as there are scores.
pub proof fn law_every_scored_document_is_ranked_once(scores: Seq<Option<u32>>)
    requires
        scores.len() <= usize::MAX,
    ensures
        forall|i: int|
            0 <= i < scores.len() && (#[trigger] scores[i]) is Some ==> ranked(
                scores,
                scores.len(),
            ).contains(i as usize),
        ranked(scores, scores.len()).no_duplicates(),
        forall|k: int|
            0 <= k < ranked(scores, scores.len()).len() ==> (#[trigger] ranked(
                scores,
                scores.len(),
            )[k]) < scores.len(),
        exists|at: Seq<int>| #[trigger]
            lists::picks(at, has_score(scores)) && ranked(scores, scores.len()).len() == at.len(),
{
    let n = scores.len();
    let at = scored(scores, n);
    let keys = score_keys(scores, at);
    let order = ranking::descending(keys, at.len());
    let r = ranked(scores, n);
    lemma_scored(scores, n);
    ranking::law_descending_is_stable(keys, at.len());
    ranking::law_descending_holds_every_position(keys, at.len());
    let places = lemma_scored_picks(scores, n);
    assert(has_score(scores).take(n as int) =~= has_score(scores));
    assert(lists::picks(places, has_score(scores)));
    assert forall|i: int| 0 <= i < n && (#[trigger] scores[i]) is Some implies r.contains(
        i as usize,
    ) by {
        assert(at.contains(i as usize));
        let a = choose|a: int| 0 <= a < at.len() && at[a] == i as usize;
        assert(order.contains(a as usize));
        let k = choose|k: int| 0 <= k < order.len() && order[k] == a as usize;
        assert(r[k] == i as usize);
    }
    assert forall|k: int| 0 <= k < r.len() implies (#[trigger] r[k]) < n by {
        assert(order[k] < at.len());
        assert(at[order[k] as int] < n);
    }
    assert forall|a: int, b: int| 0 <= a < b < r.len() implies r[a] != r[b] by {
        assert(order[a] != order[b]);
        assert(order[a] < at.len() && order[b] < at.len());
        let (x, y) = (order[a] as int, order[b] as int);
        if x < y {
            assert(at[x] < at[y]);
        } else {
            assert(at[y] < at[x]);
        }
    }
}

/// What is configured counts; where nothing is, the defaults are two contexts for each pool, two
/// thousand and forty-eight tokens for embedding and expansion, and twice that for reranking. A
/// configured pool has at least one context, and a configured size of zero for the expansion is
/// the default.
pub proof fn law_settings_follow_the_configuration(
    c: LlamaCppConfig,
    env: LlmEnv<'_>,
    s: LlamaSettings,
)
    requires
        settled(c, env, s),
    ensures
        c.expand_context_size matches Some(n) ==> s.expand_context_size == (if n == 0 {
            2048
        } else {
            n
        }),
        c.embed_context_size matches Some(n) ==> s.embed_context_size == n,
        c.rerank_context_size matches Some(n) ==> s.rerank_context_size == n,
        c.embed_parallelism matches Some(n) ==> s.embed_parallelism == (if n == 0 {
            1
        } else {
            n
        }),
        c.rerank_parallelism matches Some(n) ==> s.rerank_parallelism == (if n == 0 {
            1
        } else {
            n
        }),
        c.expand_context_size is None && env.expand_context_size is None ==> s.expand_context_size
            == 2048,
        c.embed_context_size is None && env.embed_context_size is None ==> s.embed_context_size
            == 2048,
        c.rerank_context_size is None && env.rerank_context_size is None ==> s.rerank_context_size
            == 4096,
        c.embed_parallelism is None && env.embed_parallelism is None ==> s.embed_parallelism == (
        if env.serialize_windows_cuda {
            1
        } else {
            2usize
        }),
        c.rerank_parallelism is None && env.rerank_parallelism is None ==> s.rerank_parallelism == (
        if env.serialize_windows_cuda {
            1
        } else {
            2usize
        }),
        s.ci_mode == c.ci_mode,
        s.model_cache_dir == c.model_cache_dir,
{
}

/// A size or a number of contexts that the environment gives counts where none is configured, and
/// each setting has a variable of its own.
pub proof fn law_settings_follow_the_environment(
    c: LlamaCppConfig,
    env: LlmEnv<'_>,
    s: LlamaSettings,
    raw: &str,
    n: nat,
)
    requires
        settled(c, env, s),
        chars::trimmed(raw@) == number::decimal(n),
        0 < n <= usize::MAX,
    ensures
        c.expand_context_size is None && env.expand_context_size == Some(raw)
            ==> s.expand_context_size == n,
        c.embed_context_size is None && env.embed_context_size == Some(raw)
            ==> s.embed_context_size == n,
        c.rerank_context_size is None && env.rerank_context_size == Some(raw)
            ==> s.rerank_context_size == n,
        c.embed_parallelism is None && env.embed_parallelism == Some(raw) && n <= 8
            ==> s.embed_parallelism == n,
        c.rerank_parallelism is None && env.rerank_parallelism == Some(raw) && n <= 8
            ==> s.rerank_parallelism == n,
{
    number::law_numerals_read_back(n, usize::MAX as nat);
}

/// Each model is the configured one, else that of its own variable; an empty name counts as none.
pub proof fn law_each_model_has_its_own_setting(
    c: LlamaCppConfig,
    env: LlmEnv<'_>,
    s: LlamaSettings,
)
    requires
        settled(c, env, s),
    ensures
        (c.embed_model matches Some(m) && m@.len() > 0) ==> s.models.embed@ == c.embed_model->0@,
        (c.generate_model matches Some(m) && m@.len() > 0) ==> s.models.generate@
            == c.generate_model->0@,
        (c.rerank_model matches Some(m) && m@.len() > 0) ==> s.models.rerank@ == c.rerank_model->0@,
        c.embed_model is None && (env.models.embed matches Some(m) && m@.len() > 0)
            ==> s.models.embed@ == env.models.embed->0@,
        c.generate_model is None && (env.models.generate matches Some(m) && m@.len() > 0)
            ==> s.models.generate@ == env.models.generate->0@,
        c.rerank_model is None && (env.models.rerank matches Some(m) && m@.len() > 0)
            ==> s.models.rerank@ == env.models.rerank->0@,
{
}

/// In continuous integration, told by any value of its variable but an empty one, models are not
/// loaded.
pub proof fn law_continuous_integration_is_told_by_its_variable(ci: Seq<char>)
    ensures
        env_config(Some(ci)).ci_mode <==> ci.len() > 0,
        !env_config(None).ci_mode,
{
}

/// Which of the texts are there.
pub open spec fn are_given(v: Seq<Option<Seq<char>>>) -> Seq<bool> {
    Seq::new(v.len(), |i: int| v[i] is Some)
}

proof fn lemma_given_picks(v: Seq<Option<Seq<char>>>) -> (at: Seq<int>)
    ensures
        lists::picks(at, are_given(v)),
        given(v) == Seq::new(at.len(), |k: int| v[at[k]]->0),
    decreases v.len(),
{
    let keep = are_given(v);
    if v.len() == 0 {
        assert(given(v) =~= Seq::new(0, |k: int| v[k]->0));
        Seq::empty()
    } else {
        let b = v.drop_last();
        let at = lemma_given_picks(b);
        assert(keep.drop_last() =~= are_given(b));
        lists::lemma_picks_step(at, keep);
        assert forall|k: int| 0 <= k < at.len() implies #[trigger] b[at[k]] == v[at[k]] by {
            assert(0 <= at[k] < are_given(b).len());
        }
        let next = if keep.last() {
            at.push(v.len() - 1)
        } else {
            at
        };
        assert(given(v) =~= Seq::new(next.len(), |k: int| v[next[k]]->0));
        next
    }
}

/// Everything that is to be said against the settings is said, once and in order.
pub proof fn law_every_complaint_is_made(c: LlamaCppConfig, env: LlmEnv<'_>)
    ensures
        exists|at: Seq<int>| #[trigger]
            lists::picks(at, are_given(complaints(c, env))) && given(complaints(c, env))
                == Seq::new(at.len(), |k: int| complaints(c, env)[at[k]]->0),
        c.expand_context_size is None ==> (forall|s: Seq<char>|
            config::size_complaint(env_keys::EXPAND_CONTEXT_SIZE@, env.expand_context_size, 2048)
                == Some(s) ==> #[trigger] given(complaints(c, env)).contains(s)),
        c.embed_context_size is None ==> (forall|s: Seq<char>|
            config::size_complaint(env_keys::EMBED_CONTEXT_SIZE@, env.embed_context_size, 2048)
                == Some(s) ==> #[trigger] given(complaints(c, env)).contains(s)),
        c.rerank_context_size is None ==> (forall|s: Seq<char>|
            config::size_complaint(env_keys::RERANK_CONTEXT_SIZE@, env.rerank_context_size, 4096)
                == Some(s) ==> #[trigger] given(complaints(c, env)).contains(s)),
        c.embed_parallelism is None ==> (forall|s: Seq<char>|
            gpu::parallelism_complaint(env.embed_parallelism) == Some(s) ==> #[trigger] given(
                complaints(c, env),
            ).contains(s)),
        c.rerank_parallelism is None ==> (forall|s: Seq<char>|
            gpu::parallelism_complaint(env.rerank_parallelism) == Some(s) ==> #[trigger] given(
                complaints(c, env),
            ).contains(s)),
        c.expand_context_size is Some && c.embed_context_size is Some && c.rerank_context_size is Some
            && c.embed_parallelism is Some && c.rerank_parallelism is Some ==> given(
            complaints(c, env),
        ).len() == 0,
{
    let v = complaints(c, env);
    let at = lemma_given_picks(v);
    let keep = are_given(v);
    assert(lists::picks(at, keep));
    assert forall|i: int| 0 <= i < v.len() && v[i] is Some implies given(v).contains(v[i]->0) by {
        assert(keep[i]);
        assert(at.contains(i));
        let k = choose|k: int| 0 <= k < at.len() && at[k] == i;
        assert(given(v)[k] == v[i]->0);
    }
    assert(v.len() == 5);
    assert(v[0] is Some ==> given(v).contains(v[0]->0));
    assert(v[1] is Some ==> given(v).contains(v[1]->0));
    assert(v[2] is Some ==> given(v).contains(v[2]->0));
    assert(v[3] is Some ==> given(v).contains(v[3]->0));
    assert(v[4] is Some ==> given(v).contains(v[4]->0));
    if at.len() > 0 {
        assert(keep[at[0]]);
        let i = at[0];
        assert(i == 0 || i == 1 || i == 2 || i == 3 || i == 4);
    }
}

/// After a shutdown every operation is refused; where no model may be loaded batches, texts,
/// expansions and reranking are, and single embeddings and tokens are not; else none is.
pub proof fn law_which_operations_are_refused(s: LifeState, op: Operation)
    ensures
        s.disposed ==> admission(s, op) == Err::<(), Error>(Error::Disposed),
        !s.disposed && !s.ci_mode ==> admission(s, op) is Ok,
        !s.disposed && s.ci_mode && (op is EmbedBatch || op is Generate || op is ExpandQuery
            || op is Rerank) ==> admission(s, op) == Err::<(), Error>(Error::CiDisabled),
        !s.disposed && s.ci_mode && (op is Embed || op is Tokenize || op is Detokenize) ==> admission(
            s,
            op,
        ) is Ok,
{
}

/// A query is put to the model as a query, whatever title is given; a document with its title.
pub proof fn law_queries_and_documents_are_put_differently(
    text: Seq<char>,
    opts: EmbedOptions,
    other: EmbedOptions,
    uri: Seq<char>,
)
    ensures
        opts.is_query && other.is_query ==> embedding_input(text, opts, uri) == embedding_input(
            text,
            other,
            uri,
        ),
        search::ends_in(embedding_input(text, opts, uri), text),
        !opts.is_query && (opts.title matches Some(t) && t@.len() > 0) ==> search::holds_text(
            embedding_input(text, opts, uri),
            opts.title->0@,
        ),
        opts.is_query ==> embedding_input(text, opts, uri) == crate::llm::format::query_input(
            text,
            crate::llm::format::is_qwen(uri),
        ),
{
    let qwen = crate::llm::format::is_qwen(uri);
    match opts.title {
        Some(t) => crate::llm::format::law_inputs_end_with_the_text(text, text, t@, qwen),
        None => crate::llm::format::law_inputs_end_with_the_text(text, text, Seq::empty(), qwen),
    }
}

proof fn lemma_flattened_sizes<T>(
    raw: Seq<Result<Vec<Option<T>>, Error>>,
    sizes: Seq<usize>,
    other: Seq<usize>,
)
    requires
        raw.len() <= sizes.len(),
        raw.len() <= other.len(),
        forall|i: int| 0 <= i < raw.len() ==> #[trigger] sizes[i] == other[i],
    ensures
        flattened(raw, sizes) == flattened(raw, other),
    decreases raw.len(),
{
    if raw.len() > 0 {
        lemma_flattened_sizes(raw.drop_last(), sizes, other);
    }
}

/// What came for a chunk follows what came for those before it, slot by slot; a chunk that failed
/// leaves as many empty slots as it has inputs.
pub proof fn law_slots_follow_the_chunks<T>(
    raw: Seq<Result<Vec<Option<T>>, Error>>,
    sizes: Seq<usize>,
    answer: Result<Vec<Option<T>>, Error>,
    size: usize,
)
    requires
        raw.len() == sizes.len(),
    ensures
        ({
            let before = flattened(raw, sizes);
            let now = flattened(raw.push(answer), sizes.push(size));
            &&& answer matches Ok(v) ==> now == before + v@
            &&& answer is Err ==> now.len() == before.len() + size && now.take(before.len() as int)
                == before && forall|i: int|
                before.len() <= i < now.len() ==> (#[trigger] now[i]) is None
        }),
{
    let all = raw.push(answer);
    assert(all.drop_last() =~= raw);
    lemma_flattened_sizes(raw, sizes, sizes.push(size));
    let before = flattened(raw, sizes);
    let now = flattened(all, sizes.push(size));
    assert(now == before + slots(answer, size));
    assert(now.take(before.len() as int) =~= before);
}

/// A conversation ends with what the user asks, and begins with what the system says where it says
/// something.
pub proof fn law_conversations_end_with_the_user(system: Option<Seq<char>>, user: Seq<char>)
    ensures
        conversation(system, user).last() == ("user"@, user),
        system matches Some(s) ==> conversation(system, user).len() == 2 && conversation(
            system,
            user,
        )[0] == ("system"@, s),
        system is None ==> conversation(system, user).len() == 1,
{
}

/// There is a prompt for each document, in order, which asks about the query and that document.
pub proof fn law_each_document_has_its_prompt(query: Seq<char>, docs: Seq<RerankDocument>, i: int)
    requires
        0 <= i < docs.len(),
    ensures
        rerank_inputs(query, docs).len() == docs.len(),
        search::holds_text(
            rerank_inputs(query, docs)[i],
            "\n<Query>: "@ + query + "\n<Document>: "@ + docs[i].text@,
        ),
{
    prompt::law_reranker_is_asked_about_query_and_document(query, docs[i].text@);
}

} // verus!
