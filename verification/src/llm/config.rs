//! Which models are used, and with which settings.
use vstd::prelude::*;

use crate::env_keys;
use crate::llm::error::Error;
use crate::llm::types::ModelResolutionConfig;
use crate::text::{chars, number};
use crate::text::chars::trim;
use crate::text::number::{decimal_of, parse_signed, parse_unsigned};

verus! {

/// The default embedding model.
pub const DEFAULT_EMBED_MODEL: &'static str =
    "hf:ggml-org/embeddinggemma-300M-GGUF/embeddinggemma-300M-Q8_0.gguf";

/// The default reranker.
pub const DEFAULT_RERANK_MODEL: &'static str =
    "hf:ggml-org/Qwen3-Reranker-0.6B-Q8_0-GGUF/qwen3-reranker-0.6b-q8_0.gguf";

/// The default model for the expansion of queries.
pub const DEFAULT_GENERATE_MODEL: &'static str =
    "hf:tobil/qmd-query-expansion-1.7B-gguf/qmd-query-expansion-1.7B-q4_k_m.gguf";

/// Another model for the expansion of queries.
pub const LFM2_GENERATE_MODEL: &'static str = "hf:LiquidAI/LFM2-1.2B-GGUF/LFM2-1.2B-Q4_K_M.gguf";

/// Another model for the expansion of queries, tuned to instructions.
pub const LFM2_INSTRUCT_MODEL: &'static str =
    "hf:LiquidAI/LFM2.5-1.2B-Instruct-GGUF/LFM2.5-1.2B-Instruct-Q4_K_M.gguf";

pub const DEFAULT_EMBED_CONTEXT_SIZE: usize = 2048;

pub const DEFAULT_RERANK_CONTEXT_SIZE: usize = 4096;

pub const DEFAULT_EXPAND_CONTEXT_SIZE: usize = 2048;

/// After how many idle milliseconds contexts are unloaded: five minutes.
pub const DEFAULT_INACTIVITY_TIMEOUT_MS: u64 = 300_000;

/// What stands in front of a query that is to be expanded.
pub const DEFAULT_EXPAND_USER_MESSAGE_PREFIX: &'static str = "/no_think";

/// The hypothetical answer where an expansion gives nothing of use.
pub const DEFAULT_EXPAND_FALLBACK_HYDE_TEMPLATE: &'static str = "Information about {query}";

/// From how many tokens the next one is drawn when a query is expanded.
pub const DEFAULT_EXPAND_TOP_K: i32 = 20;

/// The first of the texts that is there and not empty.
pub open spec fn first_non_empty(
    config: Option<Seq<char>>,
    env: Option<Seq<char>>,
    default: Seq<char>,
) -> Seq<char> {
    match config {
        Some(v) if v.len() > 0 => v,
        _ => match env {
            Some(v) if v.len() > 0 => v,
            _ => default,
        },
    }
}

/// A setting: of the configuration, else of the environment, else the default. An empty text
/// counts as none.
pub fn resolve_with_env(config_value: Option<&str>, env_value: Option<&str>, default: &str) -> (s:
    String)
    ensures
        s@ == first_non_empty(chars::opt_text(config_value), chars::opt_text(env_value), default@),
{
    match config_value {
        Some(v) => if !v.is_empty() {
            return v.to_owned();
        },
        None => {},
    }
    match env_value {
        Some(v) => if !v.is_empty() {
            return v.to_owned();
        },
        None => {},
    }
    default.to_owned()
}

/// The first of the texts that is there, empty or not.
pub open spec fn first_given(
    config: Option<Seq<char>>,
    env: Option<Seq<char>>,
    default: Option<Seq<char>>,
) -> Option<Seq<char>> {
    if config is Some {
        config
    } else if env is Some {
        env
    } else {
        default
    }
}

/// A setting: of the configuration, else of the environment, else the default. An empty text
/// counts as one.
pub fn resolve_with_env_allow_empty(
    config_value: Option<&str>,
    env_value: Option<&str>,
    default: Option<&str>,
) -> (r: Option<String>)
    ensures
        chars::opt_string(r) == first_given(
            chars::opt_text(config_value),
            chars::opt_text(env_value),
            chars::opt_text(default),
        ),
{
    match config_value {
        Some(v) => Some(v.to_owned()),
        None => match env_value {
            Some(v) => Some(v.to_owned()),
            None => match default {
                Some(v) => Some(v.to_owned()),
                None => None,
            },
        },
    }
}

fn as_text(o: &Option<String>) -> (r: Option<&str>)
    ensures
        chars::opt_text(r) == chars::opt_string(*o),
{
    match o {
        Some(s) => Some(s.as_str()),
        None => None,
    }
}

/// The configured embedding model.
pub open spec fn config_embed(config: Option<&ModelResolutionConfig>) -> Option<Seq<char>> {
    match config {
        Some(c) => chars::opt_string(c.embed),
        None => None,
    }
}

/// The configured model for the expansion of queries.
pub open spec fn config_generate(config: Option<&ModelResolutionConfig>) -> Option<Seq<char>> {
    match config {
        Some(c) => chars::opt_string(c.generate),
        None => None,
    }
}

/// The configured reranker.
pub open spec fn config_rerank(config: Option<&ModelResolutionConfig>) -> Option<Seq<char>> {
    match config {
        Some(c) => chars::opt_string(c.rerank),
        None => None,
    }
}

/// The embedding model: of the configuration, else of `RQMD_EMBED_MODEL`, else the default.
pub fn resolve_embed_model(config: Option<&ModelResolutionConfig>, env: Option<&str>) -> (s: String)
    ensures
        s@ == first_non_empty(config_embed(config), chars::opt_text(env), DEFAULT_EMBED_MODEL@),
{
    let value: Option<&str> = match config {
        Some(c) => as_text(&c.embed),
        None => None,
    };
    resolve_with_env(value, env, DEFAULT_EMBED_MODEL)
}

/// The model for the expansion of queries: of the configuration, else of `RQMD_GENERATE_MODEL`,
/// else the default.
pub fn resolve_generate_model(config: Option<&ModelResolutionConfig>, env: Option<&str>) -> (s:
    String)
    ensures
        s@ == first_non_empty(
            config_generate(config),
            chars::opt_text(env),
            DEFAULT_GENERATE_MODEL@,
        ),
{
    let value: Option<&str> = match config {
        Some(c) => as_text(&c.generate),
        None => None,
    };
    resolve_with_env(value, env, DEFAULT_GENERATE_MODEL)
}

/// The reranker: of the configuration, else of `RQMD_RERANK_MODEL`, else the default.
pub fn resolve_rerank_model(config: Option<&ModelResolutionConfig>, env: Option<&str>) -> (s:
    String)
    ensures
        s@ == first_non_empty(config_rerank(config), chars::opt_text(env), DEFAULT_RERANK_MODEL@),
{
    let value: Option<&str> = match config {
        Some(c) => as_text(&c.rerank),
        None => None,
    };
    resolve_with_env(value, env, DEFAULT_RERANK_MODEL)
}

/// The models of the environment.
#[derive(Clone, Copy, Debug)]
pub struct ModelEnv<'a> {
    pub embed: Option<&'a str>,
    pub generate: Option<&'a str>,
    pub rerank: Option<&'a str>,
}

/// The models that are used.
#[derive(Clone, Debug, PartialEq, Eq)]
pub struct ResolvedModels {
    pub embed: String,
    pub generate: String,
    pub rerank: String,
}

/// The models that are used.
pub fn resolve_models(config: Option<&ModelResolutionConfig>, env: &ModelEnv<'_>) -> (r:
    ResolvedModels)
    ensures
        r.embed@ == first_non_empty(
            config_embed(config),
            chars::opt_text(env.embed),
            DEFAULT_EMBED_MODEL@,
        ),
        r.generate@ == first_non_empty(
            config_generate(config),
            chars::opt_text(env.generate),
            DEFAULT_GENERATE_MODEL@,
        ),
        r.rerank@ == first_non_empty(
            config_rerank(config),
            chars::opt_text(env.rerank),
            DEFAULT_RERANK_MODEL@,
        ),
{
    ResolvedModels {
        embed: resolve_embed_model(config, env.embed),
        generate: resolve_generate_model(config, env.generate),
        rerank: resolve_rerank_model(config, env.rerank),
    }
}

/// What stands in front of a query that is to be expanded: of the configuration, else of
/// `RQMD_EXPAND_USER_MESSAGE_PREFIX`, else the default. An empty text counts as one.
pub fn resolve_expand_user_message_prefix(config: Option<&str>, env: Option<&str>) -> (s: String)
    ensures
        first_given(
            chars::opt_text(config),
            chars::opt_text(env),
            Some(DEFAULT_EXPAND_USER_MESSAGE_PREFIX@),
        ) == Some(s@),
{
    match resolve_with_env_allow_empty(config, env, Some(DEFAULT_EXPAND_USER_MESSAGE_PREFIX)) {
        Some(s) => s,
        None => DEFAULT_EXPAND_USER_MESSAGE_PREFIX.to_owned(),
    }
}

/// The system message for the expansion of queries: of the configuration, else of
/// `RQMD_EXPAND_SYSTEM_MESSAGE`, else none. An empty text counts as one.
pub fn resolve_expand_system_message(config: Option<&str>, env: Option<&str>) -> (r: Option<String>)
    ensures
        chars::opt_string(r) == first_given(chars::opt_text(config), chars::opt_text(env), None),
{
    resolve_with_env_allow_empty(config, env, None)
}

/// The hypothetical answer where an expansion gives nothing of use: of the configuration, else
/// of `RQMD_EXPAND_FALLBACK_HYDE_TEMPLATE`, else the default.
pub fn resolve_expand_fallback_hyde_template(config: Option<&str>, env: Option<&str>) -> (s: String)
    ensures
        first_given(
            chars::opt_text(config),
            chars::opt_text(env),
            Some(DEFAULT_EXPAND_FALLBACK_HYDE_TEMPLATE@),
        ) == Some(s@),
{
    match resolve_with_env_allow_empty(config, env, Some(DEFAULT_EXPAND_FALLBACK_HYDE_TEMPLATE)) {
        Some(s) => s,
        None => DEFAULT_EXPAND_FALLBACK_HYDE_TEMPLATE.to_owned(),
    }
}

/// A number: of the configuration, else what the text of the environment reads as, else the
/// default. `parsed` is what the trimmed text reads as; none where there is no text, or it is
/// blank, or it is no number.
pub fn resolve_numeric_env<T>(config: Option<T>, parsed: Option<T>, default: T) -> (r: T)
    ensures
        r == match config {
            Some(v) => v,
            None => match parsed {
                Some(v) => v,
                None => default,
            },
        },
{
    match config {
        Some(v) => v,
        None => match parsed {
            Some(v) => v,
            None => default,
        },
    }
}

/// That a setting is invalid.
pub open spec fn invalid(var: Seq<char>, raw: Seq<char>, then: Seq<char>) -> Seq<char> {
    "invalid "@ + var + "=\""@ + raw + "\", using default"@ + then
}

fn invalid_text(var: &str, raw: &str, then: &str) -> (s: String)
    ensures
        s@ == invalid(var@, raw@, then@),
{
    let mut s: String = "invalid ".to_owned();
    s.append(var);
    s.append("=\"");
    s.append(raw);
    s.append("\", using default");
    s.append(then);
    s
}

/// What is to be said against the text of a number in the environment: that it is invalid, where
/// it counts, is not blank and does not read as a number.
pub open spec fn numeric_complaint(
    configured: bool,
    var: Seq<char>,
    env: Option<&str>,
    reads: bool,
) -> Option<Seq<char>> {
    match env {
        Some(raw) => if !configured && chars::trimmed(raw@).len() > 0 && !reads {
            Some(invalid(var, raw@, ""@))
        } else {
            None
        },
        None => None,
    }
}

/// What is to be said against the text of a number in the environment; `parsed` is what the
/// trimmed text reads as.
pub fn numeric_env_warning<T>(
    config: &Option<T>,
    var: &str,
    env: Option<&str>,
    parsed: &Option<T>,
) -> (r: Option<String>)
    ensures
        chars::opt_string(r) == numeric_complaint(config is Some, var@, env, parsed is Some),
{
    match env {
        Some(raw) => if config.is_none() && !trim(raw).as_str().is_empty() && parsed.is_none() {
            Some(invalid_text(var, raw, ""))
        } else {
            None
        },
        None => None,
    }
}

/// What the text of the environment reads as: the trimmed text as an integer.
pub open spec fn env_integer(env: Option<&str>, min: int, max: int) -> Option<int> {
    match env {
        Some(raw) => number::parsed_signed(chars::trimmed(raw@), min, max),
        None => None,
    }
}

/// From how many tokens the next one is drawn when a query is expanded: of the configuration,
/// else of `RQMD_EXPAND_TOP_K`, else the default.
pub fn resolve_expand_top_k(config: Option<i32>, env: Option<&str>) -> (n: i32)
    ensures
        n == match config {
            Some(v) => v as int,
            None => match env_integer(env, i32::MIN as int, i32::MAX as int) {
                Some(v) => v,
                None => DEFAULT_EXPAND_TOP_K as int,
            },
        },
{
    let parsed: Option<i32> = match env {
        Some(raw) => parse_signed(trim(raw).as_str()),
        None => None,
    };
    resolve_numeric_env(config, parsed, DEFAULT_EXPAND_TOP_K)
}

/// What is to be said against `RQMD_EXPAND_TOP_K`.
pub fn expand_top_k_warning(config: Option<i32>, env: Option<&str>) -> (r: Option<String>)
    ensures
        chars::opt_string(r) == numeric_complaint(
            config is Some,
            env_keys::EXPAND_TOP_K@,
            env,
            env_integer(env, i32::MIN as int, i32::MAX as int) is Some,
        ),
{
    let parsed: Option<i32> = match env {
        Some(raw) => parse_signed(trim(raw).as_str()),
        None => None,
    };
    numeric_env_warning(&config, env_keys::EXPAND_TOP_K, env, &parsed)
}

/// The size that the text of the environment reads as, where it is a positive number.
pub open spec fn env_size(env: Option<&str>, default: usize) -> nat {
    match env {
        Some(raw) => match number::parsed(chars::trimmed(raw@), usize::MAX as nat) {
            Some(n) if n > 0 => n,
            _ => default as nat,
        },
        None => default as nat,
    }
}

/// The size that the text of the environment reads as, where it is a positive number, else the
/// default.
pub fn resolve_context_size_env(env: Option<&str>, default: usize) -> (n: usize)
    ensures
        n == env_size(env, default),
{
    match env {
        Some(raw) => match parse_unsigned(trim(raw).as_str(), usize::MAX as u64) {
            Some(n) => if n > 0 {
                n as usize
            } else {
                default
            },
            None => default,
        },
        None => default,
    }
}

/// What is to be said against the text of a size in the environment: that it is invalid, where it
/// is neither blank nor a positive number.
pub open spec fn size_complaint(var: Seq<char>, env: Option<&str>, default: usize) -> Option<
    Seq<char>,
> {
    match env {
        Some(raw) => if chars::trimmed(raw@).len() == 0 || (number::parsed(
            chars::trimmed(raw@),
            usize::MAX as nat,
        ) matches Some(n) && n > 0) {
            None
        } else {
            Some(invalid(var, raw@, " "@ + number::decimal(default as nat)))
        },
        None => None,
    }
}

/// What is to be said against the text of a size in the environment.
pub fn context_size_warning(var: &str, env: Option<&str>, default: usize) -> (r: Option<String>)
    ensures
        chars::opt_string(r) == size_complaint(var@, env, default),
{
    match env {
        Some(raw) => {
            let t: String = trim(raw);
            let good: bool = match parse_unsigned(t.as_str(), usize::MAX as u64) {
                Some(n) => n > 0,
                None => false,
            };
            if t.as_str().is_empty() || good {
                None
            } else {
                let mut then: String = " ".to_owned();
                then.append(decimal_of(default as u128).as_str());
                Some(invalid_text(var, raw, then.as_str()))
            }
        },
        None => None,
    }
}

/// The context size of the embedding model: of `RQMD_EMBED_CONTEXT_SIZE`, else the default.
pub fn resolve_embed_context_size(env: Option<&str>) -> (n: usize)
    ensures
        n == env_size(env, DEFAULT_EMBED_CONTEXT_SIZE),
{
    resolve_context_size_env(env, DEFAULT_EMBED_CONTEXT_SIZE)
}

/// The context size of the reranker: of `RQMD_RERANK_CONTEXT_SIZE`, else the default.
pub fn resolve_rerank_context_size(env: Option<&str>) -> (n: usize)
    ensures
        n == env_size(env, DEFAULT_RERANK_CONTEXT_SIZE),
{
    resolve_context_size_env(env, DEFAULT_RERANK_CONTEXT_SIZE)
}

/// The context size for the expansion of queries: of the configuration, where zero is an error,
/// else of `RQMD_EXPAND_CONTEXT_SIZE`, else the default.
pub fn resolve_expand_context_size(config_value: Option<usize>, env: Option<&str>) -> (r: Result<
    usize,
    Error,
>)
    ensures
        match config_value {
            Some(v) if v == 0 => r is Err && r->Err_0 is InvalidEnvVar && r->Err_0->var@
                == "expandContextSize (config)"@ && r->Err_0->value@ == number::decimal(0)
                && r->Err_0->reason@ == "must be a positive integer"@,
            Some(v) => r == Ok::<usize, Error>(v),
            None => r is Ok && r->Ok_0 == env_size(env, DEFAULT_EXPAND_CONTEXT_SIZE),
        },
{
    match config_value {
        Some(v) => if v == 0 {
            Err(
                Error::InvalidEnvVar {
                    var: "expandContextSize (config)".to_owned(),
                    value: decimal_of(0),
                    reason: "must be a positive integer".to_owned(),
                },
            )
        } else {
            Ok(v)
        },
        None => Ok(resolve_context_size_env(env, DEFAULT_EXPAND_CONTEXT_SIZE)),
    }
}

// Laws.

/// A context size is never zero.
pub proof fn law_context_sizes_are_positive(env: Option<&str>, default: usize)
    requires
        default > 0,
    ensures
        env_size(env, default) > 0,
{
}

/// A size that is warned of gives way to the default.
pub proof fn law_warned_sizes_are_the_default(var: Seq<char>, env: Option<&str>, default: usize)
    requires
        size_complaint(var, env, default) is Some,
    ensures
        env_size(env, default) == default,
{
}

/// What is configured goes before the environment, and the environment before the default.
pub proof fn law_configuration_goes_first(
    config: Seq<char>,
    env: Option<Seq<char>>,
    default: Seq<char>,
)
    requires
        config.len() > 0,
    ensures
        first_non_empty(Some(config), env, default) == config,
        first_non_empty(None, Some(config), default) == config,
        first_non_empty(None, None, default) == default,
        first_given(Some(config), env, Some(default)) == Some(config),
        first_given(Some(""@), env, Some(default)) == Some(""@),
{
}

/// An empty text counts as none where settings may not be empty, and as a setting where they may.
pub proof fn law_empty_settings(
    config: Option<Seq<char>>,
    env: Option<Seq<char>>,
    default: Seq<char>,
    other: Option<Seq<char>>,
)
    ensures
        first_non_empty(Some(Seq::empty()), env, default) == first_non_empty(None, env, default),
        first_non_empty(config, Some(Seq::empty()), default) == first_non_empty(
            config,
            None,
            default,
        ),
        config is Some ==> first_given(config, env, other) == config,
        config is None && env is Some ==> first_given(config, env, other) == env,
        config is None && env is None ==> first_given(config, env, other) == other,
{
}

/// Each model has a setting of its own.
pub proof fn law_models_have_settings_of_their_own(config: &ModelResolutionConfig)
    ensures
        config_embed(Some(config)) == chars::opt_string(config.embed),
        config_generate(Some(config)) == chars::opt_string(config.generate),
        config_rerank(Some(config)) == chars::opt_string(config.rerank),
        config_embed(None) is None,
        config_generate(None) is None,
        config_rerank(None) is None,
{
}

/// A size of the environment that is written as a positive numeral, with white space before and
/// behind it, is that number, and nothing is said against it; without one, or for a zero, it is
/// the default, and a zero is complained of.
pub proof fn law_written_sizes_count(
    raw: &str,
    before: Seq<char>,
    n: nat,
    after: Seq<char>,
    default: usize,
    var: Seq<char>,
)
    requires
        raw@ == before + number::decimal(n) + after,
        n <= usize::MAX,
        forall|i: int| 0 <= i < before.len() ==> chars::is_white_space(#[trigger] before[i]),
        forall|i: int| 0 <= i < after.len() ==> chars::is_white_space(#[trigger] after[i]),
    ensures
        n > 0 ==> env_size(Some(raw), default) == n && size_complaint(var, Some(raw), default) is None,
        n == 0 ==> env_size(Some(raw), default) == default && size_complaint(
            var,
            Some(raw),
            default,
        ) is Some,
        env_size(None, default) == default,
        size_complaint(var, None, default) is None,
{
    lemma_numeral_trimmed(raw@, before, n, after);
    number::law_numerals_read_back(n, usize::MAX as nat);
    number::law_numeral_stands_for_its_number(n);
}

proof fn lemma_numeral_trimmed(raw: Seq<char>, before: Seq<char>, n: nat, after: Seq<char>)
    requires
        raw == before + number::decimal(n) + after,
        forall|i: int| 0 <= i < before.len() ==> chars::is_white_space(#[trigger] before[i]),
        forall|i: int| 0 <= i < after.len() ==> chars::is_white_space(#[trigger] after[i]),
    ensures
        chars::trimmed(raw) == number::decimal(n),
{
    let d = number::decimal(n);
    number::law_numeral_stands_for_its_number(n);
    assert(number::is_digit(d[0]));
    assert(number::is_digit(d[d.len() - 1]));
    chars::law_trimming_finds_the_text(before, d, after);
}

/// A size that does not read as a number is the default, and is complained of unless it is blank;
/// the complaint names the variable, the text and the default.
pub proof fn law_other_sizes_are_the_default(raw: &str, default: usize, var: Seq<char>)
    requires
        number::parsed(chars::trimmed(raw@), usize::MAX as nat) is None,
    ensures
        env_size(Some(raw), default) == default,
        chars::trimmed(raw@).len() == 0 <==> size_complaint(var, Some(raw), default) is None,
        size_complaint(var, Some(raw), default) matches Some(s) ==> s == "invalid "@ + var
            + "=\""@ + raw@ + "\", using default"@ + (" "@ + number::decimal(default as nat)),
{
}

/// Nothing is said against a number of the environment that does not count, is blank or reads as a
/// number; any other is complained of by its variable and its text.
pub proof fn law_numbers_that_do_not_read_are_complained_of(
    configured: bool,
    var: Seq<char>,
    raw: &str,
    reads: bool,
)
    ensures
        configured || reads || chars::trimmed(raw@).len() == 0 ==> numeric_complaint(
            configured,
            var,
            Some(raw),
            reads,
        ) is None,
        !configured && !reads && chars::trimmed(raw@).len() > 0 ==> numeric_complaint(
            configured,
            var,
            Some(raw),
            reads,
        ) == Some("invalid "@ + var + "=\""@ + raw@ + "\", using default"@ + ""@),
        numeric_complaint(configured, var, None, reads) is None,
{
}

/// An integer of the environment is what its numeral says, sign and all.
pub proof fn law_written_integers_count(raw: &str, n: int, min: int, max: int)
    requires
        chars::trimmed(raw@) == number::signed_decimal(n),
        min <= n <= max,
    ensures
        env_integer(Some(raw), min, max) == Some(n),
        env_integer(None, min, max) is None,
{
    number::law_signed_numerals_read_back(n, min, max);
}

} // verus!
