//! The health report: what the environment changes, which models are there, and whether the
//! stored embeddings still fit.
use vstd::prelude::*;

use crate::env_keys;
use crate::float_order;
use crate::float_order::{gt, INFINITY_BITS};
use crate::lists;
use crate::llm::config::ResolvedModels;
use crate::llm::format::embedding_fingerprint;
use crate::llm::gpu;
use crate::llm::gpu::{cpu_forced, normalize_setting};
use crate::llm::types::ModelResolutionConfig;
use crate::text::{chars, number, search};
use crate::text::chars::{same_text, str_or_empty, take_chars, trimmed_non_blank};
use crate::text::number::signed_decimal_of;

verus! {

/// The bits of 0.0001: up to this distance a vector counts as the stored one.
pub const VECTOR_MATCH_THRESHOLD_BITS: u64 = 0x3f1a_36e2_eb1c_432d;

/// For how many seconds the models may work on the report, where nothing is said.
pub const DEFAULT_DOCTOR_LLM_TIMEOUT_SECS: u64 = 600;

/// How many stored embeddings are checked at most.
pub const SAMPLE_LIMIT: usize = 3;

/// For how many seconds the models may work on the report.
pub fn doctor_timeout_secs(timeout: Option<u64>) -> (r: u64)
    ensures
        r == (match timeout {
            Some(s) => s,
            None => DEFAULT_DOCTOR_LLM_TIMEOUT_SECS,
        }),
        timeout is None ==> r == 10 * 60,
{
    match timeout {
        Some(s) => s,
        None => DEFAULT_DOCTOR_LLM_TIMEOUT_SECS,
    }
}

/// What is configured for the GPU: that the processor is forced, else what `RQMD_LLAMA_GPU` says,
/// else `auto`.
pub open spec fn mode_text(force_cpu: Option<Seq<char>>, llama_gpu: Option<Seq<char>>) -> Seq<char> {
    if gpu::forces_cpu(force_cpu) {
        "CPU forced (RQMD_FORCE_CPU)"@
    } else {
        match chars::non_blank(llama_gpu) {
            Some(t) => t,
            None => "auto"@,
        }
    }
}

/// What is configured for the GPU.
pub fn device_mode(force_cpu: Option<&str>, llama_gpu: Option<&str>) -> (s: String)
    ensures
        s@ == mode_text(chars::opt_text(force_cpu), chars::opt_text(llama_gpu)),
{
    if cpu_forced(force_cpu) {
        return "CPU forced (RQMD_FORCE_CPU)".to_owned();
    }
    match trimmed_non_blank(llama_gpu) {
        Some(t) => t,
        None => "auto".to_owned(),
    }
}

/// An environment variable and its value.
#[derive(Clone, Debug)]
pub struct EnvVar {
    pub name: String,
    pub value: String,
}

/// The value of a variable: that of the first entry with its name.
pub open spec fn value_of(env: Seq<EnvVar>, name: Seq<char>) -> Option<Seq<char>>
    decreases env.len(),
{
    if env.len() == 0 {
        None
    } else if env[0].name@ == name {
        Some(env[0].value@)
    } else {
        value_of(env.skip(1), name)
    }
}

/// The value of a variable.
pub fn lookup<'a>(env: &'a [EnvVar], name: &str) -> (r: Option<&'a str>)
    ensures
        chars::opt_text(r) == value_of(env@, name@),
{
    assert(env@.skip(0) =~= env@);
    for i in 0..env.len()
        invariant
            value_of(env@, name@) == value_of(env@.skip(i as int), name@),
    {
        assert(env@.skip(i as int).skip(1) =~= env@.skip(i + 1));
        if same_text(env[i].name.as_str(), name) {
            return Some(env[i].value.as_str());
        }
    }
    None
}

/// A value as it is shown: cut to ninety-six characters.
pub open spec fn shown_value(value: Seq<char>) -> Seq<char> {
    if value.len() > 96 {
        value.take(93) + "..."@
    } else {
        value
    }
}

/// A value as it is shown.
pub fn env_value_for_display(value: &str) -> (s: String)
    ensures
        s@ == shown_value(value@),
{
    if value.unicode_len() > 96 {
        let mut s: String = take_chars(value, 93);
        s.append("...");
        s
    } else {
        value.to_owned()
    }
}

/// A variable that is set, and what that means.
#[derive(Clone, Debug)]
pub struct EnvOverride {
    pub name: String,
    pub value: String,
    pub consequence: String,
}

impl View for EnvOverride {
    type V = (Seq<char>, Seq<char>, Seq<char>);

    open spec fn view(&self) -> (Seq<char>, Seq<char>, Seq<char>) {
        (self.name@, self.value@, self.consequence@)
    }
}

/// What overrides hold.
pub open spec fn override_views(v: Seq<EnvOverride>) -> Seq<(Seq<char>, Seq<char>, Seq<char>)> {
    Seq::new(v.len(), |i: int| v[i]@)
}

/// A variable that is looked at.
#[derive(Clone, Debug)]
pub enum EnvRow {
    /// One whose consequence is always the same.
    Plain { name: String, consequence: String },
    /// One that names a model, the model in use, and the configured one.
    Model { name: String, key: String, active: String, configured: Option<String> },
}

/// What an [`EnvRow`] holds.
pub enum RowModel {
    Plain { name: Seq<char>, consequence: Seq<char> },
    Model { name: Seq<char>, key: Seq<char>, active: Seq<char>, configured: Option<Seq<char>> },
}

impl View for EnvRow {
    type V = RowModel;

    open spec fn view(&self) -> RowModel {
        match *self {
            EnvRow::Plain { name, consequence } => RowModel::Plain {
                name: name@,
                consequence: consequence@,
            },
            EnvRow::Model { name, key, active, configured } => RowModel::Model {
                name: name@,
                key: key@,
                active: active@,
                configured: chars::opt_string(configured),
            },
        }
    }
}

/// What rows hold.
pub open spec fn row_views(v: Seq<EnvRow>) -> Seq<RowModel> {
    Seq::new(v.len(), |i: int| v[i]@)
}

/// What it means that a variable names a model: nothing where another one is configured.
pub open spec fn model_consequence(
    raw: Seq<char>,
    key: Seq<char>,
    active: Seq<char>,
    configured: Option<Seq<char>>,
) -> Seq<char> {
    match configured {
        Some(c) if c != raw => "set but ignored because index models."@ + key
            + " is configured as "@ + c,
        _ => "sets the active "@ + key + " model to "@ + active
            + "; changes embedding/search semantics and may require `rqmd pull` plus `rqmd embed`"@,
    }
}

/// What is reported of a row: nothing where the variable is not set or blank.
pub open spec fn reported(row: RowModel, env: Seq<EnvVar>) -> Option<
    (Seq<char>, Seq<char>, Seq<char>),
> {
    match row {
        RowModel::Plain { name, consequence } => match chars::non_blank(value_of(env, name)) {
            Some(raw) => Some((name, shown_value(raw), consequence)),
            None => None,
        },
        RowModel::Model { name, key, active, configured } => match chars::non_blank(
            value_of(env, name),
        ) {
            Some(raw) => Some(
                (name, shown_value(raw), model_consequence(raw, key, active, configured)),
            ),
            None => None,
        },
    }
}

/// What is reported of the rows, in order.
pub open spec fn all_reported(rows: Seq<RowModel>, env: Seq<EnvVar>) -> Seq<
    (Seq<char>, Seq<char>, Seq<char>),
>
    decreases rows.len(),
{
    if rows.len() == 0 {
        Seq::empty()
    } else {
        let before = all_reported(rows.drop_last(), env);
        match reported(rows.last(), env) {
            Some(o) => before.push(o),
            None => before,
        }
    }
}

/// What is reported of a row.
pub fn report_row(row: &EnvRow, env: &[EnvVar]) -> (r: Option<EnvOverride>)
    ensures
        match r {
            Some(o) => reported(row@, env@) == Some(o@),
            None => reported(row@, env@) is None,
        },
{
    match row {
        EnvRow::Plain { name, consequence } => match trimmed_non_blank(
            lookup(env, name.as_str()),
        ) {
            Some(raw) => Some(
                EnvOverride {
                    name: name.clone(),
                    value: env_value_for_display(raw.as_str()),
                    consequence: consequence.clone(),
                },
            ),
            None => None,
        },
        EnvRow::Model { name, key, active, configured } => match trimmed_non_blank(
            lookup(env, name.as_str()),
        ) {
            Some(raw) => {
                let other: bool = match configured {
                    Some(c) => !same_text(c.as_str(), raw.as_str()),
                    None => false,
                };
                let consequence: String = if other {
                    let mut t: String = "set but ignored because index models.".to_owned();
                    t.append(key.as_str());
                    t.append(" is configured as ");
                    t.append(str_or_empty(configured));
                    t
                } else {
                    let mut t: String = "sets the active ".to_owned();
                    t.append(key.as_str());
                    t.append(" model to ");
                    t.append(active.as_str());
                    t.append(
                        "; changes embedding/search semantics and may require `rqmd pull` plus `rqmd embed`",
                    );
                    t
                };
                Some(
                    EnvOverride {
                        name: name.clone(),
                        value: env_value_for_display(raw.as_str()),
                        consequence,
                    },
                )
            },
            None => None,
        },
    }
}

/// The row of a variable whose consequence is always the same.
pub open spec fn plain(name: Seq<char>, consequence: Seq<char>) -> RowModel {
    RowModel::Plain { name, consequence }
}

/// The variables that are looked at, in order.
pub open spec fn environment_rows(
    resolved: ResolvedModels,
    configured: Option<ModelResolutionConfig>,
) -> Seq<RowModel> {
    seq![
        plain(
            "RQMD_INDEX_PATH"@,
            "overrides the SQLite index path; rqmd reads/writes a different database"@,
        ),
        plain(
            "RQMD_CONFIG_DIR"@,
            "overrides the rqmd config directory and takes precedence over XDG_CONFIG_HOME"@,
        ),
        plain(
            "RQMD_CACHE_DIR"@,
            "overrides the rqmd cache directory (index cache and model cache)"@,
        ),
        plain(
            "XDG_CONFIG_HOME"@,
            "moves rqmd config to $XDG_CONFIG_HOME/rqmd when RQMD_CONFIG_DIR is not set"@,
        ),
        plain("XDG_CACHE_HOME"@, "moves the default index cache and model cache"@),
        RowModel::Model {
            name: env_keys::EMBED_MODEL@,
            key: "embed"@,
            active: resolved.embed@,
            configured: match configured {
                Some(c) => chars::opt_string(c.embed),
                None => None,
            },
        },
        RowModel::Model {
            name: env_keys::GENERATE_MODEL@,
            key: "generate"@,
            active: resolved.generate@,
            configured: match configured {
                Some(c) => chars::opt_string(c.generate),
                None => None,
            },
        },
        RowModel::Model {
            name: env_keys::RERANK_MODEL@,
            key: "rerank"@,
            active: resolved.rerank@,
            configured: match configured {
                Some(c) => chars::opt_string(c.rerank),
                None => None,
            },
        },
        plain(
            env_keys::FORCE_CPU@,
            "forces llama.cpp to bypass GPU backends; embeddings/query will be slower but GPU crashes are avoided"@,
        ),
        plain(
            env_keys::LLAMA_GPU@,
            "selects llama.cpp GPU backend (metal/cuda/vulkan) or disables GPU when set to false/off/0"@,
        ),
        plain(
            env_keys::DOCTOR_DEVICE_PROBE@,
            "controls rqmd doctor native device probing; 0/off skips GPU probing"@,
        ),
        plain(
            env_keys::EMBED_PARALLELISM@,
            "overrides embedding parallel context count; too high can exhaust RAM/VRAM"@,
        ),
        plain(
            env_keys::RERANK_PARALLELISM@,
            "overrides reranker parallel context count; too high can exhaust RAM/VRAM"@,
        ),
        plain(
            env_keys::EXPAND_CONTEXT_SIZE@,
            "overrides query expansion context size; larger values use more memory"@,
        ),
        plain(
            env_keys::RERANK_CONTEXT_SIZE@,
            "overrides reranker context size; larger values use more memory"@,
        ),
        plain(
            env_keys::EMBED_CONTEXT_SIZE@,
            "overrides embed context size; larger values use more memory"@,
        ),
        plain(
            env_keys::EXPAND_USER_MESSAGE_PREFIX@,
            "overrides the text put before the query in the expansion prompt"@,
        ),
        plain(
            env_keys::EXPAND_SYSTEM_MESSAGE@,
            "overrides the system message of the expansion prompt"@,
        ),
        plain(
            env_keys::EXPAND_FALLBACK_HYDE_TEMPLATE@,
            "overrides the template of the hypothetical document used when expansion fails"@,
        ),
        plain(
            env_keys::EXPAND_TEMP@,
            "overrides the sampling temperature of query expansion"@,
        ),
        plain(
            env_keys::EXPAND_TOP_K@,
            "overrides the top-k sampling of query expansion"@,
        ),
        plain(
            env_keys::EXPAND_TOP_P@,
            "overrides the top-p sampling of query expansion"@,
        ),
        plain(
            "RQMD_EDITOR_URI"@,
            "overrides clickable editor link template in terminal output"@,
        ),
        plain("RQMD_SKILLS_DIR"@, "overrides where rqmd skills are discovered from"@),
        plain("NO_COLOR"@, "disables colored terminal output"@),
        plain("CI"@, "disables real LLM operations inside rqmd's LlamaCpp wrapper"@),
        plain(
            "HF_ENDPOINT"@,
            "changes Hugging Face download endpoint used when pulling models"@,
        ),
        plain("WSL_DISTRO_NAME"@, "enables WSL path handling heuristics"@),
        plain("WSL_INTEROP"@, "enables WSL path handling heuristics"@),
    ]
}

fn plain_row(name: &str, consequence: &str) -> (r: EnvRow)
    ensures
        r@ == plain(name@, consequence@),
{
    EnvRow::Plain { name: name.to_owned(), consequence: consequence.to_owned() }
}

fn model_row(name: &str, key: &str, active: &str, configured: Option<&String>) -> (r: EnvRow)
    ensures
        r@ == (RowModel::Model {
            name: name@,
            key: key@,
            active: active@,
            configured: match configured {
                Some(s) => Some(s@),
                None => None,
            },
        }),
{
    EnvRow::Model {
        name: name.to_owned(),
        key: key.to_owned(),
        active: active.to_owned(),
        configured: match configured {
            Some(s) => Some(s.clone()),
            None => None,
        },
    }
}

/// The variables that are looked at.
pub fn environment_table(
    resolved: &ResolvedModels,
    configured: &Option<ModelResolutionConfig>,
) -> (rows: Vec<EnvRow>)
    ensures
        row_views(rows@) == environment_rows(*resolved, *configured),
{
    let (embed, generate, rerank): (Option<&String>, Option<&String>, Option<&String>) =
        match configured {
        Some(c) => (c.embed.as_ref(), c.generate.as_ref(), c.rerank.as_ref()),
        None => (None, None, None),
    };
    let mut rows: Vec<EnvRow> = Vec::new();
    rows.push(
        plain_row(
            "RQMD_INDEX_PATH",
            "overrides the SQLite index path; rqmd reads/writes a different database",
        ),
    );
    rows.push(
        plain_row(
            "RQMD_CONFIG_DIR",
            "overrides the rqmd config directory and takes precedence over XDG_CONFIG_HOME",
        ),
    );
    rows.push(
        plain_row(
            "RQMD_CACHE_DIR",
            "overrides the rqmd cache directory (index cache and model cache)",
        ),
    );
    rows.push(
        plain_row(
            "XDG_CONFIG_HOME",
            "moves rqmd config to $XDG_CONFIG_HOME/rqmd when RQMD_CONFIG_DIR is not set",
        ),
    );
    rows.push(plain_row("XDG_CACHE_HOME", "moves the default index cache and model cache"));
    rows.push(model_row(env_keys::EMBED_MODEL, "embed", resolved.embed.as_str(), embed));
    rows.push(
        model_row(env_keys::GENERATE_MODEL, "generate", resolved.generate.as_str(), generate),
    );
    rows.push(model_row(env_keys::RERANK_MODEL, "rerank", resolved.rerank.as_str(), rerank));
    rows.push(
        plain_row(
            env_keys::FORCE_CPU,
            "forces llama.cpp to bypass GPU backends; embeddings/query will be slower but GPU crashes are avoided",
        ),
    );
    rows.push(
        plain_row(
            env_keys::LLAMA_GPU,
            "selects llama.cpp GPU backend (metal/cuda/vulkan) or disables GPU when set to false/off/0",
        ),
    );
    rows.push(
        plain_row(
            env_keys::DOCTOR_DEVICE_PROBE,
            "controls rqmd doctor native device probing; 0/off skips GPU probing",
        ),
    );
    rows.push(
        plain_row(
            env_keys::EMBED_PARALLELISM,
            "overrides embedding parallel context count; too high can exhaust RAM/VRAM",
        ),
    );
    rows.push(
        plain_row(
            env_keys::RERANK_PARALLELISM,
            "overrides reranker parallel context count; too high can exhaust RAM/VRAM",
        ),
    );
    rows.push(
        plain_row(
            env_keys::EXPAND_CONTEXT_SIZE,
            "overrides query expansion context size; larger values use more memory",
        ),
    );
    rows.push(
        plain_row(
            env_keys::RERANK_CONTEXT_SIZE,
            "overrides reranker context size; larger values use more memory",
        ),
    );
    rows.push(
        plain_row(
            env_keys::EMBED_CONTEXT_SIZE,
            "overrides embed context size; larger values use more memory",
        ),
    );
    rows.push(
        plain_row(
            env_keys::EXPAND_USER_MESSAGE_PREFIX,
            "overrides the text put before the query in the expansion prompt",
        ),
    );
    rows.push(
        plain_row(
            env_keys::EXPAND_SYSTEM_MESSAGE,
            "overrides the system message of the expansion prompt",
        ),
    );
    rows.push(
        plain_row(
            env_keys::EXPAND_FALLBACK_HYDE_TEMPLATE,
            "overrides the template of the hypothetical document used when expansion fails",
        ),
    );
    rows.push(
        plain_row(
            env_keys::EXPAND_TEMP,
            "overrides the sampling temperature of query expansion",
        ),
    );
    rows.push(
        plain_row(
            env_keys::EXPAND_TOP_K,
            "overrides the top-k sampling of query expansion",
        ),
    );
    rows.push(
        plain_row(
            env_keys::EXPAND_TOP_P,
            "overrides the top-p sampling of query expansion",
        ),
    );
    rows.push(
        plain_row(
            "RQMD_EDITOR_URI",
            "overrides clickable editor link template in terminal output",
        ),
    );
    rows.push(plain_row("RQMD_SKILLS_DIR", "overrides where rqmd skills are discovered from"));
    rows.push(plain_row("NO_COLOR", "disables colored terminal output"));
    rows.push(plain_row("CI", "disables real LLM operations inside rqmd's LlamaCpp wrapper"));
    rows.push(
        plain_row("HF_ENDPOINT", "changes Hugging Face download endpoint used when pulling models"),
    );
    rows.push(plain_row("WSL_DISTRO_NAME", "enables WSL path handling heuristics"));
    rows.push(plain_row("WSL_INTEROP", "enables WSL path handling heuristics"));
    assert(row_views(rows@) =~= environment_rows(*resolved, *configured));
    rows
}

/// The variables that are set, and what that means.
pub fn collect_environment_overrides(
    resolved: &ResolvedModels,
    configured: &Option<ModelResolutionConfig>,
    env: &[EnvVar],
) -> (out: Vec<EnvOverride>)
    ensures
        override_views(out@) == all_reported(environment_rows(*resolved, *configured), env@),
{
    let rows: Vec<EnvRow> = environment_table(resolved, configured);
    let ghost all = environment_rows(*resolved, *configured);
    let mut out: Vec<EnvOverride> = Vec::new();
    assert(all.take(0) =~= Seq::empty());
    for i in 0..rows.len()
        invariant
            row_views(rows@) == all,
            override_views(out@) =~= all_reported(all.take(i as int), env@),
    {
        assert(all.take(i + 1).drop_last() =~= all.take(i as int));
        assert(all[i as int] == rows@[i as int]@);
        let ghost o0 = out@;
        match report_row(&rows[i], env) {
            Some(o) => {
                out.push(o);
                assert(override_views(out@) =~= override_views(o0).push(o@));
            },
            None => {},
        }
    }
    assert(all.take(all.len() as int) =~= all);
    out
}

/// A model, and what it is used for.
#[derive(Clone, Debug)]
pub struct ModelRole {
    pub model_uri: String,
    pub used_for_embed: bool,
    pub used_for_generate: bool,
    pub used_for_rerank: bool,
}

impl View for ModelRole {
    type V = (Seq<char>, bool, bool, bool);

    open spec fn view(&self) -> (Seq<char>, bool, bool, bool) {
        (self.model_uri@, self.used_for_embed, self.used_for_generate, self.used_for_rerank)
    }
}

/// What roles hold.
pub open spec fn role_views(v: Seq<ModelRole>) -> Seq<(Seq<char>, bool, bool, bool)> {
    Seq::new(v.len(), |i: int| v[i]@)
}

/// The models in use, each once, with all that it is used for.
pub open spec fn roles(resolved: ResolvedModels) -> Seq<(Seq<char>, bool, bool, bool)> {
    let uris = lists::distinct(seq![resolved.embed@, resolved.generate@, resolved.rerank@]);
    Seq::new(
        uris.len(),
        |i: int|
            (
                uris[i],
                uris[i] == resolved.embed@,
                uris[i] == resolved.generate@,
                uris[i] == resolved.rerank@,
            ),
    )
}

fn role_of(resolved: &ResolvedModels, uri: &str) -> (r: ModelRole)
    ensures
        r@ == (uri@, uri@ == resolved.embed@, uri@ == resolved.generate@, uri@ == resolved.rerank@),
{
    ModelRole {
        model_uri: uri.to_owned(),
        used_for_embed: same_text(uri, resolved.embed.as_str()),
        used_for_generate: same_text(uri, resolved.generate.as_str()),
        used_for_rerank: same_text(uri, resolved.rerank.as_str()),
    }
}

/// The models in use, each once, with all that it is used for.
pub fn model_roles(resolved: &ResolvedModels) -> (out: Vec<ModelRole>)
    ensures
        role_views(out@) == roles(*resolved),
{
    let ghost e = resolved.embed@;
    let ghost g = resolved.generate@;
    let ghost k = resolved.rerank@;
    proof {
        let s = seq![e, g, k];
        let s0 = Seq::<Seq<char>>::empty();
        let s1 = seq![e];
        let s2 = seq![e, g];
        assert(s.drop_last() =~= s2);
        assert(s2.drop_last() =~= s1);
        assert(s1.drop_last() =~= s0);
        assert(lists::distinct(s0) =~= s0);
        assert(lists::distinct(s1) =~= s1);
        assert(s1[0] == e);
        if g == e {
            assert(lists::distinct(s2) =~= s1);
        } else {
            assert(!s1.contains(g));
            assert(lists::distinct(s2) =~= s2);
            assert(s2[0] == e && s2[1] == g);
        }
    }
    let mut out: Vec<ModelRole> = Vec::new();
    out.push(role_of(resolved, resolved.embed.as_str()));
    if !same_text(resolved.generate.as_str(), resolved.embed.as_str()) {
        out.push(role_of(resolved, resolved.generate.as_str()));
    }
    if !same_text(resolved.rerank.as_str(), resolved.embed.as_str()) && !same_text(
        resolved.rerank.as_str(),
        resolved.generate.as_str(),
    ) {
        out.push(role_of(resolved, resolved.rerank.as_str()));
    }
    assert(role_views(out@) =~= roles(*resolved));
    out
}

/// What was found in the cache for a model.
#[derive(Clone, Debug)]
pub struct ModelInspection {
    /// The file, where there is a valid one.
    pub path: Option<String>,
    /// What is wrong with the files that are not valid.
    pub invalid: Vec<String>,
}

/// A model, what it is used for, and what was found in the cache for it.
#[derive(Debug)]
pub struct CachedModelEntry {
    pub model_uri: String,
    pub used_for_embed: bool,
    pub used_for_generate: bool,
    pub used_for_rerank: bool,
    pub path: Option<String>,
    pub invalid: Vec<String>,
}

impl CachedModelEntry {
    /// Whether the entry is for the role, with what was found.
    pub open spec fn combines(
        self,
        role: (Seq<char>, bool, bool, bool),
        found: ModelInspection,
    ) -> bool {
        &&& (self.model_uri@, self.used_for_embed, self.used_for_generate, self.used_for_rerank)
            == role
        &&& self.path == found.path
        &&& self.invalid == found.invalid
    }
}

/// The models in use, each once, with what was found in the cache for each.
pub fn collect_model_cache(resolved: &ResolvedModels, found: Vec<ModelInspection>) -> (out: Vec<
    CachedModelEntry,
>)
    requires
        found@.len() == roles(*resolved).len(),
    ensures
        out@.len() == roles(*resolved).len(),
        forall|i: int|
            0 <= i < out@.len() ==> (#[trigger] out@[i]).combines(roles(*resolved)[i], found@[i]),
{
    let listed: Vec<ModelRole> = model_roles(resolved);
    let ghost all = found@;
    let ghost expected = roles(*resolved);
    assert(role_views(listed@).len() == listed@.len());
    let mut out: Vec<CachedModelEntry> = Vec::new();
    let n: usize = listed.len();
    let mut i: usize = 0;
    for f in it: found
        invariant
            it.seq() == all,
            i == it.index(),
            n == listed@.len(),
            all.len() == n,
            role_views(listed@) == expected,
            out@.len() == i,
            forall|k: int| 0 <= k < i ==> (#[trigger] out@[k]).combines(expected[k], all[k]),
    {
        let role: &ModelRole = &listed[i];
        assert(expected[i as int] == role@);
        out.push(
            CachedModelEntry {
                model_uri: role.model_uri.clone(),
                used_for_embed: role.used_for_embed,
                used_for_generate: role.used_for_generate,
                used_for_rerank: role.used_for_rerank,
                path: f.path,
                invalid: f.invalid,
            },
        );
        i = i + 1;
    }
    out
}

/// Whether the setting keeps the devices from being probed.
pub open spec fn skips_probe(setting: Option<Seq<char>>) -> bool {
    match setting {
        Some(raw) => {
            let s = gpu::normal_setting(raw);
            s == "0"@ || s == "false"@ || s == "off"@ || s == "no"@ || s == "skip"@
        },
        None => false,
    }
}

/// Whether `RQMD_DOCTOR_DEVICE_PROBE` keeps the devices from being probed.
pub fn device_probe_skipped(setting: Option<&str>) -> (r: bool)
    ensures
        r == skips_probe(chars::opt_text(setting)),
{
    match setting {
        Some(raw) => {
            let s: String = normalize_setting(raw);
            same_text(s.as_str(), "0") || same_text(s.as_str(), "false") || same_text(
                s.as_str(),
                "off",
            ) || same_text(s.as_str(), "no") || same_text(s.as_str(), "skip")
        },
        None => false,
    }
}

/// A device that a model can run on.
#[derive(Clone, Debug)]
pub struct DeviceInfo {
    pub device_type: String,
    pub backend: String,
    pub name: String,
    pub description: String,
    pub memory_total: usize,
    pub memory_free: usize,
}

/// What is known of the devices.
#[derive(Debug)]
pub struct DeviceReport {
    pub device_mode: String,
    pub device_probe_skipped: bool,
    pub device_probe_error: Option<String>,
    pub devices: Vec<DeviceInfo>,
}

/// What is reported of the devices, given what probing them gave; it is not looked at where
/// probing is skipped.
pub open spec fn reports_devices(
    mode: Seq<char>,
    skipped: bool,
    probe: Result<Vec<DeviceInfo>, String>,
    r: DeviceReport,
) -> bool {
    &&& r.device_mode@ == mode
    &&& r.device_probe_skipped == skipped
    &&& if skipped {
        r.device_probe_error is None && r.devices@.len() == 0
    } else {
        match probe {
            Ok(devices) => r.device_probe_error is None && r.devices == devices,
            Err(e) => r.device_probe_error == Some(e) && r.devices@.len() == 0,
        }
    }
}

/// What is known of the devices, given what probing them gave.
pub fn collect_device_info(
    force_cpu: Option<&str>,
    llama_gpu: Option<&str>,
    probe_setting: Option<&str>,
    probe: Result<Vec<DeviceInfo>, String>,
) -> (r: DeviceReport)
    ensures
        reports_devices(
            mode_text(chars::opt_text(force_cpu), chars::opt_text(llama_gpu)),
            skips_probe(chars::opt_text(probe_setting)),
            probe,
            r,
        ),
{
    let device_mode: String = device_mode(force_cpu, llama_gpu);
    if device_probe_skipped(probe_setting) {
        return DeviceReport {
            device_mode,
            device_probe_skipped: true,
            device_probe_error: None,
            devices: Vec::new(),
        };
    }
    match probe {
        Ok(devices) => DeviceReport {
            device_mode,
            device_probe_skipped: false,
            device_probe_error: None,
            devices,
        },
        Err(e) => DeviceReport {
            device_mode,
            device_probe_skipped: false,
            device_probe_error: Some(e),
            devices: Vec::new(),
        },
    }
}

/// A chunk of a document, by the hash of the document and the position of the chunk.
#[derive(Clone, Debug)]
pub struct ChunkRef {
    pub hash: String,
    pub seq: i64,
}

/// The name of a chunk.
pub open spec fn chunk_name(hash: Seq<char>, seq: int) -> Seq<char> {
    hash + "_"@ + number::signed_decimal(seq)
}

/// The name of a chunk.
pub fn hash_seq(c: &ChunkRef) -> (s: String)
    ensures
        s@ == chunk_name(c.hash@, c.seq as int),
{
    let mut s: String = c.hash.clone();
    s.append("_");
    s.append(signed_decimal_of(c.seq).as_str());
    s
}

/// Embeddings that were made before there were fingerprints.
#[derive(Clone, Debug)]
pub struct LegacyPending {
    pub model: String,
    pub legacy_distinct_hashes: i64,
    /// One of them, where a document still has it.
    pub sample_hash_seq: Option<String>,
    /// Whether it can be checked that they fit.
    pub adoption_possible: bool,
}

/// What is reported of embeddings that were made before there were fingerprints: nothing where
/// there are none.
pub fn collect_legacy_pending(
    model: &str,
    legacy: i64,
    sample: Option<&ChunkRef>,
    vec_table: bool,
    model_cached: bool,
) -> (r: Option<LegacyPending>)
    ensures
        match r {
            Some(p) => legacy != 0 && p.model@ == model@ && p.legacy_distinct_hashes == legacy
                && chars::opt_string(p.sample_hash_seq) == (match sample {
                Some(c) => Some(chunk_name(c.hash@, c.seq as int)),
                None => None,
            }) && p.adoption_possible == (vec_table && model_cached),
            None => legacy == 0,
        },
{
    if legacy == 0 {
        return None;
    }
    let sample_hash_seq: Option<String> = match sample {
        Some(c) => Some(hash_seq(c)),
        None => None,
    };
    Some(
        LegacyPending {
            model: model.to_owned(),
            legacy_distinct_hashes: legacy,
            sample_hash_seq,
            adoption_possible: vec_table && model_cached,
        },
    )
}

/// The stored vector that is nearest to the embedding of a sample; the distance by its bits and
/// with six decimals.
#[derive(Clone, Debug)]
pub struct NearestVector {
    pub hash_seq: String,
    pub distance_bits: u64,
    pub distance: String,
}

/// Whether old embeddings are adopted.
#[derive(Debug)]
pub struct AdoptionVerdict {
    pub adopt: bool,
    pub distance_bits: u64,
    pub reason: String,
}

/// Whether the nearest vector is that of the sample, near enough.
pub open spec fn reproduces(expected: Seq<char>, nearest: NearestVector) -> bool {
    nearest.hash_seq@ == expected && !float_order::greater(
        nearest.distance_bits,
        VECTOR_MATCH_THRESHOLD_BITS,
    )
}

/// Why old embeddings are adopted or not.
pub open spec fn verdict_reason(
    expected: Seq<char>,
    embedded: bool,
    nearest: Option<NearestVector>,
) -> Seq<char> {
    if !embedded {
        "failed to embed legacy sample"@
    } else {
        match nearest {
            None => "legacy sample vector not found"@,
            Some(n) => if reproduces(expected, n) {
                "sample "@ + expected + " matched current fingerprint at distance "@ + n.distance@
            } else {
                "legacy sample differs from current fingerprint (nearest "@ + n.hash_seq@
                    + ", distance "@ + n.distance@ + ")"@
            },
        }
    }
}

impl AdoptionVerdict {
    /// The verdict on a sample, given whether it could be embedded and the nearest vector.
    pub open spec fn decides(
        self,
        expected: Seq<char>,
        embedded: bool,
        nearest: Option<NearestVector>,
    ) -> bool {
        &&& self.adopt == (embedded && nearest is Some && reproduces(expected, nearest->0))
        &&& self.distance_bits == (if embedded && nearest is Some {
            nearest->0.distance_bits
        } else {
            INFINITY_BITS
        })
        &&& self.reason@ == verdict_reason(expected, embedded, nearest)
    }
}

/// Whether old embeddings are adopted: the sample could be embedded, and the nearest stored
/// vector is its own, near enough. The nearest vector is looked at only where the sample could
/// be embedded.
pub fn judge_adoption(expected: &str, embedded: bool, nearest: Option<&NearestVector>) -> (v:
    AdoptionVerdict)
    ensures
        v.decides(
            expected@,
            embedded,
            match nearest {
                Some(n) => Some(*n),
                None => None,
            },
        ),
{
    if !embedded {
        return AdoptionVerdict {
            adopt: false,
            distance_bits: INFINITY_BITS,
            reason: "failed to embed legacy sample".to_owned(),
        };
    }
    match nearest {
        None => AdoptionVerdict {
            adopt: false,
            distance_bits: INFINITY_BITS,
            reason: "legacy sample vector not found".to_owned(),
        },
        Some(n) => {
            let same: bool = same_text(n.hash_seq.as_str(), expected);
            if !same || gt(n.distance_bits, VECTOR_MATCH_THRESHOLD_BITS) {
                let mut reason: String =
                    "legacy sample differs from current fingerprint (nearest ".to_owned();
                reason.append(n.hash_seq.as_str());
                reason.append(", distance ");
                reason.append(n.distance.as_str());
                reason.append(")");
                AdoptionVerdict { adopt: false, distance_bits: n.distance_bits, reason }
            } else {
                let mut reason: String = "sample ".to_owned();
                reason.append(expected);
                reason.append(" matched current fingerprint at distance ");
                reason.append(n.distance.as_str());
                AdoptionVerdict { adopt: true, distance_bits: n.distance_bits, reason }
            }
        },
    }
}

/// What became of the adoption of old embeddings.
#[derive(Debug)]
pub struct LegacyAdoptionOutcome {
    pub model: String,
    pub fingerprint: String,
    pub sample_hash_seq: String,
    /// The bits of the distance; those of infinity where there is none.
    pub sample_distance_bits: u64,
    pub adopted: bool,
    pub adopted_rows: usize,
    pub reason: String,
}

impl LegacyAdoptionOutcome {
    /// The outcome of a verdict, given how many rows were updated.
    pub open spec fn reports(
        self,
        model: String,
        fingerprint: Seq<char>,
        sample: String,
        verdict: AdoptionVerdict,
        rows: usize,
    ) -> bool {
        &&& self.model == model
        &&& self.fingerprint@ == fingerprint
        &&& self.sample_hash_seq == sample
        &&& self.sample_distance_bits == verdict.distance_bits
        &&& self.adopted == (verdict.adopt && rows > 0)
        &&& self.adopted_rows == (if verdict.adopt {
            rows
        } else {
            0
        })
        &&& self.reason == verdict.reason
    }
}

/// What became of the adoption of old embeddings, given how many rows were updated; none are
/// where the verdict is against it.
pub fn adoption_outcome(
    model: String,
    fingerprint: String,
    sample_hash_seq: String,
    verdict: AdoptionVerdict,
    updated_rows: usize,
) -> (r: LegacyAdoptionOutcome)
    ensures
        r.reports(model, fingerprint@, sample_hash_seq, verdict, updated_rows),
{
    let adopted_rows: usize = if verdict.adopt {
        updated_rows
    } else {
        0
    };
    LegacyAdoptionOutcome {
        model,
        fingerprint,
        sample_hash_seq,
        sample_distance_bits: verdict.distance_bits,
        adopted: adopted_rows > 0,
        adopted_rows,
        reason: verdict.reason,
    }
}

/// What is asked next on the way to adopt old embeddings.
#[derive(Clone, Copy, Debug, PartialEq, Eq, Structural)]
pub enum AdoptionAction {
    /// Count the documents with embeddings that have no fingerprint.
    CountLegacy,
    /// See whether there are vectors.
    FindVectors,
    /// See whether the embedding model is there.
    FindModel,
    /// Take a chunk with such an embedding.
    TakeSample,
    /// Embed the sample.
    EmbedSample,
    /// Find the stored vector that is nearest to the embedding of the sample.
    FindNearest,
    /// Write the fingerprint to the old embeddings.
    WriteFingerprint,
    /// Nothing: the outcome is there.
    Report,
}

/// The answer to an [`AdoptionAction`].
#[derive(Debug)]
pub enum AdoptionEvent {
    Legacy(i64),
    Vectors(bool),
    Model(bool),
    Sample(Option<ChunkRef>),
    /// Whether the sample could be embedded.
    Embedded(bool),
    Nearest(Option<NearestVector>),
    /// How many rows have the fingerprint now.
    Written(usize),
}

impl AdoptionEvent {
    /// What the event answers.
    pub open spec fn answers(self) -> AdoptionAction {
        match self {
            AdoptionEvent::Legacy(_) => AdoptionAction::CountLegacy,
            AdoptionEvent::Vectors(_) => AdoptionAction::FindVectors,
            AdoptionEvent::Model(_) => AdoptionAction::FindModel,
            AdoptionEvent::Sample(_) => AdoptionAction::TakeSample,
            AdoptionEvent::Embedded(_) => AdoptionAction::EmbedSample,
            AdoptionEvent::Nearest(_) => AdoptionAction::FindNearest,
            AdoptionEvent::Written(_) => AdoptionAction::WriteFingerprint,
        }
    }
}

/// How far the adoption of old embeddings has come.
#[derive(Debug)]
pub enum Adoption {
    Counting,
    FindingVectors,
    FindingModel,
    Sampling,
    Embedding { sample: String },
    Searching { sample: String },
    Writing { sample: String, verdict: AdoptionVerdict },
    /// There is nothing to adopt, or nothing to try it with.
    Nothing,
    Judged { sample: String, verdict: AdoptionVerdict, rows: usize },
}

impl Adoption {
    /// What is asked next.
    pub open spec fn asks(self) -> AdoptionAction {
        match self {
            Adoption::Counting => AdoptionAction::CountLegacy,
            Adoption::FindingVectors => AdoptionAction::FindVectors,
            Adoption::FindingModel => AdoptionAction::FindModel,
            Adoption::Sampling => AdoptionAction::TakeSample,
            Adoption::Embedding { .. } => AdoptionAction::EmbedSample,
            Adoption::Searching { .. } => AdoptionAction::FindNearest,
            Adoption::Writing { .. } => AdoptionAction::WriteFingerprint,
            Adoption::Nothing => AdoptionAction::Report,
            Adoption::Judged { .. } => AdoptionAction::Report,
        }
    }

    /// The verdict of a nearest vector, where a fingerprint is written only if it is for it.
    pub open spec fn judged(self, sample: Seq<char>, nearest: Option<NearestVector>) -> bool {
        match self {
            Adoption::Writing { sample: s, verdict } => s@ == sample && verdict.decides(
                sample,
                true,
                nearest,
            ) && verdict.adopt,
            Adoption::Judged { sample: s, verdict, rows } => s@ == sample && verdict.decides(
                sample,
                true,
                nearest,
            ) && !verdict.adopt && rows == 0,
            _ => false,
        }
    }

    /// The state after an answer.
    pub open spec fn follows(self, event: AdoptionEvent, next: Adoption) -> bool {
        match (self, event) {
            (Adoption::Counting, AdoptionEvent::Legacy(n)) => next == (if n == 0 {
                Adoption::Nothing
            } else {
                Adoption::FindingVectors
            }),
            (Adoption::FindingVectors, AdoptionEvent::Vectors(there)) => next == (if there {
                Adoption::FindingModel
            } else {
                Adoption::Nothing
            }),
            (Adoption::FindingModel, AdoptionEvent::Model(there)) => next == (if there {
                Adoption::Sampling
            } else {
                Adoption::Nothing
            }),
            (Adoption::Sampling, AdoptionEvent::Sample(None)) => next == Adoption::Nothing,
            (Adoption::Sampling, AdoptionEvent::Sample(Some(c))) => next matches Adoption::Embedding {
                sample,
            } && sample@ == chunk_name(c.hash@, c.seq as int),
            (Adoption::Embedding { sample }, AdoptionEvent::Embedded(true)) => next
                == (Adoption::Searching { sample }),
            (
                Adoption::Embedding { sample },
                AdoptionEvent::Embedded(false),
            ) => next matches Adoption::Judged { sample: s, verdict, rows } && s == sample
                && verdict.decides(sample@, false, None) && rows == 0,
            (Adoption::Searching { sample }, AdoptionEvent::Nearest(nearest)) => next.judged(
                sample@,
                nearest,
            ),
            (Adoption::Writing { sample, verdict }, AdoptionEvent::Written(rows)) => next == (
            Adoption::Judged { sample, verdict, rows }),
            _ => false,
        }
    }

    /// An adoption that has not begun.
    pub fn begin() -> (a: Self)
        ensures
            a == Adoption::Counting,
    {
        Adoption::Counting
    }

    /// What is asked next.
    pub fn action(&self) -> (r: AdoptionAction)
        ensures
            r == self.asks(),
    {
        match self {
            Adoption::Counting => AdoptionAction::CountLegacy,
            Adoption::FindingVectors => AdoptionAction::FindVectors,
            Adoption::FindingModel => AdoptionAction::FindModel,
            Adoption::Sampling => AdoptionAction::TakeSample,
            Adoption::Embedding { .. } => AdoptionAction::EmbedSample,
            Adoption::Searching { .. } => AdoptionAction::FindNearest,
            Adoption::Writing { .. } => AdoptionAction::WriteFingerprint,
            Adoption::Nothing => AdoptionAction::Report,
            Adoption::Judged { .. } => AdoptionAction::Report,
        }
    }

    /// Takes the answer to what was asked.
    pub fn answer(self, event: AdoptionEvent) -> (next: Self)
        requires
            event.answers() == self.asks(),
        ensures
            self.follows(event, next),
    {
        match (self, event) {
            (Adoption::Counting, AdoptionEvent::Legacy(n)) => if n == 0 {
                Adoption::Nothing
            } else {
                Adoption::FindingVectors
            },
            (Adoption::FindingVectors, AdoptionEvent::Vectors(there)) => if there {
                Adoption::FindingModel
            } else {
                Adoption::Nothing
            },
            (Adoption::FindingModel, AdoptionEvent::Model(there)) => if there {
                Adoption::Sampling
            } else {
                Adoption::Nothing
            },
            (Adoption::Sampling, AdoptionEvent::Sample(sample)) => match sample {
                Some(c) => Adoption::Embedding { sample: hash_seq(&c) },
                None => Adoption::Nothing,
            },
            (Adoption::Embedding { sample }, AdoptionEvent::Embedded(embedded)) => if embedded {
                Adoption::Searching { sample }
            } else {
                let verdict: AdoptionVerdict = judge_adoption(sample.as_str(), false, None);
                Adoption::Judged { sample, verdict, rows: 0 }
            },
            (Adoption::Searching { sample }, AdoptionEvent::Nearest(nearest)) => {
                let verdict: AdoptionVerdict = judge_adoption(
                    sample.as_str(),
                    true,
                    nearest.as_ref(),
                );
                if verdict.adopt {
                    Adoption::Writing { sample, verdict }
                } else {
                    Adoption::Judged { sample, verdict, rows: 0 }
                }
            },
            (Adoption::Writing { sample, verdict }, AdoptionEvent::Written(rows)) => {
                Adoption::Judged { sample, verdict, rows }
            },
            (state, _) => state,
        }
    }

    /// What became of the adoption: nothing where there was nothing to adopt, or nothing to try
    /// it with.
    pub fn outcome(self, model: String) -> (r: Option<LegacyAdoptionOutcome>)
        requires
            self.asks() == AdoptionAction::Report,
        ensures
            match (self, r) {
                (Adoption::Nothing, None) => true,
                (Adoption::Judged { sample, verdict, rows }, Some(o)) => o.reports(
                    model,
                    crate::llm::format::model_fingerprint(model@),
                    sample,
                    verdict,
                    rows,
                ),
                _ => false,
            },
    {
        match self {
            Adoption::Judged { sample, verdict, rows } => {
                let fingerprint: String = embedding_fingerprint(model.as_str());
                Some(adoption_outcome(model, fingerprint, sample, verdict, rows))
            },
            _ => None,
        }
    }
}

/// Why a sample does not fit.
#[derive(Clone, Debug)]
pub struct VectorSampleFailure {
    pub hash_seq: String,
    pub reason: String,
}

impl View for VectorSampleFailure {
    type V = (Seq<char>, Seq<char>);

    open spec fn view(&self) -> (Seq<char>, Seq<char>) {
        (self.hash_seq@, self.reason@)
    }
}

/// What failures hold.
pub open spec fn failure_views(v: Seq<VectorSampleFailure>) -> Seq<(Seq<char>, Seq<char>)> {
    Seq::new(v.len(), |i: int| v[i]@)
}

/// What came of the check of stored embeddings.
#[derive(Debug)]
pub enum VectorSampleStatus {
    /// There are no documents.
    NoActiveDocuments,
    /// There are no vectors.
    NoVectorTable,
    /// The model is not there.
    ModelNotCached,
    /// There are no vectors of this model and this fingerprint.
    NoCurrentChunks,
    Sampled { sampled: usize, passed: usize, failures: Vec<VectorSampleFailure> },
}

/// The check of stored embeddings.
#[derive(Debug)]
pub struct VectorSampleCheck {
    pub model: String,
    pub fingerprint: String,
    /// The bits of the distance up to which a vector counts as the stored one.
    pub threshold_bits: u64,
    pub status: VectorSampleStatus,
}

/// Why no sample is taken: none where samples are taken.
pub fn sample_gate(active: i64, vec_table: bool, model_cached: bool, samples: usize) -> (r: Option<
    VectorSampleStatus,
>)
    ensures
        match r {
            Some(VectorSampleStatus::NoActiveDocuments) => active == 0,
            Some(VectorSampleStatus::NoVectorTable) => active != 0 && !vec_table,
            Some(VectorSampleStatus::ModelNotCached) => active != 0 && vec_table && !model_cached,
            Some(VectorSampleStatus::NoCurrentChunks) => active != 0 && vec_table && model_cached
                && samples == 0,
            Some(VectorSampleStatus::Sampled { .. }) => false,
            None => active != 0 && vec_table && model_cached && samples > 0,
        },
{
    if active == 0 {
        Some(VectorSampleStatus::NoActiveDocuments)
    } else if !vec_table {
        Some(VectorSampleStatus::NoVectorTable)
    } else if !model_cached {
        Some(VectorSampleStatus::ModelNotCached)
    } else if samples == 0 {
        Some(VectorSampleStatus::NoCurrentChunks)
    } else {
        None
    }
}

/// How far the check of one sample came.
#[derive(Clone, Debug)]
pub enum SampleOutcome {
    /// The document has no such chunk any more.
    ChunkMissing,
    /// The chunk could not be embedded.
    EmbedFailed,
    /// There is no stored vector.
    StoredMissing,
    /// The distance of the two vectors, by its bits and with six decimals.
    Compared { distance_bits: u64, distance: String },
}

/// Why a sample does not fit, if it does not.
pub open spec fn failure_reason(outcome: SampleOutcome) -> Option<Seq<char>> {
    match outcome {
        SampleOutcome::ChunkMissing => Some("chunk no longer exists"@),
        SampleOutcome::EmbedFailed => Some("embedding failed"@),
        SampleOutcome::StoredMissing => Some("stored vector missing"@),
        SampleOutcome::Compared { distance_bits, distance } => if float_order::greater(
            distance_bits,
            VECTOR_MATCH_THRESHOLD_BITS,
        ) {
            Some("stored vector distance "@ + distance@)
        } else {
            None
        },
    }
}

/// Why a sample does not fit, if it does not.
pub fn sample_failure(outcome: &SampleOutcome) -> (r: Option<String>)
    ensures
        chars::opt_string(r) == failure_reason(*outcome),
{
    match outcome {
        SampleOutcome::ChunkMissing => Some("chunk no longer exists".to_owned()),
        SampleOutcome::EmbedFailed => Some("embedding failed".to_owned()),
        SampleOutcome::StoredMissing => Some("stored vector missing".to_owned()),
        SampleOutcome::Compared { distance_bits, distance } => if gt(
            *distance_bits,
            VECTOR_MATCH_THRESHOLD_BITS,
        ) {
            let mut s: String = "stored vector distance ".to_owned();
            s.append(distance.as_str());
            Some(s)
        } else {
            None
        },
    }
}

/// A check of samples that is under way.
#[derive(Debug)]
pub struct SampleRun {
    checked: usize,
    failures: Vec<VectorSampleFailure>,
}

impl SampleRun {
    /// How many samples were checked.
    pub closed spec fn checked(&self) -> usize {
        self.checked
    }

    /// The samples that do not fit.
    pub closed spec fn failed(&self) -> Seq<(Seq<char>, Seq<char>)> {
        failure_views(self.failures@)
    }

    /// There are no more failures than samples.
    pub open spec fn wf(&self) -> bool {
        self.failed().len() <= self.checked()
    }

    /// A check that has not begun.
    pub fn new() -> (r: Self)
        ensures
            r.wf(),
            r.checked() == 0,
            r.failed() == Seq::<(Seq<char>, Seq<char>)>::empty(),
    {
        let r = SampleRun { checked: 0, failures: Vec::new() };
        assert(failure_views(r.failures@) =~= Seq::empty());
        r
    }

    /// Records the check of a sample.
    pub fn record(&mut self, sample: &ChunkRef, outcome: &SampleOutcome)
        requires
            old(self).wf(),
            old(self).checked() < usize::MAX,
        ensures
            final(self).wf(),
            final(self).checked() == old(self).checked() + 1,
            final(self).failed() == match failure_reason(*outcome) {
                Some(reason) => old(self).failed().push(
                    (chunk_name(sample.hash@, sample.seq as int), reason),
                ),
                None => old(self).failed(),
            },
    {
        match sample_failure(outcome) {
            Some(reason) => {
                let ghost f0 = self.failures@;
                self.failures.push(VectorSampleFailure { hash_seq: hash_seq(sample), reason });
                assert(failure_views(self.failures@) =~= failure_views(f0).push(
                    self.failures@.last()@,
                ));
            },
            None => {},
        }
        self.checked = self.checked + 1;
    }

    /// What came of the check.
    pub fn finish(self) -> (r: VectorSampleStatus)
        requires
            self.wf(),
        ensures
            match r {
                VectorSampleStatus::Sampled { sampled, passed, failures } => sampled
                    == self.checked() && failure_views(failures@) == self.failed() && passed
                    == sampled - self.failed().len(),
                _ => false,
            },
    {
        let passed: usize = self.checked - self.failures.len();
        VectorSampleStatus::Sampled { sampled: self.checked, passed, failures: self.failures }
    }
}

/// The check of stored embeddings of a model.
pub fn sample_check(model: String, fingerprint: String, status: VectorSampleStatus) -> (r:
    VectorSampleCheck)
    ensures
        r == (VectorSampleCheck {
            model,
            fingerprint,
            threshold_bits: VECTOR_MATCH_THRESHOLD_BITS,
            status,
        }),
{
    VectorSampleCheck { model, fingerprint, threshold_bits: VECTOR_MATCH_THRESHOLD_BITS, status }
}

/// The samples that do not fit, in order.
pub open spec fn sample_failures(samples: Seq<ChunkRef>, outcomes: Seq<SampleOutcome>) -> Seq<
    (Seq<char>, Seq<char>),
>
    decreases samples.len(),
{
    if samples.len() == 0 {
        Seq::empty()
    } else {
        let before = sample_failures(samples.drop_last(), outcomes.drop_last());
        match failure_reason(outcomes.last()) {
            Some(reason) => before.push(
                (chunk_name(samples.last().hash@, samples.last().seq as int), reason),
            ),
            None => before,
        }
    }
}

/// How many of the samples are looked at.
pub open spec fn looked_at(samples: nat) -> nat {
    if samples <= SAMPLE_LIMIT {
        samples
    } else {
        SAMPLE_LIMIT as nat
    }
}

/// What the check of stored embeddings says, given how far it came with each sample.
pub open spec fn check_result(
    active: i64,
    vec_table: bool,
    model_cached: bool,
    samples: Seq<ChunkRef>,
    outcomes: Seq<SampleOutcome>,
    r: VectorSampleStatus,
) -> bool {
    if active == 0 {
        r is NoActiveDocuments
    } else if !vec_table {
        r is NoVectorTable
    } else if !model_cached {
        r is ModelNotCached
    } else if samples.len() == 0 {
        r is NoCurrentChunks
    } else {
        let n = looked_at(samples.len());
        r matches VectorSampleStatus::Sampled { sampled, passed, failures } && sampled == n
            && failure_views(failures@) == sample_failures(
            samples.take(n as int),
            outcomes.take(n as int),
        ) && passed + failures@.len() == sampled
    }
}

/// The check of stored embeddings: each sample is cut out of its document and embedded again, and
/// what came of that is in `outcomes`. No more than [`SAMPLE_LIMIT`] samples are looked at.
pub fn run_vector_sample_check(
    model: String,
    fingerprint: String,
    active: i64,
    vec_table: bool,
    model_cached: bool,
    samples: &[ChunkRef],
    outcomes: &[SampleOutcome],
) -> (r: VectorSampleCheck)
    requires
        samples@.len() == outcomes@.len(),
    ensures
        r.model == model,
        r.fingerprint == fingerprint,
        r.threshold_bits == VECTOR_MATCH_THRESHOLD_BITS,
        check_result(active, vec_table, model_cached, samples@, outcomes@, r.status),
{
    match sample_gate(active, vec_table, model_cached, samples.len()) {
        Some(status) => sample_check(model, fingerprint, status),
        None => {
            let n: usize = if samples.len() <= SAMPLE_LIMIT {
                samples.len()
            } else {
                SAMPLE_LIMIT
            };
            let mut run: SampleRun = SampleRun::new();
            assert(samples@.take(0) =~= Seq::empty());
            for i in 0..n
                invariant
                    samples@.len() == outcomes@.len(),
                    n <= samples@.len(),
                    run.wf(),
                    run.checked() == i,
                    run.failed() == sample_failures(
                        samples@.take(i as int),
                        outcomes@.take(i as int),
                    ),
            {
                assert(samples@.take(i + 1).drop_last() =~= samples@.take(i as int));
                assert(outcomes@.take(i + 1).drop_last() =~= outcomes@.take(i as int));
                run.record(&samples[i], &outcomes[i]);
            }
            sample_check(model, fingerprint, run.finish())
        },
    }
}

/// The chunk of a document by its position, where there is one.
pub fn chunk_at<T>(chunks: &[T], seq: i64) -> (r: Option<&T>)
    ensures
        match r {
            Some(c) => 0 <= seq < chunks@.len() && *c == chunks@[seq as int],
            None => seq < 0 || seq >= chunks@.len(),
        },
{
    if seq < 0 || seq as u64 >= chunks.len() as u64 {
        None
    } else {
        Some(&chunks[seq as usize])
    }
}

/// What the report is made of.
#[derive(Debug)]
pub struct DoctorFacts<G> {
    pub db_path: String,
    pub sqlite_version: String,
    pub vec_version: Option<String>,
    /// How many collections there are, where they can be listed.
    pub collection_count: Option<usize>,
    pub configured: Option<ModelResolutionConfig>,
    pub resolved: ResolvedModels,
    /// What was found in the cache, for each of the models in use.
    pub inspections: Vec<ModelInspection>,
    /// What probing the devices gave.
    pub probe: Result<Vec<DeviceInfo>, String>,
    pub cpu_cores: usize,
    pub needs_embedding: i64,
    pub fingerprint_groups: Vec<G>,
    pub vec_table: bool,
    /// How many documents have embeddings without a fingerprint, and one of those.
    pub legacy: i64,
    pub legacy_sample: Option<ChunkRef>,
    pub active_documents: i64,
    /// What came of the check of stored embeddings, which runs only where there are vectors and
    /// the model is there.
    pub sampled: VectorSampleStatus,
}

/// The health report.
#[derive(Debug)]
pub struct DoctorReport<G> {
    pub db_path: String,
    pub sqlite_version: String,
    pub vec_version: Option<String>,
    pub collection_count: usize,
    pub configured_models: Option<ModelResolutionConfig>,
    pub resolved_models: ResolvedModels,
    pub model_cache: Vec<CachedModelEntry>,
    pub env_overrides: Vec<EnvOverride>,
    pub device: DeviceReport,
    pub cpu_cores: usize,
    pub needs_embedding: i64,
    pub fingerprint_groups: Vec<G>,
    pub legacy_pending: Option<LegacyPending>,
    pub vector_sample: VectorSampleCheck,
    pub active_embed_model: String,
    pub active_embed_fingerprint: String,
}

/// Whether the embedding model is there: it is the first of the models in use.
pub open spec fn embed_model_cached(inspections: Seq<ModelInspection>) -> bool {
    inspections.len() > 0 && inspections[0].path is Some
}

/// What the report says of old embeddings.
pub open spec fn legacy_described<G>(f: DoctorFacts<G>, r: Option<LegacyPending>) -> bool {
    match r {
        Some(p) => f.legacy != 0 && p.model@ == f.resolved.embed@ && p.legacy_distinct_hashes
            == f.legacy && chars::opt_string(p.sample_hash_seq) == (match f.legacy_sample {
            Some(c) => Some(chunk_name(c.hash@, c.seq as int)),
            None => None,
        }) && p.adoption_possible == (f.vec_table && embed_model_cached(f.inspections@)),
        None => f.legacy == 0,
    }
}

/// What the report says of the stored embeddings.
pub open spec fn sample_described<G>(f: DoctorFacts<G>, s: VectorSampleStatus) -> bool {
    if f.vec_table && embed_model_cached(f.inspections@) {
        s == f.sampled
    } else if f.active_documents == 0 {
        s is NoActiveDocuments
    } else if !f.vec_table {
        s is NoVectorTable
    } else {
        s is ModelNotCached
    }
}

/// The health report; `env` are the variables that are set.
pub fn doctor_report<G>(f: DoctorFacts<G>, env: &[EnvVar]) -> (r: DoctorReport<G>)
    requires
        f.inspections@.len() == roles(f.resolved).len(),
    ensures
        r.db_path == f.db_path,
        r.sqlite_version == f.sqlite_version,
        r.vec_version == f.vec_version,
        r.collection_count == (match f.collection_count {
            Some(n) => n,
            None => 0,
        }),
        r.configured_models == f.configured,
        r.resolved_models == f.resolved,
        r.model_cache@.len() == roles(f.resolved).len(),
        forall|i: int|
            0 <= i < r.model_cache@.len() ==> (#[trigger] r.model_cache@[i]).combines(
                roles(f.resolved)[i],
                f.inspections@[i],
            ),
        override_views(r.env_overrides@) == all_reported(
            environment_rows(f.resolved, f.configured),
            env@,
        ),
        reports_devices(
            mode_text(value_of(env@, env_keys::FORCE_CPU@), value_of(env@, env_keys::LLAMA_GPU@)),
            skips_probe(value_of(env@, env_keys::DOCTOR_DEVICE_PROBE@)),
            f.probe,
            r.device,
        ),
        r.cpu_cores == f.cpu_cores,
        r.needs_embedding == f.needs_embedding,
        r.fingerprint_groups == f.fingerprint_groups,
        legacy_described(f, r.legacy_pending),
        sample_described(f, r.vector_sample.status),
        r.vector_sample.model@ == f.resolved.embed@,
        r.vector_sample.fingerprint@ == crate::llm::format::model_fingerprint(f.resolved.embed@),
        r.vector_sample.threshold_bits == VECTOR_MATCH_THRESHOLD_BITS,
        r.active_embed_model@ == f.resolved.embed@,
        r.active_embed_fingerprint@ == crate::llm::format::model_fingerprint(f.resolved.embed@),
{
    proof {
        law_models_are_listed_once(f.resolved);
    }
    let cached: bool = f.inspections[0].path.is_some();
    let env_overrides: Vec<EnvOverride> = collect_environment_overrides(
        &f.resolved,
        &f.configured,
        env,
    );
    let device: DeviceReport = collect_device_info(
        lookup(env, env_keys::FORCE_CPU),
        lookup(env, env_keys::LLAMA_GPU),
        lookup(env, env_keys::DOCTOR_DEVICE_PROBE),
        f.probe,
    );
    let legacy_pending: Option<LegacyPending> = collect_legacy_pending(
        f.resolved.embed.as_str(),
        f.legacy,
        f.legacy_sample.as_ref(),
        f.vec_table,
        cached,
    );
    let status: VectorSampleStatus = if f.vec_table && cached {
        f.sampled
    } else if f.active_documents == 0 {
        VectorSampleStatus::NoActiveDocuments
    } else if !f.vec_table {
        VectorSampleStatus::NoVectorTable
    } else {
        VectorSampleStatus::ModelNotCached
    };
    let fingerprint: String = embedding_fingerprint(f.resolved.embed.as_str());
    let vector_sample: VectorSampleCheck = sample_check(
        f.resolved.embed.clone(),
        fingerprint.clone(),
        status,
    );
    let active_embed_model: String = f.resolved.embed.clone();
    let model_cache: Vec<CachedModelEntry> = collect_model_cache(&f.resolved, f.inspections);
    let collection_count: usize = match f.collection_count {
        Some(n) => n,
        None => 0,
    };
    DoctorReport {
        db_path: f.db_path,
        sqlite_version: f.sqlite_version,
        vec_version: f.vec_version,
        collection_count,
        configured_models: f.configured,
        resolved_models: f.resolved,
        model_cache,
        env_overrides,
        device,
        cpu_cores: f.cpu_cores,
        needs_embedding: f.needs_embedding,
        fingerprint_groups: f.fingerprint_groups,
        legacy_pending,
        vector_sample,
        active_embed_model,
        active_embed_fingerprint: fingerprint,
    }
}

// Laws.

/// What is reported is set, and each variable of the table that is set is reported.
pub proof fn law_set_variables_are_reported(rows: Seq<RowModel>, env: Seq<EnvVar>, i: int)
    requires
        0 <= i < rows.len(),
    ensures
        all_reported(rows, env).len() <= rows.len(),
        reported(rows[i], env) is Some ==> all_reported(rows, env).contains(
            reported(rows[i], env)->0,
        ),
    decreases rows.len(),
{
    let b = rows.drop_last();
    let before = all_reported(b, env);
    if b.len() > 0 {
        law_set_variables_are_reported(b, env, 0);
    }
    if reported(rows[i], env) is Some {
        let o = reported(rows[i], env)->0;
        if i == rows.len() - 1 {
            assert(all_reported(rows, env)[before.len() as int] == o);
        } else {
            law_set_variables_are_reported(b, env, i);
            let j = choose|j: int| 0 <= j < before.len() && before[j] == o;
            assert(all_reported(rows, env)[j] == o);
        }
    }
}

/// The settings of the models, by the names of their variables.
pub open spec fn model_settings() -> Seq<Seq<char>> {
    seq![
        env_keys::EMBED_MODEL@,
        env_keys::GENERATE_MODEL@,
        env_keys::RERANK_MODEL@,
        env_keys::FORCE_CPU@,
        env_keys::LLAMA_GPU@,
        env_keys::DOCTOR_DEVICE_PROBE@,
        env_keys::EMBED_PARALLELISM@,
        env_keys::RERANK_PARALLELISM@,
        env_keys::EXPAND_CONTEXT_SIZE@,
        env_keys::RERANK_CONTEXT_SIZE@,
        env_keys::EMBED_CONTEXT_SIZE@,
        env_keys::EXPAND_USER_MESSAGE_PREFIX@,
        env_keys::EXPAND_SYSTEM_MESSAGE@,
        env_keys::EXPAND_FALLBACK_HYDE_TEMPLATE@,
        env_keys::EXPAND_TEMP@,
        env_keys::EXPAND_TOP_K@,
        env_keys::EXPAND_TOP_P@,
    ]
}

/// The variable of a row.
pub open spec fn row_name(row: RowModel) -> Seq<char> {
    match row {
        RowModel::Plain { name, .. } => name,
        RowModel::Model { name, .. } => name,
    }
}

/// Each setting of the models that is set is reported, under its name and with its value.
pub proof fn law_every_model_setting_is_reported(
    resolved: ResolvedModels,
    configured: Option<ModelResolutionConfig>,
    env: Seq<EnvVar>,
    i: int,
)
    requires
        0 <= i < model_settings().len(),
    ensures
        chars::non_blank(value_of(env, model_settings()[i])) matches Some(raw) ==> exists|j: int|
            0 <= j < all_reported(environment_rows(resolved, configured), env).len() && {
                let o = #[trigger] all_reported(environment_rows(resolved, configured), env)[j];
                o.0 == model_settings()[i] && o.1 == shown_value(raw)
            },
{
    let rows = environment_rows(resolved, configured);
    let all = all_reported(rows, env);
    assert(row_name(rows[i + 5]) == model_settings()[i]);
    law_set_variables_are_reported(rows, env, i + 5);
    if chars::non_blank(value_of(env, model_settings()[i])) is Some {
        let o = reported(rows[i + 5], env)->0;
        let j = choose|j: int| 0 <= j < all.len() && all[j] == o;
        assert(all[j].0 == model_settings()[i]);
    }
}

/// A run of the adoption: each state follows from the one before by the answer to what that one
/// asked.
pub open spec fn adoption_run(states: Seq<Adoption>, events: Seq<AdoptionEvent>) -> bool {
    &&& states.len() == events.len() + 1
    &&& states[0] == Adoption::Counting
    &&& forall|i: int|
        0 <= i < events.len() ==> (#[trigger] events[i]).answers() == states[i].asks()
            && states[i].follows(events[i], states[i + 1])
}

/// There are old embeddings, vectors and the model, as far as the first `n` answers tell.
spec fn gates_passed(events: Seq<AdoptionEvent>, n: int) -> bool {
    &&& n >= 1 ==> (events[0] matches AdoptionEvent::Legacy(k) && k != 0)
    &&& n >= 2 ==> events[1] == AdoptionEvent::Vectors(true)
    &&& n >= 3 ==> events[2] == AdoptionEvent::Model(true)
}

/// The fourth answer is the sample of that name.
spec fn sampled_as(events: Seq<AdoptionEvent>, sample: Seq<char>) -> bool {
    events[3] matches AdoptionEvent::Sample(Some(c)) && sample == chunk_name(c.hash@, c.seq as int)
}

/// The sixth answer is the vector of the sample.
spec fn matched(events: Seq<AdoptionEvent>, sample: Seq<char>) -> bool {
    events[5] matches AdoptionEvent::Nearest(Some(v)) && reproduces(sample, v)
}

/// The answers on the way to each state of a run.
spec fn came_by(state: Adoption, events: Seq<AdoptionEvent>) -> bool {
    let n = events.len() as int;
    match state {
        Adoption::Counting => n == 0,
        Adoption::FindingVectors => n == 1 && gates_passed(events, n),
        Adoption::FindingModel => n == 2 && gates_passed(events, n),
        Adoption::Sampling => n == 3 && gates_passed(events, n),
        Adoption::Embedding { sample } => n == 4 && gates_passed(events, n) && sampled_as(
            events,
            sample@,
        ),
        Adoption::Searching { sample } => n == 5 && gates_passed(events, n) && sampled_as(
            events,
            sample@,
        ) && events[4] == AdoptionEvent::Embedded(true),
        Adoption::Writing { sample, verdict } => n == 6 && gates_passed(events, n) && sampled_as(
            events,
            sample@,
        ) && events[4] == AdoptionEvent::Embedded(true) && matched(events, sample@)
            && verdict.adopt,
        Adoption::Nothing => 1 <= n <= 4,
        Adoption::Judged { sample, verdict, rows } => 5 <= n <= 7 && verdict.adopt == (n == 7)
            && verdict.adopt == (events.last() == AdoptionEvent::Written(rows)),
    }
}

proof fn lemma_came_by(states: Seq<Adoption>, events: Seq<AdoptionEvent>)
    requires
        adoption_run(states, events),
    ensures
        came_by(states.last(), events),
    decreases events.len(),
{
    if events.len() > 0 {
        let before = events.drop_last();
        assert(adoption_run(states.drop_last(), before)) by {
            assert forall|i: int| 0 <= i < before.len() implies (#[trigger] before[i]).answers()
                == states.drop_last()[i].asks() && states.drop_last()[i].follows(
                before[i],
                states.drop_last()[i + 1],
            ) by {
                assert(events[i] == before[i]);
            }
        }
        lemma_came_by(states.drop_last(), before);
        assert(events.last() == events[events.len() - 1]);
        assert(states[events.len() - 1].follows(events.last(), states.last()));
    }
}

/// A fingerprint is written only where there are old embeddings, vectors and the model, the
/// sample could be embedded, and the stored vector nearest to it is its own, near enough.
pub proof fn law_fingerprints_are_written_only_on_a_match(
    states: Seq<Adoption>,
    events: Seq<AdoptionEvent>,
)
    requires
        adoption_run(states, events),
        states.last().asks() == AdoptionAction::WriteFingerprint,
    ensures
        events.len() == 6,
        events[0] matches AdoptionEvent::Legacy(n) && n != 0,
        events[1] == AdoptionEvent::Vectors(true),
        events[2] == AdoptionEvent::Model(true),
        events[4] == AdoptionEvent::Embedded(true),
        events[3] matches AdoptionEvent::Sample(Some(c)) && (events[5] matches AdoptionEvent::Nearest(
            Some(v),
        ) && reproduces(chunk_name(c.hash@, c.seq as int), v)),
{
    lemma_came_by(states, events);
}

/// An adoption ends after seven answers at most, and what it reports as adopted was written.
pub proof fn law_adoption_ends(states: Seq<Adoption>, events: Seq<AdoptionEvent>)
    requires
        adoption_run(states, events),
    ensures
        events.len() <= 7,
        events.len() == 7 ==> states.last() is Judged,
        states.last() matches Adoption::Judged { sample, verdict, rows } ==> (verdict.adopt
            <==> events.last() == AdoptionEvent::Written(rows)),
{
    lemma_came_by(states, events);
}

/// A sample that does not fit is listed with the reason, and nothing is listed exactly where all
/// of the samples fit.
pub proof fn law_unfit_samples_are_listed(samples: Seq<ChunkRef>, outcomes: Seq<SampleOutcome>)
    requires
        samples.len() == outcomes.len(),
    ensures
        sample_failures(samples, outcomes).len() <= samples.len(),
        forall|i: int|
            0 <= i < samples.len() && failure_reason(#[trigger] outcomes[i]) is Some
                ==> sample_failures(samples, outcomes).contains(
                (chunk_name(samples[i].hash@, samples[i].seq as int), failure_reason(outcomes[i])->0),
            ),
        (forall|i: int| 0 <= i < samples.len() ==> failure_reason(#[trigger] outcomes[i]) is None)
            <==> sample_failures(samples, outcomes).len() == 0,
    decreases samples.len(),
{
    if samples.len() > 0 {
        let n = samples.len() - 1;
        let s0 = samples.drop_last();
        let o0 = outcomes.drop_last();
        law_unfit_samples_are_listed(s0, o0);
        let before = sample_failures(s0, o0);
        let all = sample_failures(samples, outcomes);
        assert(outcomes.last() == outcomes[n]);
        assert forall|i: int|
            0 <= i < samples.len() && failure_reason(#[trigger] outcomes[i]) is Some implies
            all.contains(
            (chunk_name(samples[i].hash@, samples[i].seq as int), failure_reason(outcomes[i])->0),
        ) by {
            let named = (
                chunk_name(samples[i].hash@, samples[i].seq as int),
                failure_reason(outcomes[i])->0,
            );
            if i == n {
                assert(all[before.len() as int] == named);
            } else {
                assert(o0[i] == outcomes[i]);
                assert(before.contains(named));
                let j = choose|j: int| 0 <= j < before.len() && before[j] == named;
                assert(all[j] == named);
            }
        }
        if before.len() == 0 && failure_reason(outcomes.last()) is None {
            assert forall|i: int| 0 <= i < samples.len() implies failure_reason(
                #[trigger] outcomes[i],
            ) is None by {
                if i < n {
                    assert(o0[i] == outcomes[i]);
                }
            }
        }
        if forall|i: int| 0 <= i < samples.len() ==> failure_reason(#[trigger] outcomes[i]) is None {
            assert forall|i: int| 0 <= i < s0.len() implies failure_reason(
                #[trigger] o0[i],
            ) is None by {
                assert(o0[i] == outcomes[i]);
            }
        }
    }
}

/// Each model is listed once, with every use it has.
pub proof fn law_models_are_listed_once(resolved: ResolvedModels)
    ensures
        forall|i: int, j: int|
            0 <= i < j < roles(resolved).len() ==> (#[trigger] roles(resolved)[i]).0 != (
            #[trigger] roles(resolved)[j]).0,
        1 <= roles(resolved).len() <= 3,
{
    let s = seq![resolved.embed@, resolved.generate@, resolved.rerank@];
    lists::lemma_distinct(s);
    assert(s[0] == resolved.embed@);
    assert(s.contains(resolved.embed@));
    assert(lists::distinct(s).contains(resolved.embed@));
}

/// The value of a variable is that of the first entry with its name, and there is none where no
/// entry has it.
pub proof fn law_first_entry_counts(env: Seq<EnvVar>, name: Seq<char>, i: int)
    requires
        0 <= i <= env.len(),
        forall|j: int| 0 <= j < i ==> (#[trigger] env[j]).name@ != name,
        i < env.len() ==> env[i].name@ == name,
    ensures
        i < env.len() ==> value_of(env, name) == Some(env[i].value@),
        i == env.len() ==> value_of(env, name) is None,
    decreases env.len(),
{
    if env.len() > 0 && i > 0 {
        assert(env[0].name@ != name);
        let rest = env.skip(1);
        assert forall|j: int| 0 <= j < i - 1 implies (#[trigger] rest[j]).name@ != name by {
            assert(rest[j] == env[j + 1]);
        }
        law_first_entry_counts(rest, name, i - 1);
    }
}

/// A value is shown whole up to ninety-six characters; a longer one by its first ninety-three and
/// three dots.
pub proof fn law_values_are_shown_up_to_a_length(value: Seq<char>)
    ensures
        shown_value(value).len() <= 96,
        value.len() <= 96 ==> shown_value(value) == value,
        value.len() > 96 ==> shown_value(value).len() == 96 && shown_value(value).take(93)
            == value.take(93) && search::ends_in(shown_value(value), "..."@),
{
    reveal_strlit("...");
    if value.len() > 96 {
        let s = shown_value(value);
        assert(s.take(93) =~= value.take(93));
        assert(s.subrange(93, 96) =~= "..."@);
    }
}

/// A variable is reported exactly where it is set to something that is not blank, by its name and
/// its trimmed value; one that names a model is said to be ignored exactly where another model is
/// configured.
pub proof fn law_rows_report_what_is_set(
    name: Seq<char>,
    text: Seq<char>,
    active: Seq<char>,
    configured: Option<Seq<char>>,
    env: Seq<EnvVar>,
)
    ensures
        value_of(env, name) is None ==> reported(plain(name, text), env) is None,
        value_of(env, name) matches Some(v) ==> {
            let raw = chars::trimmed(v);
            let row = RowModel::Model { name, key: text, active, configured };
            &&& raw.len() == 0 ==> reported(plain(name, text), env) is None && reported(row, env) is None
            &&& raw.len() > 0 ==> reported(plain(name, text), env) == Some(
                (name, shown_value(raw), text),
            )
            &&& raw.len() > 0 ==> reported(row, env) is Some && (reported(row, env)->0).0 == name
                && (reported(row, env)->0).1 == shown_value(raw)
            &&& raw.len() > 0 && (configured is Some && configured->0 != raw) ==> (reported(
                row,
                env,
            )->0).2 == "set but ignored because index models."@ + text + " is configured as "@
                + configured->0
            &&& raw.len() > 0 && (configured is None || configured->0 == raw)
                ==> search::begins_with(
                (reported(row, env)->0).2,
                "sets the active "@ + text + " model to "@ + active,
            )
        },
{
    let tail =
        "; changes embedding/search semantics and may require `rqmd pull` plus `rqmd embed`"@;
    let a = "sets the active "@ + text + " model to "@ + active;
    search::lemma_begins_longer(a, tail, a);
}

/// The variables that are looked at besides the settings of the models.
pub open spec fn other_settings() -> Seq<Seq<char>> {
    seq![
        "RQMD_INDEX_PATH"@,
        "RQMD_CONFIG_DIR"@,
        "RQMD_CACHE_DIR"@,
        "XDG_CONFIG_HOME"@,
        "XDG_CACHE_HOME"@,
        "RQMD_EDITOR_URI"@,
        "RQMD_SKILLS_DIR"@,
        "NO_COLOR"@,
        "CI"@,
        "HF_ENDPOINT"@,
        "WSL_DISTRO_NAME"@,
        "WSL_INTEROP"@,
    ]
}

/// Each of the other variables that is set is reported, under its name and with its value.
pub proof fn law_every_other_setting_is_reported(
    resolved: ResolvedModels,
    configured: Option<ModelResolutionConfig>,
    env: Seq<EnvVar>,
    i: int,
)
    requires
        0 <= i < other_settings().len(),
    ensures
        chars::non_blank(value_of(env, other_settings()[i])) matches Some(raw) ==> exists|j: int|
            0 <= j < all_reported(environment_rows(resolved, configured), env).len() && {
                let o = #[trigger] all_reported(environment_rows(resolved, configured), env)[j];
                o.0 == other_settings()[i] && o.1 == shown_value(raw)
            },
{
    let rows = environment_rows(resolved, configured);
    let all = all_reported(rows, env);
    let k = if i < 5 {
        i
    } else {
        i + 17
    };
    assert(row_name(rows[k]) == other_settings()[i]);
    law_set_variables_are_reported(rows, env, k);
    if chars::non_blank(value_of(env, other_settings()[i])) is Some {
        let o = reported(rows[k], env)->0;
        let j = choose|j: int| 0 <= j < all.len() && all[j] == o;
        assert(all[j].0 == other_settings()[i]);
    }
}

/// Which rows are reported.
pub open spec fn are_reported(rows: Seq<RowModel>, env: Seq<EnvVar>) -> Seq<bool> {
    Seq::new(rows.len(), |i: int| reported(rows[i], env) is Some)
}

proof fn lemma_reported_picks(rows: Seq<RowModel>, env: Seq<EnvVar>) -> (at: Seq<int>)
    ensures
        lists::picks(at, are_reported(rows, env)),
        all_reported(rows, env) == Seq::new(at.len(), |k: int| reported(rows[at[k]], env)->0),
    decreases rows.len(),
{
    let keep = are_reported(rows, env);
    if rows.len() == 0 {
        assert(all_reported(rows, env) =~= Seq::new(0, |k: int| reported(rows[k], env)->0));
        Seq::empty()
    } else {
        let b = rows.drop_last();
        let at = lemma_reported_picks(b, env);
        assert(keep.drop_last() =~= are_reported(b, env));
        lists::lemma_picks_step(at, keep);
        assert forall|k: int| 0 <= k < at.len() implies #[trigger] b[at[k]] == rows[at[k]] by {
            assert(0 <= at[k] < are_reported(b, env).len());
        }
        let next = if keep.last() {
            at.push(rows.len() - 1)
        } else {
            at
        };
        assert(all_reported(rows, env) =~= Seq::new(
            next.len(),
            |k: int| reported(rows[next[k]], env)->0,
        ));
        next
    }
}

/// What is reported is what there is to report of each row, once and in order, and nothing else.
pub proof fn law_reports_follow_the_table(rows: Seq<RowModel>, env: Seq<EnvVar>)
    ensures
        exists|at: Seq<int>| #[trigger]
            lists::picks(at, are_reported(rows, env)) && all_reported(rows, env) == Seq::new(
                at.len(),
                |k: int| reported(rows[at[k]], env)->0,
            ),
{
    let at = lemma_reported_picks(rows, env);
    assert(lists::picks(at, are_reported(rows, env)));
}

/// What is configured for the GPU is said to be forced exactly where the processor is forced;
/// else it is the setting without white space at its ends, or `auto` where that is blank.
pub proof fn law_mode_is_what_is_configured(force_cpu: Option<Seq<char>>, raw: Seq<char>)
    ensures
        gpu::forces_cpu(force_cpu) ==> mode_text(force_cpu, Some(raw))
            == "CPU forced (RQMD_FORCE_CPU)"@ && gpu::gpu_mode(Some(raw), force_cpu)
            == gpu::LlamaGpuMode::Off,
        !gpu::forces_cpu(force_cpu) && chars::trimmed(raw).len() > 0 ==> mode_text(
            force_cpu,
            Some(raw),
        ) == chars::trimmed(raw),
        !gpu::forces_cpu(force_cpu) && chars::trimmed(raw).len() == 0 ==> mode_text(
            force_cpu,
            Some(raw),
        ) == "auto"@,
        !gpu::forces_cpu(force_cpu) ==> mode_text(force_cpu, None) == "auto"@,
{
}

/// Each of the models in use is listed, and said to be used for what it is used for and for
/// nothing else.
pub proof fn law_models_are_listed_with_their_uses(resolved: ResolvedModels)
    ensures
        forall|i: int|
            0 <= i < roles(resolved).len() ==> {
                let r = #[trigger] roles(resolved)[i];
                &&& r.1 == (r.0 == resolved.embed@)
                &&& r.2 == (r.0 == resolved.generate@)
                &&& r.3 == (r.0 == resolved.rerank@)
                &&& r.1 || r.2 || r.3
            },
        roles(resolved)[0].0 == resolved.embed@,
        exists|i: int|
            0 <= i < roles(resolved).len() && (#[trigger] roles(resolved)[i]).0
                == resolved.generate@,
        exists|i: int|
            0 <= i < roles(resolved).len() && (#[trigger] roles(resolved)[i]).0 == resolved.rerank@,
{
    let s = seq![resolved.embed@, resolved.generate@, resolved.rerank@];
    let d = lists::distinct(s);
    lists::lemma_distinct(s);
    assert(s[0] == resolved.embed@ && s[1] == resolved.generate@ && s[2] == resolved.rerank@);
    assert forall|i: int| 0 <= i < roles(resolved).len() implies {
        let r = #[trigger] roles(resolved)[i];
        r.1 || r.2 || r.3
    } by {
        assert(d.contains(d[i]));
        assert(s.contains(d[i]));
        let k = choose|k: int| 0 <= k < s.len() && s[k] == d[i];
        assert(k == 0 || k == 1 || k == 2);
    }
    assert(s.contains(s[1]) && s.contains(s[2]));
    assert(d.contains(s[1]) && d.contains(s[2]));
    let g = choose|g: int| 0 <= g < d.len() && d[g] == s[1];
    assert(roles(resolved)[g].0 == resolved.generate@);
    let k = choose|k: int| 0 <= k < d.len() && d[k] == s[2];
    assert(roles(resolved)[k].0 == resolved.rerank@);
    lists::lemma_distinct_grows(s, 1);
    assert(s.take(1) =~= seq![resolved.embed@]);
    assert(seq![resolved.embed@].drop_last() =~= Seq::empty());
    reveal_with_fuel(lists::distinct, 2);
    assert(lists::distinct(s.take(1)) =~= seq![resolved.embed@]);
    assert(d.take(1)[0] == d[0]);
}

/// These words, in whatever case and with white space around them, keep the devices from being
/// probed, and no other setting does.
pub proof fn law_words_that_skip_the_probe(raw: Seq<char>)
    ensures
        skips_probe(Some(raw)) <==> {
            let s = chars::ascii_lowered(chars::trimmed(raw));
            s == "0"@ || s == "false"@ || s == "off"@ || s == "no"@ || s == "skip"@
        },
        !skips_probe(None),
{
}

/// What probing gave is reported unless it is skipped: the devices, or the error.
pub proof fn law_probe_is_reported(
    mode: Seq<char>,
    skipped: bool,
    probe: Result<Vec<DeviceInfo>, String>,
    r: DeviceReport,
)
    requires
        reports_devices(mode, skipped, probe, r),
    ensures
        !skipped ==> (probe matches Ok(devices) ==> r.devices@ == devices@),
        !skipped && probe is Ok ==> r.device_probe_error is None,
        !skipped ==> (probe matches Err(e) ==> r.device_probe_error == Some(e)),
        skipped ==> r.devices@.len() == 0 && r.device_probe_error is None,
        r.device_probe_skipped == skipped,
        r.device_mode@ == mode,
{
}

/// A chunk is named by its hash and its position.
pub proof fn law_chunks_are_named_by_hash_and_position(hash: Seq<char>, seq: int, other: int)
    ensures
        search::begins_with(chunk_name(hash, seq), hash + "_"@),
        seq >= 0 && other >= 0 && chunk_name(hash, seq) == chunk_name(hash, other) ==> seq == other,
{
    let head = hash + "_"@;
    search::lemma_begins_longer(head, number::signed_decimal(seq), head);
    if seq >= 0 && other >= 0 && chunk_name(hash, seq) == chunk_name(hash, other) {
        let (a, b) = (number::decimal(seq as nat), number::decimal(other as nat));
        assert(chunk_name(hash, seq).skip(head.len() as int) =~= a);
        assert(chunk_name(hash, other).skip(head.len() as int) =~= b);
        number::law_numeral_stands_for_its_number(seq as nat);
        number::law_numeral_stands_for_its_number(other as nat);
    }
}

/// Old embeddings are adopted exactly where the sample could be embedded and the nearest vector is
/// its own and no farther than a ten-thousandth; a nearer one does no less.
pub proof fn law_adoption_needs_the_own_vector_nearby(
    v: AdoptionVerdict,
    expected: Seq<char>,
    embedded: bool,
    nearest: NearestVector,
    nearer: NearestVector,
)
    requires
        v.decides(expected, embedded, Some(nearest)),
    ensures
        v.adopt <==> embedded && nearest.hash_seq@ == expected && !float_order::greater(
            nearest.distance_bits,
            0x3f1a_36e2_eb1c_432d,
        ),
        embedded ==> v.distance_bits == nearest.distance_bits,
        v.adopt && nearer.hash_seq@ == nearest.hash_seq@ && nearer.distance_bits
            <= nearest.distance_bits <= 0x7ff0_0000_0000_0000 ==> reproduces(expected, nearer),
        v.adopt ==> v.reason@ == "sample "@ + expected
            + " matched current fingerprint at distance "@ + nearest.distance@,
{
    float_order::law_keys_order_as_numbers(nearer.distance_bits, nearest.distance_bits);
}

/// Without an embedding or a vector nothing is adopted, whatever else there is.
pub proof fn law_nothing_is_adopted_without_a_vector(
    v: AdoptionVerdict,
    expected: Seq<char>,
    nearest: Option<NearestVector>,
)
    ensures
        v.decides(expected, false, nearest) ==> !v.adopt && v.reason@
            == "failed to embed legacy sample"@,
        v.decides(expected, true, None) ==> !v.adopt && v.reason@
            == "legacy sample vector not found"@,
{
}

/// An adoption is reported exactly where the verdict is for it and rows were written, with their
/// number.
pub proof fn law_outcome_reports_what_was_written(
    o: LegacyAdoptionOutcome,
    model: String,
    fingerprint: Seq<char>,
    sample: String,
    verdict: AdoptionVerdict,
    rows: usize,
)
    requires
        o.reports(model, fingerprint, sample, verdict, rows),
    ensures
        o.adopted <==> o.adopted_rows > 0,
        o.adopted ==> verdict.adopt && o.adopted_rows == rows,
        verdict.adopt && rows > 0 ==> o.adopted,
        !verdict.adopt ==> o.adopted_rows == 0,
        o.reason@ == verdict.reason@,
        o.sample_distance_bits == verdict.distance_bits,
        o.model@ == model@,
        o.fingerprint@ == fingerprint,
{
}

/// A sample fits exactly where it could be compared and lies no farther than a ten-thousandth; so
/// a sample that lies nearer than one that fits fits too.
pub proof fn law_samples_fit_within_the_threshold(a: u64, b: u64, text: String)
    ensures
        failure_reason(SampleOutcome::Compared { distance_bits: a, distance: text }) is None
            <==> !float_order::greater(a, 0x3f1a_36e2_eb1c_432d),
        a <= b <= 0x7ff0_0000_0000_0000 && failure_reason(
            SampleOutcome::Compared { distance_bits: b, distance: text },
        ) is None ==> failure_reason(
            SampleOutcome::Compared { distance_bits: a, distance: text },
        ) is None,
        failure_reason(SampleOutcome::ChunkMissing) is Some,
        failure_reason(SampleOutcome::EmbedFailed) is Some,
        failure_reason(SampleOutcome::StoredMissing) is Some,
{
    float_order::law_keys_order_as_numbers(a, b);
}

/// Which samples do not fit.
pub open spec fn unfit(outcomes: Seq<SampleOutcome>) -> Seq<bool> {
    Seq::new(outcomes.len(), |i: int| failure_reason(outcomes[i]) is Some)
}

proof fn lemma_failures_picks(samples: Seq<ChunkRef>, outcomes: Seq<SampleOutcome>) -> (at: Seq<
    int,
>)
    requires
        samples.len() == outcomes.len(),
    ensures
        lists::picks(at, unfit(outcomes)),
        sample_failures(samples, outcomes) == Seq::new(
            at.len(),
            |k: int|
                (
                    chunk_name(samples[at[k]].hash@, samples[at[k]].seq as int),
                    failure_reason(outcomes[at[k]])->0,
                ),
        ),
    decreases samples.len(),
{
    let keep = unfit(outcomes);
    if samples.len() == 0 {
        assert(sample_failures(samples, outcomes) =~= Seq::new(
            0,
            |k: int|
                (
                    chunk_name(samples[k].hash@, samples[k].seq as int),
                    failure_reason(outcomes[k])->0,
                ),
        ));
        Seq::empty()
    } else {
        let s = samples.drop_last();
        let o = outcomes.drop_last();
        let at = lemma_failures_picks(s, o);
        assert(keep.drop_last() =~= unfit(o));
        lists::lemma_picks_step(at, keep);
        assert forall|k: int| 0 <= k < at.len() implies #[trigger] s[at[k]] == samples[at[k]]
            && o[at[k]] == outcomes[at[k]] by {
            assert(0 <= at[k] < unfit(o).len());
        }
        let next = if keep.last() {
            at.push(samples.len() - 1)
        } else {
            at
        };
        assert(sample_failures(samples, outcomes) =~= Seq::new(
            next.len(),
            |k: int|
                (
                    chunk_name(samples[next[k]].hash@, samples[next[k]].seq as int),
                    failure_reason(outcomes[next[k]])->0,
                ),
        ));
        next
    }
}

/// The samples that do not fit are listed, each once and in order, and those that fit are counted:
/// together they are all that were looked at, which are the first three at most.
pub proof fn law_samples_fit_or_are_listed(
    active: i64,
    samples: Seq<ChunkRef>,
    outcomes: Seq<SampleOutcome>,
    r: VectorSampleStatus,
)
    requires
        active != 0,
        samples.len() > 0,
        samples.len() == outcomes.len(),
        check_result(active, true, true, samples, outcomes, r),
    ensures
        r matches VectorSampleStatus::Sampled { sampled, passed, failures } && sampled == (
        if samples.len() < 3 {
            samples.len() as int
        } else {
            3
        }) && passed + failures@.len() == sampled && exists|at: Seq<int>| #[trigger]
            lists::picks(at, unfit(outcomes.take(sampled as int))) && failures@.len() == at.len()
                && forall|k: int|
                0 <= k < at.len() ==> (#[trigger] failures@[k])@ == (
                    chunk_name(samples[at[k]].hash@, samples[at[k]].seq as int),
                    failure_reason(outcomes[at[k]])->0,
                ),
{
    let n = looked_at(samples.len());
    let s = samples.take(n as int);
    let o = outcomes.take(n as int);
    let at = lemma_failures_picks(s, o);
    assert(lists::picks(at, unfit(o)));
    if let VectorSampleStatus::Sampled { sampled, passed, failures } = r {
        assert(failure_views(failures@).len() == failures@.len());
        assert forall|k: int| 0 <= k < at.len() implies (#[trigger] failures@[k])@ == (
            chunk_name(samples[at[k]].hash@, samples[at[k]].seq as int),
            failure_reason(outcomes[at[k]])->0,
        ) by {
            assert(0 <= at[k] < unfit(o).len());
            assert(failure_views(failures@)[k] == failures@[k]@);
            assert(s[at[k]] == samples[at[k]] && o[at[k]] == outcomes[at[k]]);
        }
    }
}

} // verus!
