//! Whether the GPU is used, and how many contexts run side by side.
use vstd::prelude::*;

use crate::text::{chars, number};
use crate::text::chars::{ascii_lower_text, chars_of, same_text, to_ascii_lower, trim};
use crate::text::number::parse_unsigned;

verus! {

/// What is done with the GPU.
#[derive(Clone, Copy, Debug, PartialEq, Eq, Structural)]
pub enum LlamaGpuMode {
    /// The GPU is used where the program was built for one.
    Auto,
    /// The GPU is not used.
    Off,
}

/// Whether a text in lower case means "off".
pub open spec fn is_off(s: Seq<char>) -> bool {
    s == "false"@ || s == "off"@ || s == "none"@ || s == "disable"@ || s == "disabled"@ || s == "0"@
}

/// Whether a text in lower case means "off".
pub fn means_off(s: &str) -> (r: bool)
    ensures
        r == is_off(s@),
{
    same_text(s, "false") || same_text(s, "off") || same_text(s, "none") || same_text(s, "disable")
        || same_text(s, "disabled") || same_text(s, "0")
}

/// A setting without white space at its ends, with small letters for ASCII capitals.
pub open spec fn normal_setting(s: Seq<char>) -> Seq<char> {
    chars::ascii_lowered(chars::trimmed(s))
}

/// A setting without white space at its ends, with small letters for ASCII capitals. The words
/// for "off" and "auto" have no letter that is the small form of any character but its own
/// capital.
pub fn normalize_setting(s: &str) -> (r: String)
    ensures
        r@ == normal_setting(s@),
{
    ascii_lower_text(trim(s).as_str())
}

/// Whether `RQMD_FORCE_CPU` keeps the GPU off: it is set to anything that does not mean "off".
pub open spec fn forces_cpu(force_cpu: Option<Seq<char>>) -> bool {
    match force_cpu {
        Some(raw) => normal_setting(raw).len() > 0 && !is_off(normal_setting(raw)),
        None => false,
    }
}

/// Whether `RQMD_FORCE_CPU` keeps the GPU off.
pub fn cpu_forced(force_cpu: Option<&str>) -> (r: bool)
    ensures
        r == forces_cpu(chars::opt_text(force_cpu)),
{
    match force_cpu {
        Some(raw) => {
            let s: String = normalize_setting(raw);
            !s.as_str().is_empty() && !means_off(s.as_str())
        },
        None => false,
    }
}

/// What is done with the GPU.
pub open spec fn gpu_mode(gpu: Option<Seq<char>>, force_cpu: Option<Seq<char>>) -> LlamaGpuMode {
    if forces_cpu(force_cpu) {
        LlamaGpuMode::Off
    } else {
        match gpu {
            Some(raw) => if is_off(normal_setting(raw)) {
                LlamaGpuMode::Off
            } else {
                LlamaGpuMode::Auto
            },
            None => LlamaGpuMode::Auto,
        }
    }
}

/// What is done with the GPU: `RQMD_FORCE_CPU` keeps it off; else it is off where
/// `RQMD_LLAMA_GPU` means "off", and used where it says anything else or nothing.
pub fn resolve_llama_gpu_mode(gpu_env: Option<&str>, force_cpu_env: Option<&str>) -> (m:
    LlamaGpuMode)
    ensures
        m == gpu_mode(chars::opt_text(gpu_env), chars::opt_text(force_cpu_env)),
{
    if cpu_forced(force_cpu_env) {
        return LlamaGpuMode::Off;
    }
    match gpu_env {
        Some(raw) => if means_off(normalize_setting(raw).as_str()) {
            LlamaGpuMode::Off
        } else {
            LlamaGpuMode::Auto
        },
        None => LlamaGpuMode::Auto,
    }
}

/// A character in lower case, as far as the names of backends go: the Kelvin sign is a capital
/// `k` too.
pub open spec fn small(c: char) -> char {
    if c == '\u{212A}' {
        'k'
    } else {
        chars::ascii_lower(c)
    }
}

/// A setting without white space at its ends, in lower case as far as the names of backends go.
pub open spec fn named_backend(raw: Seq<char>) -> Seq<char> {
    let t = chars::trimmed(raw);
    Seq::new(t.len(), |i: int| small(t[i]))
}

/// Whether a text is the name of a backend.
pub open spec fn is_backend(s: Seq<char>) -> bool {
    s == "metal"@ || s == "vulkan"@ || s == "cuda"@
}

/// What is to be said against `RQMD_LLAMA_GPU`: nothing where the processor is forced or the
/// setting is blank, `auto` or a word for "off"; that backends are chosen at build time where it
/// names one; else that it is invalid.
pub open spec fn gpu_warning(gpu: Option<Seq<char>>, force_cpu: Option<Seq<char>>) -> Option<
    Seq<char>,
> {
    match gpu {
        Some(raw) => {
            let s = normal_setting(raw);
            if forces_cpu(force_cpu) || s.len() == 0 || s == "auto"@ || is_off(s) {
                None
            } else if is_backend(named_backend(raw)) {
                Some(
                    "RQMD_LLAMA_GPU=\""@ + raw
                        + "\" requests runtime backend selection, but llama-cpp-2 chooses backends at compile time. Rebuild with `cargo --features rqmd-core/"@
                        + named_backend(raw) + "` instead. Treating this as `auto`."@,
                )
            } else {
                Some("invalid RQMD_LLAMA_GPU=\""@ + raw + "\"; falling back to auto"@)
            }
        },
        None => None,
    }
}

fn backend_name(raw: &str) -> (s: String)
    ensures
        s@ == named_backend(raw@),
{
    let v: Vec<char> = chars_of(trim(raw).as_str());
    let mut s: String = String::new();
    for i in 0..v.len()
        invariant
            v@ == chars::trimmed(raw@),
            s@ =~= named_backend(raw@).take(i as int),
    {
        s.push(
            if v[i] == '\u{212A}' {
                'k'
            } else {
                to_ascii_lower(v[i])
            },
        );
    }
    s
}

/// What is to be said against `RQMD_LLAMA_GPU`.
pub fn gpu_setting_warning(gpu_env: Option<&str>, force_cpu_env: Option<&str>) -> (r: Option<String>)
    ensures
        chars::opt_string(r) == gpu_warning(
            chars::opt_text(gpu_env),
            chars::opt_text(force_cpu_env),
        ),
{
    match gpu_env {
        Some(raw) => {
            let s: String = normalize_setting(raw);
            if cpu_forced(force_cpu_env) || s.as_str().is_empty() || same_text(s.as_str(), "auto")
                || means_off(s.as_str()) {
                return None;
            }
            let backend: String = backend_name(raw);
            let known: bool = same_text(backend.as_str(), "metal") || same_text(
                backend.as_str(),
                "vulkan",
            ) || same_text(backend.as_str(), "cuda");
            if known {
                let mut t: String = "RQMD_LLAMA_GPU=\"".to_owned();
                t.append(raw);
                t.append(
                    "\" requests runtime backend selection, but llama-cpp-2 chooses backends at compile time. Rebuild with `cargo --features rqmd-core/",
                );
                t.append(backend.as_str());
                t.append("` instead. Treating this as `auto`.");
                Some(t)
            } else {
                let mut t: String = "invalid RQMD_LLAMA_GPU=\"".to_owned();
                t.append(raw);
                t.append("\"; falling back to auto");
                Some(t)
            }
        },
        None => None,
    }
}

/// How many layers of a model go to the GPU: none, or more than any model has.
pub fn gpu_layers(mode: LlamaGpuMode) -> (n: u32)
    ensures
        n == match mode {
            LlamaGpuMode::Off => 0u32,
            LlamaGpuMode::Auto => 1000u32,
        },
{
    match mode {
        LlamaGpuMode::Off => 0,
        LlamaGpuMode::Auto => 1000,
    }
}

/// How many contexts a setting asks for, between one and eight; none where it is no positive
/// number.
pub open spec fn parallelism_override(env: Option<&str>) -> Option<nat> {
    match env {
        Some(raw) => match number::parsed(chars::trimmed(raw@), usize::MAX as nat) {
            Some(n) if n >= 1 => Some(
                if n > 8 {
                    8
                } else {
                    n
                },
            ),
            _ => None,
        },
        None => None,
    }
}

/// How many contexts a setting asks for, between one and eight.
pub fn resolve_parallelism_override(env_value: Option<&str>) -> (r: Option<usize>)
    ensures
        match r {
            Some(n) => parallelism_override(env_value) == Some(n as nat),
            None => parallelism_override(env_value) is None,
        },
{
    match env_value {
        Some(raw) => match parse_unsigned(trim(raw).as_str(), usize::MAX as u64) {
            Some(n) => if n > 8 {
                Some(8)
            } else if n >= 1 {
                Some(n as usize)
            } else {
                None
            },
            None => None,
        },
        None => None,
    }
}

/// What is to be said against a setting for the number of contexts: that it is invalid, where it
/// is neither blank nor a positive number.
pub open spec fn parallelism_complaint(env: Option<&str>) -> Option<Seq<char>> {
    match env {
        Some(raw) => if chars::trimmed(raw@).len() > 0 && parallelism_override(env) is None {
            Some(
                "invalid RQMD_EMBED_PARALLELISM=\""@ + raw@
                    + "\", using automatic parallelism"@,
            )
        } else {
            None
        },
        None => None,
    }
}

/// What is to be said against a setting for the number of contexts.
pub fn parallelism_warning(env_value: Option<&str>) -> (r: Option<String>)
    ensures
        chars::opt_string(r) == parallelism_complaint(env_value),
{
    match env_value {
        Some(raw) => if !trim(raw).as_str().is_empty() && resolve_parallelism_override(
            env_value,
        ).is_none() {
            let mut t: String = "invalid RQMD_EMBED_PARALLELISM=\"".to_owned();
            t.append(raw);
            t.append("\", using automatic parallelism");
            Some(t)
        } else {
            None
        },
        None => None,
    }
}

/// What the number of contexts depends on.
#[derive(Clone, Copy, Debug)]
pub struct ParallelismOptions<'a> {
    /// The setting of the environment.
    pub env_value: Option<&'a str>,
    /// The number that the machine allows for.
    pub computed: usize,
    /// Whether only one context can run.
    pub serialize_windows_cuda: bool,
}

/// How many contexts run side by side: what the setting asks for; else one where only one can
/// run; else the computed number, and at least one.
pub open spec fn safe_parallelism(opts: ParallelismOptions<'_>) -> nat {
    match parallelism_override(opts.env_value) {
        Some(n) => n,
        None => if opts.serialize_windows_cuda || opts.computed == 0 {
            1
        } else {
            opts.computed as nat
        },
    }
}

/// How many contexts run side by side.
pub fn resolve_safe_parallelism(opts: ParallelismOptions<'_>) -> (n: usize)
    ensures
        n == safe_parallelism(opts),
{
    match resolve_parallelism_override(opts.env_value) {
        Some(n) => n,
        None => if opts.serialize_windows_cuda || opts.computed == 0 {
            1
        } else {
            opts.computed
        },
    }
}

/// Whether only one context can run: on Windows with CUDA.
pub fn windows_cuda_serialization_required(windows: bool, cuda: bool) -> (r: bool)
    ensures
        r == (windows && cuda),
{
    windows && cuda
}

// Laws.

/// There is always at least one context, and no setting asks for more than eight.
pub proof fn law_parallelism_is_bounded(opts: ParallelismOptions<'_>)
    ensures
        safe_parallelism(opts) >= 1,
        parallelism_override(opts.env_value) is Some ==> 1 <= safe_parallelism(opts) <= 8,
        opts.computed <= 8 ==> safe_parallelism(opts) <= 8,
{
}

/// A setting that is warned of changes nothing: it is taken for `auto`.
pub proof fn law_warned_settings_are_auto(gpu: Option<Seq<char>>, force_cpu: Option<Seq<char>>)
    requires
        gpu_warning(gpu, force_cpu) is Some,
    ensures
        gpu_mode(gpu, force_cpu) == gpu_mode(None, force_cpu),
        gpu_mode(gpu, force_cpu) == LlamaGpuMode::Auto,
{
}

/// A setting for the number of contexts that is warned of counts as none.
pub proof fn law_warned_parallelism_is_automatic(env: Option<&str>)
    requires
        parallelism_complaint(env) is Some,
    ensures
        parallelism_override(env) is None,
{
}

/// A word that means "off" does not force the processor.
pub proof fn law_off_words_do_not_force_the_cpu(raw: Seq<char>)
    requires
        is_off(normal_setting(raw)),
    ensures
        !forces_cpu(Some(raw)),
{
}

/// The words that keep the GPU off, in whatever case and with white space around them, are these,
/// and any other setting leaves it on.
pub proof fn law_words_that_mean_off(raw: Seq<char>, force_cpu: Seq<char>)
    ensures
        gpu_mode(Some(raw), None) == LlamaGpuMode::Off <==> {
            let s = chars::ascii_lowered(chars::trimmed(raw));
            s == "false"@ || s == "off"@ || s == "none"@ || s == "disable"@ || s == "disabled"@ || s
                == "0"@
        },
        gpu_mode(None, None) == LlamaGpuMode::Auto,
        ({
            let s = chars::ascii_lowered(chars::trimmed(force_cpu));
            let off = s == "false"@ || s == "off"@ || s == "none"@ || s == "disable"@ || s
                == "disabled"@ || s == "0"@;
            &&& s.len() > 0 && !off ==> gpu_mode(Some(raw), Some(force_cpu)) == LlamaGpuMode::Off
            &&& s.len() == 0 || off ==> gpu_mode(Some(raw), Some(force_cpu)) == gpu_mode(
                Some(raw),
                None,
            )
        }),
{
}

/// A setting that names a backend is answered by how to build for it, and any other that is not
/// blank, `auto` or a word for "off" as invalid; where the processor is forced nothing is said.
pub proof fn law_unknown_settings_are_warned_of(raw: Seq<char>, force_cpu: Option<Seq<char>>)
    requires
        gpu_mode(Some(raw), None) == LlamaGpuMode::Auto,
        chars::ascii_lowered(chars::trimmed(raw)).len() > 0,
        chars::ascii_lowered(chars::trimmed(raw)) != "auto"@,
    ensures
        gpu_warning(Some(raw), None) is Some,
        force_cpu is Some && gpu_mode(None, force_cpu) == LlamaGpuMode::Off ==> gpu_warning(
            Some(raw),
            force_cpu,
        ) is None,
        !is_backend(named_backend(raw)) ==> gpu_warning(Some(raw), None) == Some(
            "invalid RQMD_LLAMA_GPU=\""@ + raw + "\"; falling back to auto"@,
        ),
{
}

/// A setting for the number of contexts that is written as a positive numeral counts, up to
/// eight; a zero counts as none, and without a setting it is the computed number, but one where
/// that is zero or only one context can run.
pub proof fn law_written_parallelism_counts(raw: &str, n: nat, computed: usize)
    requires
        chars::trimmed(raw@) == number::decimal(n),
        n <= usize::MAX,
    ensures
        n >= 8 ==> parallelism_override(Some(raw)) == Some(8nat),
        1 <= n <= 8 ==> parallelism_override(Some(raw)) == Some(n),
        n == 0 ==> parallelism_override(Some(raw)) is None,
        parallelism_override(None) is None,
        computed > 0 ==> safe_parallelism(
            ParallelismOptions { env_value: None, computed, serialize_windows_cuda: false },
        ) == computed,
        safe_parallelism(
            ParallelismOptions { env_value: None, computed, serialize_windows_cuda: true },
        ) == 1,
        1 <= n <= 8 ==> safe_parallelism(
            ParallelismOptions { env_value: Some(raw), computed, serialize_windows_cuda: true },
        ) == n,
{
    number::law_numerals_read_back(n, usize::MAX as nat);
}

} // verus!
