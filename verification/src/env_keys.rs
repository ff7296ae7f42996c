//! The names of the environment variables.
use vstd::prelude::*;

verus! {

pub const EMBED_MODEL: &'static str = "RQMD_EMBED_MODEL";

pub const GENERATE_MODEL: &'static str = "RQMD_GENERATE_MODEL";

pub const RERANK_MODEL: &'static str = "RQMD_RERANK_MODEL";

pub const FORCE_CPU: &'static str = "RQMD_FORCE_CPU";

pub const LLAMA_GPU: &'static str = "RQMD_LLAMA_GPU";

pub const DOCTOR_DEVICE_PROBE: &'static str = "RQMD_DOCTOR_DEVICE_PROBE";

pub const EMBED_PARALLELISM: &'static str = "RQMD_EMBED_PARALLELISM";

pub const RERANK_PARALLELISM: &'static str = "RQMD_RERANK_PARALLELISM";

pub const EMBED_CONTEXT_SIZE: &'static str = "RQMD_EMBED_CONTEXT_SIZE";

pub const RERANK_CONTEXT_SIZE: &'static str = "RQMD_RERANK_CONTEXT_SIZE";

pub const EXPAND_CONTEXT_SIZE: &'static str = "RQMD_EXPAND_CONTEXT_SIZE";

pub const EXPAND_USER_MESSAGE_PREFIX: &'static str = "RQMD_EXPAND_USER_MESSAGE_PREFIX";

pub const EXPAND_SYSTEM_MESSAGE: &'static str = "RQMD_EXPAND_SYSTEM_MESSAGE";

pub const EXPAND_FALLBACK_HYDE_TEMPLATE: &'static str = "RQMD_EXPAND_FALLBACK_HYDE_TEMPLATE";

pub const EXPAND_TEMP: &'static str = "RQMD_EXPAND_TEMP";

pub const EXPAND_TOP_K: &'static str = "RQMD_EXPAND_TOP_K";

pub const EXPAND_TOP_P: &'static str = "RQMD_EXPAND_TOP_P";

} // verus!
