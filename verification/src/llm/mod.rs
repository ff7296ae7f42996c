//! The language models: which are used and how they are asked.

pub mod config;
pub mod error;
pub mod format;
pub mod gpu;
pub mod llama_cpp;
pub mod prompt;
pub mod session;
pub mod singleton;
pub mod types;
pub mod worker;
