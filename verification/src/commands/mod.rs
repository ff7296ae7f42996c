//! The decisions and the output of the command-line subcommands.

pub mod bench;
pub mod cleanup;
pub mod embed;
pub mod get;
pub mod ls;
pub mod mcp;
pub mod pull;
pub mod query;
pub mod search;
pub mod status;
pub mod structured;
pub mod vsearch;
