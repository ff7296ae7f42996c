pub mod bench;
pub mod cli;
pub mod collection_filter;
pub mod collections;
pub mod color;
pub mod commands;
pub mod db;
pub mod doctor;
pub mod env_keys;
pub mod float_order;
pub mod json;
pub mod lists;
pub mod llm;
pub mod output;
pub mod paths;
pub mod ranking;
pub mod rqmd_store;
pub mod search_view;
pub mod snippet;
pub mod state;
pub mod store;
pub mod store_ops;
pub mod text;
pub mod virtual_path;
