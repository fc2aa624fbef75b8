//! Core logic of an EVM transaction debugger.
pub mod text;
pub mod types;
pub mod session;
pub mod rpc_url;
pub mod tx_hash;
pub mod trace_cache;
pub mod errors;
pub mod deps;
pub mod inspector;
pub mod executor;
pub mod settings;
