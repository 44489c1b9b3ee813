//! Bitcoin Core RPC calls carried as MCP tool calls.

pub mod api;
pub mod args;
pub mod blockchain_info;
pub mod call;
pub mod chain;
pub mod client;
pub mod error;
pub mod json;
pub mod laws;
pub mod settings;
pub mod softfork;
pub mod text;
pub mod tools;
pub mod wire;
