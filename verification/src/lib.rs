//! Orchestration core of a conversational agent: conversation bookkeeping,
//! the JSON-RPC session with external tool servers, tool-name routing and the
//! text formats exchanged with the model.

pub mod agent;
pub mod api;
pub mod codec;
pub mod config;
pub mod conversation;
pub mod json;
pub mod mcp;
pub mod skills;
pub mod tasks;
pub mod text;
pub mod tools;
pub mod tui;
