//! Verified core of the Wren overlay assistant: the rules that decide how a
//! chat turn is routed, sanitised, filtered and classified, how tool calls
//! are gated and how external payloads are validated.
pub mod text;
pub mod json;
pub mod chat;
pub mod tts;
pub mod voice;
pub mod model_pull;
pub mod search;
pub mod mcp;
pub mod tools;
pub mod ip_literal;
pub mod tool_loop;
pub mod store;
pub mod config;
