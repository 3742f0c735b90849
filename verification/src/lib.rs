//! Helios Engine: the verified core of an LLM agent framework.
#![verifier::loop_isolation(false)]

pub mod agent;
pub mod auto_forest;
pub mod builtin_tools;
pub mod chat;
pub mod collab;
pub mod config;
pub mod clock;
pub mod endpoint_builder;
pub mod error;
pub mod file_tools;
pub mod forest;
pub mod forest_tools;
pub mod json;
pub mod json_tool;
pub mod llm;
pub mod memory_db;
pub mod rag;
pub mod strmap;
pub mod text;
pub mod text_tool;
pub mod thinking;
pub mod timestamp;
pub mod tool_builder;
pub mod tools;
pub mod web_tools;
