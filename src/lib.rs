//! Memory and context management for AI agents: conversation logs, learned
//! memories with scoped retrieval, and context-budget accounting.
//!
//! The storage engines (files, the relational index, the vector index and the
//! embedding model) are driven by the host program; this library holds the
//! rules that decide what is stored, how records are framed, what a retrieval
//! returns and how a budget is judged.

pub mod error;
pub mod labels;
pub mod ident;
pub mod json;
pub mod memory;
pub mod time;
pub mod text;
pub mod message;
pub mod log;
pub mod retrieval;
pub mod config;
pub mod vector;
pub mod tokens;
pub mod meta;
pub mod shell;
pub mod gateway;
pub mod session;
