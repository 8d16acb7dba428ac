//! Verified core of an AI-companion memory backend: hybrid retrieval and
//! fusion of semantic and lexical search results, a content-hash keyed
//! embedding cache with expiry, mental-state bookkeeping, and the decision
//! logic of the background tick scheduler.

pub mod agent;
pub mod backup;
pub mod chunking;
pub mod codec;
pub mod context;
pub mod embedding;
pub mod extract;
pub mod hashing;
pub mod kvstore;
pub mod llm;
pub mod memory;
pub mod models;
pub mod retrieval;
pub mod session;
pub mod state;
pub mod text;
pub mod tick;
