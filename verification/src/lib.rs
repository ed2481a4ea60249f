//! Retrieval-augmented chat engine: a vector document store with a lexical
//! fallback mode, a TTL-bounded search cache, bulk-ingestion accounting, and
//! session-aware chat-turn orchestration.
//!
//! Embeddings are fixed-point integer vectors of a fixed dimension, quantized
//! by the caller from whatever embedding model is in use; similarity is the
//! dot product, so ranking matches cosine order for unit-norm inputs.

use vstd::prelude::*;

pub mod access;
pub mod cache;
pub mod catalog;
pub mod chat;
pub mod engine;
pub mod errors;
pub mod ingest;
pub mod models;
pub mod outside;
pub mod rank;
pub mod store;
pub mod text;

pub mod laws;

verus! {

/// Largest embedding dimension the store accepts.
pub const DIM_MAX: usize = 4096;

/// Bound on the absolute value of each fixed-point embedding component.
pub const COMP_BOUND: i64 = 1000000;

/// Constant score attached to every hit of the lexical fallback search:
/// one half, in thousandths. Lexical scores are not comparable with the
/// dot-product scores of the vector mode.
pub const LEXICAL_SCORE: i64 = 500;

/// Default time-to-live of a cached search result, in seconds.
pub const DEFAULT_CACHE_TTL_SECS: i64 = 3600;

/// Number of knowledge chunks retrieved for one chat turn.
pub const TOP_K: usize = 3;

/// A new session's title is the message truncated to this many characters.
pub const TITLE_MAX_CHARS: usize = 30;

/// Seconds of validity of an authentication token.
pub const TOKEN_TTL_SECS: usize = 86400;

} // verus!
