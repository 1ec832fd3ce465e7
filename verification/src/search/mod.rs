//! The intelligence search engine: documents, the patterns queries match,
//! and the query algebra that combines them.
pub mod documents;
pub mod patterns;
pub mod engine;
pub mod laws;
pub mod strategies;
