//! Repository intelligence, content processors and query tooling, verified with Verus.
pub mod analysis;
pub mod bytes;
pub mod json;
pub mod language;
pub mod observation;
pub mod parser;
pub mod processors;
pub mod repo_intel;
pub mod search;
pub mod sorted;
pub mod sources;
pub mod tdxl;
pub mod temporal;
pub mod text;
