//! A temporal graph: nodes and edges that exist over time intervals, the
//! snapshots taken of it, the differences between snapshots, and the
//! counts that its evolution and forecasts are computed from.
pub mod interval;
pub mod graph;
pub mod diff;
pub mod history;
pub mod evolution;
pub mod prediction;
pub mod engine;
