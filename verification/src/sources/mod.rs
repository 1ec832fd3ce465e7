//! The source registry: what the platform collects from, the checks a
//! submitted source passes, and the answers of its HTTP interface.
pub mod api;
pub mod descriptor;
