//! Patterns that structural, graph, dependency and architecture queries
//! match documents against.
use vstd::prelude::*;

verus! {

/// A code pattern for structural queries.
#[derive(Debug, Clone)]
pub enum StructPattern {
    /// A function or method definition.
    Function { name: Option<String> },
    /// A class or struct definition.
    Class { name: Option<String> },
    /// An interface or trait definition.
    Interface { name: Option<String> },
    /// Any symbol of the given kind.
    Symbol { kind: String, name: Option<String> },
    /// A call expression.
    Call { name: Option<String> },
    /// An import statement.
    Import { source: Option<String> },
}

/// A pattern for graph queries.
#[derive(Debug)]
pub enum GraphPattern {
    /// Nodes by name.
    Node { name: String, kind: Option<String> },
    /// Edges between nodes that patterns match.
    Edge { source: Box<GraphPattern>, target: Box<GraphPattern>, kind: Option<String> },
    /// Paths between two nodes.
    Path { from: Box<GraphPattern>, to: Box<GraphPattern>, max_depth: usize },
    /// The neighbours of a node.
    Neighbors { node: Box<GraphPattern>, depth: usize },
    /// A subgraph.
    Subgraph(Vec<GraphPattern>),
}

/// A query over package dependencies.
#[derive(Debug, Clone)]
pub enum DependencyQuery {
    /// The dependents of a package.
    Dependents { name: String, ecosystem: Option<String> },
    /// The dependencies of a package.
    Dependencies { name: String, ecosystem: Option<String> },
    /// Transitive dependencies, up to a depth.
    Transitive { name: String, ecosystem: Option<String>, max_depth: usize },
    /// Every package of an ecosystem.
    Ecosystem(String),
}

/// A query over the architecture of a code base.
#[derive(Debug, Clone)]
pub enum ArchQuery {
    /// Modules under a path.
    Module { path: String },
    /// Packages by name.
    Package { name: String },
    /// A namespace or workspace.
    Workspace { name: String },
    /// The files of a directory.
    Directory { path: String },
}

} // verus!
