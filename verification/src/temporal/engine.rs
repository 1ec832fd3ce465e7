//! The temporal graph engine: the current state, its history of
//! snapshots, and the predictor that learns from each snapshot taken.
use vstd::prelude::*;
use crate::temporal::evolution::EvolutionAnalyzer;
use crate::temporal::graph::{
    active_edges, active_nodes, copy_pairs, pairs_of, put_edge, EdgeModel, GraphSnapshot, GraphState,
    SnapshotModel, TemporalEdge,
};
use crate::temporal::history::{state_index, GraphHistory};
use crate::temporal::interval::{TimeInterval, Timestamp};
use crate::temporal::prediction::{observe_one, GraphPredictor};

verus! {

/// A relationship between two entities, seen from `first_seen` to
/// `last_seen`: what the engine reads of one.
#[derive(Debug)]
pub struct Relationship {
    pub id: String,
    pub kind: String,
    pub source_id: String,
    pub target_id: String,
    pub first_seen: Timestamp,
    pub last_seen: Timestamp,
    pub properties: Vec<(String, String)>,
}

/// The edge that a relationship becomes.
pub open spec fn relationship_edge(r: Relationship) -> EdgeModel {
    EdgeModel {
        id: r.id@,
        kind: r.kind@,
        source_id: r.source_id@,
        target_id: r.target_id@,
        interval: TimeInterval { start: r.first_seen, end: Some(r.last_seen) },
        properties: pairs_of(r.properties@),
    }
}

/// A temporal graph with its history.
#[derive(Debug)]
pub struct TemporalGraph {
    /// The current nodes and edges.
    pub state: GraphState,
    /// The snapshots taken so far.
    pub history: GraphHistory,
    /// Measures the evolution over the history.
    pub analyzer: EvolutionAnalyzer,
    /// Learns from each snapshot taken.
    pub predictor: GraphPredictor,
}

impl TemporalGraph {
    /// The state and the predictor are well formed.
    pub open spec fn wf(&self) -> bool {
        self.state.wf() && self.predictor.wf()
    }

    /// An empty graph with no history.
    pub fn new() -> (r: Self)
        ensures
            r.wf(),
            r.state@.nodes.len() == 0,
            r.state@.edges.len() == 0,
            r.history@.len() == 0,
            r.predictor@.total == 0,
    {
        TemporalGraph {
            state: GraphState::new(),
            history: GraphHistory::new(),
            analyzer: EvolutionAnalyzer::new(),
            predictor: GraphPredictor::new(),
        }
    }

    /// Adds a relationship as an edge over `[first_seen, last_seen)`,
    /// replacing the edge with its id.
    pub fn ingest_relationship(&mut self, rel: &Relationship)
        requires
            old(self).wf(),
        ensures
            final(self).wf(),
            final(self).state@.edges == put_edge(old(self).state@.edges, relationship_edge(*rel)),
            final(self).state@.nodes == old(self).state@.nodes,
            final(self).history@ == old(self).history@,
            final(self).predictor@ == old(self).predictor@,
    {
        let edge = TemporalEdge {
            id: rel.id.clone(),
            kind: rel.kind.clone(),
            source_id: rel.source_id.clone(),
            target_id: rel.target_id.clone(),
            interval: TimeInterval::bounded(rel.first_seen, rel.last_seen),
            properties: copy_pairs(&rel.properties),
        };
        self.state.add_edge(edge);
    }

    /// Takes a snapshot of the current state at `timestamp`, appends it to
    /// the history, and lets the predictor learn from it.
    pub fn snapshot(&mut self, timestamp: Timestamp)
        requires
            old(self).wf(),
            old(self).predictor@.total + active_nodes(old(self).state@.nodes, timestamp).len() + active_edges(
                old(self).state@.edges,
                timestamp,
            ).len() <= usize::MAX,
        ensures
            final(self).wf(),
            final(self).history@ == old(self).history@.push(
                SnapshotModel {
                    timestamp,
                    nodes: active_nodes(old(self).state@.nodes, timestamp),
                    edges: active_edges(old(self).state@.edges, timestamp),
                },
            ),
            final(self).predictor@ == observe_one(old(self).predictor@, final(self).history@.last()),
            final(self).state@ == old(self).state@,
    {
        let snap = self.state.snapshot(timestamp);
        self.predictor.observe_snapshot(&snap);
        self.history.append(snap);
    }

    /// The state at `timestamp`: the last snapshot taken no later than it.
    pub fn state_at(&self, timestamp: Timestamp) -> (r: Option<&GraphSnapshot>)
        ensures
            match state_index(self.history@, timestamp) {
                Some(i) => r matches Some(s) && s@ == self.history@[i],
                None => r is None,
            },
    {
        self.history.state_at(timestamp)
    }

    /// Whether a snapshot at `timestamp` can be taken: the predictor's
    /// count of observations must stay within `usize`.
    pub fn snapshot_fits(&self, timestamp: Timestamp) -> (r: bool)
        ensures
            r == (self.predictor@.total + active_nodes(self.state@.nodes, timestamp).len() + active_edges(
                self.state@.edges,
                timestamp,
            ).len() <= usize::MAX),
    {
        let t = self.predictor.total_observations();
        let n = self.state.active_node_count(timestamp);
        let e = self.state.active_edge_count(timestamp);
        t <= usize::MAX - n && t + n <= usize::MAX - e
    }

    /// How many snapshots have been taken.
    pub fn snapshot_count(&self) -> (r: usize)
        ensures
            r == self.history@.len(),
    {
        self.history.len()
    }
}

} // verus!
