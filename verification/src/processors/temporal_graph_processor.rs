//! The temporal graph engine as a processor: the `action` metadata entry
//! picks a snapshot, a past state, a diff, the evolution, a prediction or
//! the ingestion of a relationship; instants are read as ISO 8601 texts.
use time::format_description::well_known::Iso8601;
use time::OffsetDateTime;
use vstd::prelude::*;
use crate::observation::ProcessorError;
use crate::search::documents::{parse_usize, parse_usize_exec};
use crate::temporal::engine::{relationship_edge, Relationship, TemporalGraph};
use crate::temporal::graph::{active_edges, active_nodes, put_edge};
use crate::temporal::history::state_index;
use crate::temporal::interval::{now, Timestamp, CLOCK_RANGE_NANOS};
use crate::text::{append_chars, chars_of, same_text, string_of};

verus! {

/// What a temporal-graph request asks for.
#[derive(Debug, Clone, Copy, PartialEq, Eq, Structural)]
pub enum TemporalAction {
    Snapshot,
    StateAt,
    Diff,
    Evolution,
    Predict,
    IngestRelationship,
}

/// The action an `action` entry names; `snapshot` where there is none.
pub open spec fn temporal_action_named(action: Option<Seq<char>>) -> Option<TemporalAction> {
    match action {
        None => Some(TemporalAction::Snapshot),
        Some(a) => if a == "snapshot"@ {
            Some(TemporalAction::Snapshot)
        } else if a == "state_at"@ {
            Some(TemporalAction::StateAt)
        } else if a == "diff"@ {
            Some(TemporalAction::Diff)
        } else if a == "evolution"@ {
            Some(TemporalAction::Evolution)
        } else if a == "predict"@ {
            Some(TemporalAction::Predict)
        } else if a == "ingest_relationship"@ {
            Some(TemporalAction::IngestRelationship)
        } else {
            None
        },
    }
}

fn invalid_input(prefix: &str, rest: &str, suffix: &str) -> (r: ProcessorError)
    ensures
        r matches ProcessorError::InvalidInput(m) && m@ == prefix@ + rest@ + suffix@,
{
    let mut m = string_of(chars_of(prefix).as_slice());
    append_chars(&mut m, chars_of(rest).as_slice());
    append_chars(&mut m, chars_of(suffix).as_slice());
    ProcessorError::InvalidInput(m)
}

/// Reads the `action` entry; an unknown name is an `InvalidInput` error
/// naming it.
pub fn temporal_action(action: Option<&str>) -> (r: Result<TemporalAction, ProcessorError>)
    ensures
        match temporal_action_named(
            match action {
                Some(a) => Some(a@),
                None => None,
            },
        ) {
            Some(x) => r == Ok::<TemporalAction, ProcessorError>(x),
            None => action matches Some(a) && (r matches Err(ProcessorError::InvalidInput(m)) && m@
                == "unknown action: "@ + a@),
        },
{
    match action {
        None => Ok(TemporalAction::Snapshot),
        Some(a) => if same_text(a, "snapshot") {
            Ok(TemporalAction::Snapshot)
        } else if same_text(a, "state_at") {
            Ok(TemporalAction::StateAt)
        } else if same_text(a, "diff") {
            Ok(TemporalAction::Diff)
        } else if same_text(a, "evolution") {
            Ok(TemporalAction::Evolution)
        } else if same_text(a, "predict") {
            Ok(TemporalAction::Predict)
        } else if same_text(a, "ingest_relationship") {
            Ok(TemporalAction::IngestRelationship)
        } else {
            proof {
                reveal_strlit("");
            }
            let r = invalid_input("unknown action: ", a, "");
            assert(("unknown action: "@ + a@ + ""@) =~= "unknown action: "@ + a@);
            Err(r)
        },
    }
}

/// What `OffsetDateTime::parse` with the default ISO 8601 format makes of
/// a text, as nanoseconds since the epoch; `None` where it is no such
/// instant.
pub uninterp spec fn iso8601_nanos(text: Seq<char>) -> Option<int>;

/// Calls `time::OffsetDateTime::parse(text, &Iso8601::DEFAULT)` and takes
/// `unix_timestamp_nanos` of the result. The instant is named
/// `iso8601_nanos`; any instant of `OffsetDateTime` lies within ±10^23 ns of
/// the epoch.
#[verifier::external_body]
fn parse_iso8601(text: &str) -> (r: Option<Timestamp>)
    ensures
        match r {
            Some(t) => iso8601_nanos(text@) == Some(t.unix_nanos as int) && -CLOCK_RANGE_NANOS < t.unix_nanos
                < CLOCK_RANGE_NANOS,
            None => iso8601_nanos(text@) is None,
        },
{
    match OffsetDateTime::parse(text, &Iso8601::DEFAULT) {
        Ok(t) => Some(Timestamp { unix_nanos: t.unix_timestamp_nanos() }),
        Err(_) => None,
    }
}

/// The instant an entry gives, if it is an ISO 8601 text.
pub open spec fn entry_instant(v: Option<Seq<char>>) -> Option<int> {
    match v {
        Some(s) => iso8601_nanos(s),
        None => None,
    }
}

/// Reads an instant entry.
pub fn instant_entry(v: Option<&str>) -> (r: Option<Timestamp>)
    ensures
        match entry_instant(
            match v {
                Some(s) => Some(s@),
                None => None,
            },
        ) {
            Some(n) => r matches Some(t) && t.unix_nanos == n,
            None => r is None,
        },
{
    match v {
        Some(s) => parse_iso8601(s),
        None => None,
    }
}

/// Reads an instant entry that the action needs: where it is missing or no
/// instant, an `InvalidInput` error naming it.
pub fn required_instant(v: Option<&str>, name: &str) -> (r: Result<Timestamp, ProcessorError>)
    ensures
        match entry_instant(
            match v {
                Some(s) => Some(s@),
                None => None,
            },
        ) {
            Some(n) => r matches Ok(t) && t.unix_nanos == n,
            None => r matches Err(ProcessorError::InvalidInput(m)) && m@ == "missing or invalid '"@ + name@
                + "' metadata"@,
        },
{
    match instant_entry(v) {
        Some(t) => Ok(t),
        None => Err(invalid_input("missing or invalid '", name, "' metadata")),
    }
}

/// The instant of a snapshot: the `timestamp` entry, or now where it is
/// missing or no instant.
pub fn snapshot_instant(v: Option<&str>) -> (r: Timestamp)
    ensures
        match entry_instant(
            match v {
                Some(s) => Some(s@),
                None => None,
            },
        ) {
            Some(n) => r.unix_nanos == n,
            None => -CLOCK_RANGE_NANOS < r.unix_nanos < CLOCK_RANGE_NANOS,
        },
{
    match instant_entry(v) {
        Some(t) => t,
        None => now(),
    }
}

/// An index entry, if it is a number.
pub open spec fn entry_index(v: Option<Seq<char>>) -> Option<nat> {
    match v {
        Some(s) => parse_usize(s),
        None => None,
    }
}

/// Reads the `from_idx` and `to_idx` entries of a diff; where one is missing
/// or no number, an `InvalidInput` error naming the first such.
pub fn diff_indices(from: Option<&str>, to: Option<&str>) -> (r: Result<(usize, usize), ProcessorError>)
    ensures
        match (
            entry_index(
                match from {
                    Some(s) => Some(s@),
                    None => None,
                },
            ),
            entry_index(
                match to {
                    Some(s) => Some(s@),
                    None => None,
                },
            ),
        ) {
            (Some(f), Some(t)) => r == Ok::<(usize, usize), ProcessorError>((f as usize, t as usize)),
            (None, _) => r matches Err(ProcessorError::InvalidInput(m)) && m@ == "missing or invalid 'from_idx'"@,
            (Some(_), None) => r matches Err(ProcessorError::InvalidInput(m)) && m@ == "missing or invalid 'to_idx'"@,
        },
{
    let f = match from {
        Some(s) => parse_usize_exec(s),
        None => None,
    };
    let f = match f {
        Some(f) => f,
        None => return Err(ProcessorError::InvalidInput(string_of(chars_of("missing or invalid 'from_idx'").as_slice()))),
    };
    let t = match to {
        Some(s) => parse_usize_exec(s),
        None => None,
    };
    match t {
        Some(t) => Ok((f, t)),
        None => Err(ProcessorError::InvalidInput(string_of(chars_of("missing or invalid 'to_idx'").as_slice()))),
    }
}

/// What a past-state request reports: whether a snapshot was in force,
/// and its node and edge counts (zero where none was).
pub fn state_counts(g: &TemporalGraph, t: Timestamp) -> (r: (bool, usize, usize))
    ensures
        match state_index(g.history@, t) {
            Some(i) => r == (true, g.history@[i].nodes.len() as usize, g.history@[i].edges.len() as usize),
            None => r == (false, 0usize, 0usize),
        },
{
    match g.state_at(t) {
        Some(s) => (true, s.node_count(), s.edge_count()),
        None => (false, 0, 0),
    }
}

/// The temporal graph engine behind the processor interface.
#[derive(Debug)]
pub struct TemporalGraphProcessor {
    engine: TemporalGraph,
}

impl TemporalGraphProcessor {
    /// The engine stays well formed.
    #[verifier::type_invariant]
    spec fn engine_wf(self) -> bool {
        self.engine.wf()
    }

    /// The engine the processor holds.
    pub closed spec fn graph(self) -> TemporalGraph {
        self.engine
    }

    /// A processor with an empty graph and no history.
    pub fn new() -> (r: Self)
        ensures
            r.graph().state@.nodes.len() == 0,
            r.graph().state@.edges.len() == 0,
            r.graph().history@.len() == 0,
            r.graph().predictor@.total == 0,
    {
        TemporalGraphProcessor { engine: TemporalGraph::new() }
    }

    /// The engine, for reading.
    pub fn engine(&self) -> (r: &TemporalGraph)
        ensures
            *r == self.graph(),
            r.wf(),
    {
        proof {
            use_type_invariant(self);
        }
        &self.engine
    }

    /// Whether a snapshot at `t` can be taken (see
    /// [`TemporalGraph::snapshot_fits`]).
    pub fn snapshot_fits(&self, t: Timestamp) -> (r: bool)
        ensures
            r == (self.graph().predictor@.total + active_nodes(self.graph().state@.nodes, t).len() + active_edges(
                self.graph().state@.edges,
                t,
            ).len() <= usize::MAX),
    {
        self.engine.snapshot_fits(t)
    }

    /// Records a snapshot of the current state at `t`.
    pub fn snapshot(&mut self, t: Timestamp)
        requires
            old(self).graph().predictor@.total + active_nodes(old(self).graph().state@.nodes, t).len()
                + active_edges(old(self).graph().state@.edges, t).len() <= usize::MAX,
        ensures
            final(self).graph().history@ == old(self).graph().history@.push(
                crate::temporal::graph::SnapshotModel {
                    timestamp: t,
                    nodes: active_nodes(old(self).graph().state@.nodes, t),
                    edges: active_edges(old(self).graph().state@.edges, t),
                },
            ),
            final(self).graph().state@ == old(self).graph().state@,
    {
        proof {
            use_type_invariant(&*self);
        }
        let mut e = TemporalGraph::new();
        std::mem::swap(&mut e, &mut self.engine);
        e.snapshot(t);
        self.engine = e;
    }

    /// Ingests a relationship as an edge of the current state.
    pub fn ingest(&mut self, rel: &Relationship)
        ensures
            final(self).graph().state@.edges == put_edge(old(self).graph().state@.edges, relationship_edge(*rel)),
            final(self).graph().state@.nodes == old(self).graph().state@.nodes,
            final(self).graph().history@ == old(self).graph().history@,
    {
        proof {
            use_type_invariant(&*self);
        }
        let mut e = TemporalGraph::new();
        std::mem::swap(&mut e, &mut self.engine);
        e.ingest_relationship(rel);
        self.engine = e;
    }

    /// Processor name.
    pub fn name(&self) -> (r: &'static str)
        ensures
            r@ == "TemporalGraphProcessor"@,
    {
        "TemporalGraphProcessor"
    }

    /// Processor description.
    pub fn description(&self) -> (r: &'static str)
        ensures
            r@ == "Bridges the Temporal Graph Engine — snapshot, diff, evolution, prediction, past state queries"@,
    {
        "Bridges the Temporal Graph Engine — snapshot, diff, evolution, prediction, past state queries"
    }

    /// Content types this processor accepts.
    pub fn content_types(&self) -> (r: Vec<&'static str>)
        ensures
            r@.map_values(|s: &'static str| s@) == seq!["application/x-temporal-graph"@],
    {
        let r = vec!["application/x-temporal-graph"];
        assert(r@.map_values(|s: &'static str| s@) =~= seq!["application/x-temporal-graph"@]);
        r
    }
}

} // verus!
