use tordex::temporal::diff::GraphDiff;
use tordex::temporal::engine::{Relationship, TemporalGraph};
use tordex::temporal::evolution::EvolutionAnalyzer;
use tordex::temporal::graph::{GraphSnapshot, GraphState, TemporalEdge, TemporalNode};
use tordex::temporal::history::GraphHistory;
use tordex::temporal::interval::{TimeInterval, Timestamp, NANOS_PER_DAY};
use tordex::temporal::prediction::GraphPredictor;

fn at(unix_seconds: i64) -> Timestamp {
    Timestamp::from_unix_seconds(unix_seconds)
}

const JAN_01: i64 = 1704067200;
const JAN_02: i64 = 1704153600;
const JAN_03: i64 = 1704240000;
const MAR_01: i64 = 1709251200;
const APR_01: i64 = 1711929600;
const JUN_01: i64 = 1717200000;
const JUN_15: i64 = 1718409600;
const JUN_30: i64 = 1719705600;
const JUL_01: i64 = 1719792000;
const SEP_30: i64 = 1727654400;
const DEC_01: i64 = 1733011200;
const DEC_31_2359: i64 = 1735689540;
const JAN_01_2025: i64 = 1735689600;
const JAN_01_2023: i64 = 1672531200;
const DEC_31_2023_2359: i64 = 1704067140;
const FEB_01: i64 = 1706745600;

fn node(id: &str, start: Timestamp, end: Timestamp) -> TemporalNode {
    TemporalNode {
        id: id.to_string(),
        kind: "test".to_string(),
        label: id.to_string(),
        interval: TimeInterval::bounded(start, end),
        attributes: vec![],
    }
}

fn edge(id: &str, src: &str, tgt: &str, start: Timestamp, end: Timestamp) -> TemporalEdge {
    TemporalEdge {
        id: id.to_string(),
        kind: "related".to_string(),
        source_id: src.to_string(),
        target_id: tgt.to_string(),
        interval: TimeInterval::bounded(start, end),
        properties: vec![],
    }
}

fn make_node(id: &str, kind: &str, attrs: Vec<(&str, &str)>) -> TemporalNode {
    TemporalNode {
        id: id.to_string(),
        kind: kind.to_string(),
        label: id.to_string(),
        interval: TimeInterval::starting_at(at(JAN_01)),
        attributes: attrs.into_iter().map(|(k, v)| (k.to_string(), v.to_string())).collect(),
    }
}

fn make_edge(id: &str, src: &str, tgt: &str) -> TemporalEdge {
    TemporalEdge {
        id: id.to_string(),
        kind: "related".to_string(),
        source_id: src.to_string(),
        target_id: tgt.to_string(),
        interval: TimeInterval::starting_at(at(JAN_01)),
        properties: vec![],
    }
}

fn snapshot(t: i64, node_ids: &[&str]) -> GraphSnapshot {
    GraphSnapshot {
        timestamp: at(t),
        nodes: node_ids.iter().map(|id| make_node(id, "entity", vec![])).collect(),
        edges: vec![],
    }
}

fn snapshot_with(t: i64, node_ids: &[&str], edge_ids: &[&str]) -> GraphSnapshot {
    GraphSnapshot {
        timestamp: at(t),
        nodes: node_ids.iter().map(|id| make_node(id, "entity", vec![])).collect(),
        edges: edge_ids.iter().map(|id| make_edge(id, "n1", "n2")).collect(),
    }
}

fn snapshot_kinds(t: i64, node_ids: &[&str], kinds: &[&str]) -> GraphSnapshot {
    GraphSnapshot {
        timestamp: at(t),
        nodes: node_ids.iter().zip(kinds.iter()).map(|(id, kind)| make_node(id, kind, vec![])).collect(),
        edges: vec![],
    }
}

// ─── intervals ───

#[test]
fn unbounded_contains_all_after_start() {
    let iv = TimeInterval::starting_at(at(JAN_01));
    assert!(iv.contains(at(JUN_15)));
    assert!(!iv.contains(at(DEC_31_2023_2359)));
}

#[test]
fn bounded_interval() {
    let iv = TimeInterval::bounded(at(JAN_01), at(DEC_31_2359));
    assert!(iv.contains(at(JUN_15)));
    assert!(!iv.contains(at(JAN_01_2025)));
}

#[test]
fn overlap_detection() {
    let a = TimeInterval::bounded(at(JAN_01), at(JUN_30));
    let b = TimeInterval::bounded(at(MAR_01), at(SEP_30));
    assert!(a.overlaps(&b));
}

#[test]
fn no_overlap() {
    let a = TimeInterval::bounded(at(JAN_01), at(MAR_01));
    let b = TimeInterval::bounded(at(APR_01), at(JUN_01));
    assert!(!a.overlaps(&b));
    assert!(a.before(&b));
    assert!(b.after(&a));
}

#[test]
fn intersection_returns_common() {
    let a = TimeInterval::bounded(at(JAN_01), at(JUN_30));
    let b = TimeInterval::bounded(at(MAR_01), at(SEP_30));
    let inter = a.intersection(&b).unwrap();
    assert_eq!(inter.start, at(MAR_01));
    assert_eq!(inter.end, Some(at(JUN_30)));
}

#[test]
fn duration_unbounded_returns_none() {
    let iv = TimeInterval::starting_at(at(JAN_01));
    assert!(iv.duration().is_none());
}

#[test]
fn duration_bounded() {
    let iv = TimeInterval::bounded(at(JAN_01), at(JAN_02));
    assert_eq!(iv.duration(), Some(NANOS_PER_DAY));
}

#[test]
fn open_intervals_overlap_and_intersect_openly() {
    let a = TimeInterval::starting_at(at(JAN_01));
    let b = TimeInterval::starting_at(at(MAR_01));
    assert!(a.overlaps(&b));
    let inter = a.intersection(&b).unwrap();
    assert_eq!(inter.start, at(MAR_01));
    assert_eq!(inter.end, None);
}

#[test]
fn intersection_of_disjoint_is_none() {
    let a = TimeInterval::bounded(at(JAN_01), at(MAR_01));
    let b = TimeInterval::bounded(at(APR_01), at(JUN_01));
    assert!(a.intersection(&b).is_none());
    assert!(a.intersection_until(&b, 0).is_none());
}

#[test]
fn contains_interval_cases() {
    let outer = TimeInterval::bounded(at(JAN_01), at(DEC_01));
    let inner = TimeInterval::bounded(at(MAR_01), at(JUN_01));
    let open = TimeInterval::starting_at(at(MAR_01));
    assert!(outer.contains_interval(&inner));
    assert!(!inner.contains_interval(&outer));
    assert!(!outer.contains_interval(&open));
    assert!(TimeInterval::starting_at(at(JAN_01)).contains_interval(&open));
}

#[test]
fn whole_seconds_round_toward_zero() {
    let a = Timestamp::from_unix_nanos(1_500_000_000);
    let b = Timestamp::from_unix_nanos(0);
    assert_eq!(a.whole_seconds_since(b), 1);
    assert_eq!(b.whole_seconds_since(a), -1);
    assert_eq!(at(JAN_01).plus_days(1), at(JAN_02));
}

// ─── graph state ───

#[test]
fn snapshot_filters_by_time() {
    let mut state = GraphState::new();
    let t1 = at(JAN_01);
    let t2 = at(JUN_01);
    let t3 = at(DEC_01);
    state.add_node(node("n1", t1, t2));
    state.add_node(node("n2", t1, t3));
    let snap = state.snapshot(t2);
    assert_eq!(snap.node_count(), 1);
    assert_eq!(snap.nodes[0].id, "n2");
}

#[test]
fn remove_node_cascades_to_edges() {
    let mut state = GraphState::new();
    let t = at(JAN_01);
    state.add_node(node("n1", t, t.plus_days(30)));
    state.add_node(node("n2", t, t.plus_days(30)));
    state.add_edge(edge("e1", "n1", "n2", t, t.plus_days(30)));
    assert_eq!(state.nodes.len(), 2);
    assert_eq!(state.edges.len(), 1);
    state.remove_node("n1");
    assert_eq!(state.nodes.len(), 1);
    assert_eq!(state.edges.len(), 0);
}

#[test]
fn active_count_at_time() {
    let mut state = GraphState::new();
    let t1 = at(JAN_01);
    let t2 = at(JUN_01);
    state.add_node(node("n1", t1, t1.plus_days(60)));
    state.add_node(node("n2", t2, t2.plus_days(60)));
    assert_eq!(state.active_node_count(at(FEB_01)), 1);
    assert_eq!(state.active_node_count(at(JUL_01)), 1);
}

#[test]
fn add_node_replaces_same_id() {
    let mut state = GraphState::new();
    state.add_node(node("n1", at(JAN_01), at(JAN_02)));
    state.add_node(node("n2", at(JAN_01), at(JAN_02)));
    state.add_node(node("n1", at(MAR_01), at(APR_01)));
    assert_eq!(state.nodes.len(), 2);
    assert_eq!(state.nodes[0].id, "n1");
    assert_eq!(state.nodes[0].interval.start, at(MAR_01));
    state.remove_edge("missing");
    assert_eq!(state.active_edge_count(at(JAN_01)), 0);
}

// ─── history ───

#[test]
fn empty_history() {
    let h = GraphHistory::new();
    assert!(h.is_empty());
    assert_eq!(h.len(), 0);
    assert!(h.latest().is_none());
}

#[test]
fn append_and_latest() {
    let mut h = GraphHistory::new();
    h.append(snapshot(JAN_01, &["n1"]));
    h.append(snapshot(JAN_02, &["n2"]));
    assert_eq!(h.len(), 2);
    assert_eq!(h.latest().unwrap().node_count(), 1);
    assert_eq!(h.latest().unwrap().nodes[0].id, "n2");
    assert_eq!(h.earliest().unwrap().nodes[0].id, "n1");
}

#[test]
fn state_at_returns_closest_before() {
    let mut h = GraphHistory::new();
    h.append(snapshot(JAN_01, &["n1"]));
    h.append(snapshot(JAN_03, &["n2"]));
    let state = h.state_at(at(JAN_02));
    assert!(state.is_some());
    assert_eq!(state.unwrap().nodes[0].id, "n1");
}

#[test]
fn state_at_after_latest_returns_latest() {
    let mut h = GraphHistory::new();
    h.append(snapshot(JAN_01, &["n1"]));
    let state = h.state_at(at(JAN_01_2025));
    assert!(state.is_some());
    assert_eq!(state.unwrap().nodes[0].id, "n1");
}

#[test]
fn state_at_before_earliest_returns_none() {
    let mut h = GraphHistory::new();
    h.append(snapshot(JAN_01, &["n1"]));
    let state = h.state_at(at(JAN_01_2023));
    assert!(state.is_none());
}

#[test]
fn diff_between_valid_indices() {
    let mut h = GraphHistory::new();
    h.append(snapshot(JAN_01, &["n1"]));
    h.append(snapshot(JAN_02, &["n1", "n2"]));
    let diff = h.diff_between(0, 1).unwrap();
    assert_eq!(diff.added_nodes.len(), 1);
    assert_eq!(diff.added_nodes[0].id, "n2");
    assert!(h.diff_between(0, 2).is_none());
}

#[test]
fn diff_at_consecutive() {
    let mut h = GraphHistory::new();
    h.append(snapshot(JAN_01, &["n1"]));
    h.append(snapshot(JAN_02, &["n1", "n2"]));
    let diff = h.diff_at(1).unwrap();
    assert_eq!(diff.added_nodes.len(), 1);
    assert!(h.diff_at(0).is_none());
}

#[test]
fn all_diffs_returns_all_consecutive_diffs() {
    let mut h = GraphHistory::new();
    h.append(snapshot(JAN_01, &["n1"]));
    h.append(snapshot(JAN_02, &["n1", "n2"]));
    h.append(snapshot(JAN_03, &["n1"]));
    let diffs = h.all_diffs();
    assert_eq!(diffs.len(), 2);
    assert_eq!(diffs[1].removed_nodes, vec!["n2".to_string()]);
}

// ─── diffs ───

#[test]
fn diff_identifies_added_nodes() {
    let before = GraphSnapshot { timestamp: at(JAN_01), nodes: vec![], edges: vec![] };
    let after = GraphSnapshot { timestamp: at(JAN_02), nodes: vec![make_node("n1", "entity", vec![])], edges: vec![] };
    let diff = GraphDiff::between(&before, &after);
    assert_eq!(diff.added_nodes.len(), 1);
    assert_eq!(diff.removed_nodes.len(), 0);
    assert!(diff.has_changes());
}

#[test]
fn diff_identifies_removed_nodes() {
    let before = GraphSnapshot { timestamp: at(JAN_01), nodes: vec![make_node("n1", "entity", vec![])], edges: vec![] };
    let after = GraphSnapshot { timestamp: at(JAN_02), nodes: vec![], edges: vec![] };
    let diff = GraphDiff::between(&before, &after);
    assert_eq!(diff.removed_nodes.len(), 1);
    assert_eq!(diff.added_nodes.len(), 0);
}

#[test]
fn diff_identifies_modified_attributes() {
    let before = GraphSnapshot {
        timestamp: at(JAN_01),
        nodes: vec![make_node("n1", "entity", vec![("color", "red")])],
        edges: vec![],
    };
    let after = GraphSnapshot {
        timestamp: at(JAN_02),
        nodes: vec![make_node("n1", "entity", vec![("color", "blue")])],
        edges: vec![],
    };
    let diff = GraphDiff::between(&before, &after);
    assert_eq!(diff.modified_nodes.len(), 1);
    assert_eq!(diff.modified_nodes[0].attribute_changes.len(), 1);
    assert_eq!(diff.modified_nodes[0].attribute_changes[0].old_value.as_deref(), Some("red"));
    assert_eq!(diff.modified_nodes[0].attribute_changes[0].new_value.as_deref(), Some("blue"));
}

#[test]
fn diff_edge_changes() {
    let before = GraphSnapshot { timestamp: at(JAN_01), nodes: vec![], edges: vec![make_edge("e1", "n1", "n2")] };
    let after = GraphSnapshot { timestamp: at(JAN_02), nodes: vec![], edges: vec![] };
    let diff = GraphDiff::between(&before, &after);
    assert_eq!(diff.removed_edges.len(), 1);
}

#[test]
fn no_changes_returns_empty_diff() {
    let snap = GraphSnapshot { timestamp: at(JAN_01), nodes: vec![make_node("n1", "entity", vec![])], edges: vec![] };
    let diff = GraphDiff::between(&snap, &snap.copy());
    assert!(!diff.has_changes());
    assert_eq!(diff.change_count(), 0);
}

#[test]
fn change_rate_inputs() {
    let before = GraphSnapshot { timestamp: at(JAN_01), nodes: vec![], edges: vec![] };
    let after = GraphSnapshot {
        timestamp: at(JAN_02),
        nodes: vec![make_node("n1", "entity", vec![]), make_node("n2", "entity", vec![])],
        edges: vec![],
    };
    let diff = GraphDiff::between(&before, &after);
    assert_eq!(diff.change_count(), 2);
    assert_eq!(diff.elapsed_seconds(), 86400);
}

#[test]
fn attribute_changes_in_key_order() {
    let before = GraphSnapshot {
        timestamp: at(JAN_01),
        nodes: vec![make_node("n1", "entity", vec![("zeta", "1"), ("alpha", "1"), ("same", "x")])],
        edges: vec![],
    };
    let after = GraphSnapshot {
        timestamp: at(JAN_02),
        nodes: vec![make_node("n1", "entity", vec![("same", "x"), ("beta", "2"), ("zeta", "2")])],
        edges: vec![],
    };
    let diff = GraphDiff::between(&before, &after);
    let changes = &diff.modified_nodes[0].attribute_changes;
    let keys: Vec<&str> = changes.iter().map(|d| d.key.as_str()).collect();
    assert_eq!(keys, vec!["alpha", "beta", "zeta"]);
    assert_eq!(changes[0].new_value, None);
    assert_eq!(changes[1].old_value, None);
}

#[test]
fn interval_change_is_a_modification() {
    let mut moved = make_node("n1", "entity", vec![]);
    moved.interval = TimeInterval::bounded(at(JAN_01), at(JAN_02));
    let before = GraphSnapshot { timestamp: at(JAN_01), nodes: vec![make_node("n1", "entity", vec![])], edges: vec![] };
    let after = GraphSnapshot { timestamp: at(JAN_02), nodes: vec![moved], edges: vec![] };
    let diff = GraphDiff::between(&before, &after);
    assert_eq!(diff.modified_nodes.len(), 1);
    assert!(diff.modified_nodes[0].interval_changed);
    assert!(diff.modified_nodes[0].attribute_changes.is_empty());
}

// ─── evolution counts ───

#[test]
fn fewer_than_two_snapshots_returns_none() {
    let snap = snapshot(JAN_01, &["n1"]);
    assert!(EvolutionAnalyzer::counts(&[snap]).is_none());
}

#[test]
fn growth_counts_when_nodes_increase() {
    let s1 = snapshot(JAN_01, &["n1"]);
    let s2 = snapshot(JAN_02, &["n1", "n2"]);
    let c = EvolutionAnalyzer::counts(&[s1, s2]).unwrap();
    assert_eq!(c.node_counts, vec![1, 2]);
    assert_eq!(c.edge_counts, vec![0, 0]);
    assert_eq!(c.seconds, vec![0, 86400]);
    assert_eq!(c.elapsed_seconds, 86400);
}

#[test]
fn survival_rate_partial() {
    let s1 = snapshot(JAN_01, &["n1", "n2"]);
    let s2 = snapshot(JAN_02, &["n1", "n3"]);
    let c = EvolutionAnalyzer::counts(&[s1, s2]).unwrap();
    assert_eq!((c.surviving_nodes, c.start_nodes), (1, 2));
}

#[test]
fn survival_rate_full() {
    let s1 = snapshot_with(JAN_01, &["n1", "n2"], &["e1"]);
    let s2 = snapshot_with(JAN_02, &["n1", "n2", "n3"], &["e1"]);
    let c = EvolutionAnalyzer::counts(&[s1, s2]).unwrap();
    assert_eq!((c.surviving_nodes, c.start_nodes), (2, 2));
    assert_eq!((c.surviving_edges, c.start_edges), (1, 1));
}

#[test]
fn churn_detected() {
    let s1 = snapshot(JAN_01, &["n1", "n2"]);
    let s2 = snapshot(JAN_02, &["n3", "n4"]);
    let c = EvolutionAnalyzer::counts(&[s1, s2]).unwrap();
    assert_eq!(c.node_churn, 4);
    assert_eq!(c.edge_churn, 0);
}

#[test]
fn edge_evolution() {
    let s1 = snapshot_with(JAN_01, &["n1"], &["e1"]);
    let s2 = snapshot_with(JAN_02, &["n1", "n2"], &["e1", "e2"]);
    let c = EvolutionAnalyzer::counts(&[s1, s2]).unwrap();
    assert_eq!(c.edge_counts, vec![1, 2]);
    assert_eq!(c.edge_churn, 1);
}

// ─── predictor ───

#[test]
fn predictor_counts_kinds_in_first_seen_order() {
    let mut predictor = GraphPredictor::new();
    let s1 = snapshot_kinds(JAN_01, &["n1"], &["entity"]);
    let s2 = snapshot_kinds(JAN_02, &["n1", "n2"], &["entity", "ip"]);
    let s3 = snapshot_kinds(JAN_03, &["n1", "n2", "n3"], &["entity", "ip", "domain"]);
    predictor.observe(&[s1, s2, s3]);
    let kinds = predictor.node_type_frequencies();
    assert_eq!(
        kinds,
        vec![("entity".to_string(), 3), ("ip".to_string(), 2), ("domain".to_string(), 1)]
    );
    assert_eq!(predictor.total_observations(), 6);
    assert!(predictor.edge_type_frequencies().is_empty());
}

// ─── engine ───

#[test]
fn ingest_relationship_adds_edge() {
    let mut tg = TemporalGraph::new();
    let rel = Relationship {
        id: "rel_1".to_string(),
        kind: "connects".to_string(),
        source_id: "ent_001".to_string(),
        target_id: "ent_002".to_string(),
        first_seen: at(JAN_01),
        last_seen: at(DEC_31_2359),
        properties: vec![],
    };
    tg.ingest_relationship(&rel);
    assert_eq!(tg.state.edges.len(), 1);
    assert_eq!(tg.state.edges[0].source_id, "ent_001");
}

#[test]
fn snapshot_appends_to_history() {
    let mut tg = TemporalGraph::new();
    tg.snapshot(at(JAN_01));
    tg.snapshot(at(JAN_02));
    assert_eq!(tg.snapshot_count(), 2);
}

#[test]
fn state_at_returns_past_state() {
    let mut tg = TemporalGraph::new();
    let rel = Relationship {
        id: "rel_1".to_string(),
        kind: "connects".to_string(),
        source_id: "ent_001".to_string(),
        target_id: "ent_002".to_string(),
        first_seen: at(JAN_01),
        last_seen: at(DEC_31_2359),
        properties: vec![],
    };
    tg.ingest_relationship(&rel);
    tg.snapshot(at(JUN_15));
    let past = tg.state_at(at(JUL_01));
    assert!(past.is_some(), "state_at should return the snapshot when query time is after snapshot time");
    assert_eq!(past.unwrap().edges.len(), 1);
    assert_eq!(tg.predictor.edge_type_frequencies(), vec![("connects".to_string(), 1)]);
}

#[test]
fn reversed_diff_swaps_added_and_removed() {
    let a = snapshot(JAN_01, &["n1", "n2"]);
    let b = snapshot(JAN_02, &["n2", "n3"]);
    let forward = GraphDiff::between(&a, &b);
    let backward = GraphDiff::between(&b, &a);
    let added: Vec<String> = forward.added_nodes.iter().map(|n| n.id.clone()).collect();
    assert_eq!(backward.removed_nodes, added);
    let back_added: Vec<String> = backward.added_nodes.iter().map(|n| n.id.clone()).collect();
    assert_eq!(forward.removed_nodes, back_added);
    assert_eq!(forward.removed_nodes, vec!["n1".to_string()]);
}

#[test]
fn modified_nodes_are_those_on_both_sides_that_differ() {
    let before = GraphSnapshot {
        timestamp: at(JAN_01),
        nodes: vec![
            make_node("same", "entity", vec![("k", "v")]),
            make_node("changed", "entity", vec![("k", "v")]),
            make_node("gone", "entity", vec![]),
        ],
        edges: vec![],
    };
    let after = GraphSnapshot {
        timestamp: at(JAN_02),
        nodes: vec![
            make_node("same", "entity", vec![("k", "v")]),
            make_node("changed", "entity", vec![("k", "w")]),
            make_node("new", "entity", vec![("k", "v")]),
        ],
        edges: vec![],
    };
    let diff = GraphDiff::between(&before, &after);
    let ids: Vec<&str> = diff.modified_nodes.iter().map(|c| c.id.as_str()).collect();
    assert_eq!(ids, vec!["changed"]);
}
