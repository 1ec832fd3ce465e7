//! The counts that the evolution of a graph is measured by: how many nodes
//! and edges each snapshot holds, how many come and go between snapshots,
//! and how many of the first snapshot's survive to the last. (The rates
//! and trend lines derived from them are floating-point arithmetic.)
use vstd::prelude::*;
use crate::sorted::{filter_in, filter_in_exec, lemma_filter_in_len, lemma_sorted_set_len, sorted_set, sorted_set_exec};
use crate::temporal::graph::{snapshot_models, EdgeModel, GraphSnapshot, NodeModel, SnapshotModel, TemporalEdge, TemporalNode};
use crate::temporal::interval::whole_seconds;
use crate::text::texts;

verus! {

/// The ids of a list of nodes.
pub open spec fn node_ids(s: Seq<NodeModel>) -> Seq<Seq<char>> {
    s.map_values(|n: NodeModel| n.id)
}

/// The ids of a list of edges.
pub open spec fn edge_ids(s: Seq<EdgeModel>) -> Seq<Seq<char>> {
    s.map_values(|e: EdgeModel| e.id)
}

/// How many distinct ids lie in exactly one of `a` and `b`.
pub open spec fn symmetric_difference_count(a: Seq<Seq<char>>, b: Seq<Seq<char>>) -> nat {
    filter_in(sorted_set(a), b, false).len() + filter_in(sorted_set(b), a, false).len()
}

/// Node churn over the first `n` snapshots: the distinct node ids that
/// come or go between each consecutive pair.
pub open spec fn node_churn_upto(s: Seq<SnapshotModel>, n: int) -> nat
    decreases n,
{
    if n <= 1 {
        0
    } else {
        node_churn_upto(s, n - 1) + symmetric_difference_count(node_ids(s[n - 2].nodes), node_ids(s[n - 1].nodes))
    }
}

/// Edge churn over the first `n` snapshots.
pub open spec fn edge_churn_upto(s: Seq<SnapshotModel>, n: int) -> nat
    decreases n,
{
    if n <= 1 {
        0
    } else {
        edge_churn_upto(s, n - 1) + symmetric_difference_count(edge_ids(s[n - 2].edges), edge_ids(s[n - 1].edges))
    }
}

/// How many nodes and edges the first `n` snapshots hold together.
pub open spec fn items_upto(s: Seq<SnapshotModel>, n: int) -> nat
    decreases n,
{
    if n <= 0 {
        0
    } else {
        items_upto(s, n - 1) + s[n - 1].nodes.len() + s[n - 1].edges.len()
    }
}

/// What the evolution of a graph is computed from.
pub struct EvolutionCountsModel {
    pub seconds: Seq<int>,
    pub node_counts: Seq<nat>,
    pub edge_counts: Seq<nat>,
    pub elapsed_seconds: int,
    pub node_churn: nat,
    pub edge_churn: nat,
    pub start_nodes: nat,
    pub surviving_nodes: nat,
    pub start_edges: nat,
    pub surviving_edges: nat,
}

/// The evolution counts of at least two snapshots.
pub open spec fn evolution_counts(s: Seq<SnapshotModel>) -> EvolutionCountsModel {
    let first = s[0];
    let last = s.last();
    EvolutionCountsModel {
        seconds: Seq::new(s.len(), |i: int| whole_seconds(s[i].timestamp.unix_nanos - first.timestamp.unix_nanos)),
        node_counts: Seq::new(s.len(), |i: int| s[i].nodes.len()),
        edge_counts: Seq::new(s.len(), |i: int| s[i].edges.len()),
        elapsed_seconds: whole_seconds(last.timestamp.unix_nanos - first.timestamp.unix_nanos),
        node_churn: node_churn_upto(s, s.len() as int),
        edge_churn: edge_churn_upto(s, s.len() as int),
        start_nodes: sorted_set(node_ids(first.nodes)).len(),
        surviving_nodes: filter_in(sorted_set(node_ids(first.nodes)), node_ids(last.nodes), true).len(),
        start_edges: sorted_set(edge_ids(first.edges)).len(),
        surviving_edges: filter_in(sorted_set(edge_ids(first.edges)), edge_ids(last.edges), true).len(),
    }
}

/// Counts for the evolution of a graph over a run of snapshots.
#[derive(Debug)]
pub struct EvolutionCounts {
    /// Whole seconds from the first snapshot to each.
    pub seconds: Vec<i128>,
    /// Nodes in each snapshot.
    pub node_counts: Vec<usize>,
    /// Edges in each snapshot.
    pub edge_counts: Vec<usize>,
    /// Whole seconds from the first snapshot to the last.
    pub elapsed_seconds: i128,
    /// Distinct node ids that come or go, summed over consecutive pairs.
    pub node_churn: usize,
    /// Distinct edge ids that come or go, summed over consecutive pairs.
    pub edge_churn: usize,
    /// Distinct node ids of the first snapshot.
    pub start_nodes: usize,
    /// Of those, how many the last snapshot still holds.
    pub surviving_nodes: usize,
    /// Distinct edge ids of the first snapshot.
    pub start_edges: usize,
    /// Of those, how many the last snapshot still holds.
    pub surviving_edges: usize,
}

impl View for EvolutionCounts {
    type V = EvolutionCountsModel;

    open spec fn view(&self) -> EvolutionCountsModel {
        EvolutionCountsModel {
            seconds: self.seconds@.map_values(|x: i128| x as int),
            node_counts: self.node_counts@.map_values(|x: usize| x as nat),
            edge_counts: self.edge_counts@.map_values(|x: usize| x as nat),
            elapsed_seconds: self.elapsed_seconds as int,
            node_churn: self.node_churn as nat,
            edge_churn: self.edge_churn as nat,
            start_nodes: self.start_nodes as nat,
            surviving_nodes: self.surviving_nodes as nat,
            start_edges: self.start_edges as nat,
            surviving_edges: self.surviving_edges as nat,
        }
    }
}

/// The ids of a list of nodes, as strings.
fn node_id_list(v: &Vec<TemporalNode>) -> (r: Vec<String>)
    ensures
        texts(r@) == node_ids(v@.map_values(|n: TemporalNode| n@)),
{
    let ghost m = v@.map_values(|n: TemporalNode| n@);
    let mut r: Vec<String> = Vec::new();
    let mut i: usize = 0;
    while i < v.len()
        invariant
            i <= v@.len(),
            m == v@.map_values(|n: TemporalNode| n@),
            texts(r@) == node_ids(m).subrange(0, i as int),
        decreases v@.len() - i,
    {
        let ghost before = texts(r@);
        r.push(v[i].id.clone());
        assert(texts(r@) =~= before.push(node_ids(m)[i as int]));
        i += 1;
        assert(texts(r@) =~= node_ids(m).subrange(0, i as int));
    }
    assert(node_ids(m).subrange(0, v@.len() as int) =~= node_ids(m));
    r
}

/// The ids of a list of edges, as strings.
fn edge_id_list(v: &Vec<TemporalEdge>) -> (r: Vec<String>)
    ensures
        texts(r@) == edge_ids(v@.map_values(|e: TemporalEdge| e@)),
{
    let ghost m = v@.map_values(|e: TemporalEdge| e@);
    let mut r: Vec<String> = Vec::new();
    let mut i: usize = 0;
    while i < v.len()
        invariant
            i <= v@.len(),
            m == v@.map_values(|e: TemporalEdge| e@),
            texts(r@) == edge_ids(m).subrange(0, i as int),
        decreases v@.len() - i,
    {
        let ghost before = texts(r@);
        r.push(v[i].id.clone());
        assert(texts(r@) =~= before.push(edge_ids(m)[i as int]));
        i += 1;
        assert(texts(r@) =~= edge_ids(m).subrange(0, i as int));
    }
    assert(edge_ids(m).subrange(0, v@.len() as int) =~= edge_ids(m));
    r
}

/// How many distinct ids lie in exactly one of `a` and `b`.
fn symmetric_difference_exec(a: &Vec<String>, b: &Vec<String>) -> (r: usize)
    requires
        a@.len() + b@.len() <= usize::MAX,
    ensures
        r == symmetric_difference_count(texts(a@), texts(b@)),
        r <= a@.len() + b@.len(),
{
    let sa = sorted_set_exec(a);
    let sb = sorted_set_exec(b);
    let da = filter_in_exec(&sa, b, false);
    let db = filter_in_exec(&sb, a, false);
    proof {
        lemma_sorted_set_len(texts(a@));
        lemma_sorted_set_len(texts(b@));
        lemma_filter_in_len(texts(sa@), texts(b@), false);
        lemma_filter_in_len(texts(sb@), texts(a@), false);
        assert(texts(da@).len() == da@.len());
        assert(texts(db@).len() == db@.len());
        assert(texts(a@).len() == a@.len());
        assert(texts(b@).len() == b@.len());
    }
    da.len() + db.len()
}

/// Counts never exceed the items they are drawn from.
proof fn lemma_churn_bound(s: Seq<SnapshotModel>, n: int)
    requires
        1 <= n <= s.len(),
    ensures
        items_upto(s, n - 1) <= items_upto(s, n),
        node_churn_upto(s, n) <= items_upto(s, n - 1) + items_upto(s, n),
        edge_churn_upto(s, n) <= items_upto(s, n - 1) + items_upto(s, n),
        node_churn_upto(s, n) <= 2 * items_upto(s, n),
        edge_churn_upto(s, n) <= 2 * items_upto(s, n),
    decreases n,
{
    if n > 1 {
        lemma_churn_bound(s, n - 1);
        let a = node_ids(s[n - 2].nodes);
        let b = node_ids(s[n - 1].nodes);
        lemma_sorted_set_len(a);
        lemma_sorted_set_len(b);
        lemma_filter_in_len(sorted_set(a), b, false);
        lemma_filter_in_len(sorted_set(b), a, false);
        let c = edge_ids(s[n - 2].edges);
        let d = edge_ids(s[n - 1].edges);
        lemma_sorted_set_len(c);
        lemma_sorted_set_len(d);
        lemma_filter_in_len(sorted_set(c), d, false);
        lemma_filter_in_len(sorted_set(d), c, false);
        assert(items_upto(s, n - 1) == items_upto(s, n - 2) + s[n - 2].nodes.len() + s[n - 2].edges.len());
        assert(items_upto(s, n) == items_upto(s, n - 1) + s[n - 1].nodes.len() + s[n - 1].edges.len());
    }
}

/// The items of two neighbouring snapshots are among the items of all.
proof fn lemma_items_bound(s: Seq<SnapshotModel>, i: int, n: int)
    requires
        1 <= i < n <= s.len(),
    ensures
        s[i - 1].nodes.len() + s[i].nodes.len() + s[i - 1].edges.len() + s[i].edges.len() <= items_upto(s, n),
    decreases n,
{
    if n > i + 1 {
        lemma_items_bound(s, i, n - 1);
    } else {
        assert(items_upto(s, i) == items_upto(s, i - 1) + s[i - 1].nodes.len() + s[i - 1].edges.len());
    }
}

/// Analyses the evolution of a graph over its snapshots.
#[derive(Debug)]
pub struct EvolutionAnalyzer;

impl EvolutionAnalyzer {
    /// An analyzer.
    pub fn new() -> (r: Self) {
        EvolutionAnalyzer
    }

    /// The counts over an ordered run of snapshots, where there are at
    /// least two; `None` otherwise.
    pub fn counts(snapshots: &[GraphSnapshot]) -> (r: Option<EvolutionCounts>)
        requires
            2 * items_upto(snapshot_models(snapshots@), snapshots@.len() as int) <= usize::MAX,
            forall|i: int| 0 <= i < snapshots@.len() ==> -0x7fff_ffff_ffff_ffff_ffff_ffff_ffff_ffff < #[trigger] snapshots@[i].timestamp.unix_nanos
                - snapshots@[0].timestamp.unix_nanos <= 0x7fff_ffff_ffff_ffff_ffff_ffff_ffff_ffff,
        ensures
            snapshots@.len() < 2 <==> r is None,
            r matches Some(c) ==> c@ == evolution_counts(snapshot_models(snapshots@)),
    {
        let ghost s = snapshot_models(snapshots@);
        let n = snapshots.len();
        if n < 2 {
            return None;
        }
        let first = &snapshots[0];
        let last = &snapshots[n - 1];
        assert(s[0] == first@ && s.last() == last@);
        let mut seconds: Vec<i128> = Vec::new();
        let mut node_counts: Vec<usize> = Vec::new();
        let mut edge_counts: Vec<usize> = Vec::new();
        let mut node_churn: usize = 0;
        let mut edge_churn: usize = 0;
        let mut i: usize = 0;
        proof {
            lemma_churn_bound(s, n as int);
        }
        while i < n
            invariant
                2 <= n == snapshots@.len(),
                s == snapshot_models(snapshots@),
                i <= n,
                first@ == s[0],
                forall|k: int| 0 <= k < snapshots@.len() ==> -0x7fff_ffff_ffff_ffff_ffff_ffff_ffff_ffff < #[trigger] snapshots@[k].timestamp.unix_nanos
                    - snapshots@[0].timestamp.unix_nanos <= 0x7fff_ffff_ffff_ffff_ffff_ffff_ffff_ffff,
                seconds@.len() == i,
                node_counts@.len() == i,
                edge_counts@.len() == i,
                forall|k: int| 0 <= k < i ==> #[trigger] seconds@[k] == whole_seconds(s[k].timestamp.unix_nanos - s[0].timestamp.unix_nanos),
                forall|k: int| 0 <= k < i ==> #[trigger] node_counts@[k] == s[k].nodes.len(),
                forall|k: int| 0 <= k < i ==> #[trigger] edge_counts@[k] == s[k].edges.len(),
                node_churn == node_churn_upto(s, i as int),
                edge_churn == edge_churn_upto(s, i as int),
                2 * items_upto(s, n as int) <= usize::MAX,
                node_churn_upto(s, n as int) <= 2 * items_upto(s, n as int),
                edge_churn_upto(s, n as int) <= 2 * items_upto(s, n as int),
            decreases n - i,
        {
            let cur = &snapshots[i];
            assert(s[i as int] == cur@);
            seconds.push(cur.timestamp.whole_seconds_since(first.timestamp));
            node_counts.push(cur.nodes.len());
            edge_counts.push(cur.edges.len());
            if i >= 1 {
                let prev = &snapshots[i - 1];
                assert(s[i - 1] == prev@);
                proof {
                    lemma_items_bound(s, i as int, n as int);
                }
                let a = node_id_list(&prev.nodes);
                let b = node_id_list(&cur.nodes);
                let c = edge_id_list(&prev.edges);
                let d = edge_id_list(&cur.edges);
                assert(a@.len() == texts(a@).len() && b@.len() == texts(b@).len());
                assert(c@.len() == texts(c@).len() && d@.len() == texts(d@).len());
                let dn = symmetric_difference_exec(&a, &b);
                let de = symmetric_difference_exec(&c, &d);
                proof {
                    lemma_churn_monotone(s, i + 1, n as int);
                }
                node_churn = node_churn + dn;
                edge_churn = edge_churn + de;
            }
            i += 1;
        }
        let fa = node_id_list(&first.nodes);
        let la = node_id_list(&last.nodes);
        let fe = edge_id_list(&first.edges);
        let le = edge_id_list(&last.edges);
        let start_n = sorted_set_exec(&fa);
        let start_e = sorted_set_exec(&fe);
        let kept_n = filter_in_exec(&start_n, &la, true);
        let kept_e = filter_in_exec(&start_e, &le, true);
        assert(texts(start_n@).len() == start_n@.len() && texts(kept_n@).len() == kept_n@.len());
        assert(texts(start_e@).len() == start_e@.len() && texts(kept_e@).len() == kept_e@.len());
        let r = EvolutionCounts {
            seconds,
            node_counts,
            edge_counts,
            elapsed_seconds: last.timestamp.whole_seconds_since(first.timestamp),
            node_churn,
            edge_churn,
            start_nodes: start_n.len(),
            surviving_nodes: kept_n.len(),
            start_edges: start_e.len(),
            surviving_edges: kept_e.len(),
        };
        proof {
            let e = evolution_counts(s);
            assert(r@.seconds =~= e.seconds);
            assert(r@.node_counts =~= e.node_counts);
            assert(r@.edge_counts =~= e.edge_counts);
        }
        Some(r)
    }
}

/// Churn only grows as snapshots are added.
proof fn lemma_churn_monotone(s: Seq<SnapshotModel>, m: int, n: int)
    requires
        0 <= m <= n,
    ensures
        node_churn_upto(s, m) <= node_churn_upto(s, n),
        edge_churn_upto(s, m) <= edge_churn_upto(s, n),
    decreases n - m,
{
    if m < n {
        lemma_churn_monotone(s, m, n - 1);
    }
}

/// Nothing comes or goes between a snapshot and an identical one, and
/// every node of the first snapshot survives in an identical last one.
pub proof fn lemma_no_churn_when_unchanged(a: Seq<Seq<char>>)
    ensures
        symmetric_difference_count(a, a) == 0,
        filter_in(sorted_set(a), a, true).len() == sorted_set(a).len(),
{
    crate::sorted::lemma_sorted_set(a);
    lemma_filter_all_in(sorted_set(a), a);
}

proof fn lemma_filter_all_in(q: Seq<Seq<char>>, a: Seq<Seq<char>>)
    requires
        q.to_set() <= a.to_set(),
    ensures
        filter_in(q, a, false).len() == 0,
        filter_in(q, a, true) == q,
    decreases q.len(),
{
    if q.len() > 0 {
        assert(q.drop_last().to_set() <= a.to_set()) by {
            assert forall|x: Seq<char>| q.drop_last().to_set().contains(x) implies a.to_set().contains(x) by {
                let k = choose|k: int| 0 <= k < q.drop_last().len() && q.drop_last()[k] == x;
                assert(q[k] == x);
                assert(q.to_set().contains(x));
            }
        }
        lemma_filter_all_in(q.drop_last(), a);
        assert(q.to_set().contains(q.last()));
        assert(a.contains(q.last()));
        assert(q.drop_last().push(q.last()) =~= q);
    }
}

} // verus!
