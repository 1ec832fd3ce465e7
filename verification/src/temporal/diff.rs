//! The differences between two snapshots of a temporal graph.
use vstd::prelude::*;
use crate::sorted::{sorted_set, sorted_set_exec};
use crate::temporal::graph::{
    edge_models, node_models, pairs_of, Attr, EdgeModel, GraphSnapshot, NodeModel, SnapshotModel,
    TemporalEdge, TemporalNode,
};
use crate::temporal::interval::{same_interval, whole_seconds, Timestamp};
use crate::text::{same_text, texts};

verus! {

/// The value of key `k` among `attrs` (the first entry with that key).
pub open spec fn attr_value(attrs: Seq<Attr>, k: Seq<char>) -> Option<Seq<char>>
    decreases attrs.len(),
{
    if attrs.len() == 0 {
        None
    } else if attrs[0].0 == k {
        Some(attrs[0].1)
    } else {
        attr_value(attrs.drop_first(), k)
    }
}

/// The keys of `attrs`, in order.
pub open spec fn attr_keys(attrs: Seq<Attr>) -> Seq<Seq<char>> {
    attrs.map_values(|a: Attr| a.0)
}

/// An attribute change: key, value before, value after.
pub type DeltaModel = (Seq<char>, Option<Seq<char>>, Option<Seq<char>>);

/// The changes of the keys `ks` from `before` to `after`.
pub open spec fn deltas_over(ks: Seq<Seq<char>>, before: Seq<Attr>, after: Seq<Attr>) -> Seq<DeltaModel>
    decreases ks.len(),
{
    if ks.len() == 0 {
        seq![]
    } else {
        let k = ks.last();
        let rest = deltas_over(ks.drop_last(), before, after);
        if attr_value(before, k) != attr_value(after, k) {
            rest.push((k, attr_value(before, k), attr_value(after, k)))
        } else {
            rest
        }
    }
}

/// The changes from `before` to `after`, over every key of either, in key
/// order.
pub open spec fn attr_deltas(before: Seq<Attr>, after: Seq<Attr>) -> Seq<DeltaModel> {
    deltas_over(sorted_set(attr_keys(before) + attr_keys(after)), before, after)
}

/// A list of attributes has no changes against itself.
pub proof fn lemma_deltas_same(ks: Seq<Seq<char>>, attrs: Seq<Attr>)
    ensures
        deltas_over(ks, attrs, attrs).len() == 0,
    decreases ks.len(),
{
    if ks.len() > 0 {
        lemma_deltas_same(ks.drop_last(), attrs);
    }
}

/// A change to one attribute.
#[derive(Debug)]
pub struct AttributeDelta {
    pub key: String,
    pub old_value: Option<String>,
    pub new_value: Option<String>,
}

/// The text of an optional string.
pub open spec fn opt_text(o: Option<String>) -> Option<Seq<char>> {
    match o {
        Some(s) => Some(s@),
        None => None,
    }
}

impl View for AttributeDelta {
    type V = DeltaModel;

    open spec fn view(&self) -> DeltaModel {
        (self.key@, opt_text(self.old_value), opt_text(self.new_value))
    }
}

/// The models of a list of attribute changes.
pub open spec fn delta_models(v: Seq<AttributeDelta>) -> Seq<DeltaModel> {
    v.map_values(|d: AttributeDelta| d@)
}

/// A change to a node: its id, its attribute changes, whether its interval
/// changed.
pub type ChangeModel = (Seq<char>, Seq<DeltaModel>, bool);

/// A node that is in both snapshots but changed.
#[derive(Debug)]
pub struct NodeChange {
    pub id: String,
    pub attribute_changes: Vec<AttributeDelta>,
    pub interval_changed: bool,
}

/// An edge that is in both snapshots but changed.
#[derive(Debug)]
pub struct EdgeChange {
    pub id: String,
    pub property_changes: Vec<AttributeDelta>,
    pub interval_changed: bool,
}

impl View for NodeChange {
    type V = ChangeModel;

    open spec fn view(&self) -> ChangeModel {
        (self.id@, delta_models(self.attribute_changes@), self.interval_changed)
    }
}

impl View for EdgeChange {
    type V = ChangeModel;

    open spec fn view(&self) -> ChangeModel {
        (self.id@, delta_models(self.property_changes@), self.interval_changed)
    }
}

/// The value of key `k` among `attrs`.
fn attr_lookup(attrs: &Vec<(String, String)>, k: &str) -> (r: Option<String>)
    ensures
        opt_text(r) == attr_value(pairs_of(attrs@), k@),
{
    let ghost a = pairs_of(attrs@);
    let mut i: usize = 0;
    assert(a.subrange(0, a.len() as int) =~= a);
    while i < attrs.len()
        invariant
            i <= attrs@.len(),
            a == pairs_of(attrs@),
            attr_value(a.subrange(i as int, a.len() as int), k@) == attr_value(a, k@),
        decreases attrs@.len() - i,
    {
        let ghost rest = a.subrange(i as int, a.len() as int);
        assert(rest.drop_first() =~= a.subrange(i + 1, a.len() as int));
        assert(rest[0] == a[i as int]);
        if same_text(attrs[i].0.as_str(), k) {
            return Some(attrs[i].1.clone());
        }
        i += 1;
    }
    None
}

/// Whether two optional strings are equal.
fn same_opt(a: &Option<String>, b: &Option<String>) -> (r: bool)
    ensures
        r == (opt_text(*a) == opt_text(*b)),
{
    match (a, b) {
        (Some(x), Some(y)) => same_text(x.as_str(), y.as_str()),
        (None, None) => true,
        _ => false,
    }
}

/// The keys of a list of pairs, as strings.
fn keys_of(attrs: &Vec<(String, String)>, out: &mut Vec<String>)
    ensures
        texts(final(out)@) == texts(old(out)@) + attr_keys(pairs_of(attrs@)),
{
    let ghost start = texts(out@);
    let mut i: usize = 0;
    while i < attrs.len()
        invariant
            i <= attrs@.len(),
            texts(out@) == start + attr_keys(pairs_of(attrs@)).subrange(0, i as int),
        decreases attrs@.len() - i,
    {
        let ghost before = texts(out@);
        out.push(attrs[i].0.clone());
        assert(texts(out@) =~= before.push(attr_keys(pairs_of(attrs@))[i as int]));
        i += 1;
        assert(texts(out@) =~= start + attr_keys(pairs_of(attrs@)).subrange(0, i as int));
    }
    assert(attr_keys(pairs_of(attrs@)).subrange(0, attrs@.len() as int) =~= attr_keys(pairs_of(attrs@)));
}

/// The changes from `before` to `after`, in key order.
pub fn diff_attributes(before: &Vec<(String, String)>, after: &Vec<(String, String)>) -> (r: Vec<AttributeDelta>)
    ensures
        delta_models(r@) == attr_deltas(pairs_of(before@), pairs_of(after@)),
{
    let mut all: Vec<String> = Vec::new();
    keys_of(before, &mut all);
    keys_of(after, &mut all);
    assert(texts(all@) =~= attr_keys(pairs_of(before@)) + attr_keys(pairs_of(after@)));
    let keys = sorted_set_exec(&all);
    let ghost ks = texts(keys@);
    let mut r: Vec<AttributeDelta> = Vec::new();
    let mut i: usize = 0;
    assert(ks.subrange(0, 0) =~= Seq::<Seq<char>>::empty());
    assert(delta_models(r@) =~= Seq::<DeltaModel>::empty());
    while i < keys.len()
        invariant
            i <= keys@.len(),
            ks == texts(keys@),
            delta_models(r@) == deltas_over(ks.subrange(0, i as int), pairs_of(before@), pairs_of(after@)),
        decreases keys@.len() - i,
    {
        assert(ks.subrange(0, i + 1).drop_last() =~= ks.subrange(0, i as int));
        assert(ks.subrange(0, i + 1).last() == keys@[i as int]@);
        let old_value = attr_lookup(before, keys[i].as_str());
        let new_value = attr_lookup(after, keys[i].as_str());
        if !same_opt(&old_value, &new_value) {
            let ghost prev = delta_models(r@);
            let d = AttributeDelta { key: keys[i].clone(), old_value, new_value };
            let ghost dm = d@;
            r.push(d);
            assert(delta_models(r@) =~= prev.push(dm));
        }
        i += 1;
    }
    assert(ks.subrange(0, keys@.len() as int) =~= ks);
    r
}

/// The index of the last node of `s` with id `id`.
pub open spec fn last_node_index(s: Seq<NodeModel>, id: Seq<char>) -> Option<int>
    decreases s.len(),
{
    if s.len() == 0 {
        None
    } else if s.last().id == id {
        Some(s.len() - 1)
    } else {
        last_node_index(s.drop_last(), id)
    }
}

/// The index of the last edge of `s` with id `id`.
pub open spec fn last_edge_index(s: Seq<EdgeModel>, id: Seq<char>) -> Option<int>
    decreases s.len(),
{
    if s.len() == 0 {
        None
    } else if s.last().id == id {
        Some(s.len() - 1)
    } else {
        last_edge_index(s.drop_last(), id)
    }
}

/// What the last index is: the id is there, and not after it.
pub proof fn lemma_last_node_index(s: Seq<NodeModel>, id: Seq<char>)
    ensures
        last_node_index(s, id) matches Some(i) ==> 0 <= i < s.len() && s[i].id == id && forall|j: int|
            i < j < s.len() ==> (#[trigger] s[j]).id != id,
        last_node_index(s, id) is None ==> forall|j: int| 0 <= j < s.len() ==> (#[trigger] s[j]).id != id,
    decreases s.len(),
{
    if s.len() > 0 {
        lemma_last_node_index(s.drop_last(), id);
        assert forall|j: int| 0 <= j < s.len() - 1 implies s.drop_last()[j] == s[j] by {}
    }
}

/// What the last index is: the id is there, and not after it.
pub proof fn lemma_last_edge_index(s: Seq<EdgeModel>, id: Seq<char>)
    ensures
        last_edge_index(s, id) matches Some(i) ==> 0 <= i < s.len() && s[i].id == id && forall|j: int|
            i < j < s.len() ==> (#[trigger] s[j]).id != id,
        last_edge_index(s, id) is None ==> forall|j: int| 0 <= j < s.len() ==> (#[trigger] s[j]).id != id,
    decreases s.len(),
{
    if s.len() > 0 {
        lemma_last_edge_index(s.drop_last(), id);
        assert forall|j: int| 0 <= j < s.len() - 1 implies s.drop_last()[j] == s[j] by {}
    }
}

/// The index found from the end is the last one with the id.
proof fn lemma_last_node_index_at(s: Seq<NodeModel>, id: Seq<char>, i: int)
    requires
        0 <= i < s.len(),
        s[i].id == id,
        forall|j: int| i < j < s.len() ==> (#[trigger] s[j]).id != id,
    ensures
        last_node_index(s, id) == Some(i),
{
    lemma_last_node_index(s, id);
    match last_node_index(s, id) {
        Some(m) => {
            if m > i {
                assert(s[m].id != id);
            } else if m < i {
                assert(s[i].id != id);
            }
        },
        None => {
            assert(s[i].id != id);
        },
    }
}

/// The index found from the end is the last one with the id.
proof fn lemma_last_edge_index_at(s: Seq<EdgeModel>, id: Seq<char>, i: int)
    requires
        0 <= i < s.len(),
        s[i].id == id,
        forall|j: int| i < j < s.len() ==> (#[trigger] s[j]).id != id,
    ensures
        last_edge_index(s, id) == Some(i),
{
    lemma_last_edge_index(s, id);
    match last_edge_index(s, id) {
        Some(m) => {
            if m > i {
                assert(s[m].id != id);
            } else if m < i {
                assert(s[i].id != id);
            }
        },
        None => {
            assert(s[i].id != id);
        },
    }
}

/// Node results so far: added nodes and changed nodes, over the first `n`
/// nodes of `after`. A snapshot is read as a map from id to the last node
/// with that id.
pub open spec fn node_diff_upto(before: Seq<NodeModel>, after: Seq<NodeModel>, n: int) -> (Seq<NodeModel>, Seq<ChangeModel>)
    decreases n,
{
    if n <= 0 {
        (seq![], seq![])
    } else {
        let prev = node_diff_upto(before, after, n - 1);
        let a = after[n - 1];
        if last_node_index(after, a.id) != Some(n - 1) {
            prev
        } else {
            match last_node_index(before, a.id) {
                None => (prev.0.push(a), prev.1),
                Some(bi) => {
                    let b = before[bi];
                    let ds = attr_deltas(b.attributes, a.attributes);
                    let moved = b.interval != a.interval;
                    if ds.len() > 0 || moved {
                        (prev.0, prev.1.push((a.id, ds, moved)))
                    } else {
                        prev
                    }
                },
            }
        }
    }
}

/// Ids of the first `n` nodes of `before` (each at its last occurrence)
/// that `after` lacks.
pub open spec fn removed_nodes_upto(before: Seq<NodeModel>, after: Seq<NodeModel>, n: int) -> Seq<Seq<char>>
    decreases n,
{
    if n <= 0 {
        seq![]
    } else {
        let prev = removed_nodes_upto(before, after, n - 1);
        let b = before[n - 1];
        if last_node_index(before, b.id) == Some(n - 1) && last_node_index(after, b.id) is None {
            prev.push(b.id)
        } else {
            prev
        }
    }
}

/// Edge results so far, as for nodes.
pub open spec fn edge_diff_upto(before: Seq<EdgeModel>, after: Seq<EdgeModel>, n: int) -> (Seq<EdgeModel>, Seq<ChangeModel>)
    decreases n,
{
    if n <= 0 {
        (seq![], seq![])
    } else {
        let prev = edge_diff_upto(before, after, n - 1);
        let a = after[n - 1];
        if last_edge_index(after, a.id) != Some(n - 1) {
            prev
        } else {
            match last_edge_index(before, a.id) {
                None => (prev.0.push(a), prev.1),
                Some(bi) => {
                    let b = before[bi];
                    let ds = attr_deltas(b.properties, a.properties);
                    let moved = b.interval != a.interval;
                    if ds.len() > 0 || moved {
                        (prev.0, prev.1.push((a.id, ds, moved)))
                    } else {
                        prev
                    }
                },
            }
        }
    }
}

/// Ids of the first `n` edges of `before` that `after` lacks.
pub open spec fn removed_edges_upto(before: Seq<EdgeModel>, after: Seq<EdgeModel>, n: int) -> Seq<Seq<char>>
    decreases n,
{
    if n <= 0 {
        seq![]
    } else {
        let prev = removed_edges_upto(before, after, n - 1);
        let b = before[n - 1];
        if last_edge_index(before, b.id) == Some(n - 1) && last_edge_index(after, b.id) is None {
            prev.push(b.id)
        } else {
            prev
        }
    }
}

/// The abstract value of a [`GraphDiff`].
pub struct DiffModel {
    pub from: Timestamp,
    pub to: Timestamp,
    pub added_nodes: Seq<NodeModel>,
    pub removed_nodes: Seq<Seq<char>>,
    pub added_edges: Seq<EdgeModel>,
    pub removed_edges: Seq<Seq<char>>,
    pub modified_nodes: Seq<ChangeModel>,
    pub modified_edges: Seq<ChangeModel>,
}

/// The difference from snapshot `b` to snapshot `a`.
pub open spec fn diff_of(b: SnapshotModel, a: SnapshotModel) -> DiffModel {
    let nd = node_diff_upto(b.nodes, a.nodes, a.nodes.len() as int);
    let ed = edge_diff_upto(b.edges, a.edges, a.edges.len() as int);
    DiffModel {
        from: b.timestamp,
        to: a.timestamp,
        added_nodes: nd.0,
        removed_nodes: removed_nodes_upto(b.nodes, a.nodes, b.nodes.len() as int),
        added_edges: ed.0,
        removed_edges: removed_edges_upto(b.edges, a.edges, b.edges.len() as int),
        modified_nodes: nd.1,
        modified_edges: ed.1,
    }
}

/// How many changes a difference holds.
pub open spec fn change_total(d: DiffModel) -> nat {
    d.added_nodes.len() + d.removed_nodes.len() + d.added_edges.len() + d.removed_edges.len() + d.modified_nodes.len()
        + d.modified_edges.len()
}

/// The difference between two snapshots.
#[derive(Debug)]
pub struct GraphDiff {
    /// Timestamp of the older snapshot.
    pub from: Timestamp,
    /// Timestamp of the newer snapshot.
    pub to: Timestamp,
    pub added_nodes: Vec<TemporalNode>,
    pub removed_nodes: Vec<String>,
    pub added_edges: Vec<TemporalEdge>,
    pub removed_edges: Vec<String>,
    pub modified_nodes: Vec<NodeChange>,
    pub modified_edges: Vec<EdgeChange>,
}

/// The models of a list of node changes.
pub open spec fn node_change_models(v: Seq<NodeChange>) -> Seq<ChangeModel> {
    v.map_values(|c: NodeChange| c@)
}

/// The models of a list of edge changes.
pub open spec fn edge_change_models(v: Seq<EdgeChange>) -> Seq<ChangeModel> {
    v.map_values(|c: EdgeChange| c@)
}

impl View for GraphDiff {
    type V = DiffModel;

    open spec fn view(&self) -> DiffModel {
        DiffModel {
            from: self.from,
            to: self.to,
            added_nodes: node_models(self.added_nodes@),
            removed_nodes: texts(self.removed_nodes@),
            added_edges: edge_models(self.added_edges@),
            removed_edges: texts(self.removed_edges@),
            modified_nodes: node_change_models(self.modified_nodes@),
            modified_edges: edge_change_models(self.modified_edges@),
        }
    }
}

/// The index of the last node of `s` with id `id`.
fn last_node_pos(s: &Vec<TemporalNode>, id: &str) -> (r: Option<usize>)
    ensures
        r matches Some(i) ==> last_node_index(node_models(s@), id@) == Some(i as int),
        r is None ==> last_node_index(node_models(s@), id@) is None,
{
    let ghost m = node_models(s@);
    let mut i: usize = s.len();
    while i > 0
        invariant
            i <= s@.len(),
            m == node_models(s@),
            forall|j: int| i <= j < s@.len() ==> (#[trigger] m[j]).id != id@,
        decreases i,
    {
        i -= 1;
        assert(m[i as int] == s@[i as int]@);
        if same_text(s[i].id.as_str(), id) {
            proof {
                lemma_last_node_index_at(m, id@, i as int);
            }
            return Some(i);
        }
    }
    proof {
        lemma_last_node_index(m, id@);
        if let Some(k) = last_node_index(m, id@) {
            assert(m[k].id != id@);
        }
    }
    None
}

/// The index of the last edge of `s` with id `id`.
fn last_edge_pos(s: &Vec<TemporalEdge>, id: &str) -> (r: Option<usize>)
    ensures
        r matches Some(i) ==> last_edge_index(edge_models(s@), id@) == Some(i as int),
        r is None ==> last_edge_index(edge_models(s@), id@) is None,
{
    let ghost m = edge_models(s@);
    let mut i: usize = s.len();
    while i > 0
        invariant
            i <= s@.len(),
            m == edge_models(s@),
            forall|j: int| i <= j < s@.len() ==> (#[trigger] m[j]).id != id@,
        decreases i,
    {
        i -= 1;
        assert(m[i as int] == s@[i as int]@);
        if same_text(s[i].id.as_str(), id) {
            proof {
                lemma_last_edge_index_at(m, id@, i as int);
            }
            return Some(i);
        }
    }
    proof {
        lemma_last_edge_index(m, id@);
        if let Some(k) = last_edge_index(m, id@) {
            assert(m[k].id != id@);
        }
    }
    None
}

/// The sum of the first `n` counts.
pub open spec fn partial_change_total(counts: Seq<usize>, n: int) -> int
    decreases n,
{
    if n <= 0 {
        0
    } else {
        partial_change_total(counts, n - 1) + counts[n - 1]
    }
}

/// Partial sums only grow, up to the sum of six counts.
proof fn lemma_partial_change_total_grows(counts: Seq<usize>, n: int)
    requires
        0 <= n <= 6,
    ensures
        partial_change_total(counts, n) <= partial_change_total(counts, 6),
    decreases 6 - n,
{
    if n < 6 {
        lemma_partial_change_total_grows(counts, n + 1);
    }
}

impl GraphDiff {
    /// The difference from `before` to `after`: nodes and edges added,
    /// removed, and changed (in attributes or interval). Each snapshot is
    /// read as a map from id to the last node or edge with that id; results
    /// follow the order of the snapshots' lists.
    pub fn between(before: &GraphSnapshot, after: &GraphSnapshot) -> (r: Self)
        ensures
            r@ == diff_of(before@, after@),
    {
        let ghost bn = before@.nodes;
        let ghost an = after@.nodes;
        let ghost be = before@.edges;
        let ghost ae = after@.edges;
        let mut added_nodes: Vec<TemporalNode> = Vec::new();
        let mut modified_nodes: Vec<NodeChange> = Vec::new();
        let mut i: usize = 0;
        assert(node_models(added_nodes@) =~= Seq::<NodeModel>::empty());
        assert(node_change_models(modified_nodes@) =~= Seq::<ChangeModel>::empty());
        while i < after.nodes.len()
            invariant
                i <= after.nodes@.len(),
                bn == before@.nodes,
                an == after@.nodes,
                (node_models(added_nodes@), node_change_models(modified_nodes@)) == node_diff_upto(bn, an, i as int),
            decreases after.nodes@.len() - i,
        {
            let ghost pa = node_models(added_nodes@);
            let ghost pm = node_change_models(modified_nodes@);
            let a = &after.nodes[i];
            assert(an[i as int] == a@);
            let last = last_node_pos(&after.nodes, a.id.as_str());
            let is_last = match last {
                Some(k) => k == i,
                None => false,
            };
            if is_last {
                proof {
                    lemma_last_node_index(bn, a.id@);
                }
                match last_node_pos(&before.nodes, a.id.as_str()) {
                    None => {
                        added_nodes.push(a.copy());
                        assert(node_models(added_nodes@) =~= pa.push(a@));
                    },
                    Some(bi) => {
                        let b = &before.nodes[bi];
                        assert(bn[bi as int] == b@);
                        let changes = diff_attributes(&b.attributes, &a.attributes);
                        let moved = !same_interval(&b.interval, &a.interval);
                        if changes.len() > 0 || moved {
                            let c = NodeChange { id: a.id.clone(), attribute_changes: changes, interval_changed: moved };
                            let ghost cm = c@;
                            modified_nodes.push(c);
                            assert(node_change_models(modified_nodes@) =~= pm.push(cm));
                        }
                    },
                }
            }
            i += 1;
        }
        let mut removed_nodes: Vec<String> = Vec::new();
        let mut j: usize = 0;
        assert(texts(removed_nodes@) =~= Seq::<Seq<char>>::empty());
        while j < before.nodes.len()
            invariant
                j <= before.nodes@.len(),
                bn == before@.nodes,
                an == after@.nodes,
                texts(removed_nodes@) == removed_nodes_upto(bn, an, j as int),
            decreases before.nodes@.len() - j,
        {
            let ghost pr = texts(removed_nodes@);
            let b = &before.nodes[j];
            assert(bn[j as int] == b@);
            let last = last_node_pos(&before.nodes, b.id.as_str());
            let is_last = match last {
                Some(k) => k == j,
                None => false,
            };
            if is_last {
                if last_node_pos(&after.nodes, b.id.as_str()).is_none() {
                    removed_nodes.push(b.id.clone());
                    assert(texts(removed_nodes@) =~= pr.push(b.id@));
                }
            }
            j += 1;
        }
        let mut added_edges: Vec<TemporalEdge> = Vec::new();
        let mut modified_edges: Vec<EdgeChange> = Vec::new();
        let mut i: usize = 0;
        assert(edge_models(added_edges@) =~= Seq::<EdgeModel>::empty());
        assert(edge_change_models(modified_edges@) =~= Seq::<ChangeModel>::empty());
        while i < after.edges.len()
            invariant
                i <= after.edges@.len(),
                be == before@.edges,
                ae == after@.edges,
                (edge_models(added_edges@), edge_change_models(modified_edges@)) == edge_diff_upto(be, ae, i as int),
            decreases after.edges@.len() - i,
        {
            let ghost pa = edge_models(added_edges@);
            let ghost pm = edge_change_models(modified_edges@);
            let a = &after.edges[i];
            assert(ae[i as int] == a@);
            let last = last_edge_pos(&after.edges, a.id.as_str());
            let is_last = match last {
                Some(k) => k == i,
                None => false,
            };
            if is_last {
                proof {
                    lemma_last_edge_index(be, a.id@);
                }
                match last_edge_pos(&before.edges, a.id.as_str()) {
                    None => {
                        added_edges.push(a.copy());
                        assert(edge_models(added_edges@) =~= pa.push(a@));
                    },
                    Some(bi) => {
                        let b = &before.edges[bi];
                        assert(be[bi as int] == b@);
                        let changes = diff_attributes(&b.properties, &a.properties);
                        let moved = !same_interval(&b.interval, &a.interval);
                        if changes.len() > 0 || moved {
                            let c = EdgeChange { id: a.id.clone(), property_changes: changes, interval_changed: moved };
                            let ghost cm = c@;
                            modified_edges.push(c);
                            assert(edge_change_models(modified_edges@) =~= pm.push(cm));
                        }
                    },
                }
            }
            i += 1;
        }
        let mut removed_edges: Vec<String> = Vec::new();
        let mut j: usize = 0;
        assert(texts(removed_edges@) =~= Seq::<Seq<char>>::empty());
        while j < before.edges.len()
            invariant
                j <= before.edges@.len(),
                be == before@.edges,
                ae == after@.edges,
                texts(removed_edges@) == removed_edges_upto(be, ae, j as int),
            decreases before.edges@.len() - j,
        {
            let ghost pr = texts(removed_edges@);
            let b = &before.edges[j];
            assert(be[j as int] == b@);
            let last = last_edge_pos(&before.edges, b.id.as_str());
            let is_last = match last {
                Some(k) => k == j,
                None => false,
            };
            if is_last {
                if last_edge_pos(&after.edges, b.id.as_str()).is_none() {
                    removed_edges.push(b.id.clone());
                    assert(texts(removed_edges@) =~= pr.push(b.id@));
                }
            }
            j += 1;
        }
        GraphDiff {
            from: before.timestamp,
            to: after.timestamp,
            added_nodes,
            removed_nodes,
            added_edges,
            removed_edges,
            modified_nodes,
            modified_edges,
        }
    }

    /// The total number of changes.
    pub fn change_count(&self) -> (r: usize)
        requires
            change_total(self@) <= usize::MAX,
        ensures
            r == change_total(self@),
    {
        assert(self@.added_nodes.len() == self.added_nodes@.len());
        assert(self@.removed_nodes.len() == self.removed_nodes@.len());
        assert(self@.added_edges.len() == self.added_edges@.len());
        assert(self@.removed_edges.len() == self.removed_edges@.len());
        assert(self@.modified_nodes.len() == self.modified_nodes@.len());
        assert(self@.modified_edges.len() == self.modified_edges@.len());
        self.added_nodes.len() + self.removed_nodes.len() + self.added_edges.len() + self.removed_edges.len()
            + self.modified_nodes.len() + self.modified_edges.len()
    }

    /// The total number of changes, where it fits in `usize`.
    pub fn change_count_checked(&self) -> (r: Option<usize>)
        ensures
            change_total(self@) <= usize::MAX ==> r == Some(change_total(self@) as usize),
            change_total(self@) > usize::MAX ==> r is None,
    {
        assert(self@.added_nodes.len() == self.added_nodes@.len());
        assert(self@.removed_nodes.len() == self.removed_nodes@.len());
        assert(self@.added_edges.len() == self.added_edges@.len());
        assert(self@.removed_edges.len() == self.removed_edges@.len());
        assert(self@.modified_nodes.len() == self.modified_nodes@.len());
        assert(self@.modified_edges.len() == self.modified_edges@.len());
        let counts = [
            self.added_nodes.len(),
            self.removed_nodes.len(),
            self.added_edges.len(),
            self.removed_edges.len(),
            self.modified_nodes.len(),
            self.modified_edges.len(),
        ];
        let mut total: usize = 0;
        let mut i: usize = 0;
        assert(partial_change_total(counts@, 6) == change_total(self@)) by {
            reveal_with_fuel(partial_change_total, 7);
        }
        while i < 6
            invariant
                i <= 6,
                partial_change_total(counts@, 6) == change_total(self@),
                counts@.len() == 6,
                counts@[0] == self@.added_nodes.len(),
                counts@[1] == self@.removed_nodes.len(),
                counts@[2] == self@.added_edges.len(),
                counts@[3] == self@.removed_edges.len(),
                counts@[4] == self@.modified_nodes.len(),
                counts@[5] == self@.modified_edges.len(),
                total == partial_change_total(counts@, i as int),
            decreases 6 - i,
        {
            if total > usize::MAX - counts[i] {
                proof {
                    lemma_partial_change_total_grows(counts@, i as int + 1);
                }
                return None;
            }
            total = total + counts[i];
            i += 1;
        }
        Some(total)
    }

    /// Whether there is any change.
    pub fn has_changes(&self) -> (r: bool)
        requires
            change_total(self@) <= usize::MAX,
        ensures
            r == (change_total(self@) > 0),
    {
        self.change_count() > 0
    }

    /// Whole seconds from the older snapshot to the newer one (what the
    /// rate of change is taken over).
    pub fn elapsed_seconds(&self) -> (r: i128)
        requires
            i128::MIN < self.to.unix_nanos - self.from.unix_nanos <= i128::MAX,
        ensures
            r == whole_seconds(self.to.unix_nanos - self.from.unix_nanos),
    {
        self.to.whole_seconds_since(self.from)
    }
}

/// Node results never skip an id of `after`: a node is added exactly when
/// its id is absent from `before`.
pub proof fn lemma_added_nodes(before: Seq<NodeModel>, after: Seq<NodeModel>, n: int)
    requires
        0 <= n <= after.len(),
    ensures
        forall|k: int| 0 <= k < node_diff_upto(before, after, n).0.len() ==> last_node_index(before, (#[trigger] node_diff_upto(before, after, n).0[k]).id) is None,
    decreases n,
{
    if n > 0 {
        lemma_added_nodes(before, after, n - 1);
        let prev = node_diff_upto(before, after, n - 1);
        let cur = node_diff_upto(before, after, n);
        assert forall|k: int| 0 <= k < cur.0.len() implies last_node_index(before, (#[trigger] cur.0[k]).id) is None by {
            if k < prev.0.len() {
                assert(cur.0[k] == prev.0[k]);
            }
        }
    }
}

proof fn lemma_removed_nodes_reversed(x: Seq<NodeModel>, y: Seq<NodeModel>, n: int)
    requires
        0 <= n <= x.len(),
    ensures
        removed_nodes_upto(x, y, n) == node_diff_upto(y, x, n).0.map_values(|m: NodeModel| m.id),
    decreases n,
{
    if n > 0 {
        lemma_removed_nodes_reversed(x, y, n - 1);
        let prev = node_diff_upto(y, x, n - 1).0;
        assert(prev.push(x[n - 1]).map_values(|m: NodeModel| m.id) =~= prev.map_values(|m: NodeModel| m.id).push(
            x[n - 1].id,
        ));
    }
}

proof fn lemma_removed_edges_reversed(x: Seq<EdgeModel>, y: Seq<EdgeModel>, n: int)
    requires
        0 <= n <= x.len(),
    ensures
        removed_edges_upto(x, y, n) == edge_diff_upto(y, x, n).0.map_values(|m: EdgeModel| m.id),
    decreases n,
{
    if n > 0 {
        lemma_removed_edges_reversed(x, y, n - 1);
        let prev = edge_diff_upto(y, x, n - 1).0;
        assert(prev.push(x[n - 1]).map_values(|m: EdgeModel| m.id) =~= prev.map_values(|m: EdgeModel| m.id).push(
            x[n - 1].id,
        ));
    }
}

/// A difference taken the other way round swaps additions and removals:
/// what one direction removes is, by id and in order, what the other adds.
pub proof fn lemma_diff_reversed(s1: SnapshotModel, s2: SnapshotModel)
    ensures
        diff_of(s1, s2).removed_nodes == diff_of(s2, s1).added_nodes.map_values(|m: NodeModel| m.id),
        diff_of(s2, s1).removed_nodes == diff_of(s1, s2).added_nodes.map_values(|m: NodeModel| m.id),
        diff_of(s1, s2).removed_edges == diff_of(s2, s1).added_edges.map_values(|m: EdgeModel| m.id),
        diff_of(s2, s1).removed_edges == diff_of(s1, s2).added_edges.map_values(|m: EdgeModel| m.id),
{
    lemma_removed_nodes_reversed(s1.nodes, s2.nodes, s1.nodes.len() as int);
    lemma_removed_nodes_reversed(s2.nodes, s1.nodes, s2.nodes.len() as int);
    lemma_removed_edges_reversed(s1.edges, s2.edges, s1.edges.len() as int);
    lemma_removed_edges_reversed(s2.edges, s1.edges, s2.edges.len() as int);
}

/// Whether the node with id `x` is in both lists (each read at its last
/// node with that id) and differs: some attribute delta, or a moved
/// interval.
pub open spec fn node_changed(before: Seq<NodeModel>, after: Seq<NodeModel>, x: Seq<char>) -> bool {
    match (last_node_index(after, x), last_node_index(before, x)) {
        (Some(i), Some(j)) => attr_deltas(before[j].attributes, after[i].attributes).len() > 0 || before[j].interval
            != after[i].interval,
        _ => false,
    }
}

proof fn lemma_push_contains(s: Seq<Seq<char>>, v: Seq<char>, x: Seq<char>)
    ensures
        s.push(v).contains(x) <==> (s.contains(x) || v == x),
{
    if s.contains(x) {
        let k = choose|k: int| 0 <= k < s.len() && s[k] == x;
        assert(s.push(v)[k] == x);
    }
    if v == x {
        assert(s.push(v)[s.len() as int] == x);
    }
    if s.push(v).contains(x) {
        let k = choose|k: int| 0 <= k < s.len() + 1 && s.push(v)[k] == x;
        if k < s.len() {
            assert(s[k] == x);
        }
    }
}

proof fn lemma_modified_upto(before: Seq<NodeModel>, after: Seq<NodeModel>, n: int, x: Seq<char>)
    requires
        0 <= n <= after.len(),
    ensures
        node_diff_upto(before, after, n).1.map_values(|c: ChangeModel| c.0).contains(x) <==> (node_changed(
            before,
            after,
            x,
        ) && last_node_index(after, x).unwrap() < n),
    decreases n,
{
    lemma_last_node_index(after, x);
    if n == 0 {
        assert(node_diff_upto(before, after, n).1.map_values(|c: ChangeModel| c.0) =~= Seq::<Seq<char>>::empty());
    } else {
        lemma_modified_upto(before, after, n - 1, x);
        let prev = node_diff_upto(before, after, n - 1);
        let a = after[n - 1];
        lemma_last_node_index(after, a.id);
        let cur = node_diff_upto(before, after, n);
        if x != a.id {
            assert(last_node_index(after, x) != Some(n - 1));
        }
        if last_node_index(after, a.id) != Some(n - 1) {
            assert(last_node_index(after, x) != Some(n - 1));
            assert(cur == prev);
        } else {
            match last_node_index(before, a.id) {
                None => {
                    assert(cur.1 == prev.1);
                },
                Some(bi) => {
                    let ds = attr_deltas(before[bi].attributes, a.attributes);
                    if ds.len() > 0 || before[bi].interval != a.interval {
                        let c: ChangeModel = (a.id, ds, before[bi].interval != a.interval);
                        assert(cur.1 == prev.1.push(c));
                        assert(prev.1.push(c).map_values(|c: ChangeModel| c.0) =~= prev.1.map_values(
                            |c: ChangeModel| c.0,
                        ).push(a.id));
                        lemma_push_contains(prev.1.map_values(|c: ChangeModel| c.0), a.id, x);
                    } else {
                        assert(cur.1 == prev.1);
                    }
                },
            }
        }
    }
}

/// The nodes a difference reports as modified are, by id, exactly those
/// present on both sides whose attribute deltas are not empty or whose
/// interval moved.
pub proof fn lemma_modified_nodes(b: SnapshotModel, a: SnapshotModel, x: Seq<char>)
    ensures
        diff_of(b, a).modified_nodes.map_values(|c: ChangeModel| c.0).contains(x) <==> node_changed(
            b.nodes,
            a.nodes,
            x,
        ),
{
    lemma_modified_upto(b.nodes, a.nodes, a.nodes.len() as int, x);
    lemma_last_node_index(a.nodes, x);
}

/// A snapshot has no differences from itself.
pub proof fn lemma_diff_self(s: SnapshotModel)
    ensures
        change_total(diff_of(s, s)) == 0,
{
    lemma_node_diff_self(s.nodes, s.nodes.len() as int);
    lemma_edge_diff_self(s.edges, s.edges.len() as int);
    lemma_removed_nodes_self(s.nodes, s.nodes.len() as int);
    lemma_removed_edges_self(s.edges, s.edges.len() as int);
}

proof fn lemma_node_diff_self(s: Seq<NodeModel>, n: int)
    requires
        n <= s.len(),
    ensures
        node_diff_upto(s, s, n).0.len() == 0,
        node_diff_upto(s, s, n).1.len() == 0,
    decreases n,
{
    if n > 0 {
        lemma_node_diff_self(s, n - 1);
        let a = s[n - 1];
        if last_node_index(s, a.id) == Some(n - 1) {
            lemma_deltas_same(sorted_set(attr_keys(a.attributes) + attr_keys(a.attributes)), a.attributes);
        }
    }
}

proof fn lemma_edge_diff_self(s: Seq<EdgeModel>, n: int)
    requires
        n <= s.len(),
    ensures
        edge_diff_upto(s, s, n).0.len() == 0,
        edge_diff_upto(s, s, n).1.len() == 0,
    decreases n,
{
    if n > 0 {
        lemma_edge_diff_self(s, n - 1);
        let a = s[n - 1];
        if last_edge_index(s, a.id) == Some(n - 1) {
            lemma_deltas_same(sorted_set(attr_keys(a.properties) + attr_keys(a.properties)), a.properties);
        }
    }
}

proof fn lemma_removed_nodes_self(s: Seq<NodeModel>, n: int)
    requires
        n <= s.len(),
    ensures
        removed_nodes_upto(s, s, n).len() == 0,
    decreases n,
{
    if n > 0 {
        lemma_removed_nodes_self(s, n - 1);
        lemma_last_node_index(s, s[n - 1].id);
    }
}

proof fn lemma_removed_edges_self(s: Seq<EdgeModel>, n: int)
    requires
        n <= s.len(),
    ensures
        removed_edges_upto(s, s, n).len() == 0,
    decreases n,
{
    if n > 0 {
        lemma_removed_edges_self(s, n - 1);
        lemma_last_edge_index(s, s[n - 1].id);
    }
}

} // verus!
