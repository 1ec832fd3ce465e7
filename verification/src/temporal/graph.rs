//! Temporal nodes and edges, the current state of a graph, and snapshots
//! of it.
use vstd::prelude::*;
use crate::temporal::interval::{interval_contains, TimeInterval, Timestamp};
use crate::text::same_text;

verus! {

/// A key and its value, as texts.
pub type Attr = (Seq<char>, Seq<char>);

/// Key–value pairs as pairs of texts.
pub open spec fn pairs_of(v: Seq<(String, String)>) -> Seq<Attr> {
    v.map_values(|e: (String, String)| (e.0@, e.1@))
}

/// A copy of a list of key–value pairs.
pub fn copy_pairs(v: &Vec<(String, String)>) -> (r: Vec<(String, String)>)
    ensures
        pairs_of(r@) == pairs_of(v@),
{
    let mut r: Vec<(String, String)> = Vec::new();
    let mut i: usize = 0;
    while i < v.len()
        invariant
            i <= v@.len(),
            pairs_of(r@) == pairs_of(v@).subrange(0, i as int),
        decreases v@.len() - i,
    {
        let ghost before = pairs_of(r@);
        r.push((v[i].0.clone(), v[i].1.clone()));
        assert(pairs_of(r@) =~= before.push(pairs_of(v@)[i as int]));
        i += 1;
        assert(pairs_of(r@) =~= pairs_of(v@).subrange(0, i as int));
    }
    assert(pairs_of(v@).subrange(0, v@.len() as int) =~= pairs_of(v@));
    r
}

/// No two items of `s` share a key.
pub open spec fn unique_keys<T>(s: Seq<T>, key: spec_fn(T) -> Seq<char>) -> bool {
    forall|i: int, j: int| 0 <= i < j < s.len() ==> key(#[trigger] s[i]) != key(#[trigger] s[j])
}

/// The index of the first item of `s` with key `k`.
pub open spec fn index_of_key<T>(s: Seq<T>, key: spec_fn(T) -> Seq<char>, k: Seq<char>) -> Option<int>
    decreases s.len(),
{
    if s.len() == 0 {
        None
    } else {
        match index_of_key(s.drop_last(), key, k) {
            Some(i) => Some(i),
            None => if key(s.last()) == k {
                Some(s.len() - 1)
            } else {
                None
            },
        }
    }
}

/// The item of `s` with key `k`, where there is one (the first).
pub open spec fn lookup<T>(s: Seq<T>, key: spec_fn(T) -> Seq<char>, k: Seq<char>) -> Option<T> {
    match index_of_key(s, key, k) {
        Some(i) => Some(s[i]),
        None => None,
    }
}

/// Where `index_of_key` points, and that nothing before it has the key.
pub proof fn lemma_index_of_key<T>(s: Seq<T>, key: spec_fn(T) -> Seq<char>, k: Seq<char>)
    ensures
        index_of_key(s, key, k) matches Some(i) ==> 0 <= i < s.len() && key(s[i]) == k && forall|j: int|
            0 <= j < i ==> key(#[trigger] s[j]) != k,
        index_of_key(s, key, k) is None ==> forall|j: int| 0 <= j < s.len() ==> key(#[trigger] s[j]) != k,
    decreases s.len(),
{
    if s.len() > 0 {
        lemma_index_of_key(s.drop_last(), key, k);
        assert forall|j: int| 0 <= j < s.len() - 1 implies s.drop_last()[j] == s[j] by {}
    }
}

/// The first index with key `k` is the first index whose key is `k`.
pub proof fn lemma_index_of_key_at<T>(s: Seq<T>, key: spec_fn(T) -> Seq<char>, k: Seq<char>, i: int)
    requires
        0 <= i < s.len(),
        key(s[i]) == k,
        forall|j: int| 0 <= j < i ==> key(#[trigger] s[j]) != k,
    ensures
        index_of_key(s, key, k) == Some(i),
{
    lemma_index_of_key(s, key, k);
    match index_of_key(s, key, k) {
        Some(m) => {
            if m < i {
                assert(key(s[m]) != k);
            } else if m > i {
                assert(key(s[i]) != k);
            }
        },
        None => {
            assert(key(s[i]) != k);
        },
    }
}

/// Filtering one item further along.
pub proof fn lemma_filter_step<T>(s: Seq<T>, p: spec_fn(T) -> bool, i: int)
    requires
        0 <= i < s.len(),
    ensures
        s.subrange(0, i + 1).filter(p) == if p(s[i]) {
            s.subrange(0, i).filter(p).push(s[i])
        } else {
            s.subrange(0, i).filter(p)
        },
        s.subrange(0, 0).filter(p) == Seq::<T>::empty(),
{
    reveal(Seq::filter);
    assert(s.subrange(0, i + 1).drop_last() =~= s.subrange(0, i));
    assert(s.subrange(0, i + 1).last() == s[i]);
    assert(s.subrange(0, 0).filter(p) =~= Seq::<T>::empty());
}

/// Filtering keeps keys unique.
pub proof fn lemma_filter_unique<T>(s: Seq<T>, key: spec_fn(T) -> Seq<char>, p: spec_fn(T) -> bool)
    requires
        unique_keys(s, key),
    ensures
        unique_keys(s.filter(p), key),
    decreases s.len(),
{
    reveal(Seq::filter);
    if s.len() > 0 {
        let rest = s.drop_last();
        assert(unique_keys(rest, key)) by {
            assert forall|i: int, j: int| 0 <= i < j < rest.len() implies key(#[trigger] rest[i]) != key(#[trigger] rest[j]) by {
                assert(rest[i] == s[i] && rest[j] == s[j]);
            }
        }
        lemma_filter_unique(rest, key, p);
        if p(s.last()) {
            let f = rest.filter(p);
            assert forall|i: int| 0 <= i < f.len() implies key(#[trigger] f[i]) != key(s.last()) by {
                assert(f.contains(f[i]));
                rest.lemma_filter_contains_rev(p, f[i]);
                let j = choose|j: int| 0 <= j < rest.len() && rest[j] == f[i];
                assert(s[j] == rest[j]);
                assert(key(s[j]) != key(s[s.len() - 1]));
            }
            let g = f.push(s.last());
            assert forall|i: int, j: int| 0 <= i < j < g.len() implies key(#[trigger] g[i]) != key(#[trigger] g[j]) by {
                if j == g.len() - 1 {
                    assert(g[i] == f[i]);
                } else {
                    assert(g[i] == f[i] && g[j] == f[j]);
                }
            }
        }
    }
}

/// The abstract value of a [`TemporalNode`].
pub struct NodeModel {
    pub id: Seq<char>,
    pub kind: Seq<char>,
    pub label: Seq<char>,
    pub interval: TimeInterval,
    pub attributes: Seq<Attr>,
}

/// The abstract value of a [`TemporalEdge`].
pub struct EdgeModel {
    pub id: Seq<char>,
    pub kind: Seq<char>,
    pub source_id: Seq<char>,
    pub target_id: Seq<char>,
    pub interval: TimeInterval,
    pub properties: Seq<Attr>,
}

/// A node that exists over a time interval.
#[derive(Debug)]
pub struct TemporalNode {
    pub id: String,
    pub kind: String,
    pub label: String,
    pub interval: TimeInterval,
    /// Attributes in insertion order; keys are unique.
    pub attributes: Vec<(String, String)>,
}

/// A directed edge that exists over a time interval.
#[derive(Debug)]
pub struct TemporalEdge {
    pub id: String,
    pub kind: String,
    pub source_id: String,
    pub target_id: String,
    pub interval: TimeInterval,
    /// Properties in insertion order; keys are unique.
    pub properties: Vec<(String, String)>,
}

impl View for TemporalNode {
    type V = NodeModel;

    open spec fn view(&self) -> NodeModel {
        NodeModel {
            id: self.id@,
            kind: self.kind@,
            label: self.label@,
            interval: self.interval,
            attributes: pairs_of(self.attributes@),
        }
    }
}

impl View for TemporalEdge {
    type V = EdgeModel;

    open spec fn view(&self) -> EdgeModel {
        EdgeModel {
            id: self.id@,
            kind: self.kind@,
            source_id: self.source_id@,
            target_id: self.target_id@,
            interval: self.interval,
            properties: pairs_of(self.properties@),
        }
    }
}

/// The models of a list of nodes.
pub open spec fn node_models(v: Seq<TemporalNode>) -> Seq<NodeModel> {
    v.map_values(|n: TemporalNode| n@)
}

/// The models of a list of edges.
pub open spec fn edge_models(v: Seq<TemporalEdge>) -> Seq<EdgeModel> {
    v.map_values(|e: TemporalEdge| e@)
}

/// The id of a node.
pub open spec fn node_id(n: NodeModel) -> Seq<char> {
    n.id
}

/// The id of an edge.
pub open spec fn edge_id(e: EdgeModel) -> Seq<char> {
    e.id
}

/// Whether `e` starts or ends at the node `id`.
pub open spec fn touches(e: EdgeModel, id: Seq<char>) -> bool {
    e.source_id == id || e.target_id == id
}

impl TemporalNode {
    /// A copy of the node.
    pub fn copy(&self) -> (r: TemporalNode)
        ensures
            r@ == self@,
    {
        TemporalNode {
            id: self.id.clone(),
            kind: self.kind.clone(),
            label: self.label.clone(),
            interval: self.interval,
            attributes: copy_pairs(&self.attributes),
        }
    }
}

impl TemporalEdge {
    /// A copy of the edge.
    pub fn copy(&self) -> (r: TemporalEdge)
        ensures
            r@ == self@,
    {
        TemporalEdge {
            id: self.id.clone(),
            kind: self.kind.clone(),
            source_id: self.source_id.clone(),
            target_id: self.target_id.clone(),
            interval: self.interval,
            properties: copy_pairs(&self.properties),
        }
    }
}

/// The abstract value of a [`GraphSnapshot`].
pub struct SnapshotModel {
    pub timestamp: Timestamp,
    pub nodes: Seq<NodeModel>,
    pub edges: Seq<EdgeModel>,
}

/// The nodes and edges of a graph at one instant.
#[derive(Debug)]
pub struct GraphSnapshot {
    pub timestamp: Timestamp,
    pub nodes: Vec<TemporalNode>,
    pub edges: Vec<TemporalEdge>,
}

impl View for GraphSnapshot {
    type V = SnapshotModel;

    open spec fn view(&self) -> SnapshotModel {
        SnapshotModel { timestamp: self.timestamp, nodes: node_models(self.nodes@), edges: edge_models(self.edges@) }
    }
}

/// The models of a list of snapshots.
pub open spec fn snapshot_models(v: Seq<GraphSnapshot>) -> Seq<SnapshotModel> {
    v.map_values(|s: GraphSnapshot| s@)
}

/// A copy of a list of nodes.
pub fn copy_nodes(v: &Vec<TemporalNode>) -> (r: Vec<TemporalNode>)
    ensures
        node_models(r@) == node_models(v@),
{
    let mut r: Vec<TemporalNode> = Vec::new();
    let mut i: usize = 0;
    while i < v.len()
        invariant
            i <= v@.len(),
            node_models(r@) == node_models(v@).subrange(0, i as int),
        decreases v@.len() - i,
    {
        let ghost before = node_models(r@);
        r.push(v[i].copy());
        assert(node_models(r@) =~= before.push(node_models(v@)[i as int]));
        i += 1;
        assert(node_models(r@) =~= node_models(v@).subrange(0, i as int));
    }
    assert(node_models(v@).subrange(0, v@.len() as int) =~= node_models(v@));
    r
}

/// A copy of a list of edges.
pub fn copy_edges(v: &Vec<TemporalEdge>) -> (r: Vec<TemporalEdge>)
    ensures
        edge_models(r@) == edge_models(v@),
{
    let mut r: Vec<TemporalEdge> = Vec::new();
    let mut i: usize = 0;
    while i < v.len()
        invariant
            i <= v@.len(),
            edge_models(r@) == edge_models(v@).subrange(0, i as int),
        decreases v@.len() - i,
    {
        let ghost before = edge_models(r@);
        r.push(v[i].copy());
        assert(edge_models(r@) =~= before.push(edge_models(v@)[i as int]));
        i += 1;
        assert(edge_models(r@) =~= edge_models(v@).subrange(0, i as int));
    }
    assert(edge_models(v@).subrange(0, v@.len() as int) =~= edge_models(v@));
    r
}

impl GraphSnapshot {
    /// Number of nodes in the snapshot.
    pub fn node_count(&self) -> (r: usize)
        ensures
            r == self@.nodes.len(),
    {
        self.nodes.len()
    }

    /// Number of edges in the snapshot.
    pub fn edge_count(&self) -> (r: usize)
        ensures
            r == self@.edges.len(),
    {
        self.edges.len()
    }

    /// A copy of the snapshot.
    pub fn copy(&self) -> (r: GraphSnapshot)
        ensures
            r@ == self@,
    {
        GraphSnapshot { timestamp: self.timestamp, nodes: copy_nodes(&self.nodes), edges: copy_edges(&self.edges) }
    }
}

/// The nodes of `s` that exist at `t`.
pub open spec fn active_nodes(s: Seq<NodeModel>, t: Timestamp) -> Seq<NodeModel> {
    s.filter(|n: NodeModel| interval_contains(n.interval, t))
}

/// The edges of `s` that exist at `t`.
pub open spec fn active_edges(s: Seq<EdgeModel>, t: Timestamp) -> Seq<EdgeModel> {
    s.filter(|e: EdgeModel| interval_contains(e.interval, t))
}

/// The nodes of `s` other than `id`.
pub open spec fn without_node(s: Seq<NodeModel>, id: Seq<char>) -> Seq<NodeModel> {
    s.filter(|n: NodeModel| n.id != id)
}

/// The edges of `s` that neither start nor end at `id`.
pub open spec fn without_touching(s: Seq<EdgeModel>, id: Seq<char>) -> Seq<EdgeModel> {
    s.filter(|e: EdgeModel| !touches(e, id))
}

/// The edges of `s` other than `id`.
pub open spec fn without_edge(s: Seq<EdgeModel>, id: Seq<char>) -> Seq<EdgeModel> {
    s.filter(|e: EdgeModel| e.id != id)
}

/// The abstract value of a [`GraphState`].
pub struct StateModel {
    pub nodes: Seq<NodeModel>,
    pub edges: Seq<EdgeModel>,
}

/// The current nodes and edges of a temporal graph, keyed by id, in the
/// order they were first added.
#[derive(Debug)]
pub struct GraphState {
    pub nodes: Vec<TemporalNode>,
    pub edges: Vec<TemporalEdge>,
}

impl View for GraphState {
    type V = StateModel;

    open spec fn view(&self) -> StateModel {
        StateModel { nodes: node_models(self.nodes@), edges: edge_models(self.edges@) }
    }
}

/// The nodes after adding `n`: replacing the node with its id, or appended.
pub open spec fn put_node(s: Seq<NodeModel>, n: NodeModel) -> Seq<NodeModel> {
    match index_of_key(s, |x: NodeModel| node_id(x), n.id) {
        Some(i) => s.update(i, n),
        None => s.push(n),
    }
}

/// The edges after adding `e`: replacing the edge with its id, or appended.
pub open spec fn put_edge(s: Seq<EdgeModel>, e: EdgeModel) -> Seq<EdgeModel> {
    match index_of_key(s, |x: EdgeModel| edge_id(x), e.id) {
        Some(i) => s.update(i, e),
        None => s.push(e),
    }
}

impl GraphState {
    /// No two nodes and no two edges share an id.
    pub open spec fn wf(&self) -> bool {
        &&& unique_keys(self@.nodes, |x: NodeModel| node_id(x))
        &&& unique_keys(self@.edges, |x: EdgeModel| edge_id(x))
    }

    /// An empty state.
    pub fn new() -> (r: Self)
        ensures
            r.wf(),
            r@.nodes.len() == 0,
            r@.edges.len() == 0,
    {
        let r = GraphState { nodes: Vec::new(), edges: Vec::new() };
        assert(r@.nodes.len() == 0);
        r
    }

    /// The index of the node with id `id`.
    fn node_index(&self, id: &str) -> (r: Option<usize>)
        ensures
            r matches Some(i) ==> index_of_key(self@.nodes, |x: NodeModel| node_id(x), id@) == Some(i as int),
            r is None ==> index_of_key(self@.nodes, |x: NodeModel| node_id(x), id@) is None,
    {
        let ghost key = |x: NodeModel| node_id(x);
        let mut i: usize = 0;
        while i < self.nodes.len()
            invariant
                i <= self.nodes@.len(),
                forall|j: int| 0 <= j < i ==> (#[trigger] self@.nodes[j]).id != id@,
            decreases self.nodes@.len() - i,
        {
            assert(self@.nodes[i as int] == self.nodes@[i as int]@);
            if same_text(self.nodes[i].id.as_str(), id) {
                proof {
                    lemma_index_of_key_at(self@.nodes, |x: NodeModel| node_id(x), id@, i as int);
                }
                return Some(i);
            }
            i += 1;
        }
        proof {
            lemma_index_of_key(self@.nodes, key, id@);
            if let Some(m) = index_of_key(self@.nodes, key, id@) {
                assert(self@.nodes[m].id != id@);
            }
        }
        None
    }

    /// The index of the edge with id `id`.
    fn edge_index(&self, id: &str) -> (r: Option<usize>)
        ensures
            r matches Some(i) ==> index_of_key(self@.edges, |x: EdgeModel| edge_id(x), id@) == Some(i as int),
            r is None ==> index_of_key(self@.edges, |x: EdgeModel| edge_id(x), id@) is None,
    {
        let ghost key = |x: EdgeModel| edge_id(x);
        let mut i: usize = 0;
        while i < self.edges.len()
            invariant
                i <= self.edges@.len(),
                forall|j: int| 0 <= j < i ==> (#[trigger] self@.edges[j]).id != id@,
            decreases self.edges@.len() - i,
        {
            assert(self@.edges[i as int] == self.edges@[i as int]@);
            if same_text(self.edges[i].id.as_str(), id) {
                proof {
                    lemma_index_of_key_at(self@.edges, |x: EdgeModel| edge_id(x), id@, i as int);
                }
                return Some(i);
            }
            i += 1;
        }
        proof {
            lemma_index_of_key(self@.edges, key, id@);
            if let Some(m) = index_of_key(self@.edges, key, id@) {
                assert(self@.edges[m].id != id@);
            }
        }
        None
    }

    /// Adds a node, replacing the one with the same id.
    pub fn add_node(&mut self, node: TemporalNode)
        requires
            old(self).wf(),
        ensures
            final(self).wf(),
            final(self)@.nodes == put_node(old(self)@.nodes, node@),
            final(self)@.edges == old(self)@.edges,
    {
        let ghost key = |x: NodeModel| node_id(x);
        let ghost old_nodes = self@.nodes;
        let ghost nm = node@;
        proof {
            lemma_index_of_key(old_nodes, key, nm.id);
        }
        match self.node_index(node.id.as_str()) {
            Some(i) => {
                self.nodes.set(i, node);
                assert(self@.nodes =~= old_nodes.update(i as int, nm));
                assert forall|a: int, b: int| 0 <= a < b < self@.nodes.len() implies key(#[trigger] self@.nodes[a]) != key(
                    #[trigger] self@.nodes[b],
                ) by {
                    if a != i && b != i {
                        assert(key(old_nodes[a]) != key(old_nodes[b]));
                    } else if a == i {
                        assert(key(old_nodes[a]) != key(old_nodes[b]));
                    } else {
                        assert(key(old_nodes[a]) != key(old_nodes[b]));
                    }
                }
            },
            None => {
                self.nodes.push(node);
                assert(self@.nodes =~= old_nodes.push(nm));
                assert forall|a: int, b: int| 0 <= a < b < self@.nodes.len() implies key(#[trigger] self@.nodes[a]) != key(
                    #[trigger] self@.nodes[b],
                ) by {
                    if b < old_nodes.len() {
                        assert(key(old_nodes[a]) != key(old_nodes[b]));
                    } else {
                        assert(key(old_nodes[a]) != nm.id);
                    }
                }
            },
        }
    }

    /// Adds an edge, replacing the one with the same id.
    pub fn add_edge(&mut self, edge: TemporalEdge)
        requires
            old(self).wf(),
        ensures
            final(self).wf(),
            final(self)@.edges == put_edge(old(self)@.edges, edge@),
            final(self)@.nodes == old(self)@.nodes,
    {
        let ghost key = |x: EdgeModel| edge_id(x);
        let ghost old_edges = self@.edges;
        let ghost em = edge@;
        proof {
            lemma_index_of_key(old_edges, key, em.id);
        }
        match self.edge_index(edge.id.as_str()) {
            Some(i) => {
                self.edges.set(i, edge);
                assert(self@.edges =~= old_edges.update(i as int, em));
                assert forall|a: int, b: int| 0 <= a < b < self@.edges.len() implies key(#[trigger] self@.edges[a]) != key(
                    #[trigger] self@.edges[b],
                ) by {
                    assert(key(old_edges[a]) != key(old_edges[b]));
                }
            },
            None => {
                self.edges.push(edge);
                assert(self@.edges =~= old_edges.push(em));
                assert forall|a: int, b: int| 0 <= a < b < self@.edges.len() implies key(#[trigger] self@.edges[a]) != key(
                    #[trigger] self@.edges[b],
                ) by {
                    if b < old_edges.len() {
                        assert(key(old_edges[a]) != key(old_edges[b]));
                    } else {
                        assert(key(old_edges[a]) != em.id);
                    }
                }
            },
        }
    }

    /// Removes the node `id` and every edge that starts or ends at it.
    pub fn remove_node(&mut self, id: &str)
        requires
            old(self).wf(),
        ensures
            final(self).wf(),
            final(self)@.nodes == without_node(old(self)@.nodes, id@),
            final(self)@.edges == without_touching(old(self)@.edges, id@),
    {
        let ghost pn = |n: NodeModel| n.id != id@;
        let ghost pe = |e: EdgeModel| !touches(e, id@);
        let ghost on = self@.nodes;
        let ghost oe = self@.edges;
        let mut nodes: Vec<TemporalNode> = Vec::new();
        let mut i: usize = 0;
        proof {
            reveal(Seq::filter);
            assert(on.subrange(0, 0).filter(pn) =~= Seq::<NodeModel>::empty());
        }
        while i < self.nodes.len()
            invariant
                pn == (|n: NodeModel| n.id != id@),
                i <= self.nodes@.len(),
                on == self@.nodes,
                node_models(nodes@) == on.subrange(0, i as int).filter(pn),
            decreases self.nodes@.len() - i,
        {
            let ghost before = node_models(nodes@);
            proof {
                lemma_filter_step(on, pn, i as int);
                assert(on[i as int] == self.nodes@[i as int]@);
            }
            if !same_text(self.nodes[i].id.as_str(), id) {
                nodes.push(self.nodes[i].copy());
                assert(node_models(nodes@) =~= before.push(on[i as int]));
            }
            i += 1;
        }
        assert(on.subrange(0, on.len() as int) =~= on);
        let mut edges: Vec<TemporalEdge> = Vec::new();
        let mut j: usize = 0;
        proof {
            reveal(Seq::filter);
            assert(oe.subrange(0, 0).filter(pe) =~= Seq::<EdgeModel>::empty());
        }
        while j < self.edges.len()
            invariant
                pe == (|e: EdgeModel| !touches(e, id@)),
                j <= self.edges@.len(),
                oe == self@.edges,
                edge_models(edges@) == oe.subrange(0, j as int).filter(pe),
            decreases self.edges@.len() - j,
        {
            let ghost before = edge_models(edges@);
            proof {
                lemma_filter_step(oe, pe, j as int);
                assert(oe[j as int] == self.edges@[j as int]@);
            }
            if !same_text(self.edges[j].source_id.as_str(), id) && !same_text(self.edges[j].target_id.as_str(), id) {
                edges.push(self.edges[j].copy());
                assert(edge_models(edges@) =~= before.push(oe[j as int]));
            }
            j += 1;
        }
        assert(oe.subrange(0, oe.len() as int) =~= oe);
        self.nodes = nodes;
        self.edges = edges;
        proof {
            lemma_filter_unique(on, |x: NodeModel| node_id(x), pn);
            lemma_filter_unique(oe, |x: EdgeModel| edge_id(x), pe);
        }
    }

    /// Removes the edge `id`.
    pub fn remove_edge(&mut self, id: &str)
        requires
            old(self).wf(),
        ensures
            final(self).wf(),
            final(self)@.edges == without_edge(old(self)@.edges, id@),
            final(self)@.nodes == old(self)@.nodes,
    {
        let ghost pe = |e: EdgeModel| e.id != id@;
        let ghost oe = self@.edges;
        let mut edges: Vec<TemporalEdge> = Vec::new();
        let mut j: usize = 0;
        proof {
            reveal(Seq::filter);
            assert(oe.subrange(0, 0).filter(pe) =~= Seq::<EdgeModel>::empty());
        }
        while j < self.edges.len()
            invariant
                pe == (|e: EdgeModel| e.id != id@),
                j <= self.edges@.len(),
                oe == self@.edges,
                edge_models(edges@) == oe.subrange(0, j as int).filter(pe),
            decreases self.edges@.len() - j,
        {
            let ghost before = edge_models(edges@);
            proof {
                lemma_filter_step(oe, pe, j as int);
                assert(oe[j as int] == self.edges@[j as int]@);
            }
            if !same_text(self.edges[j].id.as_str(), id) {
                edges.push(self.edges[j].copy());
                assert(edge_models(edges@) =~= before.push(oe[j as int]));
            }
            j += 1;
        }
        assert(oe.subrange(0, oe.len() as int) =~= oe);
        self.edges = edges;
        proof {
            lemma_filter_unique(oe, |x: EdgeModel| edge_id(x), pe);
        }
    }

    /// The nodes and edges that exist at `timestamp`.
    pub fn snapshot(&self, timestamp: Timestamp) -> (r: GraphSnapshot)
        ensures
            r@.timestamp == timestamp,
            r@.nodes == active_nodes(self@.nodes, timestamp),
            r@.edges == active_edges(self@.edges, timestamp),
    {
        let ghost pn = |n: NodeModel| interval_contains(n.interval, timestamp);
        let ghost pe = |e: EdgeModel| interval_contains(e.interval, timestamp);
        let ghost on = self@.nodes;
        let ghost oe = self@.edges;
        let mut nodes: Vec<TemporalNode> = Vec::new();
        let mut i: usize = 0;
        proof {
            reveal(Seq::filter);
            assert(on.subrange(0, 0).filter(pn) =~= Seq::<NodeModel>::empty());
        }
        while i < self.nodes.len()
            invariant
                pn == (|n: NodeModel| interval_contains(n.interval, timestamp)),
                i <= self.nodes@.len(),
                on == self@.nodes,
                node_models(nodes@) == on.subrange(0, i as int).filter(pn),
            decreases self.nodes@.len() - i,
        {
            let ghost before = node_models(nodes@);
            proof {
                lemma_filter_step(on, pn, i as int);
                assert(on[i as int] == self.nodes@[i as int]@);
            }
            if self.nodes[i].interval.contains(timestamp) {
                nodes.push(self.nodes[i].copy());
                assert(node_models(nodes@) =~= before.push(on[i as int]));
            }
            i += 1;
        }
        assert(on.subrange(0, on.len() as int) =~= on);
        let mut edges: Vec<TemporalEdge> = Vec::new();
        let mut j: usize = 0;
        proof {
            reveal(Seq::filter);
            assert(oe.subrange(0, 0).filter(pe) =~= Seq::<EdgeModel>::empty());
        }
        while j < self.edges.len()
            invariant
                pe == (|e: EdgeModel| interval_contains(e.interval, timestamp)),
                j <= self.edges@.len(),
                oe == self@.edges,
                edge_models(edges@) == oe.subrange(0, j as int).filter(pe),
            decreases self.edges@.len() - j,
        {
            let ghost before = edge_models(edges@);
            proof {
                lemma_filter_step(oe, pe, j as int);
                assert(oe[j as int] == self.edges@[j as int]@);
            }
            if self.edges[j].interval.contains(timestamp) {
                edges.push(self.edges[j].copy());
                assert(edge_models(edges@) =~= before.push(oe[j as int]));
            }
            j += 1;
        }
        assert(oe.subrange(0, oe.len() as int) =~= oe);
        GraphSnapshot { timestamp, nodes, edges }
    }

    /// How many nodes exist at `t`.
    pub fn active_node_count(&self, t: Timestamp) -> (r: usize)
        ensures
            r == active_nodes(self@.nodes, t).len(),
    {
        let ghost pn = |n: NodeModel| interval_contains(n.interval, t);
        let ghost on = self@.nodes;
        let mut n: usize = 0;
        let mut i: usize = 0;
        proof {
            reveal(Seq::filter);
            assert(on.subrange(0, 0).filter(pn) =~= Seq::<NodeModel>::empty());
        }
        while i < self.nodes.len()
            invariant
                pn == (|n: NodeModel| interval_contains(n.interval, t)),
                i <= self.nodes@.len(),
                on == self@.nodes,
                n == on.subrange(0, i as int).filter(pn).len(),
                n <= i,
            decreases self.nodes@.len() - i,
        {
            proof {
                lemma_filter_step(on, pn, i as int);
                assert(on[i as int] == self.nodes@[i as int]@);
            }
            if self.nodes[i].interval.contains(t) {
                n += 1;
            }
            i += 1;
        }
        assert(on.subrange(0, on.len() as int) =~= on);
        n
    }

    /// How many edges exist at `t`.
    pub fn active_edge_count(&self, t: Timestamp) -> (r: usize)
        ensures
            r == active_edges(self@.edges, t).len(),
    {
        let ghost pe = |e: EdgeModel| interval_contains(e.interval, t);
        let ghost oe = self@.edges;
        let mut n: usize = 0;
        let mut j: usize = 0;
        proof {
            reveal(Seq::filter);
            assert(oe.subrange(0, 0).filter(pe) =~= Seq::<EdgeModel>::empty());
        }
        while j < self.edges.len()
            invariant
                pe == (|e: EdgeModel| interval_contains(e.interval, t)),
                j <= self.edges@.len(),
                oe == self@.edges,
                n == oe.subrange(0, j as int).filter(pe).len(),
                n <= j,
            decreases self.edges@.len() - j,
        {
            proof {
                lemma_filter_step(oe, pe, j as int);
                assert(oe[j as int] == self.edges@[j as int]@);
            }
            if self.edges[j].interval.contains(t) {
                n += 1;
            }
            j += 1;
        }
        assert(oe.subrange(0, oe.len() as int) =~= oe);
        n
    }
}

/// After adding a node, looking up its id gives that node, and every other
/// id gives what it gave before.
pub proof fn lemma_put_node_lookup(s: Seq<NodeModel>, n: NodeModel, k: Seq<char>)
    requires
        unique_keys(s, |x: NodeModel| node_id(x)),
    ensures
        unique_keys(put_node(s, n), |x: NodeModel| node_id(x)),
        lookup(put_node(s, n), |x: NodeModel| node_id(x), n.id) == Some(n),
        k != n.id ==> lookup(put_node(s, n), |x: NodeModel| node_id(x), k) == lookup(s, |x: NodeModel| node_id(x), k),
{
    let key = |x: NodeModel| node_id(x);
    let t = put_node(s, n);
    lemma_index_of_key(s, key, n.id);
    lemma_index_of_key(s, key, k);
    match index_of_key(s, key, n.id) {
        Some(i) => {
            assert forall|a: int, b: int| 0 <= a < b < t.len() implies key(#[trigger] t[a]) != key(#[trigger] t[b]) by {
                assert(key(s[a]) != key(s[b]));
            }
            assert forall|j: int| 0 <= j < i implies key(#[trigger] t[j]) != n.id by {
                assert(t[j] == s[j]);
            }
            lemma_index_of_key_at(t, key, n.id, i);
            if k != n.id {
                match index_of_key(s, key, k) {
                    Some(m) => {
                        assert forall|j: int| 0 <= j < m implies key(#[trigger] t[j]) != k by {
                            assert(key(s[j]) != k);
                        }
                        lemma_index_of_key_at(t, key, k, m);
                    },
                    None => {
                        lemma_index_of_key(t, key, k);
                        if let Some(m) = index_of_key(t, key, k) {
                            assert(key(s[m]) != k);
                        }
                    },
                }
            }
        },
        None => {
            assert forall|a: int, b: int| 0 <= a < b < t.len() implies key(#[trigger] t[a]) != key(#[trigger] t[b]) by {
                if b < s.len() {
                    assert(key(s[a]) != key(s[b]));
                } else {
                    assert(key(s[a]) != n.id);
                }
            }
            assert forall|j: int| 0 <= j < s.len() implies key(#[trigger] t[j]) != n.id by {
                assert(t[j] == s[j]);
            }
            lemma_index_of_key_at(t, key, n.id, s.len() as int);
            if k != n.id {
                match index_of_key(s, key, k) {
                    Some(m) => {
                        assert forall|j: int| 0 <= j < m implies key(#[trigger] t[j]) != k by {
                            assert(key(s[j]) != k);
                        }
                        lemma_index_of_key_at(t, key, k, m);
                    },
                    None => {
                        lemma_index_of_key(t, key, k);
                        if let Some(m) = index_of_key(t, key, k) {
                            if m < s.len() {
                                assert(key(s[m]) != k);
                            }
                        }
                    },
                }
            }
        },
    }
}

/// After removing a node, no node has its id and no edge touches it; the
/// nodes and edges that remain are exactly those that did not.
pub proof fn lemma_remove_node(nodes: Seq<NodeModel>, edges: Seq<EdgeModel>, id: Seq<char>)
    ensures
        forall|i: int| 0 <= i < without_node(nodes, id).len() ==> (#[trigger] without_node(nodes, id)[i]).id != id,
        forall|i: int| 0 <= i < without_touching(edges, id).len() ==> !touches(#[trigger] without_touching(edges, id)[i], id),
        forall|i: int| 0 <= i < nodes.len() && nodes[i].id != id ==> without_node(nodes, id).contains(#[trigger] nodes[i]),
        forall|i: int| 0 <= i < edges.len() && !touches(edges[i], id) ==> without_touching(edges, id).contains(#[trigger] edges[i]),
{
    let pn = |n: NodeModel| n.id != id;
    let pe = |e: EdgeModel| !touches(e, id);
    assert forall|i: int| 0 <= i < without_node(nodes, id).len() implies (#[trigger] without_node(nodes, id)[i]).id != id by {
        nodes.lemma_filter_pred(pn, i);
    }
    assert forall|i: int| 0 <= i < without_touching(edges, id).len() implies !touches(#[trigger] without_touching(edges, id)[i], id) by {
        edges.lemma_filter_pred(pe, i);
    }
    assert forall|i: int| 0 <= i < nodes.len() && nodes[i].id != id implies without_node(nodes, id).contains(#[trigger] nodes[i]) by {
        nodes.lemma_filter_contains(pn, i);
    }
    assert forall|i: int| 0 <= i < edges.len() && !touches(edges[i], id) implies without_touching(edges, id).contains(#[trigger] edges[i]) by {
        edges.lemma_filter_contains(pe, i);
    }
}

/// A snapshot holds exactly the nodes and edges that exist at its instant.
pub proof fn lemma_snapshot_active(nodes: Seq<NodeModel>, edges: Seq<EdgeModel>, t: Timestamp)
    ensures
        forall|i: int| 0 <= i < active_nodes(nodes, t).len() ==> interval_contains((#[trigger] active_nodes(nodes, t)[i]).interval, t),
        forall|i: int| 0 <= i < active_edges(edges, t).len() ==> interval_contains((#[trigger] active_edges(edges, t)[i]).interval, t),
        forall|i: int| 0 <= i < nodes.len() && interval_contains(nodes[i].interval, t) ==> active_nodes(nodes, t).contains(#[trigger] nodes[i]),
        forall|i: int| 0 <= i < edges.len() && interval_contains(edges[i].interval, t) ==> active_edges(edges, t).contains(#[trigger] edges[i]),
{
    let pn = |n: NodeModel| interval_contains(n.interval, t);
    let pe = |e: EdgeModel| interval_contains(e.interval, t);
    assert forall|i: int| 0 <= i < active_nodes(nodes, t).len() implies interval_contains((#[trigger] active_nodes(nodes, t)[i]).interval, t) by {
        nodes.lemma_filter_pred(pn, i);
    }
    assert forall|i: int| 0 <= i < active_edges(edges, t).len() implies interval_contains((#[trigger] active_edges(edges, t)[i]).interval, t) by {
        edges.lemma_filter_pred(pe, i);
    }
    assert forall|i: int| 0 <= i < nodes.len() && interval_contains(nodes[i].interval, t) implies active_nodes(nodes, t).contains(#[trigger] nodes[i]) by {
        nodes.lemma_filter_contains(pn, i);
    }
    assert forall|i: int| 0 <= i < edges.len() && interval_contains(edges[i].interval, t) implies active_edges(edges, t).contains(#[trigger] edges[i]) by {
        edges.lemma_filter_contains(pe, i);
    }
}

} // verus!
