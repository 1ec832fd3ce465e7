//! What a graph predictor learns from snapshots: how often each kind of
//! node and edge appears. (The forecast it derives from them, with the
//! trend lines, is floating-point arithmetic.)
use vstd::prelude::*;
use crate::temporal::evolution::items_upto;
use crate::temporal::graph::{snapshot_models, EdgeModel, GraphSnapshot, NodeModel, SnapshotModel};
use crate::text::same_text;

verus! {

/// A kind and how often it was seen.
pub type KindCount = (Seq<char>, nat);

/// The index of kind `k` in `freq`.
pub open spec fn kind_index(freq: Seq<KindCount>, k: Seq<char>) -> Option<int>
    decreases freq.len(),
{
    if freq.len() == 0 {
        None
    } else {
        match kind_index(freq.drop_last(), k) {
            Some(i) => Some(i),
            None => if freq.last().0 == k {
                Some(freq.len() - 1)
            } else {
                None
            },
        }
    }
}

/// `freq` after seeing kind `k` once more: its count goes up, or it is
/// appended with count one.
pub open spec fn bump(freq: Seq<KindCount>, k: Seq<char>) -> Seq<KindCount> {
    match kind_index(freq, k) {
        Some(i) => freq.update(i, (k, freq[i].1 + 1)),
        None => freq.push((k, 1)),
    }
}

/// `freq` after seeing each of `kinds` in turn.
pub open spec fn tally(freq: Seq<KindCount>, kinds: Seq<Seq<char>>) -> Seq<KindCount>
    decreases kinds.len(),
{
    if kinds.len() == 0 {
        freq
    } else {
        bump(tally(freq, kinds.drop_last()), kinds.last())
    }
}

/// The kinds of a list of nodes.
pub open spec fn node_kinds(s: Seq<NodeModel>) -> Seq<Seq<char>> {
    s.map_values(|n: NodeModel| n.kind)
}

/// The kinds of a list of edges.
pub open spec fn edge_kinds(s: Seq<EdgeModel>) -> Seq<Seq<char>> {
    s.map_values(|e: EdgeModel| e.kind)
}

/// The abstract value of a [`GraphPredictor`].
pub struct PredictorModel {
    pub node_kinds: Seq<KindCount>,
    pub edge_kinds: Seq<KindCount>,
    pub total: nat,
}

/// What the predictor knows after one more snapshot.
pub open spec fn observe_one(m: PredictorModel, s: SnapshotModel) -> PredictorModel {
    PredictorModel {
        node_kinds: tally(m.node_kinds, node_kinds(s.nodes)),
        edge_kinds: tally(m.edge_kinds, edge_kinds(s.edges)),
        total: m.total + s.nodes.len() + s.edges.len(),
    }
}

/// What the predictor knows after the snapshots `snaps`, in order.
pub open spec fn observe_all(m: PredictorModel, snaps: Seq<SnapshotModel>) -> PredictorModel
    decreases snaps.len(),
{
    if snaps.len() == 0 {
        m
    } else {
        observe_one(observe_all(m, snaps.drop_last()), snaps.last())
    }
}

/// Every count is at most `t`.
pub open spec fn counts_at_most(freq: Seq<KindCount>, t: nat) -> bool {
    forall|i: int| 0 <= i < freq.len() ==> (#[trigger] freq[i]).1 <= t
}

/// Learns how often each kind of node and edge appears in the snapshots it
/// observes; kinds are listed in the order first seen.
#[derive(Debug)]
pub struct GraphPredictor {
    node_type_frequencies: Vec<(String, usize)>,
    edge_type_frequencies: Vec<(String, usize)>,
    total_observations: usize,
}

/// Kind counts as pairs of text and number.
pub open spec fn kind_counts(v: Seq<(String, usize)>) -> Seq<KindCount> {
    v.map_values(|e: (String, usize)| (e.0@, e.1 as nat))
}

impl View for GraphPredictor {
    type V = PredictorModel;

    closed spec fn view(&self) -> PredictorModel {
        PredictorModel {
            node_kinds: kind_counts(self.node_type_frequencies@),
            edge_kinds: kind_counts(self.edge_type_frequencies@),
            total: self.total_observations as nat,
        }
    }
}

proof fn lemma_kind_index(freq: Seq<KindCount>, k: Seq<char>)
    ensures
        kind_index(freq, k) matches Some(i) ==> 0 <= i < freq.len() && freq[i].0 == k && forall|j: int|
            0 <= j < i ==> (#[trigger] freq[j]).0 != k,
        kind_index(freq, k) is None ==> forall|j: int| 0 <= j < freq.len() ==> (#[trigger] freq[j]).0 != k,
    decreases freq.len(),
{
    if freq.len() > 0 {
        lemma_kind_index(freq.drop_last(), k);
        assert forall|j: int| 0 <= j < freq.len() - 1 implies freq.drop_last()[j] == freq[j] by {}
    }
}

proof fn lemma_kind_index_at(freq: Seq<KindCount>, k: Seq<char>, i: int)
    requires
        0 <= i < freq.len(),
        freq[i].0 == k,
        forall|j: int| 0 <= j < i ==> (#[trigger] freq[j]).0 != k,
    ensures
        kind_index(freq, k) == Some(i),
{
    lemma_kind_index(freq, k);
    match kind_index(freq, k) {
        Some(m) => {
            if m < i {
                assert(freq[m].0 != k);
            } else if m > i {
                assert(freq[i].0 != k);
            }
        },
        None => {
            assert(freq[i].0 != k);
        },
    }
}

/// Counts `k` once more in `freq`.
fn bump_exec(freq: &mut Vec<(String, usize)>, k: &str, Ghost(t): Ghost<nat>)
    requires
        counts_at_most(kind_counts(old(freq)@), t),
        t < usize::MAX,
    ensures
        kind_counts(final(freq)@) == bump(kind_counts(old(freq)@), k@),
        counts_at_most(kind_counts(final(freq)@), t + 1),
{
    let ghost f = kind_counts(freq@);
    let mut i: usize = 0;
    while i < freq.len()
        invariant
            i <= freq@.len(),
            f == kind_counts(freq@),
            f == kind_counts(old(freq)@),
            counts_at_most(f, t),
            t < usize::MAX,
            forall|j: int| 0 <= j < i ==> (#[trigger] f[j]).0 != k@,
        decreases freq@.len() - i,
    {
        assert(f[i as int] == (freq@[i as int].0@, freq@[i as int].1 as nat));
        if same_text(freq[i].0.as_str(), k) {
            proof {
                lemma_kind_index_at(f, k@, i as int);
            }
            let c = freq[i].1;
            assert(f[i as int].1 <= t);
            let name = freq[i].0.clone();
            freq.set(i, (name, c + 1));
            proof {
                assert(kind_counts(freq@) =~= f.update(i as int, (k@, f[i as int].1 + 1)));
            }
            return;
        }
        i += 1;
    }
    proof {
        lemma_kind_index(f, k@);
        if let Some(m) = kind_index(f, k@) {
            assert(f[m].0 != k@);
        }
    }
    freq.push((k.to_string(), 1));
    assert(kind_counts(freq@) =~= f.push((k@, 1)));
}

impl GraphPredictor {
    /// Every count is at most the number of observations.
    pub closed spec fn wf(&self) -> bool {
        counts_at_most(self@.node_kinds, self@.total) && counts_at_most(self@.edge_kinds, self@.total)
    }

    /// A predictor that has seen nothing.
    pub fn new() -> (r: Self)
        ensures
            r.wf(),
            r@.node_kinds.len() == 0,
            r@.edge_kinds.len() == 0,
            r@.total == 0,
    {
        let r = GraphPredictor { node_type_frequencies: Vec::new(), edge_type_frequencies: Vec::new(), total_observations: 0 };
        assert(r@.node_kinds =~= Seq::<KindCount>::empty());
        assert(r@.edge_kinds =~= Seq::<KindCount>::empty());
        r
    }

    /// Learns from one snapshot.
    pub fn observe_snapshot(&mut self, snap: &GraphSnapshot)
        requires
            old(self).wf(),
            old(self)@.total + snap@.nodes.len() + snap@.edges.len() <= usize::MAX,
        ensures
            final(self).wf(),
            final(self)@ == observe_one(old(self)@, snap@),
    {
        let ghost m0 = self@;
        let ghost s = snap@;
        let mut i: usize = 0;
        assert(node_kinds(s.nodes).subrange(0, 0) =~= Seq::<Seq<char>>::empty());
        while i < snap.nodes.len()
            invariant
                i <= snap.nodes@.len(),
                s == snap@,
                m0.total + s.nodes.len() + s.edges.len() <= usize::MAX,
                self.total_observations == m0.total,
                kind_counts(self.edge_type_frequencies@) == m0.edge_kinds,
                kind_counts(self.node_type_frequencies@) == tally(m0.node_kinds, node_kinds(s.nodes).subrange(0, i as int)),
                counts_at_most(kind_counts(self.node_type_frequencies@), (m0.total + i) as nat),
                counts_at_most(m0.edge_kinds, m0.total),
            decreases snap.nodes@.len() - i,
        {
            assert(node_kinds(s.nodes).subrange(0, i + 1).drop_last() =~= node_kinds(s.nodes).subrange(0, i as int));
            assert(s.nodes[i as int] == snap.nodes@[i as int]@);
            bump_exec(&mut self.node_type_frequencies, snap.nodes[i].kind.as_str(), Ghost((m0.total + i) as nat));
            i += 1;
        }
        assert(node_kinds(s.nodes).subrange(0, s.nodes.len() as int) =~= node_kinds(s.nodes));
        let mut j: usize = 0;
        assert(edge_kinds(s.edges).subrange(0, 0) =~= Seq::<Seq<char>>::empty());
        while j < snap.edges.len()
            invariant
                j <= snap.edges@.len(),
                s == snap@,
                m0.total + s.nodes.len() + s.edges.len() <= usize::MAX,
                self.total_observations == m0.total,
                kind_counts(self.node_type_frequencies@) == tally(m0.node_kinds, node_kinds(s.nodes)),
                kind_counts(self.edge_type_frequencies@) == tally(m0.edge_kinds, edge_kinds(s.edges).subrange(0, j as int)),
                counts_at_most(kind_counts(self.node_type_frequencies@), m0.total + s.nodes.len()),
                counts_at_most(kind_counts(self.edge_type_frequencies@), (m0.total + j) as nat),
            decreases snap.edges@.len() - j,
        {
            assert(edge_kinds(s.edges).subrange(0, j + 1).drop_last() =~= edge_kinds(s.edges).subrange(0, j as int));
            assert(s.edges[j as int] == snap.edges@[j as int]@);
            bump_exec(&mut self.edge_type_frequencies, snap.edges[j].kind.as_str(), Ghost((m0.total + j) as nat));
            j += 1;
        }
        assert(edge_kinds(s.edges).subrange(0, s.edges.len() as int) =~= edge_kinds(s.edges));
        self.total_observations = self.total_observations + snap.nodes.len() + snap.edges.len();
        proof {
            let t = self@.total;
            assert forall|k: int| 0 <= k < self@.node_kinds.len() implies (#[trigger] self@.node_kinds[k]).1 <= t by {
                assert(self@.node_kinds[k].1 <= m0.total + s.nodes.len());
            }
            assert forall|k: int| 0 <= k < self@.edge_kinds.len() implies (#[trigger] self@.edge_kinds[k]).1 <= t by {
                assert(self@.edge_kinds[k].1 <= m0.total + s.edges.len());
            }
        }
    }

    /// Learns from the snapshots, in order.
    pub fn observe(&mut self, snapshots: &[GraphSnapshot])
        requires
            old(self).wf(),
            old(self)@.total + items_upto(snapshot_models(snapshots@), snapshots@.len() as int) <= usize::MAX,
        ensures
            final(self).wf(),
            final(self)@ == observe_all(old(self)@, snapshot_models(snapshots@)),
    {
        let ghost s = snapshot_models(snapshots@);
        let ghost m0 = self@;
        let mut i: usize = 0;
        assert(s.subrange(0, 0) =~= Seq::<SnapshotModel>::empty());
        while i < snapshots.len()
            invariant
                i <= snapshots@.len(),
                s == snapshot_models(snapshots@),
                m0.total + items_upto(s, s.len() as int) <= usize::MAX,
                self.wf(),
                self@ == observe_all(m0, s.subrange(0, i as int)),
                self@.total == m0.total + items_upto(s, i as int),
            decreases snapshots@.len() - i,
        {
            assert(s.subrange(0, i + 1).drop_last() =~= s.subrange(0, i as int));
            assert(s[i as int] == snapshots@[i as int]@);
            proof {
                lemma_items_monotone(s, i + 1, s.len() as int);
            }
            self.observe_snapshot(&snapshots[i]);
            i += 1;
        }
        assert(s.subrange(0, s.len() as int) =~= s);
    }

    /// The node kinds seen, with their counts, in the order first seen.
    pub fn node_type_frequencies(&self) -> (r: Vec<(String, usize)>)
        ensures
            kind_counts(r@) == self@.node_kinds,
    {
        copy_counts(&self.node_type_frequencies)
    }

    /// The edge kinds seen, with their counts, in the order first seen.
    pub fn edge_type_frequencies(&self) -> (r: Vec<(String, usize)>)
        ensures
            kind_counts(r@) == self@.edge_kinds,
    {
        copy_counts(&self.edge_type_frequencies)
    }

    /// How many nodes and edges were observed in all.
    pub fn total_observations(&self) -> (r: usize)
        ensures
            r == self@.total,
    {
        self.total_observations
    }
}

/// A copy of a list of kind counts.
fn copy_counts(v: &Vec<(String, usize)>) -> (r: Vec<(String, usize)>)
    ensures
        kind_counts(r@) == kind_counts(v@),
{
    let mut r: Vec<(String, usize)> = Vec::new();
    let mut i: usize = 0;
    while i < v.len()
        invariant
            i <= v@.len(),
            kind_counts(r@) == kind_counts(v@).subrange(0, i as int),
        decreases v@.len() - i,
    {
        let ghost before = kind_counts(r@);
        r.push((v[i].0.clone(), v[i].1));
        assert(kind_counts(r@) =~= before.push(kind_counts(v@)[i as int]));
        i += 1;
        assert(kind_counts(r@) =~= kind_counts(v@).subrange(0, i as int));
    }
    assert(kind_counts(v@).subrange(0, v@.len() as int) =~= kind_counts(v@));
    r
}

proof fn lemma_items_monotone(s: Seq<SnapshotModel>, m: int, n: int)
    requires
        0 <= m <= n,
    ensures
        items_upto(s, m) <= items_upto(s, n),
    decreases n - m,
{
    if m < n {
        lemma_items_monotone(s, m, n - 1);
    }
}

/// Tallying counts each kind exactly as often as it occurs, whatever was
/// counted before: the count of `k` rises by its occurrences in `kinds`.
pub proof fn lemma_tally_counts(freq: Seq<KindCount>, kinds: Seq<Seq<char>>, k: Seq<char>)
    ensures
        count_of(tally(freq, kinds), k) == count_of(freq, k) + occurrences(kinds, k),
    decreases kinds.len(),
{
    if kinds.len() > 0 {
        lemma_tally_counts(freq, kinds.drop_last(), k);
        let f = tally(freq, kinds.drop_last());
        lemma_kind_index(f, kinds.last());
        lemma_kind_index(f, k);
        let g = bump(f, kinds.last());
        lemma_kind_index(g, k);
        match kind_index(f, kinds.last()) {
            Some(i) => {
                if k == kinds.last() {
                    lemma_kind_index_at(g, k, i);
                } else {
                    match kind_index(f, k) {
                        Some(m) => {
                            assert forall|j: int| 0 <= j < m implies (#[trigger] g[j]).0 != k by {
                                assert(f[j].0 != k);
                            }
                            lemma_kind_index_at(g, k, m);
                        },
                        None => {
                            if let Some(m) = kind_index(g, k) {
                                assert(f[m].0 != k);
                            }
                        },
                    }
                }
            },
            None => {
                if k == kinds.last() {
                    assert forall|j: int| 0 <= j < f.len() implies (#[trigger] g[j]).0 != k by {
                        assert(g[j] == f[j]);
                    }
                    lemma_kind_index_at(g, k, f.len() as int);
                } else {
                    match kind_index(f, k) {
                        Some(m) => {
                            assert forall|j: int| 0 <= j < m implies (#[trigger] g[j]).0 != k by {
                                assert(g[j] == f[j]);
                            }
                            lemma_kind_index_at(g, k, m);
                        },
                        None => {
                            if let Some(m) = kind_index(g, k) {
                                if m < f.len() {
                                    assert(f[m].0 != k);
                                }
                            }
                        },
                    }
                }
            },
        }
    }
}

/// How often `k` occurs in `kinds`.
pub open spec fn occurrences(kinds: Seq<Seq<char>>, k: Seq<char>) -> nat
    decreases kinds.len(),
{
    if kinds.len() == 0 {
        0
    } else {
        occurrences(kinds.drop_last(), k) + if kinds.last() == k {
            1nat
        } else {
            0nat
        }
    }
}

/// The count of kind `k` in `freq` (zero where it is absent).
pub open spec fn count_of(freq: Seq<KindCount>, k: Seq<char>) -> nat {
    match kind_index(freq, k) {
        Some(i) => freq[i].1,
        None => 0,
    }
}

} // verus!
