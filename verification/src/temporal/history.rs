//! The history of a temporal graph: its snapshots, oldest first. Snapshots
//! are only ever appended.
use vstd::prelude::*;
use crate::temporal::diff::{diff_of, DiffModel, GraphDiff};
use crate::temporal::graph::{snapshot_models, GraphSnapshot, SnapshotModel};
use crate::temporal::interval::Timestamp;

verus! {

/// The index of the latest of the first `n` snapshots taken no later than
/// `t`.
pub open spec fn latest_until(s: Seq<SnapshotModel>, t: Timestamp, n: int) -> Option<int>
    decreases n,
{
    if n <= 0 {
        None
    } else if s[n - 1].timestamp.unix_nanos <= t.unix_nanos {
        Some(n - 1)
    } else {
        latest_until(s, t, n - 1)
    }
}

/// The index of the last snapshot taken no later than `t`.
pub open spec fn state_index(s: Seq<SnapshotModel>, t: Timestamp) -> Option<int> {
    latest_until(s, t, s.len() as int)
}

/// The differences between consecutive snapshots of `s`.
pub open spec fn consecutive_diffs(s: Seq<SnapshotModel>) -> Seq<DiffModel> {
    Seq::new((if s.len() == 0 { 0 } else { s.len() - 1 }) as nat, |i: int| diff_of(s[i], s[i + 1]))
}

/// The snapshots of a graph, oldest first.
#[derive(Debug)]
pub struct GraphHistory {
    snapshots: Vec<GraphSnapshot>,
}

impl View for GraphHistory {
    type V = Seq<SnapshotModel>;

    closed spec fn view(&self) -> Seq<SnapshotModel> {
        snapshot_models(self.snapshots@)
    }
}

/// The models of the diffs in a list.
pub open spec fn diff_models(v: Seq<GraphDiff>) -> Seq<DiffModel> {
    v.map_values(|d: GraphDiff| d@)
}

impl GraphHistory {
    /// An empty history.
    pub fn new() -> (r: Self)
        ensures
            r@ == Seq::<SnapshotModel>::empty(),
    {
        let r = GraphHistory { snapshots: Vec::new() };
        assert(r@ =~= Seq::<SnapshotModel>::empty());
        r
    }

    /// Appends a snapshot.
    pub fn append(&mut self, snapshot: GraphSnapshot)
        ensures
            final(self)@ == old(self)@.push(snapshot@),
    {
        let ghost m = snapshot@;
        self.snapshots.push(snapshot);
        assert(self@ =~= old(self)@.push(m));
    }

    /// Number of snapshots.
    pub fn len(&self) -> (r: usize)
        ensures
            r == self@.len(),
    {
        self.snapshots.len()
    }

    /// Whether there is no snapshot.
    pub fn is_empty(&self) -> (r: bool)
        ensures
            r == (self@.len() == 0),
    {
        self.snapshots.len() == 0
    }

    /// All snapshots, oldest first.
    pub fn all(&self) -> (r: &[GraphSnapshot])
        ensures
            snapshot_models(r@) == self@,
    {
        self.snapshots.as_slice()
    }

    /// The latest snapshot.
    pub fn latest(&self) -> (r: Option<&GraphSnapshot>)
        ensures
            r matches Some(s) ==> self@.len() > 0 && s@ == self@.last(),
            r is None <==> self@.len() == 0,
    {
        let n = self.snapshots.len();
        if n == 0 {
            None
        } else {
            Some(&self.snapshots[n - 1])
        }
    }

    /// The earliest snapshot.
    pub fn earliest(&self) -> (r: Option<&GraphSnapshot>)
        ensures
            r matches Some(s) ==> self@.len() > 0 && s@ == self@[0],
            r is None <==> self@.len() == 0,
    {
        if self.snapshots.len() == 0 {
            None
        } else {
            Some(&self.snapshots[0])
        }
    }

    /// The state at `timestamp`: the last snapshot taken no later than it.
    pub fn state_at(&self, timestamp: Timestamp) -> (r: Option<&GraphSnapshot>)
        ensures
            match state_index(self@, timestamp) {
                Some(i) => r matches Some(s) && s@ == self@[i],
                None => r is None,
            },
    {
        let ghost m = self@;
        let mut i: usize = self.snapshots.len();
        assert(latest_until(m, timestamp, m.len() as int) == state_index(m, timestamp));
        while i > 0
            invariant
                i <= self.snapshots@.len(),
                m == self@,
                m.len() == self.snapshots@.len(),
                latest_until(m, timestamp, i as int) == state_index(m, timestamp),
            decreases i,
        {
            assert(m[i - 1] == self.snapshots@[i - 1]@);
            if self.snapshots[i - 1].timestamp.unix_nanos <= timestamp.unix_nanos {
                return Some(&self.snapshots[i - 1]);
            }
            i -= 1;
        }
        None
    }

    /// The difference from snapshot `from_idx` to snapshot `to_idx`, where
    /// both exist.
    pub fn diff_between(&self, from_idx: usize, to_idx: usize) -> (r: Option<GraphDiff>)
        ensures
            from_idx < self@.len() && to_idx < self@.len() ==> (r matches Some(d) && d@ == diff_of(
                self@[from_idx as int],
                self@[to_idx as int],
            )),
            !(from_idx < self@.len() && to_idx < self@.len()) ==> r is None,
    {
        if from_idx >= self.snapshots.len() || to_idx >= self.snapshots.len() {
            return None;
        }
        assert(self@[from_idx as int] == self.snapshots@[from_idx as int]@);
        assert(self@[to_idx as int] == self.snapshots@[to_idx as int]@);
        Some(GraphDiff::between(&self.snapshots[from_idx], &self.snapshots[to_idx]))
    }

    /// The difference from snapshot `idx - 1` to snapshot `idx`.
    pub fn diff_at(&self, idx: usize) -> (r: Option<GraphDiff>)
        ensures
            0 < idx < self@.len() ==> (r matches Some(d) && d@ == diff_of(self@[idx - 1], self@[idx as int])),
            !(0 < idx < self@.len()) ==> r is None,
    {
        if idx == 0 || idx >= self.snapshots.len() {
            return None;
        }
        assert(self@[idx - 1] == self.snapshots@[idx - 1]@);
        assert(self@[idx as int] == self.snapshots@[idx as int]@);
        Some(GraphDiff::between(&self.snapshots[idx - 1], &self.snapshots[idx]))
    }

    /// The differences between consecutive snapshots.
    pub fn all_diffs(&self) -> (r: Vec<GraphDiff>)
        ensures
            diff_models(r@) == consecutive_diffs(self@),
    {
        let ghost m = self@;
        let mut r: Vec<GraphDiff> = Vec::new();
        let mut i: usize = 1;
        let n = self.snapshots.len();
        while i < n
            invariant
                1 <= i,
                n == self.snapshots@.len(),
                m == self@,
                m.len() == n,
                i <= n || (n == 0 && i == 1),
                r@.len() == i - 1,
                forall|k: int| 0 <= k < r@.len() ==> (#[trigger] r@[k])@ == diff_of(m[k], m[k + 1]),
            decreases n - i,
        {
            assert(m[i - 1] == self.snapshots@[i - 1]@);
            assert(m[i as int] == self.snapshots@[i as int]@);
            let d = GraphDiff::between(&self.snapshots[i - 1], &self.snapshots[i]);
            r.push(d);
            i += 1;
        }
        proof {
            let c = consecutive_diffs(m);
            assert(diff_models(r@).len() == c.len());
            assert forall|k: int| 0 <= k < c.len() implies diff_models(r@)[k] == c[k] by {
                assert(r@[k]@ == diff_of(m[k], m[k + 1]));
            }
            assert(diff_models(r@) =~= c);
        }
        r
    }
}

/// The state at an instant is the latest snapshot taken no later than it:
/// every later snapshot was taken after it.
pub proof fn lemma_state_at(s: Seq<SnapshotModel>, t: Timestamp)
    ensures
        state_index(s, t) matches Some(i) ==> 0 <= i < s.len() && s[i].timestamp.unix_nanos <= t.unix_nanos && forall|j: int|
            i < j < s.len() ==> (#[trigger] s[j]).timestamp.unix_nanos > t.unix_nanos,
        state_index(s, t) is None ==> forall|j: int| 0 <= j < s.len() ==> (#[trigger] s[j]).timestamp.unix_nanos > t.unix_nanos,
{
    lemma_latest_until(s, t, s.len() as int);
}

proof fn lemma_latest_until(s: Seq<SnapshotModel>, t: Timestamp, n: int)
    requires
        n <= s.len(),
    ensures
        latest_until(s, t, n) matches Some(i) ==> 0 <= i < n && s[i].timestamp.unix_nanos <= t.unix_nanos && forall|j: int|
            i < j < n ==> (#[trigger] s[j]).timestamp.unix_nanos > t.unix_nanos,
        latest_until(s, t, n) is None ==> forall|j: int| 0 <= j < n ==> (#[trigger] s[j]).timestamp.unix_nanos > t.unix_nanos,
    decreases n,
{
    if n > 0 {
        lemma_latest_until(s, t, n - 1);
    }
}

} // verus!
