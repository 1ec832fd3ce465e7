//! Byte-frequency counts: how often each byte value occurs, which occurs
//! most, and the values ranked by how often they occur.
use vstd::prelude::*;

verus! {

/// How often byte `b` occurs in `d`.
pub open spec fn count_byte(d: Seq<u8>, b: u8) -> nat
    decreases d.len(),
{
    if d.len() == 0 {
        0
    } else {
        count_byte(d.drop_last(), b) + if d.last() == b {
            1nat
        } else {
            0nat
        }
    }
}

/// The histogram of `d`: entry `b` counts byte `b`.
pub open spec fn histogram_of(d: Seq<u8>) -> Seq<nat> {
    Seq::new(256, |b: int| count_byte(d, b as u8))
}

/// How many of the first `k` entries of `h` are non-zero.
pub open spec fn nonzero_upto(h: Seq<nat>, k: int) -> nat
    decreases k,
{
    if k <= 0 {
        0
    } else {
        nonzero_upto(h, k - 1) + if h[k - 1] > 0 {
            1nat
        } else {
            0nat
        }
    }
}

/// How many byte values occur in `d`.
pub open spec fn distinct_bytes(d: Seq<u8>) -> nat {
    nonzero_upto(histogram_of(d), 256)
}

/// The most frequent of the first `k` byte values, and its count: the
/// smallest such value where several tie (and `(0, 0)` where none occurs).
pub open spec fn mode_upto(h: Seq<nat>, k: int) -> (int, nat)
    decreases k,
{
    if k <= 0 {
        (0, 0)
    } else {
        let prev = mode_upto(h, k - 1);
        if h[k - 1] > prev.1 {
            (k - 1, h[k - 1])
        } else {
            prev
        }
    }
}

/// A byte value with its count.
pub type Ranked = (int, nat);

/// `q` with `e` placed after every entry counted at least as often.
pub open spec fn insert_ranked(q: Seq<Ranked>, e: Ranked) -> Seq<Ranked>
    decreases q.len(),
{
    if q.len() == 0 {
        seq![e]
    } else if q[0].1 < e.1 {
        seq![e] + q
    } else {
        seq![q[0]] + insert_ranked(q.drop_first(), e)
    }
}

/// The byte values below `k` that occur, most frequent first; values with
/// equal counts in increasing order (a stable sort by count, descending).
pub open spec fn ranked_upto(h: Seq<nat>, k: int) -> Seq<Ranked>
    decreases k,
{
    if k <= 0 {
        seq![]
    } else if h[k - 1] > 0 {
        insert_ranked(ranked_upto(h, k - 1), (k - 1, h[k - 1]))
    } else {
        ranked_upto(h, k - 1)
    }
}

/// The byte values that occur in `d`, most frequent first.
pub open spec fn ranked_bytes(d: Seq<u8>) -> Seq<Ranked> {
    ranked_upto(histogram_of(d), 256)
}

/// Counts as numbers.
pub open spec fn counts_of(v: Seq<usize>) -> Seq<nat> {
    v.map_values(|c: usize| c as nat)
}

/// Ranked entries as numbers.
pub open spec fn ranked_of(v: Seq<(u8, usize)>) -> Seq<Ranked> {
    v.map_values(|e: (u8, usize)| (e.0 as int, e.1 as nat))
}

/// How often each byte value occurs in `d`.
pub fn histogram(d: &[u8]) -> (r: Vec<usize>)
    ensures
        counts_of(r@) == histogram_of(d@),
{
    let mut h: Vec<usize> = Vec::new();
    let mut k: usize = 0;
    while k < 256
        invariant
            k <= 256,
            h@.len() == k,
            forall|j: int| 0 <= j < k ==> #[trigger] h@[j] == 0,
        decreases 256 - k,
    {
        h.push(0);
        k += 1;
    }
    let mut i: usize = 0;
    while i < d.len()
        invariant
            i <= d@.len(),
            h@.len() == 256,
            forall|b: int| 0 <= b < 256 ==> #[trigger] h@[b] == count_byte(d@.subrange(0, i as int), b as u8),
            forall|b: int| 0 <= b < 256 ==> #[trigger] h@[b] <= i,
        decreases d@.len() - i,
    {
        let b = d[i] as usize;
        let ghost pre = d@.subrange(0, i as int);
        assert(d@.subrange(0, i + 1).drop_last() =~= pre);
        assert(d@.subrange(0, i + 1).last() == d@[i as int]);
        let c = h[b];
        h.set(b, c + 1);
        i += 1;
        assert forall|x: int| 0 <= x < 256 implies #[trigger] h@[x] == count_byte(d@.subrange(0, i as int), x as u8) by {
            if x == b {
                assert(d@[i - 1] as int == x);
            } else {
                assert(d@[i - 1] != x as u8);
            }
        }
    }
    assert(d@.subrange(0, d@.len() as int) =~= d@);
    assert(counts_of(h@) =~= histogram_of(d@));
    h
}

/// How many entries of a histogram are non-zero.
pub fn distinct_count(h: &Vec<usize>) -> (r: usize)
    requires
        h@.len() == 256,
    ensures
        r == nonzero_upto(counts_of(h@), 256),
        r <= 256,
{
    let ghost m = counts_of(h@);
    let mut n: usize = 0;
    let mut k: usize = 0;
    while k < 256
        invariant
            k <= 256,
            h@.len() == 256,
            m == counts_of(h@),
            n <= k,
            n == nonzero_upto(m, k as int),
        decreases 256 - k,
    {
        if h[k] > 0 {
            n += 1;
        }
        k += 1;
    }
    n
}

/// The most frequent byte value of a histogram and its count.
pub fn mode(h: &Vec<usize>) -> (r: (u8, usize))
    requires
        h@.len() == 256,
    ensures
        (r.0 as int, r.1 as nat) == mode_upto(counts_of(h@), 256),
{
    let ghost m = counts_of(h@);
    let mut best: usize = 0;
    let mut count: usize = 0;
    let mut k: usize = 0;
    while k < 256
        invariant
            k <= 256,
            h@.len() == 256,
            m == counts_of(h@),
            best < 256,
            (best as int, count as nat) == mode_upto(m, k as int),
        decreases 256 - k,
    {
        if h[k] > count {
            best = k;
            count = h[k];
        }
        k += 1;
    }
    (best as u8, count)
}

/// Places `e` after every entry counted at least as often.
fn insert_ranked_exec(q: &mut Vec<(u8, usize)>, e: (u8, usize))
    ensures
        ranked_of(final(q)@) == insert_ranked(ranked_of(old(q)@), (e.0 as int, e.1 as nat)),
{
    let ghost old_q = ranked_of(q@);
    let ghost ev = (e.0 as int, e.1 as nat);
    let mut i: usize = 0;
    assert(old_q.subrange(0, old_q.len() as int) =~= old_q);
    assert(old_q.subrange(0, 0) + old_q =~= old_q);
    while i < q.len()
        invariant
            i <= q@.len(),
            old_q == ranked_of(q@),
            q@ == old(q)@,
            old_q.len() == q@.len(),
            ev == (e.0 as int, e.1 as nat),
            insert_ranked(old_q, ev) == old_q.subrange(0, i as int) + insert_ranked(old_q.subrange(i as int, old_q.len() as int), ev),
        ensures
            i <= q@.len(),
            old_q == ranked_of(q@),
            q@ == old(q)@,
            old_q.len() == q@.len(),
            insert_ranked(old_q, ev) == old_q.subrange(0, i as int) + insert_ranked(old_q.subrange(i as int, old_q.len() as int), ev),
            i < q@.len() ==> old_q[i as int].1 < ev.1,
        decreases q@.len() - i,
    {
        let ghost rest = old_q.subrange(i as int, old_q.len() as int);
        assert(rest[0] == old_q[i as int]);
        assert(old_q[i as int] == (q@[i as int].0 as int, q@[i as int].1 as nat));
        if q[i].1 < e.1 {
            break;
        }
        assert(rest.drop_first() =~= old_q.subrange(i + 1, old_q.len() as int));
        assert(insert_ranked(rest, ev) == seq![rest[0]] + insert_ranked(rest.drop_first(), ev));
        assert(old_q.subrange(0, i + 1) =~= old_q.subrange(0, i as int) + seq![rest[0]]);
        assert(old_q.subrange(0, i as int) + (seq![rest[0]] + insert_ranked(rest.drop_first(), ev)) =~= old_q.subrange(
            0,
            i + 1,
        ) + insert_ranked(rest.drop_first(), ev));
        i += 1;
    }
    proof {
        let rest = old_q.subrange(i as int, old_q.len() as int);
        if i < q@.len() {
            assert(rest[0] == old_q[i as int]);
        }
        assert(insert_ranked(rest, ev) =~= seq![ev] + rest);
    }
    q.insert(i, e);
    proof {
        let rest = old_q.subrange(i as int, old_q.len() as int);
        assert(ranked_of(q@) =~= old_q.subrange(0, i as int) + (seq![ev] + rest));
    }
}

/// The byte values that occur, most frequent first (equal counts in
/// increasing order of value).
pub fn ranked(h: &Vec<usize>) -> (r: Vec<(u8, usize)>)
    requires
        h@.len() == 256,
    ensures
        ranked_of(r@) == ranked_upto(counts_of(h@), 256),
{
    let ghost m = counts_of(h@);
    let mut q: Vec<(u8, usize)> = Vec::new();
    let mut k: usize = 0;
    assert(ranked_of(q@) =~= Seq::<Ranked>::empty());
    while k < 256
        invariant
            k <= 256,
            h@.len() == 256,
            m == counts_of(h@),
            ranked_of(q@) == ranked_upto(m, k as int),
        decreases 256 - k,
    {
        if h[k] > 0 {
            insert_ranked_exec(&mut q, (k as u8, h[k]));
        }
        k += 1;
    }
    q
}

/// The counts of a histogram add up to the length of the data.
pub proof fn lemma_histogram_total(d: Seq<u8>)
    ensures
        sum_upto(histogram_of(d), 256) == d.len(),
    decreases d.len(),
{
    if d.len() > 0 {
        lemma_histogram_total(d.drop_last());
        lemma_sum_bump(histogram_of(d.drop_last()), histogram_of(d), d.last() as int, 256);
    } else {
        lemma_sum_zero(histogram_of(d), 256);
    }
}

/// The sum of the first `k` entries.
pub open spec fn sum_upto(h: Seq<nat>, k: int) -> nat
    decreases k,
{
    if k <= 0 {
        0
    } else {
        sum_upto(h, k - 1) + h[k - 1]
    }
}

proof fn lemma_sum_zero(h: Seq<nat>, k: int)
    requires
        0 <= k <= h.len(),
        forall|j: int| 0 <= j < h.len() ==> h[j] == 0,
    ensures
        sum_upto(h, k) == 0,
    decreases k,
{
    if k > 0 {
        lemma_sum_zero(h, k - 1);
    }
}

proof fn lemma_sum_bump(a: Seq<nat>, b: Seq<nat>, x: int, k: int)
    requires
        0 <= x < 256,
        a.len() == 256,
        b.len() == 256,
        0 <= k <= 256,
        forall|j: int| 0 <= j < 256 && j != x ==> a[j] == b[j],
        b[x] == a[x] + 1,
    ensures
        sum_upto(b, k) == sum_upto(a, k) + if x < k {
            1nat
        } else {
            0nat
        },
    decreases k,
{
    if k > 0 {
        lemma_sum_bump(a, b, x, k - 1);
    }
}

} // verus!
