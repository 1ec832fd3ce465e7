//! Sorted sets of texts, in the order that `str`'s `Ord` gives them: the
//! ordered, duplicate-free lists that a `BTreeSet<String>` walks.
use vstd::prelude::*;
use crate::text::{chars_of, same_text, string_of, texts};

verus! {

/// `a` sorts before `b`: lexicographic order by code point, which is the
/// byte order of their UTF-8 encodings (the order of `str`'s `Ord`).
pub open spec fn text_lt(a: Seq<char>, b: Seq<char>) -> bool
    decreases a.len(),
{
    if a.len() == 0 {
        b.len() > 0
    } else if b.len() == 0 {
        false
    } else if a[0] != b[0] {
        (a[0] as int) < (b[0] as int)
    } else {
        text_lt(a.drop_first(), b.drop_first())
    }
}

/// Each text sorts before every later one (so none occurs twice).
pub open spec fn strictly_sorted(q: Seq<Seq<char>>) -> bool {
    forall|i: int, j: int| 0 <= i < j < q.len() ==> text_lt(#[trigger] q[i], #[trigger] q[j])
}

/// `q` with `x` put in its place; unchanged where `x` is already there.
pub open spec fn insert_sorted(q: Seq<Seq<char>>, x: Seq<char>) -> Seq<Seq<char>>
    decreases q.len(),
{
    if q.len() == 0 {
        seq![x]
    } else if q[0] == x {
        q
    } else if text_lt(x, q[0]) {
        seq![x] + q
    } else {
        seq![q[0]] + insert_sorted(q.drop_first(), x)
    }
}

/// The sorted, duplicate-free list of the texts `items` (`BTreeSet::from_iter`).
pub open spec fn sorted_set(items: Seq<Seq<char>>) -> Seq<Seq<char>>
    decreases items.len(),
{
    if items.len() == 0 {
        seq![]
    } else {
        insert_sorted(sorted_set(items.drop_last()), items.last())
    }
}

/// `a` with each text of `b` inserted (`BTreeSet::union`).
pub open spec fn union_sorted(a: Seq<Seq<char>>, b: Seq<Seq<char>>) -> Seq<Seq<char>>
    decreases b.len(),
{
    if b.len() == 0 {
        a
    } else {
        insert_sorted(union_sorted(a, b.drop_last()), b.last())
    }
}

/// The texts of `a` that `b` holds (`keep`) or lacks (`!keep`), in order
/// (`BTreeSet::intersection` and `BTreeSet::difference`).
pub open spec fn filter_in(a: Seq<Seq<char>>, b: Seq<Seq<char>>, keep: bool) -> Seq<Seq<char>>
    decreases a.len(),
{
    if a.len() == 0 {
        seq![]
    } else {
        let rest = filter_in(a.drop_last(), b, keep);
        if b.contains(a.last()) == keep {
            rest.push(a.last())
        } else {
            rest
        }
    }
}

// ───────────────────────────── order facts ─────────────────────────────

/// No text sorts before itself.
pub proof fn lemma_text_lt_irreflexive(a: Seq<char>)
    ensures
        !text_lt(a, a),
    decreases a.len(),
{
    if a.len() > 0 {
        lemma_text_lt_irreflexive(a.drop_first());
    }
}

/// The order is transitive.
pub proof fn lemma_text_lt_transitive(a: Seq<char>, b: Seq<char>, c: Seq<char>)
    requires
        text_lt(a, b),
        text_lt(b, c),
    ensures
        text_lt(a, c),
    decreases a.len(),
{
    if a.len() > 0 && b.len() > 0 && c.len() > 0 && a[0] == b[0] && b[0] == c[0] {
        lemma_text_lt_transitive(a.drop_first(), b.drop_first(), c.drop_first());
    }
}

/// Of two different texts, one sorts before the other.
pub proof fn lemma_text_lt_total(a: Seq<char>, b: Seq<char>)
    ensures
        a == b || text_lt(a, b) || text_lt(b, a),
    decreases a.len(),
{
    if a.len() > 0 && b.len() > 0 && a[0] == b[0] {
        lemma_text_lt_total(a.drop_first(), b.drop_first());
        if a.drop_first() == b.drop_first() {
            assert(a =~= seq![a[0]] + a.drop_first());
            assert(b =~= seq![b[0]] + b.drop_first());
        }
    } else if a.len() > 0 && b.len() > 0 {
        assert((a[0] as int) != (b[0] as int));
    } else if a.len() == 0 && b.len() == 0 {
        assert(a =~= b);
    }
}

/// The order is asymmetric.
pub proof fn lemma_text_lt_asymmetric(a: Seq<char>, b: Seq<char>)
    requires
        text_lt(a, b),
    ensures
        !text_lt(b, a),
{
    if text_lt(b, a) {
        lemma_text_lt_transitive(a, b, a);
        lemma_text_lt_irreflexive(a);
    }
}

// ───────────────────────────── laws ─────────────────────────────

/// Inserting into a sorted set keeps it sorted and adds exactly `x`.
pub proof fn lemma_insert_sorted(q: Seq<Seq<char>>, x: Seq<char>)
    requires
        strictly_sorted(q),
    ensures
        strictly_sorted(insert_sorted(q, x)),
        insert_sorted(q, x).to_set() == q.to_set().insert(x),
        q.contains(x) ==> insert_sorted(q, x) == q,
    decreases q.len(),
{
    let r = insert_sorted(q, x);
    if q.len() == 0 {
        assert(r.to_set() =~= q.to_set().insert(x)) by {
            assert(r[0] == x);
        }
    } else if q[0] == x {
        assert(q.to_set() =~= q.to_set().insert(x)) by {
            assert(q.contains(q[0]));
        }
    } else if text_lt(x, q[0]) {
        assert forall|i: int, j: int| 0 <= i < j < r.len() implies text_lt(#[trigger] r[i], #[trigger] r[j]) by {
            if i == 0 {
                if j > 1 {
                    lemma_text_lt_transitive(x, q[0], q[j - 1]);
                }
            } else {
                assert(r[i] == q[i - 1] && r[j] == q[j - 1]);
            }
        }
        assert(r.to_set() =~= q.to_set().insert(x)) by {
            assert forall|y: Seq<char>| r.contains(y) implies q.to_set().insert(x).contains(y) by {
                let k = choose|k: int| 0 <= k < r.len() && r[k] == y;
                if k > 0 {
                    assert(q[k - 1] == y);
                }
            }
            assert forall|y: Seq<char>| q.to_set().insert(x).contains(y) implies r.contains(y) by {
                if y == x {
                    assert(r[0] == x);
                } else {
                    let k = choose|k: int| 0 <= k < q.len() && q[k] == y;
                    assert(r[k + 1] == y);
                }
            }
        }
        if q.contains(x) {
            let k = choose|k: int| 0 <= k < q.len() && q[k] == x;
            if k > 0 {
                lemma_text_lt_transitive(x, q[0], q[k]);
            }
            lemma_text_lt_irreflexive(x);
        }
    } else {
        let rest = q.drop_first();
        assert(strictly_sorted(rest)) by {
            assert forall|i: int, j: int| 0 <= i < j < rest.len() implies text_lt(#[trigger] rest[i], #[trigger] rest[j]) by {
                assert(rest[i] == q[i + 1] && rest[j] == q[j + 1]);
            }
        }
        lemma_insert_sorted(rest, x);
        let t = insert_sorted(rest, x);
        lemma_text_lt_total(x, q[0]);
        assert forall|k: int| 0 <= k < t.len() implies text_lt(q[0], #[trigger] t[k]) by {
            assert(t.to_set().contains(t[k]));
            if t[k] != x {
                let m = choose|m: int| 0 <= m < rest.len() && rest[m] == t[k];
                assert(q[m + 1] == t[k]);
            }
        }
        assert forall|i: int, j: int| 0 <= i < j < r.len() implies text_lt(#[trigger] r[i], #[trigger] r[j]) by {
            if i == 0 {
                assert(r[j] == t[j - 1]);
            } else {
                assert(r[i] == t[i - 1] && r[j] == t[j - 1]);
            }
        }
        assert(r.to_set() =~= q.to_set().insert(x)) by {
            assert forall|y: Seq<char>| r.contains(y) implies q.to_set().insert(x).contains(y) by {
                let k = choose|k: int| 0 <= k < r.len() && r[k] == y;
                if k > 0 {
                    assert(t[k - 1] == y);
                    assert(t.to_set().contains(y));
                    if y != x {
                        let m = choose|m: int| 0 <= m < rest.len() && rest[m] == y;
                        assert(q[m + 1] == y);
                    }
                }
            }
            assert forall|y: Seq<char>| q.to_set().insert(x).contains(y) implies r.contains(y) by {
                if y == q[0] {
                    assert(r[0] == y);
                } else {
                    assert(t.to_set().contains(y)) by {
                        if y != x {
                            let k = choose|k: int| 0 <= k < q.len() && q[k] == y;
                            assert(rest[k - 1] == y);
                        }
                    }
                    let m = choose|m: int| 0 <= m < t.len() && t[m] == y;
                    assert(r[m + 1] == y);
                }
            }
        }
        if q.contains(x) {
            let k = choose|k: int| 0 <= k < q.len() && q[k] == x;
            assert(rest[k - 1] == x);
            assert(r =~= q);
        }
    }
}

/// A sorted set holds exactly its items, sorted and each once.
pub proof fn lemma_sorted_set(items: Seq<Seq<char>>)
    ensures
        strictly_sorted(sorted_set(items)),
        sorted_set(items).to_set() == items.to_set(),
    decreases items.len(),
{
    if items.len() == 0 {
        assert(items.to_set() =~= Set::empty());
        assert(Seq::<Seq<char>>::empty().to_set() =~= Set::empty());
    } else {
        lemma_sorted_set(items.drop_last());
        lemma_insert_sorted(sorted_set(items.drop_last()), items.last());
        assert(items.to_set() =~= items.drop_last().to_set().insert(items.last())) by {
            assert(items =~= items.drop_last().push(items.last()));
            items.drop_last().lemma_push_to_set_commute(items.last());
        }
    }
}

/// The union of sorted sets is sorted and holds the texts of both.
pub proof fn lemma_union_sorted(a: Seq<Seq<char>>, b: Seq<Seq<char>>)
    requires
        strictly_sorted(a),
    ensures
        strictly_sorted(union_sorted(a, b)),
        union_sorted(a, b).to_set() == a.to_set().union(b.to_set()),
    decreases b.len(),
{
    if b.len() == 0 {
        assert(b.to_set() =~= Set::empty());
        assert(a.to_set().union(b.to_set()) =~= a.to_set());
    } else {
        lemma_union_sorted(a, b.drop_last());
        lemma_insert_sorted(union_sorted(a, b.drop_last()), b.last());
        assert(b =~= b.drop_last().push(b.last()));
        b.drop_last().lemma_push_to_set_commute(b.last());
        assert(union_sorted(a, b).to_set() =~= a.to_set().union(b.to_set()));
    }
}

/// Filtering a sorted set keeps it sorted; it holds the texts of `a` that
/// `b` holds (or lacks).
pub proof fn lemma_filter_in(a: Seq<Seq<char>>, b: Seq<Seq<char>>, keep: bool)
    requires
        strictly_sorted(a),
    ensures
        strictly_sorted(filter_in(a, b, keep)),
        forall|x: Seq<char>| #[trigger] filter_in(a, b, keep).contains(x) <==> a.contains(x) && b.contains(x) == keep,
    decreases a.len(),
{
    let r = filter_in(a, b, keep);
    if a.len() > 0 {
        let p = a.drop_last();
        assert(strictly_sorted(p)) by {
            assert forall|i: int, j: int| 0 <= i < j < p.len() implies text_lt(#[trigger] p[i], #[trigger] p[j]) by {
                assert(p[i] == a[i] && p[j] == a[j]);
            }
        }
        lemma_filter_in(p, b, keep);
        let rest = filter_in(p, b, keep);
        if b.contains(a.last()) == keep {
            assert forall|i: int, j: int| 0 <= i < j < r.len() implies text_lt(#[trigger] r[i], #[trigger] r[j]) by {
                if j == r.len() - 1 {
                    assert(rest.contains(r[i]));
                    let k = choose|k: int| 0 <= k < p.len() && p[k] == r[i];
                    assert(a[k] == r[i]);
                } else {
                    assert(r[i] == rest[i] && r[j] == rest[j]);
                }
            }
        }
        assert forall|x: Seq<char>| #[trigger] r.contains(x) <==> a.contains(x) && b.contains(x) == keep by {
            if r.contains(x) {
                let k = choose|k: int| 0 <= k < r.len() && r[k] == x;
                if k < rest.len() {
                    assert(rest[k] == x);
                    assert(rest.contains(x));
                    let m = choose|m: int| 0 <= m < p.len() && p[m] == x;
                    assert(a[m] == x);
                } else {
                    assert(a[a.len() - 1] == x);
                }
            }
            if a.contains(x) && b.contains(x) == keep {
                let k = choose|k: int| 0 <= k < a.len() && a[k] == x;
                if k < a.len() - 1 {
                    assert(p[k] == x);
                    assert(rest.contains(x));
                    let m = choose|m: int| 0 <= m < rest.len() && rest[m] == x;
                    assert(r[m] == x);
                } else {
                    assert(r[r.len() - 1] == x);
                }
            }
        }
    }
}

/// Inserting adds at most one text.
pub proof fn lemma_insert_sorted_len(q: Seq<Seq<char>>, x: Seq<char>)
    ensures
        insert_sorted(q, x).len() <= q.len() + 1,
    decreases q.len(),
{
    if q.len() > 0 && q[0] != x && !text_lt(x, q[0]) {
        lemma_insert_sorted_len(q.drop_first(), x);
    }
}

/// A sorted set has no more texts than its items.
pub proof fn lemma_sorted_set_len(items: Seq<Seq<char>>)
    ensures
        sorted_set(items).len() <= items.len(),
    decreases items.len(),
{
    if items.len() > 0 {
        lemma_sorted_set_len(items.drop_last());
        lemma_insert_sorted_len(sorted_set(items.drop_last()), items.last());
    }
}

/// Filtering keeps at most every text.
pub proof fn lemma_filter_in_len(a: Seq<Seq<char>>, b: Seq<Seq<char>>, keep: bool)
    ensures
        filter_in(a, b, keep).len() <= a.len(),
    decreases a.len(),
{
    if a.len() > 0 {
        lemma_filter_in_len(a.drop_last(), b, keep);
    }
}

// ───────────────────────────── executable ─────────────────────────────

/// Whether `a` sorts before `b`.
pub fn text_less(a: &str, b: &str) -> (r: bool)
    ensures
        r == text_lt(a@, b@),
{
    let x = chars_of(a);
    let y = chars_of(b);
    let mut i: usize = 0;
    assert(x@.subrange(0, x@.len() as int) == x@ && y@.subrange(0, y@.len() as int) == y@);
    while i < x.len() && i < y.len()
        invariant
            x@ == a@,
            y@ == b@,
            i <= x@.len(),
            i <= y@.len(),
            text_lt(a@, b@) == text_lt(x@.subrange(i as int, x@.len() as int), y@.subrange(i as int, y@.len() as int)),
        decreases x@.len() - i,
    {
        let ghost xs = x@.subrange(i as int, x@.len() as int);
        let ghost ys = y@.subrange(i as int, y@.len() as int);
        if x[i] != y[i] {
            return x[i] < y[i];
        }
        assert(xs.drop_first() == x@.subrange(i + 1, x@.len() as int));
        assert(ys.drop_first() == y@.subrange(i + 1, y@.len() as int));
        i += 1;
    }
    i == x.len() && i < y.len()
}

/// Puts `x` in its place in a sorted list of texts (`BTreeSet::insert`).
pub fn insert_sorted_exec(v: &mut Vec<String>, x: String)
    ensures
        texts(final(v)@) == insert_sorted(texts(old(v)@), x@),
{
    let ghost q = texts(v@);
    let mut i: usize = 0;
    assert(q.subrange(0, 0) + q.subrange(0, q.len() as int) =~= q);
    while i < v.len() && text_less(v[i].as_str(), x.as_str())
        invariant
            i <= v@.len(),
            q == texts(v@),
            insert_sorted(q, x@) == q.subrange(0, i as int) + insert_sorted(q.subrange(i as int, q.len() as int), x@),
        decreases v@.len() - i,
    {
        let ghost s = q.subrange(i as int, q.len() as int);
        proof {
            lemma_text_lt_asymmetric(q[i as int], x@);
            lemma_text_lt_irreflexive(x@);
            assert(s[0] != x@);
            assert(!text_lt(x@, s[0]));
            assert(s.drop_first() == q.subrange(i + 1, q.len() as int));
            assert(q.subrange(0, i as int) + (seq![s[0]] + s.drop_first()) == q.subrange(0, i + 1) + s.drop_first());
        }
        i += 1;
    }
    let ghost s = q.subrange(i as int, q.len() as int);
    if i == v.len() {
        let ghost xv = x@;
        v.push(x);
        assert(texts(v@) =~= q.subrange(0, i as int) + seq![xv]);
    } else if same_text(v[i].as_str(), x.as_str()) {
        assert(s[0] == x@);
        assert(q.subrange(0, i as int) + s =~= q);
    } else {
        proof {
            lemma_text_lt_total(x@, s[0]);
        }
        let ghost xv = x@;
        v.insert(i, x);
        assert(texts(v@) =~= q.subrange(0, i as int) + (seq![xv] + s));
    }
}

/// A copy of a list of strings.
pub fn copy_strings(v: &Vec<String>) -> (r: Vec<String>)
    ensures
        texts(r@) == texts(v@),
{
    let mut r: Vec<String> = Vec::new();
    let mut i: usize = 0;
    while i < v.len()
        invariant
            i <= v@.len(),
            texts(r@) == texts(v@).subrange(0, i as int),
        decreases v@.len() - i,
    {
        let ghost before = texts(r@);
        let c = string_of(chars_of(v[i].as_str()).as_slice());
        assert(c@ == texts(v@)[i as int]);
        r.push(c);
        assert(texts(r@) =~= before.push(texts(v@)[i as int]));
        i += 1;
        assert(texts(r@) =~= texts(v@).subrange(0, i as int));
    }
    assert(texts(v@).subrange(0, v@.len() as int) == texts(v@));
    r
}

/// Whether a list of strings holds `x`.
pub fn holds_text(v: &Vec<String>, x: &str) -> (r: bool)
    ensures
        r == texts(v@).contains(x@),
{
    let mut i: usize = 0;
    while i < v.len()
        invariant
            i <= v@.len(),
            forall|k: int| 0 <= k < i ==> texts(v@)[k] != x@,
        decreases v@.len() - i,
    {
        if same_text(v[i].as_str(), x) {
            assert(texts(v@)[i as int] == x@);
            return true;
        }
        i += 1;
    }
    false
}

/// The texts of sorted `a` that `b` holds or lacks (`BTreeSet::intersection`
/// with `keep`, `BTreeSet::difference` without).
pub fn filter_in_exec(a: &Vec<String>, b: &Vec<String>, keep: bool) -> (r: Vec<String>)
    ensures
        texts(r@) == filter_in(texts(a@), texts(b@), keep),
{
    let mut r: Vec<String> = Vec::new();
    let mut i: usize = 0;
    assert(texts(a@).subrange(0, 0) =~= Seq::<Seq<char>>::empty());
    while i < a.len()
        invariant
            i <= a@.len(),
            texts(r@) == filter_in(texts(a@).subrange(0, i as int), texts(b@), keep),
        decreases a@.len() - i,
    {
        assert(texts(a@).subrange(0, i + 1).drop_last() == texts(a@).subrange(0, i as int));
        if holds_text(b, a[i].as_str()) == keep {
            let ghost before = texts(r@);
            r.push(string_of(chars_of(a[i].as_str()).as_slice()));
            assert(texts(r@) =~= before.push(texts(a@)[i as int]));
        }
        i += 1;
    }
    assert(texts(a@).subrange(0, a@.len() as int) == texts(a@));
    r
}

/// The union of sorted `a` and the texts of `b` (`BTreeSet::union`).
pub fn union_sorted_exec(a: &Vec<String>, b: &Vec<String>) -> (r: Vec<String>)
    ensures
        texts(r@) == union_sorted(texts(a@), texts(b@)),
{
    let mut r = copy_strings(a);
    let mut i: usize = 0;
    assert(texts(b@).subrange(0, 0) =~= Seq::<Seq<char>>::empty());
    while i < b.len()
        invariant
            i <= b@.len(),
            texts(r@) == union_sorted(texts(a@), texts(b@).subrange(0, i as int)),
        decreases b@.len() - i,
    {
        assert(texts(b@).subrange(0, i + 1).drop_last() == texts(b@).subrange(0, i as int));
        insert_sorted_exec(&mut r, string_of(chars_of(b[i].as_str()).as_slice()));
        i += 1;
    }
    assert(texts(b@).subrange(0, b@.len() as int) == texts(b@));
    r
}

/// The sorted, duplicate-free list of the strings `items`.
pub fn sorted_set_exec(items: &Vec<String>) -> (r: Vec<String>)
    ensures
        texts(r@) == sorted_set(texts(items@)),
{
    let mut r: Vec<String> = Vec::new();
    let mut i: usize = 0;
    assert(texts(items@).subrange(0, 0) =~= Seq::<Seq<char>>::empty());
    assert(texts(r@) =~= Seq::<Seq<char>>::empty());
    while i < items.len()
        invariant
            i <= items@.len(),
            texts(r@) == sorted_set(texts(items@).subrange(0, i as int)),
        decreases items@.len() - i,
    {
        assert(texts(items@).subrange(0, i + 1).drop_last() == texts(items@).subrange(0, i as int));
        insert_sorted_exec(&mut r, string_of(chars_of(items[i].as_str()).as_slice()));
        i += 1;
    }
    assert(texts(items@).subrange(0, items@.len() as int) == texts(items@));
    r
}

} // verus!
