//! What holds of every evaluation of the query algebra: results are
//! bounded and ranked, `And` intersects, `Or` unions without repeating a
//! document, `Not` excludes, and `Filter` keeps only what passes.
use vstd::prelude::*;
use crate::search::documents::{DocModel, dependency_match};
use crate::search::patterns::DependencyQuery;
use crate::search::engine::hits_upto;
use crate::search::engine::{
    add_unseen, and_keep, by_score, eval, filter_ok, filtered, has_id, insert_scored, not_hits, or_collect, retained,
    truncated, QueryExpr, ResultModel,
};

verus! {

/// Scores never rise along the list.
pub open spec fn ranked(rs: Seq<ResultModel>) -> bool {
    forall|i: int, j: int| 0 <= i < j < rs.len() ==> (#[trigger] rs[i]).1 >= (#[trigger] rs[j]).1
}

/// No document has two results.
pub open spec fn distinct_ids(rs: Seq<ResultModel>) -> bool {
    forall|i: int, j: int| 0 <= i < j < rs.len() ==> (#[trigger] rs[i]).0.id != (#[trigger] rs[j]).0.id
}

proof fn lemma_contains_push(s: Seq<ResultModel>, e: ResultModel, x: ResultModel)
    ensures
        s.push(e).contains(x) <==> (s.contains(x) || x == e),
{
    if s.push(e).contains(x) {
        let k = choose|k: int| 0 <= k < s.push(e).len() && s.push(e)[k] == x;
        if k < s.len() {
            assert(s[k] == x);
        }
    }
    if s.contains(x) {
        let k = choose|k: int| 0 <= k < s.len() && s[k] == x;
        assert(s.push(e)[k] == x);
    }
    if x == e {
        assert(s.push(e)[s.len() as int] == x);
    }
}

proof fn lemma_contains_drop_last(s: Seq<ResultModel>, x: ResultModel)
    requires
        s.len() > 0,
    ensures
        s.contains(x) <==> (s.drop_last().contains(x) || x == s.last()),
{
    assert(s =~= s.drop_last().push(s.last()));
    lemma_contains_push(s.drop_last(), s.last(), x);
}

proof fn lemma_has_id_of(rs: Seq<ResultModel>, x: ResultModel)
    requires
        rs.contains(x),
    ensures
        has_id(rs, x.0.id),
{
    let k = choose|k: int| 0 <= k < rs.len() && rs[k] == x;
    assert(rs[k].0.id == x.0.id);
}

/// Inserting by score adds one element, keeps a ranked list ranked, and
/// keeps ids distinct when the new id is new.
proof fn lemma_insert_scored(q: Seq<ResultModel>, e: ResultModel)
    ensures
        insert_scored(q, e).len() == q.len() + 1,
        forall|x: ResultModel| #[trigger] insert_scored(q, e).contains(x) <==> (q.contains(x) || x == e),
        ranked(q) ==> ranked(insert_scored(q, e)),
        distinct_ids(q) && !has_id(q, e.0.id) ==> distinct_ids(insert_scored(q, e)),
    decreases q.len(),
{
    let r = insert_scored(q, e);
    if q.len() == 0 {
        assert forall|x: ResultModel| #[trigger] r.contains(x) <==> (q.contains(x) || x == e) by {
            if r.contains(x) {
                assert(r[0] == x);
            }
            if x == e {
                assert(r[0] == x);
            }
        }
    } else if q[0].1 < e.1 {
        assert(r == seq![e] + q);
        assert forall|x: ResultModel| #[trigger] r.contains(x) <==> (q.contains(x) || x == e) by {
            if r.contains(x) {
                let k = choose|k: int| 0 <= k < r.len() && r[k] == x;
                if k > 0 {
                    assert(q[k - 1] == x);
                }
            }
            if q.contains(x) {
                let k = choose|k: int| 0 <= k < q.len() && q[k] == x;
                assert(r[k + 1] == x);
            }
            if x == e {
                assert(r[0] == x);
            }
        }
        if ranked(q) {
            assert forall|i: int, j: int| 0 <= i < j < r.len() implies (#[trigger] r[i]).1 >= (#[trigger] r[j]).1 by {
                if i == 0 {
                    assert(r[j] == q[j - 1]);
                    if j - 1 > 0 {
                        assert(q[0].1 >= q[j - 1].1);
                    }
                } else {
                    assert(r[i] == q[i - 1] && r[j] == q[j - 1]);
                }
            }
        }
        if distinct_ids(q) && !has_id(q, e.0.id) {
            assert forall|i: int, j: int| 0 <= i < j < r.len() implies (#[trigger] r[i]).0.id != (#[trigger] r[j]).0.id by {
                if i == 0 {
                    assert(r[j] == q[j - 1]);
                } else {
                    assert(r[i] == q[i - 1] && r[j] == q[j - 1]);
                }
            }
        }
    } else {
        let t = q.drop_first();
        lemma_insert_scored(t, e);
        let ti = insert_scored(t, e);
        assert(r == seq![q[0]] + ti);
        assert forall|x: ResultModel| #[trigger] r.contains(x) <==> (q.contains(x) || x == e) by {
            if r.contains(x) {
                let k = choose|k: int| 0 <= k < r.len() && r[k] == x;
                if k > 0 {
                    assert(ti[k - 1] == x);
                    assert(ti.contains(x));
                    if t.contains(x) {
                        let m = choose|m: int| 0 <= m < t.len() && t[m] == x;
                        assert(q[m + 1] == x);
                    }
                } else {
                    assert(q[0] == x);
                }
            }
            if q.contains(x) {
                let k = choose|k: int| 0 <= k < q.len() && q[k] == x;
                if k == 0 {
                    assert(r[0] == x);
                } else {
                    assert(t[k - 1] == x);
                    assert(ti.contains(x));
                    let m = choose|m: int| 0 <= m < ti.len() && ti[m] == x;
                    assert(r[m + 1] == x);
                }
            }
            if x == e {
                assert(ti.contains(x));
                let m = choose|m: int| 0 <= m < ti.len() && ti[m] == x;
                assert(r[m + 1] == x);
            }
        }
        if ranked(q) {
            assert(ranked(t)) by {
                assert forall|i: int, j: int| 0 <= i < j < t.len() implies (#[trigger] t[i]).1 >= (#[trigger] t[j]).1 by {
                    assert(t[i] == q[i + 1] && t[j] == q[j + 1]);
                }
            }
            assert forall|i: int, j: int| 0 <= i < j < r.len() implies (#[trigger] r[i]).1 >= (#[trigger] r[j]).1 by {
                if i == 0 {
                    assert(r[j] == ti[j - 1]);
                    assert(ti.contains(ti[j - 1]));
                    if t.contains(ti[j - 1]) {
                        let m = choose|m: int| 0 <= m < t.len() && t[m] == ti[j - 1];
                        assert(q[m + 1] == ti[j - 1]);
                        assert(q[0].1 >= q[m + 1].1);
                    }
                } else {
                    assert(r[i] == ti[i - 1] && r[j] == ti[j - 1]);
                }
            }
        }
        if distinct_ids(q) && !has_id(q, e.0.id) {
            assert(distinct_ids(t)) by {
                assert forall|i: int, j: int| 0 <= i < j < t.len() implies (#[trigger] t[i]).0.id != (#[trigger] t[j]).0.id by {
                    assert(t[i] == q[i + 1] && t[j] == q[j + 1]);
                }
            }
            assert(!has_id(t, e.0.id)) by {
                if has_id(t, e.0.id) {
                    let m = choose|m: int| 0 <= m < t.len() && (#[trigger] t[m]).0.id == e.0.id;
                    assert(q[m + 1] == t[m]);
                }
            }
            assert forall|i: int, j: int| 0 <= i < j < r.len() implies (#[trigger] r[i]).0.id != (#[trigger] r[j]).0.id by {
                if i == 0 {
                    assert(r[j] == ti[j - 1]);
                    assert(ti.contains(ti[j - 1]));
                    if t.contains(ti[j - 1]) {
                        let m = choose|m: int| 0 <= m < t.len() && t[m] == ti[j - 1];
                        assert(q[m + 1] == ti[j - 1]);
                    } else {
                        assert(ti[j - 1] == e);
                        assert(q[0].0.id != e.0.id) by {
                            if q[0].0.id == e.0.id {
                                assert(has_id(q, e.0.id));
                            }
                        }
                    }
                } else {
                    assert(r[i] == ti[i - 1] && r[j] == ti[j - 1]);
                }
            }
        }
    }
}

/// Sorting by score keeps the same results, ranks them, and keeps ids
/// distinct.
pub proof fn lemma_by_score(rs: Seq<ResultModel>)
    ensures
        by_score(rs).len() == rs.len(),
        forall|x: ResultModel| #[trigger] by_score(rs).contains(x) <==> rs.contains(x),
        ranked(by_score(rs)),
        distinct_ids(rs) ==> distinct_ids(by_score(rs)),
    decreases rs.len(),
{
    if rs.len() > 0 {
        let p = rs.drop_last();
        lemma_by_score(p);
        lemma_insert_scored(by_score(p), rs.last());
        assert forall|x: ResultModel| #[trigger] by_score(rs).contains(x) <==> rs.contains(x) by {
            lemma_contains_drop_last(rs, x);
            assert(by_score(rs) == insert_scored(by_score(p), rs.last()));
            assert(insert_scored(by_score(p), rs.last()).contains(x) <==> (by_score(p).contains(x) || x == rs.last()));
            assert(by_score(p).contains(x) <==> p.contains(x));
        }
        if distinct_ids(rs) {
            assert(distinct_ids(p)) by {
                assert forall|i: int, j: int| 0 <= i < j < p.len() implies (#[trigger] p[i]).0.id != (#[trigger] p[j]).0.id by {
                    assert(p[i] == rs[i] && p[j] == rs[j]);
                }
            }
            assert(!has_id(by_score(p), rs.last().0.id)) by {
                if has_id(by_score(p), rs.last().0.id) {
                    let m = choose|m: int| 0 <= m < by_score(p).len() && (#[trigger] by_score(p)[m]).0.id == rs.last().0.id;
                    assert(by_score(p).contains(by_score(p)[m]));
                    assert(p.contains(by_score(p)[m]));
                    let k = choose|k: int| 0 <= k < p.len() && p[k] == by_score(p)[m];
                    assert(rs[k] == p[k]);
                    assert(rs[rs.len() - 1] == rs.last());
                }
            }
        }
    }
}

/// Truncation keeps a prefix: at most `max` results, each from the list,
/// in the same order.
pub proof fn lemma_truncated(rs: Seq<ResultModel>, max: nat)
    ensures
        truncated(rs, max).len() <= max,
        truncated(rs, max).len() <= rs.len(),
        forall|i: int| 0 <= i < truncated(rs, max).len() ==> #[trigger] truncated(rs, max)[i] == rs[i],
        ranked(rs) ==> ranked(truncated(rs, max)),
        distinct_ids(rs) ==> distinct_ids(truncated(rs, max)),
{
    let t = truncated(rs, max);
    assert forall|i: int| 0 <= i < t.len() implies #[trigger] t[i] == rs[i] by {}
    if ranked(rs) {
        assert forall|i: int, j: int| 0 <= i < j < t.len() implies (#[trigger] t[i]).1 >= (#[trigger] t[j]).1 by {
            assert(t[i] == rs[i] && t[j] == rs[j]);
        }
    }
    if distinct_ids(rs) {
        assert forall|i: int, j: int| 0 <= i < j < t.len() implies (#[trigger] t[i]).0.id != (#[trigger] t[j]).0.id by {
            assert(t[i] == rs[i] && t[j] == rs[j]);
        }
    }
}

/// Filtering keeps, in order, only results that pass.
proof fn lemma_filtered(rs: Seq<ResultModel>, f: crate::search::engine::FilterSpec)
    ensures
        filtered(rs, f).len() <= rs.len(),
        forall|x: ResultModel| #[trigger] filtered(rs, f).contains(x) ==> rs.contains(x) && filter_ok(x, f),
    decreases rs.len(),
{
    if rs.len() > 0 {
        let p = rs.drop_last();
        lemma_filtered(p, f);
        assert forall|x: ResultModel| #[trigger] filtered(rs, f).contains(x) implies rs.contains(x) && filter_ok(x, f) by {
            lemma_contains_drop_last(rs, x);
            if filter_ok(rs.last(), f) {
                lemma_contains_push(filtered(p, f), rs.last(), x);
            }
        }
    }
}

/// Every result of a query comes from the documents' results, and there are
/// at most `max` of them.
pub proof fn lemma_eval_bounded(docs: Seq<DocModel>, q: QueryExpr, max: nat)
    ensures
        eval(docs, q, max).len() <= max,
    decreases q,
{
    match q {
        QueryExpr::Filter { query, spec } => {
            lemma_eval_bounded(docs, *query, max);
            lemma_filtered(eval(docs, *query, max), spec);
        },
        QueryExpr::Keyword(_) => {
            lemma_truncated(by_score(crate::search::engine::hits_upto(docs, q, docs.len() as int)), max);
        },
        QueryExpr::Graph(p) => {
            lemma_truncated(crate::search::engine::graph_hits(docs, p, max, docs.len() as int), max);
        },
        QueryExpr::And(qs) => {
            if qs@.len() > 0 {
                lemma_truncated(by_score(and_keep(docs, qs@, qs@.len() as int, max)), max);
            }
        },
        QueryExpr::Or(qs) => {
            lemma_truncated(by_score(or_collect(docs, qs@, qs@.len() as int, max)), max);
        },
        QueryExpr::Not(sub) => {
            lemma_truncated(not_hits(docs, eval(docs, *sub, usize::MAX as nat), docs.len() as int), max);
        },
        _ => {
            lemma_truncated(crate::search::engine::hits_upto(docs, q, docs.len() as int), max);
        },
    }
}

/// Keyword, `And` and `Or` results come ranked by score, highest first.
pub proof fn lemma_ranked(docs: Seq<DocModel>, q: QueryExpr, max: nat)
    requires
        q is Keyword || q is And || q is Or,
    ensures
        ranked(eval(docs, q, max)),
{
    match q {
        QueryExpr::Keyword(_) => {
            let h = crate::search::engine::hits_upto(docs, q, docs.len() as int);
            lemma_by_score(h);
            lemma_truncated(by_score(h), max);
        },
        QueryExpr::And(qs) => {
            if qs@.len() > 0 {
                let a = and_keep(docs, qs@, qs@.len() as int, max);
                lemma_by_score(a);
                lemma_truncated(by_score(a), max);
            }
        },
        QueryExpr::Or(qs) => {
            let o = or_collect(docs, qs@, qs@.len() as int, max);
            lemma_by_score(o);
            lemma_truncated(by_score(o), max);
        },
        _ => {},
    }
}

proof fn lemma_retained(acc: Seq<ResultModel>, other: Seq<ResultModel>)
    ensures
        forall|x: ResultModel| #[trigger] retained(acc, other).contains(x) ==> acc.contains(x) && has_id(other, x.0.id),
    decreases acc.len(),
{
    if acc.len() > 0 {
        let p = acc.drop_last();
        lemma_retained(p, other);
        assert forall|x: ResultModel| #[trigger] retained(acc, other).contains(x) implies acc.contains(x) && has_id(
            other,
            x.0.id,
        ) by {
            lemma_contains_drop_last(acc, x);
            if has_id(other, acc.last().0.id) {
                assert(retained(acc, other) == retained(p, other).push(acc.last()));
                lemma_contains_push(retained(p, other), acc.last(), x);
                if retained(p, other).contains(x) {
                    assert(p.contains(x));
                }
            } else {
                assert(retained(acc, other) == retained(p, other));
                assert(p.contains(x));
            }
        }
    }
}

proof fn lemma_and_keep(docs: Seq<DocModel>, qs: Seq<QueryExpr>, k: int, max: nat)
    requires
        1 <= k <= qs.len(),
    ensures
        forall|x: ResultModel, j: int|
            #![trigger and_keep(docs, qs, k, max).contains(x), qs[j]]
            and_keep(docs, qs, k, max).contains(x) && 0 <= j < k ==> has_id(eval(docs, qs[j], max), x.0.id),
    decreases k,
{
    if k > 1 {
        lemma_and_keep(docs, qs, k - 1, max);
        lemma_retained(and_keep(docs, qs, k - 1, max), eval(docs, qs[k - 1], max));
    }
    assert forall|x: ResultModel, j: int|
        #[trigger] and_keep(docs, qs, k, max).contains(x) && 0 <= j < k implies has_id(eval(docs, #[trigger] qs[j], max), x.0.id) by {
        if k == 1 {
            lemma_has_id_of(eval(docs, qs[0], max), x);
        } else {
            assert(retained(and_keep(docs, qs, k - 1, max), eval(docs, qs[k - 1], max)).contains(x));
        }
    }
}

/// `And` intersects: every result's document is among the results of each
/// of its queries.
pub proof fn lemma_and_intersects(docs: Seq<DocModel>, q: QueryExpr, max: nat)
    requires
        q is And,
    ensures
        forall|i: int, j: int|
            0 <= i < eval(docs, q, max).len() && 0 <= j < q->And_0@.len() ==> has_id(
                eval(docs, #[trigger] q->And_0@[j], max),
                (#[trigger] eval(docs, q, max)[i]).0.id,
            ),
{
    let qs = q->And_0@;
    if qs.len() > 0 {
        let a = and_keep(docs, qs, qs.len() as int, max);
        lemma_and_keep(docs, qs, qs.len() as int, max);
        lemma_by_score(a);
        lemma_truncated(by_score(a), max);
        assert forall|i: int, j: int|
            0 <= i < eval(docs, q, max).len() && 0 <= j < qs.len() implies has_id(
                eval(docs, #[trigger] qs[j], max),
                (#[trigger] eval(docs, q, max)[i]).0.id,
            ) by {
            let x = eval(docs, q, max)[i];
            assert(x == by_score(a)[i]);
            assert(by_score(a).contains(x));
            assert(a.contains(x));
        }
    }
}

proof fn lemma_add_unseen(acc: Seq<ResultModel>, rs: Seq<ResultModel>)
    ensures
        forall|x: ResultModel| #[trigger] add_unseen(acc, rs).contains(x) ==> acc.contains(x) || rs.contains(x),
        forall|x: ResultModel| #[trigger] rs.contains(x) ==> has_id(add_unseen(acc, rs), x.0.id),
        forall|x: ResultModel| #[trigger] acc.contains(x) ==> add_unseen(acc, rs).contains(x),
        distinct_ids(acc) ==> distinct_ids(add_unseen(acc, rs)),
    decreases rs.len(),
{
    if rs.len() > 0 {
        let p = rs.drop_last();
        let prev = add_unseen(acc, p);
        let e = rs.last();
        lemma_add_unseen(acc, p);
        assert forall|x: ResultModel| #[trigger] add_unseen(acc, rs).contains(x) implies acc.contains(x) || rs.contains(x) by {
            lemma_contains_drop_last(rs, x);
            if !has_id(prev, e.0.id) {
                lemma_contains_push(prev, e, x);
            }
        }
        assert forall|x: ResultModel| #[trigger] rs.contains(x) implies has_id(add_unseen(acc, rs), x.0.id) by {
            lemma_contains_drop_last(rs, x);
            if has_id(prev, e.0.id) {
            } else {
                if p.contains(x) {
                    let k = choose|k: int| 0 <= k < prev.len() && (#[trigger] prev[k]).0.id == x.0.id;
                    assert(prev.push(e)[k] == prev[k]);
                } else {
                    assert(prev.push(e)[prev.len() as int] == e);
                }
            }
        }
        assert forall|x: ResultModel| #[trigger] acc.contains(x) implies add_unseen(acc, rs).contains(x) by {
            if !has_id(prev, e.0.id) {
                lemma_contains_push(prev, e, x);
            }
        }
        if distinct_ids(acc) && !has_id(prev, e.0.id) {
            let r = prev.push(e);
            assert forall|i: int, j: int| 0 <= i < j < r.len() implies (#[trigger] r[i]).0.id != (#[trigger] r[j]).0.id by {
                if j == prev.len() {
                    assert(r[i] == prev[i]);
                    if prev[i].0.id == e.0.id {
                        assert(has_id(prev, e.0.id));
                    }
                } else {
                    assert(r[i] == prev[i] && r[j] == prev[j]);
                }
            }
        }
    }
}

/// Whether `x` is a result of one of the queries.
pub open spec fn answers_some(docs: Seq<DocModel>, qs: Seq<QueryExpr>, max: nat, x: ResultModel) -> bool {
    exists|j: int| 0 <= j < qs.len() && #[trigger] eval(docs, qs[j], max).contains(x)
}

proof fn lemma_or_collect(docs: Seq<DocModel>, qs: Seq<QueryExpr>, k: int, max: nat)
    requires
        0 <= k <= qs.len(),
    ensures
        distinct_ids(or_collect(docs, qs, k, max)),
        forall|x: ResultModel| #[trigger] or_collect(docs, qs, k, max).contains(x) ==> exists|j: int|
            0 <= j < k && #[trigger] eval(docs, qs[j], max).contains(x),
        forall|x: ResultModel, j: int|
            #![trigger eval(docs, qs[j], max).contains(x)]
            0 <= j < k && eval(docs, qs[j], max).contains(x) ==> has_id(or_collect(docs, qs, k, max), x.0.id),
    decreases k,
{
    if k > 0 {
        let prev = or_collect(docs, qs, k - 1, max);
        let rs = eval(docs, qs[k - 1], max);
        lemma_or_collect(docs, qs, k - 1, max);
        lemma_add_unseen(prev, rs);
        assert forall|x: ResultModel| #[trigger] or_collect(docs, qs, k, max).contains(x) implies exists|j: int|
            0 <= j < k && #[trigger] eval(docs, qs[j], max).contains(x) by {
            if !prev.contains(x) {
                assert(rs.contains(x));
            }
        }
        assert forall|x: ResultModel, j: int|
            0 <= j < k && #[trigger] eval(docs, qs[j], max).contains(x) implies has_id(or_collect(docs, qs, k, max), x.0.id) by {
            if j < k - 1 {
                let m = choose|m: int| 0 <= m < prev.len() && (#[trigger] prev[m]).0.id == x.0.id;
                assert(prev.contains(prev[m]));
                lemma_has_id_of(add_unseen(prev, rs), prev[m]);
            }
        }
    } else {
        assert(or_collect(docs, qs, 0, max) =~= Seq::<ResultModel>::empty());
    }
}

/// `Or` unions: no document has two results; every result is a result of
/// one of its queries; and where fewer than `max` results came back, every
/// result of each of its queries has its document among them.
pub proof fn lemma_or_unions(docs: Seq<DocModel>, q: QueryExpr, max: nat)
    requires
        q is Or,
    ensures
        distinct_ids(eval(docs, q, max)),
        forall|i: int|
            0 <= i < eval(docs, q, max).len() ==> answers_some(docs, q->Or_0@, max, #[trigger] eval(docs, q, max)[i]),
        eval(docs, q, max).len() < max ==> forall|j: int, x: ResultModel|
            0 <= j < q->Or_0@.len() && #[trigger] eval(docs, q->Or_0@[j], max).contains(x) ==> has_id(
                eval(docs, q, max),
                x.0.id,
            ),
{
    let qs = q->Or_0@;
    let o = or_collect(docs, qs, qs.len() as int, max);
    lemma_or_collect(docs, qs, qs.len() as int, max);
    lemma_by_score(o);
    lemma_truncated(by_score(o), max);
    let r = eval(docs, q, max);
    assert(r == truncated(by_score(o), max));
    assert forall|i: int| 0 <= i < r.len() implies answers_some(docs, qs, max, #[trigger] r[i]) by {
        assert(r[i] == by_score(o)[i]);
        assert(by_score(o).contains(r[i]));
        assert(o.contains(r[i]));
    }
    if r.len() < max {
        assert(r == by_score(o));
        assert forall|j: int, x: ResultModel|
            0 <= j < qs.len() && #[trigger] eval(docs, qs[j], max).contains(x) implies has_id(r, x.0.id) by {
            let m = choose|m: int| 0 <= m < o.len() && (#[trigger] o[m]).0.id == x.0.id;
            assert(o.contains(o[m]));
            assert(by_score(o).contains(o[m]));
            lemma_has_id_of(r, o[m]);
        }
    }
}

proof fn lemma_not_hits(docs: Seq<DocModel>, excluded: Seq<ResultModel>, n: int)
    ensures
        forall|x: ResultModel| #[trigger] not_hits(docs, excluded, n).contains(x) ==> !has_id(excluded, x.0.id),
    decreases n,
{
    if n > 0 {
        lemma_not_hits(docs, excluded, n - 1);
        assert forall|x: ResultModel| #[trigger] not_hits(docs, excluded, n).contains(x) implies !has_id(
            excluded,
            x.0.id,
        ) by {
            if !has_id(excluded, docs[n - 1].id) {
                lemma_contains_push(
                    not_hits(docs, excluded, n - 1),
                    crate::search::engine::result(docs[n - 1], 1, "not"@),
                    x,
                );
            }
        }
    }
}

/// `Not` excludes: no result's document is among the results of the
/// negated query (taken without a limit).
pub proof fn lemma_not_excludes(docs: Seq<DocModel>, q: QueryExpr, max: nat)
    requires
        q is Not,
    ensures
        forall|i: int|
            0 <= i < eval(docs, q, max).len() ==> !has_id(
                eval(docs, *q->Not_0, usize::MAX as nat),
                (#[trigger] eval(docs, q, max)[i]).0.id,
            ),
{
    let ex = eval(docs, *q->Not_0, usize::MAX as nat);
    let nh = not_hits(docs, ex, docs.len() as int);
    lemma_not_hits(docs, ex, docs.len() as int);
    lemma_truncated(nh, max);
    assert forall|i: int| 0 <= i < eval(docs, q, max).len() implies !has_id(
        ex,
        (#[trigger] eval(docs, q, max)[i]).0.id,
    ) by {
        assert(eval(docs, q, max)[i] == nh[i]);
        assert(nh.contains(nh[i]));
    }
}

/// `Filter` keeps only results that pass the filter, each a result of the
/// filtered query.
pub proof fn lemma_filter_passes(docs: Seq<DocModel>, q: QueryExpr, max: nat)
    requires
        q is Filter,
    ensures
        forall|i: int|
            0 <= i < eval(docs, q, max).len() ==> filter_ok(#[trigger] eval(docs, q, max)[i], q->spec)
                && eval(docs, *q->query, max).contains(eval(docs, q, max)[i]),
{
    lemma_filtered(eval(docs, *q->query, max), q->spec);
    assert forall|i: int| 0 <= i < eval(docs, q, max).len() implies filter_ok(
        #[trigger] eval(docs, q, max)[i],
        q->spec,
    ) && eval(docs, *q->query, max).contains(eval(docs, q, max)[i]) by {
        assert(eval(docs, q, max).contains(eval(docs, q, max)[i]));
    }
}

proof fn lemma_dependency_hits(docs: Seq<DocModel>, dq: DependencyQuery, n: int)
    requires
        0 <= n <= docs.len(),
    ensures
        forall|k: int| 0 <= k < hits_upto(docs, QueryExpr::Dependency(dq), n).len() ==> dependency_match(
            (#[trigger] hits_upto(docs, QueryExpr::Dependency(dq), n)[k]).0,
            dq,
        ),
    decreases n,
{
    if n > 0 {
        lemma_dependency_hits(docs, dq, n - 1);
        let prev = hits_upto(docs, QueryExpr::Dependency(dq), n - 1);
        let cur = hits_upto(docs, QueryExpr::Dependency(dq), n);
        assert forall|k: int| 0 <= k < cur.len() implies dependency_match((#[trigger] cur[k]).0, dq) by {
            if k < prev.len() {
                assert(cur[k] == prev[k]);
            }
        }
    }
}

/// Every document a dependency query returns answers it: for the
/// dependencies of a package, that is the document whose `package_name`
/// is the package (see `lemma_dependency_answers`).
pub proof fn lemma_dependency_results(docs: Seq<DocModel>, dq: DependencyQuery, max: nat)
    ensures
        forall|k: int| 0 <= k < eval(docs, QueryExpr::Dependency(dq), max).len() ==> dependency_match(
            (#[trigger] eval(docs, QueryExpr::Dependency(dq), max)[k]).0,
            dq,
        ),
{
    let h = hits_upto(docs, QueryExpr::Dependency(dq), docs.len() as int);
    lemma_dependency_hits(docs, dq, docs.len() as int);
    lemma_truncated(h, max);
    assert forall|k: int| 0 <= k < eval(docs, QueryExpr::Dependency(dq), max).len() implies dependency_match(
        (#[trigger] eval(docs, QueryExpr::Dependency(dq), max)[k]).0,
        dq,
    ) by {
        assert(eval(docs, QueryExpr::Dependency(dq), max)[k] == h[k]);
    }
}

} // verus!
