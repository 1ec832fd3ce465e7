//! The query algebra and its evaluation: atomic queries select documents,
//! `And`, `Or`, `Not` and `Filter` combine the results.
use vstd::prelude::*;
use crate::language::{lower_text, to_lowercase};
use crate::search::documents::{
    architecture_match, architecture_match_exec, count_matches, count_matches_exec, dependency_match,
    dependency_match_exec, doc_models, has, meta_equals, meta_get, meta_lookup, parse_usize, parse_usize_exec,
    phrase_exec, phrase_of, structural_match, structural_match_exec, DocModel, Document, SearchIndex,
};
use crate::search::patterns::{ArchQuery, DependencyQuery, GraphPattern, StructPattern};
use crate::temporal::interval::Timestamp;
use crate::sorted::copy_strings;
use crate::text::{chars_of, contains, same_text, string_of, texts};

verus! {

/// A time range; either end may be open.
#[derive(Debug, Clone, Copy)]
pub struct TimeRange {
    pub start: Option<Timestamp>,
    pub end: Option<Timestamp>,
}

/// A condition on the results of a query.
#[derive(Debug)]
pub enum FilterSpec {
    Kind(String),
    Source(String),
    TimeBefore(Timestamp),
    TimeAfter(Timestamp),
    Metadata { key: String, value: String },
}

/// A query: an atomic query, or a combination of queries.
#[derive(Debug)]
pub enum QueryExpr {
    Keyword(String),
    Prefix(String),
    Phrase(Vec<String>),
    Temporal(TimeRange),
    /// A code-structure query (a pattern of the body).
    Structure(StructPattern),
    Graph(GraphPattern),
    Dependency(DependencyQuery),
    Architecture(ArchQuery),
    And(Vec<QueryExpr>),
    Or(Vec<QueryExpr>),
    Not(Box<QueryExpr>),
    Filter { query: Box<QueryExpr>, spec: FilterSpec },
}

/// A result: the document, its score, and what it matched on.
pub type ResultModel = (DocModel, nat, Seq<Seq<char>>);

/// A scored search result.
#[derive(Debug)]
pub struct ScoredResult {
    pub document: Document,
    pub score: u128,
    pub matched_on: Vec<String>,
}

impl View for ScoredResult {
    type V = ResultModel;

    open spec fn view(&self) -> ResultModel {
        (self.document@, self.score as nat, texts(self.matched_on@))
    }
}

/// The models of a list of results.
pub open spec fn result_models(v: Seq<ScoredResult>) -> Seq<ResultModel> {
    v.map_values(|r: ScoredResult| r@)
}

/// The result for a document with a score and a tag.
pub open spec fn result(d: DocModel, score: nat, tag: Seq<char>) -> ResultModel {
    (d, score, seq![tag])
}

/// The score and tag with which a document answers an atomic query, if it
/// does.
pub open spec fn atomic_hit(d: DocModel, q: QueryExpr) -> Option<(nat, Seq<char>)> {
    match q {
        QueryExpr::Keyword(t) => {
            let tl = lower_text(t@);
            let bc = count_matches(lower_text(d.body), tl);
            let tc = count_matches(lower_text(d.title), tl);
            if bc > 0 || tc > 0 {
                Some(((tc * 3 + bc) as nat, if tc > 0 { "title"@ } else { "body"@ }))
            } else {
                None
            }
        },
        QueryExpr::Prefix(p) => {
            let pl = lower_text(p@);
            if contains(lower_text(d.body), pl) || contains(lower_text(d.title), pl) {
                Some((1, "prefix"@))
            } else {
                None
            }
        },
        QueryExpr::Phrase(ws) => {
            let ph = phrase_of(texts(ws@));
            if contains(lower_text(d.body), ph) || contains(lower_text(d.title), ph) {
                Some((ws@.len(), "phrase"@))
            } else {
                None
            }
        },
        QueryExpr::Temporal(r) => if in_range(d.timestamp, r) {
            Some((1, "temporal"@))
        } else {
            None
        },
        QueryExpr::Structure(p) => if structural_match(d, p) {
            Some((1, "structural"@))
        } else {
            None
        },
        QueryExpr::Dependency(p) => if dependency_match(d, p) {
            Some((1, "dependency"@))
        } else {
            None
        },
        QueryExpr::Architecture(p) => if architecture_match(d, p) {
            Some((1, "architecture"@))
        } else {
            None
        },
        _ => None,
    }
}

/// Whether a timestamp lies in a range (ends included); a document without
/// one answers only a range open at both ends.
pub open spec fn in_range(ts: Option<Timestamp>, r: TimeRange) -> bool {
    match ts {
        None => r.start is None && r.end is None,
        Some(t) => (match r.start {
            Some(s) => t.unix_nanos >= s.unix_nanos,
            None => true,
        }) && (match r.end {
            Some(e) => t.unix_nanos <= e.unix_nanos,
            None => true,
        }),
    }
}

/// The results of the first `n` documents for an atomic query, in order.
pub open spec fn hits_upto(docs: Seq<DocModel>, q: QueryExpr, n: int) -> Seq<ResultModel>
    decreases n,
{
    if n <= 0 {
        seq![]
    } else {
        let prev = hits_upto(docs, q, n - 1);
        match atomic_hit(docs[n - 1], q) {
            Some(h) => prev.push(result(docs[n - 1], h.0, h.1)),
            None => prev,
        }
    }
}

proof fn lemma_hits_by_keyword_text(docs: Seq<DocModel>, q1: QueryExpr, q2: QueryExpr, n: int)
    requires
        q1 is Keyword,
        q2 is Keyword,
        q1->Keyword_0@ == q2->Keyword_0@,
    ensures
        hits_upto(docs, q1, n) == hits_upto(docs, q2, n),
    decreases n,
{
    if n > 0 {
        lemma_hits_by_keyword_text(docs, q1, q2, n - 1);
        assert(atomic_hit(docs[n - 1], q1) == atomic_hit(docs[n - 1], q2));
    }
}

/// A keyword query depends only on the text of its keyword.
pub proof fn lemma_keyword_by_text(docs: Seq<DocModel>, q1: QueryExpr, q2: QueryExpr, max: nat)
    requires
        q1 is Keyword,
        q2 is Keyword,
        q1->Keyword_0@ == q2->Keyword_0@,
    ensures
        eval(docs, q1, max) == eval(docs, q2, max),
{
    lemma_hits_by_keyword_text(docs, q1, q2, docs.len() as int);
}

/// `q` with `e` placed after every result scored at least as high.
pub open spec fn insert_scored(q: Seq<ResultModel>, e: ResultModel) -> Seq<ResultModel>
    decreases q.len(),
{
    if q.len() == 0 {
        seq![e]
    } else if q[0].1 < e.1 {
        seq![e] + q
    } else {
        seq![q[0]] + insert_scored(q.drop_first(), e)
    }
}

/// The results sorted by score, highest first; equal scores keep their
/// order (a stable sort).
pub open spec fn by_score(rs: Seq<ResultModel>) -> Seq<ResultModel>
    decreases rs.len(),
{
    if rs.len() == 0 {
        seq![]
    } else {
        insert_scored(by_score(rs.drop_last()), rs.last())
    }
}

/// At most `max` results.
pub open spec fn truncated(rs: Seq<ResultModel>, max: nat) -> Seq<ResultModel> {
    if rs.len() > max {
        rs.subrange(0, max as int)
    } else {
        rs
    }
}

/// Whether some result is of the document `id`.
pub open spec fn has_id(rs: Seq<ResultModel>, id: Seq<char>) -> bool {
    exists|i: int| 0 <= i < rs.len() && (#[trigger] rs[i]).0.id == id
}

/// The results of `acc` whose document is among `other`.
pub open spec fn retained(acc: Seq<ResultModel>, other: Seq<ResultModel>) -> Seq<ResultModel>
    decreases acc.len(),
{
    if acc.len() == 0 {
        seq![]
    } else {
        let prev = retained(acc.drop_last(), other);
        if has_id(other, acc.last().0.id) {
            prev.push(acc.last())
        } else {
            prev
        }
    }
}

/// `acc` with each result of `rs` whose document it lacks, in order.
pub open spec fn add_unseen(acc: Seq<ResultModel>, rs: Seq<ResultModel>) -> Seq<ResultModel>
    decreases rs.len(),
{
    if rs.len() == 0 {
        acc
    } else {
        let prev = add_unseen(acc, rs.drop_last());
        if has_id(prev, rs.last().0.id) {
            prev
        } else {
            prev.push(rs.last())
        }
    }
}

/// The first `n` documents that no result of `excluded` is of, each with
/// score one.
pub open spec fn not_hits(docs: Seq<DocModel>, excluded: Seq<ResultModel>, n: int) -> Seq<ResultModel>
    decreases n,
{
    if n <= 0 {
        seq![]
    } else {
        let prev = not_hits(docs, excluded, n - 1);
        if has_id(excluded, docs[n - 1].id) {
            prev
        } else {
            prev.push(result(docs[n - 1], 1, "not"@))
        }
    }
}

/// Whether a result meets a filter.
pub open spec fn filter_ok(r: ResultModel, f: FilterSpec) -> bool {
    match f {
        FilterSpec::Kind(k) => r.0.kind == k@,
        FilterSpec::Source(s) => r.0.source == s@,
        FilterSpec::TimeBefore(t) => match r.0.timestamp {
            Some(ts) => ts.unix_nanos < t.unix_nanos,
            None => true,
        },
        FilterSpec::TimeAfter(t) => match r.0.timestamp {
            Some(ts) => ts.unix_nanos > t.unix_nanos,
            None => true,
        },
        FilterSpec::Metadata { key, value } => meta_get(r.0, key@) == Some(value@),
    }
}

/// The results that meet a filter, in order.
pub open spec fn filtered(rs: Seq<ResultModel>, f: FilterSpec) -> Seq<ResultModel>
    decreases rs.len(),
{
    if rs.len() == 0 {
        seq![]
    } else {
        let prev = filtered(rs.drop_last(), f);
        if filter_ok(rs.last(), f) {
            prev.push(rs.last())
        } else {
            prev
        }
    }
}

// ─── graph patterns ───

/// The results of a graph pattern: the documents it matches, score one,
/// at most `max`.
pub open spec fn graph_eval(docs: Seq<DocModel>, p: GraphPattern, max: nat) -> Seq<ResultModel>
    decreases p, 2nat, 0nat,
{
    truncated(graph_hits(docs, p, max, docs.len() as int), max)
}

/// The first `n` documents a graph pattern matches.
pub open spec fn graph_hits(docs: Seq<DocModel>, p: GraphPattern, max: nat, n: int) -> Seq<ResultModel>
    decreases p, 1nat, if n > 0 { n as nat } else { 0nat },
{
    if n <= 0 || n > docs.len() {
        seq![]
    } else {
        let prev = graph_hits(docs, p, max, n - 1);
        if graph_match(docs, p, docs[n - 1], max) {
            prev.push(result(docs[n - 1], 1, "graph"@))
        } else {
            prev
        }
    }
}

/// Whether a graph pattern matches a document.
pub open spec fn graph_match(docs: Seq<DocModel>, p: GraphPattern, d: DocModel, max: nat) -> bool
    decreases p, 0nat, 0nat,
{
    match p {
        GraphPattern::Node { name, kind } => (contains(d.title, name@) || contains(d.body, name@)) && match kind {
            Some(k) => d.kind == k@,
            None => true,
        },
        GraphPattern::Edge { source, target, kind } => {
            has_id(graph_eval(docs, *source, 1), d.id) && has_id(graph_eval(docs, *target, 1), d.id) && match kind {
                Some(k) => meta_get(d, "edge_kind"@) == Some(k@),
                None => true,
            }
        },
        GraphPattern::Path { from, to, max_depth } => {
            has_id(graph_eval(docs, *from, 1), d.id) || has_id(graph_eval(docs, *to, 1), d.id) || match meta_get(
                d,
                "path_depth"@,
            ) {
                Some(v) => match parse_usize(v) {
                    Some(n) => n <= max_depth,
                    None => true,
                },
                None => true,
            }
        },
        GraphPattern::Neighbors { node, depth } => {
            graph_eval(docs, *node, max).len() > 0 && (match meta_get(d, "graph_distance"@) {
                Some(v) => match parse_usize(v) {
                    Some(n) => n,
                    None => usize::MAX as nat,
                },
                None => usize::MAX as nat,
            }) <= depth
        },
        GraphPattern::Subgraph(ps) => subgraph_any(docs, ps@, 0, d),
    }
}

/// Whether one of the patterns `ps[k..]` has the document as its first
/// result.
pub open spec fn subgraph_any(docs: Seq<DocModel>, ps: Seq<GraphPattern>, k: int, d: DocModel) -> bool
    decreases ps, 0nat, if k < ps.len() { (ps.len() - k) as nat } else { 0nat },
{
    if k < 0 || k >= ps.len() {
        false
    } else {
        has_id(graph_eval(docs, ps[k], 1), d.id) || subgraph_any(docs, ps, k + 1, d)
    }
}

// ─── the algebra ───

/// The results of a query over the documents, at most `max` of them
/// (for `Filter`, at most as many as its inner query gives).
pub open spec fn eval(docs: Seq<DocModel>, q: QueryExpr, max: nat) -> Seq<ResultModel>
    decreases q, 1nat, 0nat,
{
    match q {
        QueryExpr::Keyword(_) => truncated(by_score(hits_upto(docs, q, docs.len() as int)), max),
        QueryExpr::Graph(p) => graph_eval(docs, p, max),
        QueryExpr::And(qs) => if qs@.len() == 0 {
            seq![]
        } else {
            truncated(by_score(and_keep(docs, qs@, qs@.len() as int, max)), max)
        },
        QueryExpr::Or(qs) => truncated(by_score(or_collect(docs, qs@, qs@.len() as int, max)), max),
        QueryExpr::Not(sub) => truncated(not_hits(docs, eval(docs, *sub, usize::MAX as nat), docs.len() as int), max),
        QueryExpr::Filter { query, spec } => filtered(eval(docs, *query, max), spec),
        _ => truncated(hits_upto(docs, q, docs.len() as int), max),
    }
}

/// The results of `qs[0]` that the results of each of `qs[1..k]` also hold.
pub open spec fn and_keep(docs: Seq<DocModel>, qs: Seq<QueryExpr>, k: int, max: nat) -> Seq<ResultModel>
    decreases qs, 0nat, if k > 0 { k as nat } else { 0nat },
{
    if k <= 1 || qs.len() == 0 {
        if qs.len() == 0 {
            seq![]
        } else {
            eval(docs, qs[0], max)
        }
    } else if k > qs.len() {
        and_keep(docs, qs, qs.len() as int, max)
    } else {
        retained(and_keep(docs, qs, k - 1, max), eval(docs, qs[k - 1], max))
    }
}

/// The results of `qs[..k]`, each document once, in order of appearance.
pub open spec fn or_collect(docs: Seq<DocModel>, qs: Seq<QueryExpr>, k: int, max: nat) -> Seq<ResultModel>
    decreases qs, 0nat, if k > 0 { k as nat } else { 0nat },
{
    if k <= 0 || k > qs.len() {
        seq![]
    } else {
        add_unseen(or_collect(docs, qs, k - 1, max), eval(docs, qs[k - 1], max))
    }
}

// ─── evaluation ───

impl ScoredResult {
    /// A copy of the result.
    pub fn copy(&self) -> (r: ScoredResult)
        ensures
            r@ == self@,
    {
        ScoredResult { document: self.document.copy(), score: self.score, matched_on: copy_strings(&self.matched_on) }
    }
}

/// A result of one document, with a score and one tag.
fn tagged(document: Document, score: u128, tag: &str) -> (r: ScoredResult)
    ensures
        r@ == result(document@, score as nat, tag@),
{
    let mut m: Vec<String> = Vec::new();
    m.push(string_of(chars_of(tag).as_slice()));
    let r = ScoredResult { document, score, matched_on: m };
    assert(texts(r.matched_on@) =~= seq![tag@]);
    r
}

/// Whether a timestamp lies in a range.
fn in_range_exec(ts: Option<Timestamp>, r: &TimeRange) -> (b: bool)
    ensures
        b == in_range(ts, *r),
{
    match ts {
        None => r.start.is_none() && r.end.is_none(),
        Some(t) => {
            let after = match r.start {
                Some(s) => t.unix_nanos >= s.unix_nanos,
                None => true,
            };
            let before = match r.end {
                Some(e) => t.unix_nanos <= e.unix_nanos,
                None => true,
            };
            after && before
        },
    }
}

/// Term frequency of a keyword in a document: title matches count three
/// times, body matches once.
fn keyword_hit(d: &Document, term: &String) -> (r: Option<(u128, &'static str)>)
    ensures
        match atomic_hit(d@, QueryExpr::Keyword(*term)) {
            Some(h) => r matches Some(x) && x.0 == h.0 && x.1@ == h.1,
            None => r is None,
        },
{
    let tl = chars_of(to_lowercase(term.as_str()).as_str());
    let bl = chars_of(to_lowercase(d.body.as_str()).as_str());
    let til = chars_of(to_lowercase(d.title.as_str()).as_str());
    let nb = bl.len();
    let nt = til.len();
    let bc = count_matches_exec(bl.as_slice(), tl.as_slice());
    let tc = count_matches_exec(til.as_slice(), tl.as_slice());
    if bc > 0 || tc > 0 {
        Some((tc * 3 + bc, if tc > 0 { "title" } else { "body" }))
    } else {
        None
    }
}

/// The score and tag with which a document answers an atomic query.
fn atomic_hit_exec(d: &Document, q: &QueryExpr) -> (r: Option<(u128, &'static str)>)
    ensures
        match atomic_hit(d@, *q) {
            Some(h) => r matches Some(x) && x.0 == h.0 && x.1@ == h.1,
            None => r is None,
        },
{
    match q {
        QueryExpr::Keyword(t) => keyword_hit(d, t),
        QueryExpr::Prefix(p) => {
            let pl = to_lowercase(p.as_str());
            if has(to_lowercase(d.body.as_str()).as_str(), pl.as_str()) || has(
                to_lowercase(d.title.as_str()).as_str(),
                pl.as_str(),
            ) {
                Some((1, "prefix"))
            } else {
                None
            }
        },
        QueryExpr::Phrase(ws) => {
            let ph = phrase_exec(ws);
            if has(to_lowercase(d.body.as_str()).as_str(), ph.as_str()) || has(
                to_lowercase(d.title.as_str()).as_str(),
                ph.as_str(),
            ) {
                Some((ws.len() as u128, "phrase"))
            } else {
                None
            }
        },
        QueryExpr::Temporal(r) => if in_range_exec(d.timestamp, r) {
            Some((1, "temporal"))
        } else {
            None
        },
        QueryExpr::Structure(p) => if structural_match_exec(d, p) {
            Some((1, "structural"))
        } else {
            None
        },
        QueryExpr::Dependency(p) => if dependency_match_exec(d, p) {
            Some((1, "dependency"))
        } else {
            None
        },
        QueryExpr::Architecture(p) => if architecture_match_exec(d, p) {
            Some((1, "architecture"))
        } else {
            None
        },
        _ => None,
    }
}

/// The documents that answer an atomic query, in index order.
fn atomic_hits(docs: &Vec<Document>, q: &QueryExpr) -> (r: Vec<ScoredResult>)
    ensures
        result_models(r@) == hits_upto(doc_models(docs@), *q, docs@.len() as int),
{
    let mut r: Vec<ScoredResult> = Vec::new();
    let mut i: usize = 0;
    while i < docs.len()
        invariant
            i <= docs@.len(),
            result_models(r@) == hits_upto(doc_models(docs@), *q, i as int),
        decreases docs@.len() - i,
    {
        let ghost before = result_models(r@);
        assert(doc_models(docs@)[i as int] == docs@[i as int]@);
        match atomic_hit_exec(&docs[i], q) {
            Some((score, tag)) => {
                let x = tagged(docs[i].copy(), score, tag);
                let ghost xm = x@;
                r.push(x);
                assert(result_models(r@) =~= before.push(xm));
            },
            None => {},
        }
        i += 1;
    }
    r
}

/// Inserting after every result scored at least as high places the new
/// result at the first position whose score is lower.
proof fn lemma_insert_scored_at(q: Seq<ResultModel>, e: ResultModel, j: int)
    requires
        0 <= j <= q.len(),
        forall|k: int| 0 <= k < j ==> (#[trigger] q[k]).1 >= e.1,
        j < q.len() ==> q[j].1 < e.1,
    ensures
        insert_scored(q, e) == q.subrange(0, j) + seq![e] + q.subrange(j, q.len() as int),
    decreases j,
{
    if j == 0 {
        assert(q.subrange(0, 0) + seq![e] + q.subrange(0, q.len() as int) =~= seq![e] + q);
    } else {
        let t = q.drop_first();
        assert forall|k: int| 0 <= k < j - 1 implies (#[trigger] t[k]).1 >= e.1 by {
            assert(t[k] == q[k + 1]);
        }
        lemma_insert_scored_at(t, e, j - 1);
        assert(q.subrange(0, j) + seq![e] + q.subrange(j, q.len() as int) =~= seq![q[0]] + (t.subrange(0, j - 1)
            + seq![e] + t.subrange(j - 1, t.len() as int)));
    }
}

/// The results sorted by score, highest first; equal scores keep their
/// order.
fn sort_by_score(v: &Vec<ScoredResult>) -> (r: Vec<ScoredResult>)
    ensures
        result_models(r@) == by_score(result_models(v@)),
{
    let mut r: Vec<ScoredResult> = Vec::new();
    let mut i: usize = 0;
    assert(result_models(v@).subrange(0, 0) =~= Seq::<ResultModel>::empty());
    while i < v.len()
        invariant
            i <= v@.len(),
            result_models(r@) == by_score(result_models(v@).subrange(0, i as int)),
        decreases v@.len() - i,
    {
        let e = v[i].copy();
        let ghost q = result_models(r@);
        let mut j: usize = 0;
        while j < r.len() && r[j].score >= e.score
            invariant
                j <= r@.len(),
                q == result_models(r@),
                forall|k: int| 0 <= k < j ==> (#[trigger] q[k]).1 >= e@.1,
            decreases r@.len() - j,
        {
            assert(q[j as int] == r@[j as int]@);
            j += 1;
        }
        proof {
            if j < r@.len() {
                assert(q[j as int] == r@[j as int]@);
            }
            lemma_insert_scored_at(q, e@, j as int);
        }
        let ghost em = e@;
        r.insert(j, e);
        assert(result_models(r@) =~= q.subrange(0, j as int) + seq![em] + q.subrange(j as int, q.len() as int));
        assert(result_models(v@).subrange(0, i + 1).drop_last() =~= result_models(v@).subrange(0, i as int));
        assert(result_models(v@).subrange(0, i + 1).last() == em);
        i += 1;
    }
    assert(result_models(v@).subrange(0, v@.len() as int) =~= result_models(v@));
    r
}

/// Keeps at most `max` results.
fn truncate_results(v: &mut Vec<ScoredResult>, max: usize)
    ensures
        result_models(final(v)@) == truncated(result_models(old(v)@), max as nat),
{
    let ghost before = v@;
    v.truncate(max);
    proof {
        if before.len() > max {
            assert(result_models(v@) =~= result_models(before).subrange(0, max as int));
        } else {
            assert(v@ =~= before);
        }
    }
}

/// Whether some result is of the document `id`.
fn holds_id(rs: &Vec<ScoredResult>, id: &str) -> (b: bool)
    ensures
        b == has_id(result_models(rs@), id@),
{
    let mut i: usize = 0;
    while i < rs.len()
        invariant
            i <= rs@.len(),
            forall|k: int| 0 <= k < i ==> (#[trigger] result_models(rs@)[k]).0.id != id@,
        decreases rs@.len() - i,
    {
        assert(result_models(rs@)[i as int] == rs@[i as int]@);
        if same_text(rs[i].document.id.as_str(), id) {
            return true;
        }
        i += 1;
    }
    false
}

/// The results of `acc` whose document is among `other`.
fn retain_seen(acc: &Vec<ScoredResult>, other: &Vec<ScoredResult>) -> (r: Vec<ScoredResult>)
    ensures
        result_models(r@) == retained(result_models(acc@), result_models(other@)),
{
    let mut r: Vec<ScoredResult> = Vec::new();
    let mut i: usize = 0;
    assert(result_models(acc@).subrange(0, 0) =~= Seq::<ResultModel>::empty());
    while i < acc.len()
        invariant
            i <= acc@.len(),
            result_models(r@) == retained(result_models(acc@).subrange(0, i as int), result_models(other@)),
        decreases acc@.len() - i,
    {
        let ghost before = result_models(r@);
        assert(result_models(acc@).subrange(0, i + 1).drop_last() =~= result_models(acc@).subrange(0, i as int));
        assert(result_models(acc@).subrange(0, i + 1).last() == acc@[i as int]@);
        if holds_id(other, acc[i].document.id.as_str()) {
            let x = acc[i].copy();
            r.push(x);
            assert(result_models(r@) =~= before.push(acc@[i as int]@));
        }
        i += 1;
    }
    assert(result_models(acc@).subrange(0, acc@.len() as int) =~= result_models(acc@));
    r
}

/// Appends each result of `rs` whose document `acc` lacks.
fn add_unseen_exec(acc: &mut Vec<ScoredResult>, rs: &Vec<ScoredResult>)
    ensures
        result_models(final(acc)@) == add_unseen(result_models(old(acc)@), result_models(rs@)),
{
    let ghost a0 = result_models(acc@);
    let mut i: usize = 0;
    assert(result_models(rs@).subrange(0, 0) =~= Seq::<ResultModel>::empty());
    while i < rs.len()
        invariant
            i <= rs@.len(),
            result_models(acc@) == add_unseen(a0, result_models(rs@).subrange(0, i as int)),
        decreases rs@.len() - i,
    {
        let ghost before = result_models(acc@);
        assert(result_models(rs@).subrange(0, i + 1).drop_last() =~= result_models(rs@).subrange(0, i as int));
        assert(result_models(rs@).subrange(0, i + 1).last() == rs@[i as int]@);
        if !holds_id(acc, rs[i].document.id.as_str()) {
            let x = rs[i].copy();
            acc.push(x);
            assert(result_models(acc@) =~= before.push(rs@[i as int]@));
        }
        i += 1;
    }
    assert(result_models(rs@).subrange(0, rs@.len() as int) =~= result_models(rs@));
}

/// Every document that no excluded result is of, with score one.
fn not_results(docs: &Vec<Document>, excluded: &Vec<ScoredResult>) -> (r: Vec<ScoredResult>)
    ensures
        result_models(r@) == not_hits(doc_models(docs@), result_models(excluded@), docs@.len() as int),
{
    let mut r: Vec<ScoredResult> = Vec::new();
    let mut i: usize = 0;
    while i < docs.len()
        invariant
            i <= docs@.len(),
            result_models(r@) == not_hits(doc_models(docs@), result_models(excluded@), i as int),
        decreases docs@.len() - i,
    {
        let ghost before = result_models(r@);
        assert(doc_models(docs@)[i as int] == docs@[i as int]@);
        if !holds_id(excluded, docs[i].id.as_str()) {
            let x = tagged(docs[i].copy(), 1, "not");
            let ghost xm = x@;
            r.push(x);
            assert(result_models(r@) =~= before.push(xm));
        }
        i += 1;
    }
    r
}

/// Whether a result meets a filter.
fn filter_ok_exec(r: &ScoredResult, f: &FilterSpec) -> (b: bool)
    ensures
        b == filter_ok(r@, *f),
{
    match f {
        FilterSpec::Kind(k) => same_text(r.document.kind.as_str(), k.as_str()),
        FilterSpec::Source(s) => same_text(r.document.source.as_str(), s.as_str()),
        FilterSpec::TimeBefore(t) => match r.document.timestamp {
            Some(ts) => ts.unix_nanos < t.unix_nanos,
            None => true,
        },
        FilterSpec::TimeAfter(t) => match r.document.timestamp {
            Some(ts) => ts.unix_nanos > t.unix_nanos,
            None => true,
        },
        FilterSpec::Metadata { key, value } => meta_equals(&r.document, key.as_str(), value.as_str()),
    }
}

/// The results that meet a filter, in order.
fn filter_results(rs: &Vec<ScoredResult>, f: &FilterSpec) -> (r: Vec<ScoredResult>)
    ensures
        result_models(r@) == filtered(result_models(rs@), *f),
{
    let mut r: Vec<ScoredResult> = Vec::new();
    let mut i: usize = 0;
    assert(result_models(rs@).subrange(0, 0) =~= Seq::<ResultModel>::empty());
    while i < rs.len()
        invariant
            i <= rs@.len(),
            result_models(r@) == filtered(result_models(rs@).subrange(0, i as int), *f),
        decreases rs@.len() - i,
    {
        let ghost before = result_models(r@);
        assert(result_models(rs@).subrange(0, i + 1).drop_last() =~= result_models(rs@).subrange(0, i as int));
        assert(result_models(rs@).subrange(0, i + 1).last() == rs@[i as int]@);
        if filter_ok_exec(&rs[i], f) {
            let x = rs[i].copy();
            r.push(x);
            assert(result_models(r@) =~= before.push(rs@[i as int]@));
        }
        i += 1;
    }
    assert(result_models(rs@).subrange(0, rs@.len() as int) =~= result_models(rs@));
    r
}

// ─── graph patterns and the algebra, executed ───

/// The documents a graph pattern matches, score one, at most `max`.
fn graph_eval_exec(docs: &Vec<Document>, p: &GraphPattern, max: usize) -> (r: Vec<ScoredResult>)
    ensures
        result_models(r@) == graph_eval(doc_models(docs@), *p, max as nat),
    decreases *p, 2nat, 0nat,
{
    let mut r: Vec<ScoredResult> = Vec::new();
    let mut i: usize = 0;
    while i < docs.len()
        invariant
            i <= docs@.len(),
            result_models(r@) == graph_hits(doc_models(docs@), *p, max as nat, i as int),
        decreases docs@.len() - i,
    {
        let ghost before = result_models(r@);
        assert(doc_models(docs@)[i as int] == docs@[i as int]@);
        if graph_match_exec(docs, p, &docs[i], max) {
            let x = tagged(docs[i].copy(), 1, "graph");
            let ghost xm = x@;
            r.push(x);
            assert(result_models(r@) =~= before.push(xm));
        }
        i += 1;
    }
    truncate_results(&mut r, max);
    r
}

/// A metadata number, or `usize::MAX` where the key is missing or its
/// value is no number.
fn meta_number(d: &Document, k: &str) -> (r: usize)
    ensures
        r == (match meta_get(d@, k@) {
            Some(v) => match parse_usize(v) {
                Some(n) => n,
                None => usize::MAX as nat,
            },
            None => usize::MAX as nat,
        }),
{
    match meta_lookup(d, k) {
        Some(v) => match parse_usize_exec(v.as_str()) {
            Some(n) => n,
            None => usize::MAX,
        },
        None => usize::MAX,
    }
}

/// Whether a graph pattern matches a document.
fn graph_match_exec(docs: &Vec<Document>, p: &GraphPattern, d: &Document, max: usize) -> (b: bool)
    ensures
        b == graph_match(doc_models(docs@), *p, d@, max as nat),
    decreases *p, 0nat, 0nat,
{
    match p {
        GraphPattern::Node { name, kind } => {
            let name_match = has(d.title.as_str(), name.as_str()) || has(d.body.as_str(), name.as_str());
            let kind_match = match kind {
                Some(k) => same_text(d.kind.as_str(), k.as_str()),
                None => true,
            };
            name_match && kind_match
        },
        GraphPattern::Edge { source, target, kind } => {
            let src = graph_eval_exec(docs, &**source, 1);
            let tgt = graph_eval_exec(docs, &**target, 1);
            let has_source = holds_id(&src, d.id.as_str());
            let has_target = holds_id(&tgt, d.id.as_str());
            let kind_match = match kind {
                Some(k) => meta_equals(d, "edge_kind", k.as_str()),
                None => true,
            };
            has_source && has_target && kind_match
        },
        GraphPattern::Path { from, to, max_depth } => {
            let src = graph_eval_exec(docs, &**from, 1);
            let tgt = graph_eval_exec(docs, &**to, 1);
            let has_from = holds_id(&src, d.id.as_str());
            let has_to = holds_id(&tgt, d.id.as_str());
            let depth_ok = match meta_lookup(d, "path_depth") {
                Some(v) => match parse_usize_exec(v.as_str()) {
                    Some(n) => n <= *max_depth,
                    None => true,
                },
                None => true,
            };
            has_from || has_to || depth_ok
        },
        GraphPattern::Neighbors { node, depth } => {
            let found = graph_eval_exec(docs, &**node, max);
            if found.len() == 0 {
                false
            } else {
                meta_number(d, "graph_distance") <= *depth
            }
        },
        GraphPattern::Subgraph(ps) => {
            let ghost dm = doc_models(docs@);
            let mut k: usize = 0;
            while k < ps.len()
                invariant
                    k <= ps@.len(),
                    *p == GraphPattern::Subgraph(*ps),
                    dm == doc_models(docs@),
                    subgraph_any(dm, ps@, 0, d@) == subgraph_any(dm, ps@, k as int, d@),
                decreases ps@.len() - k,
            {
                proof {
                    vstd::std_specs::vec::axiom_vec_index_decreases(*ps, k as int);
                    assert(decreases_to!(*p => (*p)->Subgraph_0));
                }
                let sub = graph_eval_exec(docs, &ps[k], 1);
                if holds_id(&sub, d.id.as_str()) {
                    return true;
                }
                k += 1;
            }
            false
        },
    }
}

/// The results of a query over the documents.
fn evaluate(docs: &Vec<Document>, q: &QueryExpr, max: usize) -> (r: Vec<ScoredResult>)
    ensures
        result_models(r@) == eval(doc_models(docs@), *q, max as nat),
    decreases *q, 1nat, 0nat,
{
    let ghost dm = doc_models(docs@);
    match q {
        QueryExpr::Keyword(_) => {
            let h = atomic_hits(docs, q);
            let mut s = sort_by_score(&h);
            truncate_results(&mut s, max);
            s
        },
        QueryExpr::Graph(p) => graph_eval_exec(docs, p, max),
        QueryExpr::And(qs) => {
            if qs.len() == 0 {
                return Vec::new();
            }
            let mut acc = evaluate(docs, &qs[0], max);
            let mut k: usize = 1;
            while k < qs.len()
                invariant
                    1 <= k <= qs@.len(),
                    *q == QueryExpr::And(*qs),
                    dm == doc_models(docs@),
                    result_models(acc@) == and_keep(dm, qs@, k as int, max as nat),
                decreases qs@.len() - k,
            {
                proof {
                    vstd::std_specs::vec::axiom_vec_index_decreases(*qs, k as int);
                    assert(decreases_to!(*q => (*q)->And_0));
                }
                let other = evaluate(docs, &qs[k], max);
                acc = retain_seen(&acc, &other);
                k += 1;
            }
            let mut s = sort_by_score(&acc);
            truncate_results(&mut s, max);
            s
        },
        QueryExpr::Or(qs) => {
            let mut acc: Vec<ScoredResult> = Vec::new();
            let mut k: usize = 0;
            assert(result_models(acc@) =~= Seq::<ResultModel>::empty());
            while k < qs.len()
                invariant
                    k <= qs@.len(),
                    *q == QueryExpr::Or(*qs),
                    dm == doc_models(docs@),
                    result_models(acc@) == or_collect(dm, qs@, k as int, max as nat),
                decreases qs@.len() - k,
            {
                proof {
                    vstd::std_specs::vec::axiom_vec_index_decreases(*qs, k as int);
                    assert(decreases_to!(*q => (*q)->Or_0));
                }
                let rs = evaluate(docs, &qs[k], max);
                add_unseen_exec(&mut acc, &rs);
                k += 1;
            }
            let mut s = sort_by_score(&acc);
            truncate_results(&mut s, max);
            s
        },
        QueryExpr::Not(sub) => {
            let excluded = evaluate(docs, &**sub, usize::MAX);
            let mut r = not_results(docs, &excluded);
            truncate_results(&mut r, max);
            r
        },
        QueryExpr::Filter { query, spec } => {
            let rs = evaluate(docs, &**query, max);
            filter_results(&rs, spec)
        },
        QueryExpr::Prefix(_) | QueryExpr::Phrase(_) | QueryExpr::Temporal(_) | QueryExpr::Structure(_)
        | QueryExpr::Dependency(_) | QueryExpr::Architecture(_) => {
            let mut h = atomic_hits(docs, q);
            truncate_results(&mut h, max);
            h
        },
    }
}

// ─── the engine ───

/// `std::time::Instant`, a reading of the monotonic clock.
#[verifier::external_type_specification]
#[verifier::external_body]
pub struct ExInstant(std::time::Instant);

/// Calls `Instant::now` (std): a reading of the monotonic clock. Nothing is
/// stated of it.
#[verifier::external_body]
fn clock_reading() -> (r: std::time::Instant) {
    std::time::Instant::now()
}

/// Calls `Instant::elapsed` (std): the time since `start`. Nothing is
/// stated of it.
#[verifier::external_body]
fn elapsed_since(start: &std::time::Instant) -> (r: std::time::Duration) {
    start.elapsed()
}

/// Calls `Duration::as_nanos` (std): the whole nanoseconds of a duration.
/// Nothing is stated of it, as the duration is opaque here.
#[verifier::external_body]
fn whole_nanos(d: &std::time::Duration) -> (r: u128) {
    d.as_nanos()
}

/// What a search gives: the results, their number, and how long the
/// evaluation took.
#[derive(Debug)]
pub struct QueryResult {
    pub results: Vec<ScoredResult>,
    pub total_count: usize,
    pub took_ns: u128,
}

/// Indexes documents and evaluates queries against them.
#[derive(Debug)]
pub struct SearchEngine {
    index: SearchIndex,
}

impl View for SearchEngine {
    type V = Seq<DocModel>;

    /// The indexed documents, in the order they were added.
    closed spec fn view(&self) -> Seq<DocModel> {
        self.index@
    }
}

impl SearchEngine {
    /// An engine with no document.
    pub fn new() -> (r: Self)
        ensures
            r@ == Seq::<DocModel>::empty(),
    {
        SearchEngine { index: SearchIndex::new() }
    }

    /// Indexes a document.
    pub fn index_document(&mut self, doc: Document)
        ensures
            final(self)@ == old(self)@.push(doc@),
    {
        self.index.add_document(doc);
    }

    /// Indexes documents, in order.
    pub fn index_documents(&mut self, docs: Vec<Document>)
        ensures
            final(self)@ == old(self)@ + doc_models(docs@),
    {
        let ghost start = self@;
        let mut i: usize = 0;
        while i < docs.len()
            invariant
                i <= docs@.len(),
                self@ == start + doc_models(docs@).subrange(0, i as int),
            decreases docs@.len() - i,
        {
            let ghost before = self@;
            let d = docs[i].copy();
            self.index.add_document(d);
            assert(doc_models(docs@).subrange(0, i + 1) =~= doc_models(docs@).subrange(0, i as int).push(
                docs@[i as int]@,
            ));
            assert(self@ =~= start + doc_models(docs@).subrange(0, i + 1));
            i += 1;
        }
        assert(doc_models(docs@).subrange(0, docs@.len() as int) =~= doc_models(docs@));
    }

    /// Evaluates a query against the indexed documents: at most
    /// `max_results` results (a `Filter` keeps those of its inner query that
    /// pass), with their number and the time the evaluation took.
    pub fn search(&self, query: &QueryExpr, max_results: usize) -> (r: QueryResult)
        ensures
            result_models(r.results@) == eval(self@, *query, max_results as nat),
            r.total_count == r.results@.len(),
    {
        let start = clock_reading();
        let docs = self.index.all_documents();
        let results = evaluate(&docs, query, max_results);
        let total_count = results.len();
        let took = elapsed_since(&start);
        QueryResult { results, total_count, took_ns: whole_nanos(&took) }
    }

    /// Number of indexed documents.
    pub fn document_count(&self) -> (r: usize)
        ensures
            r == self@.len(),
    {
        self.index.len()
    }

    /// Removes every document.
    pub fn clear(&mut self)
        ensures
            final(self)@ == Seq::<DocModel>::empty(),
    {
        self.index.clear();
    }
}

impl Default for SearchEngine {
    fn default() -> (r: Self)
        ensures
            r@ == Seq::<DocModel>::empty(),
    {
        SearchEngine::new()
    }
}

} // verus!
