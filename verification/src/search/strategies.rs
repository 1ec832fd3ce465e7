//! Scoring helpers that the search strategies share.
use vstd::prelude::*;
use crate::language::{lower_text, to_lowercase};
use crate::search::documents::{count_matches, count_matches_exec, DocModel, Document};
use crate::search::engine::{atomic_hit, QueryExpr};
use crate::text::{chars_of, same_text, string_of, texts, words, words_exec};

verus! {

/// Term frequency of a keyword in a document, case-insensitively: title
/// matches count three times, body matches once.
pub open spec fn keyword_tf(d: DocModel, term: Seq<char>) -> nat {
    let tl = lower_text(term);
    count_matches(lower_text(d.title), tl) * 3 + count_matches(lower_text(d.body), tl)
}

/// Scores a document for a keyword; a keyword query finds exactly the
/// documents with a positive score, and scores them so.
pub fn keyword_score(doc: &Document, term: &str) -> (r: u128)
    ensures
        r == keyword_tf(doc@, term@),
        forall|s: String|
            (#[trigger] s@) == term@ ==> match atomic_hit(doc@, QueryExpr::Keyword(s)) {
                Some(h) => h.0 == r && r > 0,
                None => r == 0,
            },
{
    let tl = chars_of(to_lowercase(term).as_str());
    let bl = chars_of(to_lowercase(doc.body.as_str()).as_str());
    let til = chars_of(to_lowercase(doc.title.as_str()).as_str());
    let nb = bl.len();
    let nt = til.len();
    let body_count = count_matches_exec(bl.as_slice(), tl.as_slice());
    let title_count = count_matches_exec(til.as_slice(), tl.as_slice());
    title_count * 3 + body_count
}

/// A word with its weight.
pub type Weighted = (Seq<char>, nat);

/// The texts and weights of a weight list.
pub open spec fn weight_texts(v: Seq<(String, u128)>) -> Seq<Weighted> {
    v.map_values(|e: (String, u128)| (e.0@, e.1 as nat))
}

/// Index of the entry for `word`.
pub open spec fn word_index(t: Seq<Weighted>, word: Seq<char>) -> Option<int>
    decreases t.len(),
{
    if t.len() == 0 {
        None
    } else {
        match word_index(t.drop_last(), word) {
            Some(i) => Some(i),
            None => if t.last().0 == word {
                Some(t.len() - 1)
            } else {
                None
            },
        }
    }
}

/// The tally with `w` added to the weight of `word` (a new word comes last).
pub open spec fn add_weight(t: Seq<Weighted>, word: Seq<char>, w: nat) -> Seq<Weighted> {
    match word_index(t, word) {
        Some(i) => t.update(i, (word, t[i].1 + w)),
        None => t.push((word, w)),
    }
}

/// The tally with `w` added for each of the words.
pub open spec fn weigh(t: Seq<Weighted>, ws: Seq<Seq<char>>, w: nat) -> Seq<Weighted>
    decreases ws.len(),
{
    if ws.len() == 0 {
        t
    } else {
        add_weight(weigh(t, ws.drop_last(), w), ws.last(), w)
    }
}

/// A document's word weights: each whitespace-separated word of the
/// lower-cased body counts once, each of the lower-cased title three
/// times; words in order of first appearance.
pub open spec fn word_weights(d: DocModel) -> Seq<Weighted> {
    weigh(weigh(seq![], words(lower_text(d.body)), 1), words(lower_text(d.title)), 3)
}

/// `t` with `e` placed after every entry weighing at least as much.
pub open spec fn insert_weighted(t: Seq<Weighted>, e: Weighted) -> Seq<Weighted>
    decreases t.len(),
{
    if t.len() == 0 {
        seq![e]
    } else if t[0].1 < e.1 {
        seq![e] + t
    } else {
        seq![t[0]] + insert_weighted(t.drop_first(), e)
    }
}

/// The entries by weight, heaviest first; equal weights keep their order.
pub open spec fn by_weight(t: Seq<Weighted>) -> Seq<Weighted>
    decreases t.len(),
{
    if t.len() == 0 {
        seq![]
    } else {
        insert_weighted(by_weight(t.drop_last()), t.last())
    }
}

/// One document's word frequencies, heaviest first.
pub open spec fn doc_frequencies(d: DocModel) -> Seq<Weighted> {
    by_weight(word_weights(d))
}

/// A frequency table: one entry per document id.
pub type FrequencyTable = Seq<(Seq<char>, Seq<Weighted>)>;

/// Index of the entry for `id`.
pub open spec fn table_index(t: FrequencyTable, id: Seq<char>) -> Option<int>
    decreases t.len(),
{
    if t.len() == 0 {
        None
    } else {
        match table_index(t.drop_last(), id) {
            Some(i) => Some(i),
            None => if t.last().0 == id {
                Some(t.len() - 1)
            } else {
                None
            },
        }
    }
}

/// The frequencies of the first `n` documents, keyed by id: a document
/// whose id is already present replaces that entry's frequencies.
pub open spec fn frequency_table(docs: Seq<DocModel>, n: int) -> FrequencyTable
    decreases n,
{
    if n <= 0 {
        seq![]
    } else {
        let t = frequency_table(docs, n - 1);
        let d = docs[n - 1];
        match table_index(t, d.id) {
            Some(i) => t.update(i, (d.id, doc_frequencies(d))),
            None => t.push((d.id, doc_frequencies(d))),
        }
    }
}

proof fn lemma_word_index(t: Seq<Weighted>, word: Seq<char>)
    ensures
        word_index(t, word) matches Some(i) ==> 0 <= i < t.len() && t[i].0 == word,
        word_index(t, word) is None ==> forall|j: int| 0 <= j < t.len() ==> t[j].0 != word,
    decreases t.len(),
{
    if t.len() > 0 {
        lemma_word_index(t.drop_last(), word);
        assert forall|j: int| 0 <= j < t.len() - 1 implies t[j] == t.drop_last()[j] by {}
    }
}

/// Index of the entry for `word`.
fn word_position(t: &Vec<(String, u128)>, word: &str) -> (r: Option<usize>)
    ensures
        match r {
            Some(i) => word_index(weight_texts(t@), word@) == Some(i as int),
            None => word_index(weight_texts(t@), word@) is None,
        },
{
    let ghost m = weight_texts(t@);
    let mut i: usize = 0;
    let mut found: Option<usize> = None;
    while i < t.len()
        invariant
            i <= t@.len(),
            m == weight_texts(t@),
            found is None ==> word_index(m.subrange(0, i as int), word@) is None,
            found matches Some(k) ==> word_index(m.subrange(0, i as int), word@) == Some(k as int),
        decreases t@.len() - i,
    {
        assert(m.subrange(0, i + 1).drop_last() =~= m.subrange(0, i as int));
        if found.is_none() && same_text(t[i].0.as_str(), word) {
            found = Some(i);
        }
        i += 1;
    }
    assert(m.subrange(0, t@.len() as int) =~= m);
    found
}

/// Adds `w` to the weight of `word`.
fn add_weight_exec(t: &mut Vec<(String, u128)>, word: &String, w: u128, cap: Ghost<nat>)
    requires
        forall|k: int| 0 <= k < old(t)@.len() ==> (#[trigger] old(t)@[k]).1 <= cap@,
        cap@ + w <= u128::MAX,
    ensures
        weight_texts(final(t)@) == add_weight(weight_texts(old(t)@), word@, w as nat),
        forall|k: int| 0 <= k < final(t)@.len() ==> (#[trigger] final(t)@[k]).1 <= cap@ + w,
{
    let ghost m = weight_texts(t@);
    proof {
        lemma_word_index(m, word@);
    }
    match word_position(t, word.as_str()) {
        Some(i) => {
            assert(t@[i as int].1 <= cap@);
            let nw = t[i].1 + w;
            let x = (string_of(chars_of(word.as_str()).as_slice()), nw);
            t.set(i, x);
            assert(weight_texts(t@) =~= m.update(i as int, (word@, (m[i as int].1 + w) as nat)));
        },
        None => {
            let x = (string_of(chars_of(word.as_str()).as_slice()), w);
            t.push(x);
            assert(weight_texts(t@) =~= m.push((word@, w as nat)));
        },
    }
}

/// Adds `w` for each of the words.
fn weigh_exec(t: &mut Vec<(String, u128)>, ws: &Vec<String>, w: u128, cap: Ghost<nat>)
    requires
        forall|k: int| 0 <= k < old(t)@.len() ==> (#[trigger] old(t)@[k]).1 <= cap@,
        cap@ + w * ws@.len() <= u128::MAX,
    ensures
        weight_texts(final(t)@) == weigh(weight_texts(old(t)@), texts(ws@), w as nat),
        forall|k: int| 0 <= k < final(t)@.len() ==> (#[trigger] final(t)@[k]).1 <= cap@ + w * ws@.len(),
{
    let ghost t0 = weight_texts(t@);
    let mut i: usize = 0;
    assert(texts(ws@).subrange(0, 0) =~= Seq::<Seq<char>>::empty());
    while i < ws.len()
        invariant
            i <= ws@.len(),
            weight_texts(t@) == weigh(t0, texts(ws@).subrange(0, i as int), w as nat),
            forall|k: int| 0 <= k < t@.len() ==> (#[trigger] t@[k]).1 <= cap@ + w * i,
            cap@ + w * ws@.len() <= u128::MAX,
        decreases ws@.len() - i,
    {
        assert(texts(ws@).subrange(0, i + 1).drop_last() =~= texts(ws@).subrange(0, i as int));
        assert(texts(ws@).subrange(0, i + 1).last() == ws@[i as int]@);
        assert(w * i + w == w * (i + 1)) by (nonlinear_arith);
        assert(w * (i + 1) <= w * ws@.len()) by (nonlinear_arith)
            requires
                i + 1 <= ws@.len(),
        ;
        add_weight_exec(t, &ws[i], w, Ghost((cap@ + w * i) as nat));
        i += 1;
    }
    assert(texts(ws@).subrange(0, ws@.len() as int) =~= texts(ws@));
}

/// The entries sorted by weight, heaviest first, stably.
fn sort_by_weight(v: &Vec<(String, u128)>) -> (r: Vec<(String, u128)>)
    ensures
        weight_texts(r@) == by_weight(weight_texts(v@)),
{
    let ghost vm = weight_texts(v@);
    let mut r: Vec<(String, u128)> = Vec::new();
    let mut i: usize = 0;
    assert(vm.subrange(0, 0) =~= Seq::<Weighted>::empty());
    while i < v.len()
        invariant
            i <= v@.len(),
            vm == weight_texts(v@),
            weight_texts(r@) == by_weight(vm.subrange(0, i as int)),
        decreases v@.len() - i,
    {
        let e = (string_of(chars_of(v[i].0.as_str()).as_slice()), v[i].1);
        let ghost em = (e.0@, e.1 as nat);
        let ghost q = weight_texts(r@);
        let mut j: usize = 0;
        while j < r.len() && r[j].1 >= e.1
            invariant
                j <= r@.len(),
                q == weight_texts(r@),
                forall|k: int| 0 <= k < j ==> (#[trigger] q[k]).1 >= em.1,
                em == (e.0@, e.1 as nat),
            decreases r@.len() - j,
        {
            j += 1;
        }
        proof {
            lemma_insert_weighted_at(q, em, j as int);
        }
        r.insert(j, e);
        assert(weight_texts(r@) =~= q.subrange(0, j as int) + seq![em] + q.subrange(j as int, q.len() as int));
        assert(vm.subrange(0, i + 1).drop_last() =~= vm.subrange(0, i as int));
        assert(vm.subrange(0, i + 1).last() == em);
        i += 1;
    }
    assert(vm.subrange(0, v@.len() as int) =~= vm);
    r
}

proof fn lemma_insert_weighted_at(q: Seq<Weighted>, e: Weighted, j: int)
    requires
        0 <= j <= q.len(),
        forall|k: int| 0 <= k < j ==> (#[trigger] q[k]).1 >= e.1,
        j < q.len() ==> q[j].1 < e.1,
    ensures
        insert_weighted(q, e) == q.subrange(0, j) + seq![e] + q.subrange(j, q.len() as int),
    decreases j,
{
    if j == 0 {
        assert(q.subrange(0, 0) + seq![e] + q.subrange(0, q.len() as int) =~= seq![e] + q);
    } else {
        let t = q.drop_first();
        assert forall|k: int| 0 <= k < j - 1 implies (#[trigger] t[k]).1 >= e.1 by {
            assert(t[k] == q[k + 1]);
        }
        lemma_insert_weighted_at(t, e, j - 1);
        assert(q.subrange(0, j) + seq![e] + q.subrange(j, q.len() as int) =~= seq![q[0]] + (t.subrange(0, j - 1)
            + seq![e] + t.subrange(j - 1, t.len() as int)));
    }
}

/// One document's word frequencies, heaviest first.
fn doc_frequencies_exec(doc: &Document) -> (r: Vec<(String, u128)>)
    ensures
        weight_texts(r@) == doc_frequencies(doc@),
{
    let body = chars_of(to_lowercase(doc.body.as_str()).as_str());
    let title = chars_of(to_lowercase(doc.title.as_str()).as_str());
    let bw = words_exec(body.as_slice());
    let tw = words_exec(title.as_slice());
    let nb = bw.len();
    let nt = tw.len();
    let mut t: Vec<(String, u128)> = Vec::new();
    assert(weight_texts(t@) =~= Seq::<Weighted>::empty());
    weigh_exec(&mut t, &bw, 1, Ghost(0));
    weigh_exec(&mut t, &tw, 3, Ghost(nb as nat));
    sort_by_weight(&t)
}

/// The per-document frequency model of a table.
pub open spec fn table_model(v: Seq<(String, Vec<(String, u128)>)>) -> FrequencyTable {
    v.map_values(|e: (String, Vec<(String, u128)>)| (e.0@, weight_texts(e.1@)))
}

/// Each document's word frequencies, heaviest first, keyed by document id
/// (a later document with an id already present replaces its entry).
pub fn build_word_frequencies(docs: &[Document]) -> (r: Vec<(String, Vec<(String, u128)>)>)
    ensures
        table_model(r@) == frequency_table(docs@.map_values(|d: Document| d@), docs@.len() as int),
{
    let ghost dm = docs@.map_values(|d: Document| d@);
    let mut r: Vec<(String, Vec<(String, u128)>)> = Vec::new();
    let mut i: usize = 0;
    assert(table_model(r@) =~= Seq::<(Seq<char>, Seq<Weighted>)>::empty());
    while i < docs.len()
        invariant
            i <= docs@.len(),
            dm == docs@.map_values(|d: Document| d@),
            table_model(r@) == frequency_table(dm, i as int),
        decreases docs@.len() - i,
    {
        let ghost t = table_model(r@);
        assert(dm[i as int] == docs@[i as int]@);
        let f = doc_frequencies_exec(&docs[i]);
        let id = string_of(chars_of(docs[i].id.as_str()).as_slice());
        let mut pos: Option<usize> = None;
        let mut k: usize = 0;
        while k < r.len()
            invariant
                k <= r@.len(),
                t == table_model(r@),
                pos is None ==> table_index(t.subrange(0, k as int), id@) is None,
                pos matches Some(p) ==> table_index(t.subrange(0, k as int), id@) == Some(p as int) && p < r@.len(),
            decreases r@.len() - k,
        {
            assert(t.subrange(0, k + 1).drop_last() =~= t.subrange(0, k as int));
            if pos.is_none() && same_text(r[k].0.as_str(), id.as_str()) {
                pos = Some(k);
            }
            k += 1;
        }
        assert(t.subrange(0, r@.len() as int) =~= t);
        let ghost fm = weight_texts(f@);
        let ghost idm = id@;
        match pos {
            Some(p) => {
                r.set(p, (id, f));
                assert(table_model(r@) =~= t.update(p as int, (idm, fm)));
            },
            None => {
                r.push((id, f));
                assert(table_model(r@) =~= t.push((idm, fm)));
            },
        }
        i += 1;
    }
    r
}

} // verus!
