//! Documents, the index that holds them, and how one document answers an
//! atomic query: by keyword, prefix, phrase, time, code structure,
//! dependency or architecture.
use vstd::prelude::*;
use crate::language::{lower_text, to_lowercase};
use crate::observation::{meta_texts, ProcessedObservation};
use crate::processors::pdf::{lossy_text, utf8_lossy};
use crate::search::patterns::{ArchQuery, DependencyQuery, StructPattern};
use crate::temporal::diff::attr_value;
use crate::temporal::graph::{copy_pairs, pairs_of, Attr};
use crate::temporal::interval::Timestamp;
use crate::text::{chars_of, contains, find, find_str, join, lemma_find_bounds, same_text, string_of, texts};

verus! {

/// A document in the search index.
#[derive(Debug)]
pub struct Document {
    pub id: String,
    pub title: String,
    pub body: String,
    pub kind: String,
    pub source: String,
    pub timestamp: Option<Timestamp>,
    /// Metadata entries in insertion order; a lookup finds the first entry
    /// with its key.
    pub metadata: Vec<(String, String)>,
}

/// The abstract value of a [`Document`].
pub struct DocModel {
    pub id: Seq<char>,
    pub title: Seq<char>,
    pub body: Seq<char>,
    pub kind: Seq<char>,
    pub source: Seq<char>,
    pub timestamp: Option<Timestamp>,
    pub metadata: Seq<Attr>,
}

impl View for Document {
    type V = DocModel;

    open spec fn view(&self) -> DocModel {
        DocModel {
            id: self.id@,
            title: self.title@,
            body: self.body@,
            kind: self.kind@,
            source: self.source@,
            timestamp: self.timestamp,
            metadata: pairs_of(self.metadata@),
        }
    }
}

/// The models of a list of documents.
pub open spec fn doc_models(v: Seq<Document>) -> Seq<DocModel> {
    v.map_values(|d: Document| d@)
}

impl Document {
    /// A copy of the document.
    pub fn copy(&self) -> (r: Document)
        ensures
            r@ == self@,
    {
        Document {
            id: self.id.clone(),
            title: self.title.clone(),
            body: self.body.clone(),
            kind: self.kind.clone(),
            source: self.source.clone(),
            timestamp: self.timestamp,
            metadata: copy_pairs(&self.metadata),
        }
    }
}

/// A document built from text fields, with no timestamp and no metadata.
pub fn document_from_text(id: &str, title: &str, body: &str, kind: &str, source: &str) -> (r: Document)
    ensures
        r@ == (DocModel {
            id: id@,
            title: title@,
            body: body@,
            kind: kind@,
            source: source@,
            timestamp: None,
            metadata: seq![],
        }),
{
    let r = Document {
        id: string_of(chars_of(id).as_slice()),
        title: string_of(chars_of(title).as_slice()),
        body: string_of(chars_of(body).as_slice()),
        kind: string_of(chars_of(kind).as_slice()),
        source: string_of(chars_of(source).as_slice()),
        timestamp: None,
        metadata: Vec::new(),
    };
    assert(pairs_of(r.metadata@) =~= Seq::<Attr>::empty());
    r
}

/// The document for an observation: titled and kinded by its kind, its
/// data read as text (invalid UTF-8 replaced), its content type as source,
/// and its metadata.
pub fn document_from_observation(obs: &ProcessedObservation) -> (r: Document)
    ensures
        r@ == (DocModel {
            id: obs.id@,
            title: obs.kind@,
            body: lossy_text(obs.data@),
            kind: obs.kind@,
            source: obs.content_type@,
            timestamp: None,
            metadata: meta_texts(obs.metadata@),
        }),
{
    let md = copy_pairs(&obs.metadata);
    assert(pairs_of(md@) =~= meta_texts(obs.metadata@)) by {
        assert(pairs_of(obs.metadata@) =~= meta_texts(obs.metadata@));
    }
    Document {
        id: obs.id.clone(),
        title: obs.kind.clone(),
        body: utf8_lossy(obs.data.as_slice()),
        kind: obs.kind.clone(),
        source: obs.content_type.clone(),
        timestamp: None,
        metadata: md,
    }
}

/// The documents a search runs over, in the order they were added.
#[derive(Debug)]
pub struct SearchIndex {
    documents: Vec<Document>,
}

impl View for SearchIndex {
    type V = Seq<DocModel>;

    closed spec fn view(&self) -> Seq<DocModel> {
        doc_models(self.documents@)
    }
}

impl SearchIndex {
    /// An empty index.
    pub fn new() -> (r: Self)
        ensures
            r@ == Seq::<DocModel>::empty(),
    {
        let r = SearchIndex { documents: Vec::new() };
        assert(r@ =~= Seq::<DocModel>::empty());
        r
    }

    /// Adds a document.
    pub fn add_document(&mut self, doc: Document)
        ensures
            final(self)@ == old(self)@.push(doc@),
    {
        let ghost m = doc@;
        self.documents.push(doc);
        assert(self@ =~= old(self)@.push(m));
    }

    /// Copies of all documents, in order.
    pub fn all_documents(&self) -> (r: Vec<Document>)
        ensures
            doc_models(r@) == self@,
    {
        let mut r: Vec<Document> = Vec::new();
        let mut i: usize = 0;
        while i < self.documents.len()
            invariant
                i <= self.documents@.len(),
                doc_models(r@) == doc_models(self.documents@).subrange(0, i as int),
            decreases self.documents@.len() - i,
        {
            let ghost before = doc_models(r@);
            r.push(self.documents[i].copy());
            assert(doc_models(r@) =~= before.push(doc_models(self.documents@)[i as int]));
            i += 1;
            assert(doc_models(r@) =~= doc_models(self.documents@).subrange(0, i as int));
        }
        assert(doc_models(self.documents@).subrange(0, self.documents@.len() as int) =~= doc_models(self.documents@));
        r
    }

    /// The document at position `i`.
    pub fn get(&self, i: usize) -> (r: &Document)
        requires
            i < self@.len(),
        ensures
            r@ == self@[i as int],
    {
        &self.documents[i]
    }

    /// Number of documents.
    pub fn len(&self) -> (r: usize)
        ensures
            r == self@.len(),
    {
        self.documents.len()
    }

    /// Whether there is no document.
    pub fn is_empty(&self) -> (r: bool)
        ensures
            r == (self@.len() == 0),
    {
        self.documents.len() == 0
    }

    /// Removes every document.
    pub fn clear(&mut self)
        ensures
            final(self)@ == Seq::<DocModel>::empty(),
    {
        self.documents = Vec::new();
        assert(self@ =~= Seq::<DocModel>::empty());
    }
}

/// How often `p` occurs in `s`, counting matches left to right without
/// overlap (`str::matches(..).count()`); an empty pattern matches at every
/// character boundary.
pub open spec fn count_matches(s: Seq<char>, p: Seq<char>) -> nat
    decreases s.len(),
{
    if p.len() == 0 {
        s.len() + 1
    } else {
        match find(s, p) {
            Some(i) => if 0 <= i && i + p.len() <= s.len() {
                1 + count_matches(s.subrange(i + p.len(), s.len() as int), p)
            } else {
                0
            },
            None => 0,
        }
    }
}

/// A text of length `n` holds at most `n + 1` matches.
pub proof fn lemma_count_matches_bound(s: Seq<char>, p: Seq<char>)
    ensures
        count_matches(s, p) <= s.len() + 1,
    decreases s.len(),
{
    if p.len() > 0 {
        lemma_find_bounds(s, p);
        match find(s, p) {
            Some(i) => if 0 <= i && i + p.len() <= s.len() {
                lemma_count_matches_bound(s.subrange(i + p.len(), s.len() as int), p);
            },
            None => {},
        }
    }
}

/// How often `p` occurs in `s`, without overlap.
pub fn count_matches_exec(s: &[char], p: &[char]) -> (r: u128)
    ensures
        r == count_matches(s@, p@),
        r <= s@.len() + 1,
{
    proof {
        lemma_count_matches_bound(s@, p@);
    }
    if p.len() == 0 {
        return s.len() as u128 + 1;
    }
    let mut n: u128 = 0;
    let mut pos: usize = 0;
    let ps = string_of(p);
    assert(ps@ == p@);
    assert(s@.subrange(0, s@.len() as int) =~= s@);
    while pos <= s.len()
        invariant
            pos <= s@.len(),
            p@.len() > 0,
            ps@ == p@,
            n <= pos,
            n + count_matches(s@.subrange(pos as int, s@.len() as int), p@) == count_matches(s@, p@),
        decreases s@.len() - pos,
    {
        let rest = &s[pos..s.len()];
        assert(rest@ =~= s@.subrange(pos as int, s@.len() as int));
        proof {
            lemma_find_bounds(rest@, p@);
        }
        match find_str(rest, ps.as_str()) {
            Some(i) => {
                assert(rest@.subrange(i + p@.len(), rest@.len() as int) =~= s@.subrange(pos + i + p@.len(), s@.len() as int));
                n = n + 1;
                pos = pos + i + p.len();
            },
            None => {
                return n;
            },
        }
    }
    n
}

/// The value of a string of ASCII digits.
pub open spec fn digits_number(s: Seq<char>) -> nat
    decreases s.len(),
{
    if s.len() == 0 {
        0
    } else {
        digits_number(s.drop_last()) * 10 + (s.last() as nat - '0' as nat) as nat
    }
}

/// Whether every character is an ASCII digit.
pub open spec fn all_digits(s: Seq<char>) -> bool {
    forall|i: int| 0 <= i < s.len() ==> '0' <= #[trigger] s[i] && s[i] <= '9'
}

/// What `str::parse::<usize>` gives: an optional `+`, then one or more
/// digits, whose value fits in `usize`.
pub open spec fn parse_usize(s: Seq<char>) -> Option<nat> {
    let body = if s.len() > 0 && s[0] == '+' { s.drop_first() } else { s };
    if body.len() > 0 && all_digits(body) && digits_number(body) <= usize::MAX {
        Some(digits_number(body))
    } else {
        None
    }
}

proof fn lemma_digits_grow(s: Seq<char>, k: int, m: int)
    requires
        0 <= k <= m <= s.len(),
        all_digits(s),
    ensures
        digits_number(s.subrange(0, k)) <= digits_number(s.subrange(0, m)),
    decreases m - k,
{
    if k < m {
        lemma_digits_grow(s, k, m - 1);
        assert(s.subrange(0, m).drop_last() =~= s.subrange(0, m - 1));
    }
}

/// Reads a `usize` as `str::parse` does.
pub fn parse_usize_exec(s: &str) -> (r: Option<usize>)
    ensures
        match parse_usize(s@) {
            Some(v) => r == Some(v as usize),
            None => r is None,
        },
{
    let c = chars_of(s);
    let start: usize = if c.len() > 0 && c[0] == '+' { 1 } else { 0 };
    let ghost body = if s@.len() > 0 && s@[0] == '+' { s@.drop_first() } else { s@ };
    assert(body =~= c@.subrange(start as int, c@.len() as int));
    if start >= c.len() {
        return None;
    }
    let mut v: usize = 0;
    let mut i: usize = start;
    assert(body.subrange(0, 0) =~= Seq::<char>::empty());
    while i < c.len()
        invariant
            start <= i <= c@.len(),
            c@ == s@,
            body =~= c@.subrange(start as int, c@.len() as int),
            body == (if s@.len() > 0 && s@[0] == '+' { s@.drop_first() } else { s@ }),
            body.len() > 0,
            forall|j: int| 0 <= j < i - start ==> '0' <= #[trigger] body[j] && body[j] <= '9',
            v == digits_number(body.subrange(0, i - start)),
        decreases c@.len() - i,
    {
        let ch = c[i];
        assert(body[i - start] == ch);
        if !('0' <= ch && ch <= '9') {
            assert(!all_digits(body));
            return None;
        }
        let d = ((ch as u32) - ('0' as u32)) as usize;
        let ghost pre = body.subrange(0, i - start);
        assert(body.subrange(0, i - start + 1).drop_last() =~= pre);
        assert(body.subrange(0, i - start + 1).last() == ch);
        if v > (usize::MAX - d) / 10 {
            proof {
                assert(d == ch as nat - '0' as nat);
                assert(digits_number(body.subrange(0, i - start + 1)) == v * 10 + d);
                assert(v * 10 + d > usize::MAX) by (nonlinear_arith)
                    requires
                        v > (usize::MAX - d) / 10,
                        d <= 9,
                ;
                if all_digits(body) {
                    lemma_digits_grow(body, i - start + 1, body.len() as int);
                    assert(body.subrange(0, body.len() as int) =~= body);
                }
            }
            return None;
        }
        assert(v * 10 + d <= usize::MAX) by (nonlinear_arith)
            requires
                v <= (usize::MAX - d) / 10,
                d <= 9,
        ;
        assert(d == ch as nat - '0' as nat);
        v = v * 10 + d;
        i += 1;
    }
    assert(body.subrange(0, body.len() as int) =~= body);
    Some(v)
}

/// The value of metadata key `k`.
pub open spec fn meta_get(d: DocModel, k: Seq<char>) -> Option<Seq<char>> {
    attr_value(d.metadata, k)
}

/// The value of metadata key `k` of a document.
pub fn meta_lookup<'a>(d: &'a Document, k: &str) -> (r: Option<&'a String>)
    ensures
        match meta_get(d@, k@) {
            Some(v) => r matches Some(x) && x@ == v,
            None => r is None,
        },
{
    let ghost a = pairs_of(d.metadata@);
    let mut i: usize = 0;
    assert(a.subrange(0, a.len() as int) =~= a);
    while i < d.metadata.len()
        invariant
            i <= d.metadata@.len(),
            a == pairs_of(d.metadata@),
            attr_value(a.subrange(i as int, a.len() as int), k@) == attr_value(a, k@),
        decreases d.metadata@.len() - i,
    {
        let ghost rest = a.subrange(i as int, a.len() as int);
        assert(rest.drop_first() =~= a.subrange(i + 1, a.len() as int));
        assert(rest[0] == a[i as int]);
        if same_text(d.metadata[i].0.as_str(), k) {
            return Some(&d.metadata[i].1);
        }
        i += 1;
    }
    None
}

/// Whether metadata key `k` holds exactly `v`.
pub open spec fn meta_is(d: DocModel, k: Seq<char>, v: Seq<char>) -> bool {
    meta_get(d, k) == Some(v)
}

/// Whether metadata key `k` holds exactly `v`.
pub fn meta_equals(d: &Document, k: &str, v: &str) -> (r: bool)
    ensures
        r == meta_is(d@, k@, v@),
{
    match meta_lookup(d, k) {
        Some(x) => same_text(x.as_str(), v),
        None => false,
    }
}

/// Whether the text `s` contains `p`.
pub fn has(s: &str, p: &str) -> (r: bool)
    ensures
        r == contains(s@, p@),
{
    let c = chars_of(s);
    find_str(c.as_slice(), p).is_some()
}

/// Whether a document's body shows the code structure a pattern names.
pub open spec fn structural_match(d: DocModel, p: StructPattern) -> bool {
    let bl = lower_text(d.body);
    match p {
        StructPattern::Function { name } => {
            let has_fn = contains(bl, "fn "@) || contains(bl, "function "@) || contains(bl, "def "@) || contains(bl, "func "@);
            match name {
                Some(n) => has_fn && contains(bl, lower_text(n@)),
                None => has_fn,
            }
        },
        StructPattern::Class { name } => {
            let has_class = contains(bl, "class "@) || contains(bl, "struct "@);
            match name {
                Some(n) => has_class && contains(bl, lower_text(n@)),
                None => has_class,
            }
        },
        StructPattern::Interface { name } => {
            let has_iface = contains(bl, "interface "@) || contains(bl, "trait "@) || contains(bl, "protocol "@);
            match name {
                Some(n) => has_iface && contains(bl, lower_text(n@)),
                None => has_iface,
            }
        },
        StructPattern::Symbol { kind, name } => {
            let kind_match = match meta_get(d, "symbol_kind"@) {
                Some(k) => k == kind@,
                None => contains(bl, kind@),
            };
            match name {
                Some(n) => kind_match && contains(bl, lower_text(n@)),
                None => kind_match,
            }
        },
        StructPattern::Call { name } => match name {
            Some(n) => contains(bl, n@ + "("@),
            None => true,
        },
        StructPattern::Import { source } => {
            let has_import = contains(bl, "import "@) || contains(bl, "use "@) || contains(bl, "#include"@) || contains(bl, "require("@);
            match source {
                Some(s) => has_import && contains(bl, lower_text(s@)),
                None => has_import,
            }
        },
    }
}

/// Whether the ecosystem filter, where there is one, is part of the
/// document's source.
pub open spec fn ecosystem_ok(d: DocModel, e: Option<String>) -> bool {
    match e {
        Some(x) => contains(d.source, x@),
        None => true,
    }
}

/// A metadata number, or `usize::MAX` where it is absent or unreadable.
pub open spec fn meta_number_or_max(d: DocModel, k: Seq<char>) -> nat {
    match meta_get(d, k) {
        Some(v) => match parse_usize(v) {
            Some(n) => n,
            None => usize::MAX as nat,
        },
        None => usize::MAX as nat,
    }
}

/// Whether a document answers a dependency query.
pub open spec fn dependency_match(d: DocModel, q: DependencyQuery) -> bool {
    match q {
        DependencyQuery::Dependents { name, ecosystem } => meta_is(d, "depends_on"@, name@) && ecosystem_ok(d, ecosystem),
        DependencyQuery::Dependencies { name, ecosystem } => meta_is(d, "package_name"@, name@) && ecosystem_ok(d, ecosystem),
        DependencyQuery::Transitive { name, ecosystem, max_depth } => {
            let name_match = match meta_get(d, "dep_chain"@) {
                Some(c) => contains(c, name@),
                None => false,
            };
            name_match && ecosystem_ok(d, ecosystem) && meta_number_or_max(d, "dep_depth"@) <= max_depth
        },
        DependencyQuery::Ecosystem(e) => contains(d.source, e@),
    }
}

/// Whether a document answers an architecture query.
pub open spec fn architecture_match(d: DocModel, q: ArchQuery) -> bool {
    match q {
        ArchQuery::Module { path } => contains(d.source, path@) || contains(d.title, path@),
        ArchQuery::Package { name } => meta_is(d, "package"@, name@) || d.title == name@,
        ArchQuery::Workspace { name } => meta_is(d, "workspace"@, name@) || contains(d.source, name@),
        ArchQuery::Directory { path } => contains(d.source, path@),
    }
}

/// Whether the body (lower-cased) shows the structure the pattern names.
pub fn structural_match_exec(d: &Document, p: &StructPattern) -> (r: bool)
    ensures
        r == structural_match(d@, *p),
{
    let bl = to_lowercase(d.body.as_str());
    let b = bl.as_str();
    match p {
        StructPattern::Function { name } => {
            let has_fn = has(b, "fn ") || has(b, "function ") || has(b, "def ") || has(b, "func ");
            match name {
                Some(n) => has_fn && has(b, to_lowercase(n.as_str()).as_str()),
                None => has_fn,
            }
        },
        StructPattern::Class { name } => {
            let has_class = has(b, "class ") || has(b, "struct ");
            match name {
                Some(n) => has_class && has(b, to_lowercase(n.as_str()).as_str()),
                None => has_class,
            }
        },
        StructPattern::Interface { name } => {
            let has_iface = has(b, "interface ") || has(b, "trait ") || has(b, "protocol ");
            match name {
                Some(n) => has_iface && has(b, to_lowercase(n.as_str()).as_str()),
                None => has_iface,
            }
        },
        StructPattern::Symbol { kind, name } => {
            let kind_match = match meta_lookup(d, "symbol_kind") {
                Some(k) => same_text(k.as_str(), kind.as_str()),
                None => has(b, kind.as_str()),
            };
            match name {
                Some(n) => kind_match && has(b, to_lowercase(n.as_str()).as_str()),
                None => kind_match,
            }
        },
        StructPattern::Call { name } => match name {
            Some(n) => {
                let mut call = n.clone();
                crate::text::append_chars(&mut call, chars_of("(").as_slice());
                has(b, call.as_str())
            },
            None => true,
        },
        StructPattern::Import { source } => {
            let has_import = has(b, "import ") || has(b, "use ") || has(b, "#include") || has(b, "require(");
            match source {
                Some(s) => has_import && has(b, to_lowercase(s.as_str()).as_str()),
                None => has_import,
            }
        },
    }
}

/// Whether the ecosystem filter is part of the source.
fn ecosystem_ok_exec(d: &Document, e: &Option<String>) -> (r: bool)
    ensures
        r == ecosystem_ok(d@, *e),
{
    match e {
        Some(x) => has(d.source.as_str(), x.as_str()),
        None => true,
    }
}

/// A metadata number, or `usize::MAX`.
fn meta_number_or_max_exec(d: &Document, k: &str) -> (r: usize)
    ensures
        r == meta_number_or_max(d@, k@),
{
    match meta_lookup(d, k) {
        Some(v) => match parse_usize_exec(v.as_str()) {
            Some(n) => n,
            None => usize::MAX,
        },
        None => usize::MAX,
    }
}

/// Which documents answer a dependency query, read off their metadata:
/// the dependencies of a package are the document whose `package_name` is
/// it; its dependents are the documents whose `depends_on` is it; a
/// transitive query looks in `dep_chain` and bounds `dep_depth`; an
/// ecosystem query reads the source. A named ecosystem must occur in the
/// document's source.
pub proof fn lemma_dependency_answers(d: DocModel, q: DependencyQuery)
    ensures
        q matches DependencyQuery::Dependencies { name, ecosystem } ==> (dependency_match(d, q) <==> (attr_value(
            d.metadata,
            "package_name"@,
        ) == Some(name@) && (ecosystem matches Some(e) ==> contains(d.source, e@)))),
        q matches DependencyQuery::Dependents { name, ecosystem } ==> (dependency_match(d, q) <==> (attr_value(
            d.metadata,
            "depends_on"@,
        ) == Some(name@) && (ecosystem matches Some(e) ==> contains(d.source, e@)))),
        q matches DependencyQuery::Transitive { name, ecosystem, .. } ==> (dependency_match(d, q) ==> (attr_value(
            d.metadata,
            "dep_chain"@,
        ) matches Some(c) && contains(c, name@) && (ecosystem matches Some(e) ==> contains(d.source, e@)))),
        q matches DependencyQuery::Ecosystem(e) ==> (dependency_match(d, q) <==> contains(d.source, e@)),
{
}

/// Whether a document answers a dependency query.
pub fn dependency_match_exec(d: &Document, q: &DependencyQuery) -> (r: bool)
    ensures
        r == dependency_match(d@, *q),
{
    proof {
        reveal_strlit("depends_on");
        reveal_strlit("package_name");
        reveal_strlit("dep_chain");
        reveal_strlit("dep_depth");
    }
    match q {
        DependencyQuery::Dependents { name, ecosystem } => meta_equals(d, "depends_on", name.as_str()) && ecosystem_ok_exec(d, ecosystem),
        DependencyQuery::Dependencies { name, ecosystem } => meta_equals(d, "package_name", name.as_str()) && ecosystem_ok_exec(
            d,
            ecosystem,
        ),
        DependencyQuery::Transitive { name, ecosystem, max_depth } => {
            let name_match = match meta_lookup(d, "dep_chain") {
                Some(c) => has(c.as_str(), name.as_str()),
                None => false,
            };
            name_match && ecosystem_ok_exec(d, ecosystem) && meta_number_or_max_exec(d, "dep_depth") <= *max_depth
        },
        DependencyQuery::Ecosystem(e) => has(d.source.as_str(), e.as_str()),
    }
}

/// Whether a document answers an architecture query.
pub fn architecture_match_exec(d: &Document, q: &ArchQuery) -> (r: bool)
    ensures
        r == architecture_match(d@, *q),
{
    match q {
        ArchQuery::Module { path } => has(d.source.as_str(), path.as_str()) || has(d.title.as_str(), path.as_str()),
        ArchQuery::Package { name } => meta_equals(d, "package", name.as_str()) || same_text(d.title.as_str(), name.as_str()),
        ArchQuery::Workspace { name } => meta_equals(d, "workspace", name.as_str()) || has(d.source.as_str(), name.as_str()),
        ArchQuery::Directory { path } => has(d.source.as_str(), path.as_str()),
    }
}

/// The lower-cased phrase of the words, joined by single spaces.
pub open spec fn phrase_of(words: Seq<Seq<char>>) -> Seq<char> {
    lower_text(join(words, " "@))
}

/// The words joined by single spaces, lower-cased.
pub fn phrase_exec(words: &Vec<String>) -> (r: String)
    ensures
        r@ == phrase_of(texts(words@)),
{
    let mut s = String::new();
    let mut i: usize = 0;
    proof {
        reveal_strlit(" ");
    }
    assert(texts(words@).subrange(0, 0) =~= Seq::<Seq<char>>::empty());
    while i < words.len()
        invariant
            i <= words@.len(),
            s@ == join(texts(words@).subrange(0, i as int), " "@),
        decreases words@.len() - i,
    {
        let ghost pre = texts(words@).subrange(0, i as int);
        assert(texts(words@).subrange(0, i + 1).drop_last() =~= pre);
        assert(texts(words@).subrange(0, i + 1).last() == words@[i as int]@);
        if i > 0 {
            crate::text::append_chars(&mut s, chars_of(" ").as_slice());
        }
        crate::text::append_chars(&mut s, chars_of(words[i].as_str()).as_slice());
        i += 1;
    }
    assert(texts(words@).subrange(0, words@.len() as int) =~= texts(words@));
    to_lowercase(s.as_str())
}

} // verus!
