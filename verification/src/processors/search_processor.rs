//! The search engine as a processor: JSON documents are indexed, keyword
//! and algebra queries answered, and the index cleared or counted; the
//! `action` metadata entry picks the operation.
use vstd::prelude::*;
use crate::json::{
    as_text, get_member, json_member_object, json_read, member, read_json, text_of, to_json_member_object, JsonScalar,
    JsonValue,
};
use crate::observation::{decimal_text, meta_set, obs, with_meta, ProcessedObservation, ProcessorError};
use crate::search::documents::{parse_usize, parse_usize_exec, DocModel, Document};
use crate::search::engine::{eval, result_models, QueryExpr, QueryResult, SearchEngine};
use crate::temporal::graph::{pairs_of, Attr};
use crate::text::{append_chars, chars_of, decimal, decimal_string_u128, same_text, string_of};

verus! {

/// What a search request asks for.
#[derive(Debug, Clone, Copy, PartialEq, Eq, Structural)]
pub enum SearchAction {
    /// Index the JSON document of the data.
    Index,
    /// Run a query of the algebra (given as JSON data).
    Query,
    /// Run a keyword query (the `query` metadata entry).
    Search,
    /// Remove every document.
    Clear,
    /// Count the documents.
    Count,
}

/// The action an `action` entry names; `search` where there is none.
pub open spec fn action_named(action: Option<Seq<char>>) -> Option<SearchAction> {
    match action {
        None => Some(SearchAction::Search),
        Some(a) => if a == "index"@ {
            Some(SearchAction::Index)
        } else if a == "query"@ {
            Some(SearchAction::Query)
        } else if a == "search"@ {
            Some(SearchAction::Search)
        } else if a == "clear"@ {
            Some(SearchAction::Clear)
        } else if a == "count"@ {
            Some(SearchAction::Count)
        } else {
            None
        },
    }
}

/// Reads the `action` entry; an unknown name is an `InvalidInput` error
/// naming it.
pub fn search_action(action: Option<&str>) -> (r: Result<SearchAction, ProcessorError>)
    ensures
        match action_named(
            match action {
                Some(a) => Some(a@),
                None => None,
            },
        ) {
            Some(x) => r == Ok::<SearchAction, ProcessorError>(x),
            None => action matches Some(a) && r matches Err(ProcessorError::InvalidInput(m)) && m@
                == "unknown action: "@ + a@,
        },
{
    match action {
        None => Ok(SearchAction::Search),
        Some(a) => {
            if same_text(a, "index") {
                Ok(SearchAction::Index)
            } else if same_text(a, "query") {
                Ok(SearchAction::Query)
            } else if same_text(a, "search") {
                Ok(SearchAction::Search)
            } else if same_text(a, "clear") {
                Ok(SearchAction::Clear)
            } else if same_text(a, "count") {
                Ok(SearchAction::Count)
            } else {
                let mut m = string_of(chars_of("unknown action: ").as_slice());
                append_chars(&mut m, chars_of(a).as_slice());
                Err(ProcessorError::InvalidInput(m))
            }
        },
    }
}

/// The result limit a `max_results` entry gives: its number, or ten where
/// it is missing or no number.
pub open spec fn max_results_of(v: Option<Seq<char>>) -> nat {
    match v {
        Some(s) => match parse_usize(s) {
            Some(n) => n,
            None => 10,
        },
        None => 10,
    }
}

/// Reads the `max_results` entry.
pub fn max_results(v: Option<&str>) -> (r: usize)
    ensures
        r == max_results_of(
            match v {
                Some(s) => Some(s@),
                None => None,
            },
        ),
{
    match v {
        Some(s) => match parse_usize_exec(s) {
            Some(n) => n,
            None => 10,
        },
        None => 10,
    }
}

/// A text, or a default in its place.
pub open spec fn text_or(v: Option<Seq<char>>, d: Seq<char>) -> Seq<char> {
    match v {
        Some(s) => s,
        None => d,
    }
}

/// The text of member `k`, if it is a string.
pub open spec fn member_text(v: JsonValue, k: Seq<char>) -> Option<Seq<char>> {
    text_of(member(v, k))
}

/// The `metadata` member as entries: each string member as it is, any
/// other value as the empty text; none where it is not an object.
pub open spec fn json_meta(v: JsonValue) -> Seq<Attr> {
    match member(v, "metadata"@) {
        Some(JsonValue::Object(es)) => es@.map_values(
            |e: (String, JsonValue)| (e.0@, text_or(text_of(Some(e.1)), ""@)),
        ),
        _ => seq![],
    }
}

/// The document a JSON value describes. With a string `title` it is a
/// document (`id`, `title`, `body`, `kind`, `source`, `metadata`); without
/// one it is an observation (`id`, `kind`, `data`, `content_type`,
/// `metadata`) turned into a document. Missing texts take their defaults,
/// and a missing `id` the request's.
pub open spec fn json_document(id: Seq<char>, v: JsonValue) -> DocModel {
    let doc_id = text_or(member_text(v, "id"@), id);
    match member_text(v, "title"@) {
        Some(title) => DocModel {
            id: doc_id,
            title,
            body: text_or(member_text(v, "body"@), ""@),
            kind: text_or(member_text(v, "kind"@), "unknown"@),
            source: text_or(member_text(v, "source"@), ""@),
            timestamp: None,
            metadata: json_meta(v),
        },
        None => {
            let kind = text_or(member_text(v, "kind"@), "search.document"@);
            DocModel {
                id: doc_id,
                title: kind,
                body: text_or(member_text(v, "data"@), ""@),
                kind,
                source: text_or(member_text(v, "content_type"@), "text/plain"@),
                timestamp: None,
                metadata: json_meta(v),
            }
        },
    }
}

/// The text of member `k`, or `d`.
fn member_text_or(v: &JsonValue, k: &str, d: &str) -> (r: String)
    ensures
        r@ == text_or(member_text(*v, k@), d@),
{
    match as_text(get_member(v, k)) {
        Some(s) => string_of(chars_of(s).as_slice()),
        None => string_of(chars_of(d).as_slice()),
    }
}

/// The `metadata` member as entries.
fn json_meta_exec(v: &JsonValue) -> (r: Vec<(String, String)>)
    ensures
        pairs_of(r@) == json_meta(*v),
{
    let mut r: Vec<(String, String)> = Vec::new();
    match get_member(v, "metadata") {
        Some(JsonValue::Object(es)) => {
            let ghost want = es@.map_values(|e: (String, JsonValue)| (e.0@, text_or(text_of(Some(e.1)), ""@)));
            let mut i: usize = 0;
            while i < es.len()
                invariant
                    i <= es@.len(),
                    want == es@.map_values(|e: (String, JsonValue)| (e.0@, text_or(text_of(Some(e.1)), ""@))),
                    pairs_of(r@) == want.subrange(0, i as int),
                decreases es@.len() - i,
            {
                let ghost before = pairs_of(r@);
                let k = string_of(chars_of(es[i].0.as_str()).as_slice());
                let val = match as_text(Some(&es[i].1)) {
                    Some(s) => string_of(chars_of(s).as_slice()),
                    None => String::new(),
                };
                proof {
                    reveal_strlit("");
                }
                assert(val@ == text_or(text_of(Some(es@[i as int].1)), ""@));
                r.push((k, val));
                assert(pairs_of(r@) =~= before.push(want[i as int]));
                assert(want.subrange(0, i + 1) =~= want.subrange(0, i as int).push(want[i as int]));
                i += 1;
            }
            assert(want.subrange(0, es@.len() as int) =~= want);
            r
        },
        _ => {
            assert(pairs_of(r@) =~= Seq::<Attr>::empty());
            r
        },
    }
}

/// The document a JSON value describes.
pub fn document_from_json(id: &str, v: &JsonValue) -> (r: Document)
    ensures
        r@ == json_document(id@, *v),
{
    let doc_id = member_text_or(v, "id", id);
    let metadata = json_meta_exec(v);
    match as_text(get_member(v, "title")) {
        Some(title) => Document {
            id: doc_id,
            title: string_of(chars_of(title).as_slice()),
            body: member_text_or(v, "body", ""),
            kind: member_text_or(v, "kind", "unknown"),
            source: member_text_or(v, "source", ""),
            timestamp: None,
            metadata,
        },
        None => {
            let kind = member_text_or(v, "kind", "search.document");
            Document {
                id: doc_id,
                title: string_of(chars_of(kind.as_str()).as_slice()),
                body: member_text_or(v, "data", ""),
                kind,
                source: member_text_or(v, "content_type", "text/plain"),
                timestamp: None,
                metadata,
            }
        },
    }
}

/// The observation answering an index request.
/// The observation that reports how many documents the engine holds.
pub open spec fn count_obs(id: Seq<char>, n: nat) -> crate::observation::ObsModel {
    with_meta(
        obs(id, "search.count"@, json_member_object("count"@, JsonScalar::Unsigned(n as u64)), "application/x-search+result"@),
        "count"@,
        decimal(n),
    )
}

pub open spec fn indexed_obs(id: Seq<char>, count: nat) -> crate::observation::ObsModel {
    with_meta(
        obs(
            id,
            "search.indexed"@,
            json_member_object("indexed"@, JsonScalar::Bool(true)),
            "application/x-search+result"@,
        ),
        "document_count"@,
        decimal(count),
    )
}

/// The observation carrying the (serialised) results of a query.
pub open spec fn results_obs(
    id: Seq<char>,
    payload: Seq<u8>,
    total: nat,
    query: Option<Seq<char>>,
    took_ns: nat,
) -> crate::observation::ObsModel {
    let o = with_meta(
        obs(id, "search.results"@, payload, "application/x-search+results"@),
        "total"@,
        decimal(total),
    );
    let o = match query {
        Some(q) => with_meta(o, "query"@, q),
        None => o,
    };
    with_meta(o, "took_ns"@, decimal(took_ns))
}

/// The search engine behind the processor interface.
#[derive(Debug)]
pub struct SearchProcessor {
    engine: SearchEngine,
}

impl View for SearchProcessor {
    type V = Seq<DocModel>;

    /// The indexed documents.
    closed spec fn view(&self) -> Seq<DocModel> {
        self.engine@
    }
}

impl SearchProcessor {
    /// A processor with an empty index.
    pub fn new() -> (r: Self)
        ensures
            r@ == Seq::<DocModel>::empty(),
    {
        SearchProcessor { engine: SearchEngine::new() }
    }

    /// Processor name.
    pub fn name(&self) -> (r: &'static str)
        ensures
            r@ == "SearchProcessor"@,
    {
        "SearchProcessor"
    }

    /// Processor description.
    pub fn description(&self) -> (r: &'static str)
        ensures
            r@
                == "Intelligence Search Engine — indexes observations and supports keyword, phrase, prefix, semantic, temporal, structural, graph, dependency, architecture, and similarity queries via QueryExpr algebra"@,
    {
        "Intelligence Search Engine — indexes observations and supports keyword, phrase, prefix, semantic, temporal, structural, graph, dependency, architecture, and similarity queries via QueryExpr algebra"
    }

    /// Content types this processor accepts.
    pub fn content_types(&self) -> (r: Vec<&'static str>)
        ensures
            r@.map_values(|s: &'static str| s@) == seq!["application/x-search"@],
    {
        let r = vec!["application/x-search"];
        assert(r@.map_values(|s: &'static str| s@) =~= seq!["application/x-search"@]);
        r
    }

    /// Indexes the document that the JSON data describes and reports the
    /// new document count; data that is no JSON is an `InvalidInput` error
    /// and indexes nothing.
    pub fn index(&mut self, id: &str, data: &[u8]) -> (r: Result<ProcessedObservation, ProcessorError>)
        ensures
            match json_read(data@) {
                Ok(v) => final(self)@ == old(self)@.push(json_document(id@, v)) && (r matches Ok(o) && o@
                    == indexed_obs(id@, final(self)@.len())),
                Err(m) => final(self)@ == old(self)@ && (r matches Err(ProcessorError::InvalidInput(e)) && e@
                    == "invalid JSON: "@ + m),
            },
    {
        match read_json(data) {
            Ok(v) => {
                let doc = document_from_json(id, &v);
                self.engine.index_document(doc);
                let n = self.engine.document_count();
                Ok(
                    ProcessedObservation::new(
                        string_of(chars_of(id).as_slice()),
                        "search.indexed",
                        to_json_member_object("indexed", JsonScalar::Bool(true)),
                        "application/x-search+result",
                    ).with_metadata("document_count", decimal_text(n).as_str()),
                )
            },
            Err(m) => {
                let mut e = string_of(chars_of("invalid JSON: ").as_slice());
                append_chars(&mut e, chars_of(m.as_str()).as_slice());
                Err(ProcessorError::InvalidInput(e))
            },
        }
    }

    /// A keyword query for the `query` entry, limited by the `max_results`
    /// entry; without a `query` entry, an `InvalidInput` error.
    pub fn search_keyword(&self, query: Option<&str>, max_results_entry: Option<&str>) -> (r: Result<
        QueryResult,
        ProcessorError,
    >)
        ensures
            match query {
                None => r matches Err(ProcessorError::InvalidInput(m)) && m@
                    == "missing 'query' metadata for search action"@,
                Some(q) => r matches Ok(res) && res.total_count == res.results@.len() && (forall|s: String|
                    (#[trigger] s@) == q@ ==> result_models(res.results@) == eval(
                        self@,
                        QueryExpr::Keyword(s),
                        max_results_of(
                            match max_results_entry {
                                Some(x) => Some(x@),
                                None => None,
                            },
                        ),
                    )),
            },
    {
        match query {
            None => Err(
                ProcessorError::InvalidInput(
                    string_of(chars_of("missing 'query' metadata for search action").as_slice()),
                ),
            ),
            Some(q) => {
                let m = max_results(max_results_entry);
                let qe = QueryExpr::Keyword(string_of(chars_of(q).as_slice()));
                let res = self.engine.search(&qe, m);
                proof {
                    assert forall|s: String| (#[trigger] s@) == q@ implies result_models(res.results@) == eval(
                        self@,
                        QueryExpr::Keyword(s),
                        m as nat,
                    ) by {
                        crate::search::engine::lemma_keyword_by_text(self@, qe, QueryExpr::Keyword(s), m as nat);
                    }
                }
                Ok(res)
            },
        }
    }

    /// A query of the algebra, limited by the `max_results` entry.
    pub fn run_query(&self, query: &QueryExpr, max_results_entry: Option<&str>) -> (r: QueryResult)
        ensures
            result_models(r.results@) == eval(
                self@,
                *query,
                max_results_of(
                    match max_results_entry {
                        Some(x) => Some(x@),
                        None => None,
                    },
                ),
            ),
            r.total_count == r.results@.len(),
    {
        let m = max_results(max_results_entry);
        self.engine.search(query, m)
    }

    /// Removes every document.
    pub fn clear(&mut self, id: &str) -> (r: ProcessedObservation)
        ensures
            final(self)@ == Seq::<DocModel>::empty(),
            r@ == obs(
                id@,
                "search.cleared"@,
                json_member_object("cleared"@, JsonScalar::Bool(true)),
                "application/x-search+result"@,
            ),
    {
        self.engine.clear();
        ProcessedObservation::new(
            string_of(chars_of(id).as_slice()),
            "search.cleared",
            to_json_member_object("cleared", JsonScalar::Bool(true)),
            "application/x-search+result",
        )
    }

    /// Reports the document count.
    pub fn count(&self, id: &str) -> (r: ProcessedObservation)
        ensures
            r@ == count_obs(id@, self@.len()),
    {
        let n = self.engine.document_count();
        ProcessedObservation::new(
            string_of(chars_of(id).as_slice()),
            "search.count",
            to_json_member_object("count", JsonScalar::Unsigned(n as u64)),
            "application/x-search+result",
        ).with_metadata("count", decimal_text(n).as_str())
    }
}

proof fn lemma_index_prefix(states: Seq<Seq<DocModel>>, docs: Seq<DocModel>, k: int)
    requires
        states.len() == docs.len() + 1,
        states[0] == Seq::<DocModel>::empty(),
        forall|i: int| 0 <= i < docs.len() ==> #[trigger] states[i + 1] == states[i].push(docs[i]),
        0 <= k <= docs.len(),
    ensures
        states[k] == docs.subrange(0, k),
    decreases k,
{
    if k > 0 {
        lemma_index_prefix(states, docs, k - 1);
        assert(states[k] == states[k - 1].push(docs[k - 1]));
        assert(docs.subrange(0, k) =~= docs.subrange(0, k - 1).push(docs[k - 1]));
    }
}

/// Starting from an empty processor (as `new` or `clear` leaves it), the
/// states that successive successful `index` calls leave hold exactly the
/// indexed documents in order. So the `i`-th of those calls reports a
/// document count of `i + 1`, and a `count` afterwards reports the number
/// of calls: its observation is `count_obs` of that number, whose one
/// metadata entry is `count` with the number in decimal.
pub proof fn lemma_index_then_count(states: Seq<Seq<DocModel>>, docs: Seq<DocModel>, id: Seq<char>)
    requires
        states.len() == docs.len() + 1,
        states[0] == Seq::<DocModel>::empty(),
        forall|i: int| 0 <= i < docs.len() ==> #[trigger] states[i + 1] == states[i].push(docs[i]),
    ensures
        states.last() == docs,
        states.last().len() == docs.len(),
        forall|i: int| 0 <= i < docs.len() ==> indexed_obs(id, (#[trigger] states[i + 1]).len()) == indexed_obs(id, (i + 1) as nat),
        count_obs(id, states.last().len()) == count_obs(id, docs.len()),
        count_obs(id, docs.len()).metadata == seq![("count"@, decimal(docs.len()))],
{
    lemma_index_prefix(states, docs, docs.len() as int);
    assert(docs.subrange(0, docs.len() as int) =~= docs);
    assert forall|i: int| 0 <= i < docs.len() implies indexed_obs(id, (#[trigger] states[i + 1]).len()) == indexed_obs(
        id,
        (i + 1) as nat,
    ) by {
        lemma_index_prefix(states, docs, i + 1);
    }
    assert(meta_set(seq![], "count"@, decimal(docs.len())) =~= seq![("count"@, decimal(docs.len()))]);
}

/// The observation for the results of a query, given their serialised
/// form: the total and the time taken as metadata, and the query text of a
/// keyword search.
pub fn results_observation(id: &str, result: &QueryResult, payload: Vec<u8>, query: Option<&str>) -> (r:
    ProcessedObservation)
    ensures
        r@ == results_obs(
            id@,
            payload@,
            result.total_count as nat,
            match query {
                Some(q) => Some(q@),
                None => None,
            },
            result.took_ns as nat,
        ),
{
    let o = ProcessedObservation::new(
        string_of(chars_of(id).as_slice()),
        "search.results",
        payload,
        "application/x-search+results",
    ).with_metadata("total", decimal_text(result.total_count).as_str());
    let o = match query {
        Some(q) => o.with_metadata("query", q),
        None => o,
    };
    o.with_metadata("took_ns", decimal_string_u128(result.took_ns).as_str())
}

} // verus!
