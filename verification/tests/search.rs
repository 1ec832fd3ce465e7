use tordex::search::documents::{document_from_text, Document};
use tordex::search::engine::{FilterSpec, QueryExpr, SearchEngine, TimeRange};
use tordex::search::patterns::{ArchQuery, DependencyQuery, GraphPattern, StructPattern};
use tordex::temporal::interval::Timestamp;

fn sample_engine() -> SearchEngine {
    let mut engine = SearchEngine::new();
    engine.index_documents(vec![
        document_from_text(
            "doc1",
            "Rust ownership",
            "Ownership is Rust's unique memory management system. It ensures memory safety.",
            "article",
            "docs",
        ),
        document_from_text(
            "doc2",
            "Python generators",
            "Generators in Python allow lazy evaluation using yield statements.",
            "article",
            "docs",
        ),
        document_from_text(
            "doc3",
            "Rust vs Python",
            "Rust offers memory safety while Python prioritizes developer speed.",
            "comparison",
            "blog",
        ),
        document_from_text(
            "doc4",
            "Cargo package manager",
            "Cargo is the Rust package manager. It handles dependencies and builds.",
            "article",
            "docs",
        ),
    ]);
    engine
}

fn ids(engine: &SearchEngine, query: &QueryExpr, max: usize) -> Vec<String> {
    engine.search(query, max).results.iter().map(|r| r.document.id.clone()).collect()
}

#[test]
fn keyword_search_finds_matches() {
    let engine = sample_engine();
    let query = QueryExpr::Keyword("Rust".to_string());
    let result = engine.search(&query, 10);
    assert!(result.total_count >= 2);
    assert!(result.results.iter().any(|r| r.document.id == "doc1"));
}

#[test]
fn keyword_search_scores_title_higher() {
    let engine = sample_engine();
    let query = QueryExpr::Keyword("Rust".to_string());
    let result = engine.search(&query, 10);
    assert!(!result.results.is_empty());
    assert!(result.results.len() >= 2);
}

#[test]
fn phrase_search_finds_exact_phrase() {
    let engine = sample_engine();
    let query = QueryExpr::Phrase(vec!["memory".to_string(), "safety".to_string()]);
    let result = engine.search(&query, 10);
    assert!(result.total_count >= 2);
}

#[test]
fn prefix_search() {
    let engine = sample_engine();
    let query = QueryExpr::Prefix("gen".to_string());
    let result = engine.search(&query, 10);
    assert_eq!(result.total_count, 1);
    assert_eq!(result.results[0].document.id, "doc2");
}

#[test]
fn and_combinator_intersects() {
    let engine = sample_engine();
    let query = QueryExpr::And(vec![
        QueryExpr::Keyword("Rust".to_string()),
        QueryExpr::Keyword("Python".to_string()),
    ]);
    let result = engine.search(&query, 10);
    assert_eq!(result.total_count, 1);
    assert_eq!(result.results[0].document.id, "doc3");
}

#[test]
fn or_combinator_unions() {
    let engine = sample_engine();
    let query = QueryExpr::Or(vec![
        QueryExpr::Keyword("ownership".to_string()),
        QueryExpr::Keyword("generators".to_string()),
    ]);
    let result = engine.search(&query, 10);
    assert_eq!(result.total_count, 2);
}

#[test]
fn not_combinator_excludes() {
    let engine = sample_engine();
    let query = QueryExpr::And(vec![
        QueryExpr::Keyword("Rust".to_string()),
        QueryExpr::Not(Box::new(QueryExpr::Keyword("Cargo".to_string()))),
    ]);
    let result = engine.search(&query, 10);
    assert!(result.total_count >= 1);
    assert!(!result.results.iter().any(|r| r.document.id == "doc4"));
}

#[test]
fn filter_by_kind() {
    let engine = sample_engine();
    let query = QueryExpr::Filter {
        query: Box::new(QueryExpr::Keyword("Rust".to_string())),
        spec: FilterSpec::Kind("comparison".to_string()),
    };
    let result = engine.search(&query, 10);
    assert_eq!(result.total_count, 1);
    assert_eq!(result.results[0].document.id, "doc3");
}

#[test]
fn temporal_search_filters_by_range() {
    let engine = sample_engine();
    let now = Timestamp::from_unix_nanos(time::OffsetDateTime::now_utc().unix_timestamp_nanos());
    let future = now.plus_days(1);
    let range = TimeRange { start: Some(future), end: None };
    let query = QueryExpr::Temporal(range);
    let result = engine.search(&query, 10);
    assert_eq!(result.total_count, 0);
}

#[test]
fn empty_engine_returns_no_results() {
    let engine = SearchEngine::new();
    let query = QueryExpr::Keyword("anything".to_string());
    let result = engine.search(&query, 10);
    assert_eq!(result.total_count, 0);
}

#[test]
fn structural_pattern_functions() {
    let mut engine = SearchEngine::new();
    engine.index_document(document_from_text(
        "code1",
        "main.rs",
        "fn main() { println!(\"hello\"); }",
        "source",
        "code",
    ));
    let query = QueryExpr::Structure(StructPattern::Function { name: Some("main".to_string()) });
    let result = engine.search(&query, 10);
    assert_eq!(result.total_count, 1);
}

#[test]
fn dependency_query() {
    let mut engine = SearchEngine::new();
    let meta = vec![
        ("package_name".to_string(), "my-app".to_string()),
        ("depends_on".to_string(), "serde".to_string()),
    ];
    engine.index_document(Document {
        id: "pkg1".to_string(),
        title: "my-app".to_string(),
        body: "Depends on serde".to_string(),
        kind: "package".to_string(),
        source: "cargo".to_string(),
        timestamp: None,
        metadata: meta,
    });
    let query = QueryExpr::Dependency(DependencyQuery::Dependents { name: "serde".to_string(), ecosystem: None });
    let result = engine.search(&query, 10);
    assert_eq!(result.total_count, 1);
}

// ─── further cases ───

#[test]
fn keyword_scores_title_three_times_body_once() {
    let engine = sample_engine();
    let result = engine.search(&QueryExpr::Keyword("rust".to_string()), 10);
    let scores: Vec<(String, u128, String)> = result
        .results
        .iter()
        .map(|r| (r.document.id.clone(), r.score, r.matched_on[0].clone()))
        .collect();
    // title matches count three times, body matches once
    assert_eq!(
        scores,
        vec![
            ("doc1".to_string(), 4, "title".to_string()),
            ("doc3".to_string(), 4, "title".to_string()),
            ("doc4".to_string(), 1, "body".to_string()),
        ]
    );
}

#[test]
fn keyword_results_are_ranked_and_truncated() {
    let engine = sample_engine();
    let result = engine.search(&QueryExpr::Keyword("rust".to_string()), 2);
    assert_eq!(result.total_count, 2);
    assert!(result.results[0].score >= result.results[1].score);
    assert_eq!(ids(&engine, &QueryExpr::Keyword("rust".to_string()), 0), Vec::<String>::new());
}

#[test]
fn phrase_score_is_word_count() {
    let engine = sample_engine();
    let result = engine.search(&QueryExpr::Phrase(vec!["Memory".to_string(), "Safety".to_string()]), 10);
    assert_eq!(result.total_count, 2);
    assert!(result.results.iter().all(|r| r.score == 2 && r.matched_on == vec!["phrase".to_string()]));
}

#[test]
fn or_lists_each_document_once() {
    let engine = sample_engine();
    let query = QueryExpr::Or(vec![
        QueryExpr::Keyword("rust".to_string()),
        QueryExpr::Keyword("memory".to_string()),
    ]);
    let mut got = ids(&engine, &query, 10);
    got.sort();
    assert_eq!(got, vec!["doc1", "doc3", "doc4"]);
}

#[test]
fn and_of_nothing_is_empty() {
    let engine = sample_engine();
    assert_eq!(engine.search(&QueryExpr::And(vec![]), 10).total_count, 0);
}

#[test]
fn not_returns_the_other_documents_in_index_order() {
    let engine = sample_engine();
    let query = QueryExpr::Not(Box::new(QueryExpr::Keyword("python".to_string())));
    assert_eq!(ids(&engine, &query, 10), vec!["doc1", "doc4"]);
    let result = engine.search(&query, 10);
    assert!(result.results.iter().all(|r| r.score == 1 && r.matched_on == vec!["not".to_string()]));
}

#[test]
fn filter_by_source_and_metadata() {
    let mut engine = sample_engine();
    engine.index_document(Document {
        id: "doc5".to_string(),
        title: "Rust notes".to_string(),
        body: "notes".to_string(),
        kind: "note".to_string(),
        source: "wiki".to_string(),
        timestamp: None,
        metadata: vec![("lang".to_string(), "en".to_string())],
    });
    let by_source = QueryExpr::Filter {
        query: Box::new(QueryExpr::Keyword("rust".to_string())),
        spec: FilterSpec::Source("blog".to_string()),
    };
    assert_eq!(ids(&engine, &by_source, 10), vec!["doc3"]);
    let by_meta = QueryExpr::Filter {
        query: Box::new(QueryExpr::Keyword("rust".to_string())),
        spec: FilterSpec::Metadata { key: "lang".to_string(), value: "en".to_string() },
    };
    assert_eq!(ids(&engine, &by_meta, 10), vec!["doc5"]);
}

#[test]
fn temporal_range_and_time_filters() {
    let mut engine = SearchEngine::new();
    let mut a = document_from_text("a", "A", "x", "k", "s");
    a.timestamp = Some(Timestamp::from_unix_seconds(100));
    let mut b = document_from_text("b", "B", "x", "k", "s");
    b.timestamp = Some(Timestamp::from_unix_seconds(200));
    let c = document_from_text("c", "C", "x", "k", "s");
    engine.index_documents(vec![a, b, c]);
    let range = TimeRange { start: Some(Timestamp::from_unix_seconds(150)), end: None };
    assert_eq!(ids(&engine, &QueryExpr::Temporal(range), 10), vec!["b"]);
    let open = TimeRange { start: None, end: None };
    assert_eq!(ids(&engine, &QueryExpr::Temporal(open), 10), vec!["a", "b", "c"]);
    let before = QueryExpr::Filter {
        query: Box::new(QueryExpr::Keyword("x".to_string())),
        spec: FilterSpec::TimeBefore(Timestamp::from_unix_seconds(150)),
    };
    assert_eq!(ids(&engine, &before, 10), vec!["a", "c"]);
    let after = QueryExpr::Filter {
        query: Box::new(QueryExpr::Keyword("x".to_string())),
        spec: FilterSpec::TimeAfter(Timestamp::from_unix_seconds(150)),
    };
    assert_eq!(ids(&engine, &after, 10), vec!["b", "c"]);
}

#[test]
fn graph_node_and_neighbors() {
    let mut engine = SearchEngine::new();
    let mut n = document_from_text("n1", "Parser", "parses input", "module", "src");
    n.metadata = vec![("graph_distance".to_string(), "1".to_string())];
    let m = document_from_text("n2", "Lexer", "tokens", "module", "src");
    engine.index_documents(vec![n, m]);
    let node = GraphPattern::Node { name: "Parser".to_string(), kind: Some("module".to_string()) };
    assert_eq!(ids(&engine, &QueryExpr::Graph(node), 10), vec!["n1"]);
    let near = GraphPattern::Neighbors {
        node: Box::new(GraphPattern::Node { name: "Lexer".to_string(), kind: None }),
        depth: 2,
    };
    assert_eq!(ids(&engine, &QueryExpr::Graph(near), 10), vec!["n1"]);
    let sub = GraphPattern::Subgraph(vec![
        GraphPattern::Node { name: "Lexer".to_string(), kind: None },
        GraphPattern::Node { name: "nothing".to_string(), kind: None },
    ]);
    assert_eq!(ids(&engine, &QueryExpr::Graph(sub), 10), vec!["n2"]);
}

#[test]
fn architecture_and_ecosystem_queries() {
    let engine = sample_engine();
    let q = QueryExpr::Architecture(ArchQuery::Directory { path: "blo".to_string() });
    assert_eq!(ids(&engine, &q, 10), vec!["doc3"]);
    let q = QueryExpr::Architecture(ArchQuery::Package { name: "Rust vs Python".to_string() });
    assert_eq!(ids(&engine, &q, 10), vec!["doc3"]);
    let q = QueryExpr::Dependency(DependencyQuery::Ecosystem("doc".to_string()));
    assert_eq!(ids(&engine, &q, 10), vec!["doc1", "doc2", "doc4"]);
}

#[test]
fn structural_call_and_class_patterns() {
    let mut engine = SearchEngine::new();
    engine.index_document(document_from_text("c1", "a", "struct Point; let p = make(1);", "src", "code"));
    let call = QueryExpr::Structure(StructPattern::Call { name: Some("make".to_string()) });
    assert_eq!(ids(&engine, &call, 10), vec!["c1"]);
    let class = QueryExpr::Structure(StructPattern::Class { name: Some("POINT".to_string()) });
    assert_eq!(ids(&engine, &class, 10), vec!["c1"]);
    let iface = QueryExpr::Structure(StructPattern::Interface { name: None });
    assert_eq!(engine.search(&iface, 10).total_count, 0);
}

#[test]
fn count_and_clear() {
    let mut engine = sample_engine();
    assert_eq!(engine.document_count(), 4);
    engine.clear();
    assert_eq!(engine.document_count(), 0);
    let engine = SearchEngine::default();
    assert_eq!(engine.document_count(), 0);
}
