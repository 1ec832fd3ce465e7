use tordex::observation::{ProcessedObservation, ProcessorError};
use tordex::processors::fabric::{admits, error_message, error_observation, readiness, route};
use tordex::processors::repo_intel_processor::{
    call_graph_observation, cfgs_observation, contents_fit, file_observation, repo_request, report_observation,
    RepoIntelProcessor, RepoRequest,
};
use tordex::processors::search_processor::{
    max_results, results_observation, search_action, SearchAction, SearchProcessor,
};
use tordex::processors::temporal_graph_processor::{
    diff_indices, instant_entry, required_instant, snapshot_instant, state_counts, temporal_action, TemporalAction,
    TemporalGraphProcessor,
};
use tordex::search::documents::document_from_text;
use tordex::search::engine::QueryExpr;
use tordex::search::strategies::{build_word_frequencies, keyword_score};

fn meta<'a>(o: &'a ProcessedObservation, key: &str) -> Option<&'a str> {
    o.metadata.iter().find(|(k, _)| k == key).map(|(_, v)| v.as_str())
}

fn invalid_text(e: ProcessorError) -> String {
    match e {
        ProcessorError::InvalidInput(m) => m,
        other => panic!("expected an invalid-input error, got {:?}", other),
    }
}

// ─── search processor ───

#[test]
fn search_processor_name_and_content_types() {
    let p = SearchProcessor::new();
    assert_eq!(p.name(), "SearchProcessor");
    assert!(p.content_types().contains(&"application/x-search"));
}

#[test]
fn index_and_count() {
    let mut p = SearchProcessor::new();
    let doc = br#"{"title": "test doc", "body": "hello world", "kind": "test", "source": "test"}"#;
    let indexed = p.index("obs_001", doc).unwrap();
    assert_eq!(indexed.kind, "search.indexed");
    assert_eq!(meta(&indexed, "document_count"), Some("1"));
    assert_eq!(indexed.data, br#"{"indexed":true}"#.to_vec());
    let count = p.count("obs_002");
    assert_eq!(count.kind, "search.count");
    assert_eq!(meta(&count, "count"), Some("1"));
    assert_eq!(count.data, br#"{"count":1}"#.to_vec());
}

#[test]
fn keyword_search_after_index() {
    let mut p = SearchProcessor::new();
    let doc = br#"{"title": "Rust ownership", "body": "Ownership is Rust's memory management system.", "kind": "article", "source": "docs"}"#;
    p.index("obs_001", doc).unwrap();
    let result = p.search_keyword(Some("Rust"), None).unwrap();
    let o = results_observation("obs_002", &result, Vec::new(), Some("Rust"));
    assert_eq!(o.kind, "search.results");
    assert_eq!(meta(&o, "total"), Some("1"));
    assert_eq!(meta(&o, "query"), Some("Rust"));
    assert!(meta(&o, "took_ns").is_some());
}

#[test]
fn query_with_queryexpr() {
    let mut p = SearchProcessor::new();
    p.index(
        "obs_001",
        br#"{"id": "d1", "title": "Rust book", "body": "The Rust programming language", "kind": "article", "source": "docs"}"#,
    )
    .unwrap();
    p.index(
        "obs_002",
        br#"{"id": "d2", "title": "Python book", "body": "The Python programming language", "kind": "article", "source": "docs"}"#,
    )
    .unwrap();
    let query = QueryExpr::Keyword("Rust".into());
    let result = p.run_query(&query, None);
    let o = results_observation("obs_003", &result, Vec::new(), None);
    assert_eq!(o.kind, "search.results");
    let total: usize = meta(&o, "total").unwrap().parse().unwrap();
    assert_eq!(total, 1);
}

fn three_docs() -> SearchProcessor {
    let mut p = SearchProcessor::new();
    for doc in [
        &br#"{"id": "a", "title": "Rust A", "body": "Rust is safe", "kind": "doc", "source": "s"}"#[..],
        &br#"{"id": "b", "title": "Rust B", "body": "Rust is fast", "kind": "doc", "source": "s"}"#[..],
        &br#"{"id": "c", "title": "Python C", "body": "Python is easy", "kind": "doc", "source": "s"}"#[..],
    ] {
        p.index("obs", doc).unwrap();
    }
    p
}

#[test]
fn and_or_not_combinator_via_query() {
    let p = three_docs();
    let both = QueryExpr::And(vec![QueryExpr::Keyword("Rust".into()), QueryExpr::Keyword("Python".into())]);
    let o = results_observation("obs_q1", &p.run_query(&both, None), Vec::new(), None);
    let total: usize = meta(&o, "total").unwrap().parse().unwrap();
    assert_eq!(total, 0);
    let either = QueryExpr::Or(vec![QueryExpr::Keyword("Rust".into()), QueryExpr::Keyword("Python".into())]);
    let o = results_observation("obs_q2", &p.run_query(&either, None), Vec::new(), None);
    let total: usize = meta(&o, "total").unwrap().parse().unwrap();
    assert_eq!(total, 3);
}

#[test]
fn query_results_respect_max_results() {
    let p = three_docs();
    let either = QueryExpr::Or(vec![QueryExpr::Keyword("Rust".into()), QueryExpr::Keyword("Python".into())]);
    assert_eq!(p.run_query(&either, Some("2")).total_count, 2);
    let not_rust = QueryExpr::Not(Box::new(QueryExpr::Keyword("Rust".into())));
    assert_eq!(p.run_query(&not_rust, None).total_count, 1);
}

#[test]
fn clear_engine() {
    let mut p = SearchProcessor::new();
    p.index("obs_001", br#"{"title": "test", "body": "content", "kind": "test", "source": "test"}"#).unwrap();
    let cleared = p.clear("obs_002");
    assert_eq!(cleared.kind, "search.cleared");
    assert_eq!(meta(&p.count("obs_003"), "count"), Some("0"));
}

#[test]
fn search_processor_unknown_action_returns_error() {
    let e = search_action(Some("bogus")).unwrap_err();
    assert_eq!(invalid_text(e), "unknown action: bogus");
    assert_eq!(search_action(None).unwrap(), SearchAction::Search);
    assert_eq!(search_action(Some("index")).unwrap(), SearchAction::Index);
}

#[test]
fn search_missing_query_returns_error() {
    let p = SearchProcessor::new();
    let e = p.search_keyword(None, None).unwrap_err();
    assert_eq!(invalid_text(e), "missing 'query' metadata for search action");
}

#[test]
fn no_match_returns_empty() {
    let p = SearchProcessor::new();
    assert_eq!(p.search_keyword(Some("nonexistent"), None).unwrap().total_count, 0);
}

#[test]
fn index_reads_observation_shaped_documents_and_rejects_bad_json() {
    let mut p = SearchProcessor::new();
    let obs = br#"{"data": "payload text", "content_type": "text/markdown", "metadata": {"lang": "en", "n": 3}}"#;
    p.index("obs_9", obs).unwrap();
    let r = p.run_query(&QueryExpr::Keyword("payload".into()), None);
    assert_eq!(r.total_count, 1);
    let d = &r.results[0].document;
    assert_eq!(d.id, "obs_9");
    assert_eq!(d.title, "search.document");
    assert_eq!(d.kind, "search.document");
    assert_eq!(d.source, "text/markdown");
    assert_eq!(d.metadata, vec![("lang".to_string(), "en".to_string()), ("n".to_string(), String::new())]);
    let e = p.index("obs_10", b"{not json").unwrap_err();
    assert!(invalid_text(e).starts_with("invalid JSON: "));
    assert_eq!(meta(&p.count("c"), "count"), Some("1"));
}

#[test]
fn max_results_entry_defaults_to_ten() {
    assert_eq!(max_results(None), 10);
    assert_eq!(max_results(Some("3")), 3);
    assert_eq!(max_results(Some("+7")), 7);
    assert_eq!(max_results(Some("many")), 10);
}

// ─── repository intelligence processor ───

#[test]
fn repo_intel_processor_name_and_content_types() {
    let p = RepoIntelProcessor::new();
    assert_eq!(p.name(), "RepoIntelProcessor");
    assert!(p.content_types().contains(&"application/x-repo-intel"));
}

#[test]
fn repo_intel_processor_analyze_single_file() {
    let mut p = RepoIntelProcessor::new();
    let data = br#"{"path": "hello.rs", "content": "pub fn greet(name: &str) -> String {\n    format!(\"Hello, {}\", name)\n}\n"}"#;
    let (path, content) = match repo_request(Some("analyze_file"), data).unwrap() {
        RepoRequest::AnalyzeFile { path, content } => (path, content),
        other => panic!("unexpected request {:?}", other),
    };
    let fa = p.analyze_file(&path, &content).unwrap();
    let o = file_observation("obs_001", &path, &fa, Vec::new());
    assert_eq!(o.kind, "repo_intel.file_analyzed");
    assert_eq!(meta(&o, "language"), Some("Rust"));
    assert_eq!(meta(&o, "file"), Some("hello.rs"));
}

#[test]
fn analyze_package_multi_file() {
    let mut p = RepoIntelProcessor::new();
    let data = br#"{"files": [{"path": "main.rs", "content": "fn hello() {}"}, {"path": "main.py", "content": "def hello(): pass"}, {"path": 3}]}"#;
    let files = match repo_request(Some("analyze_package"), data).unwrap() {
        RepoRequest::AnalyzePackage(files) => files,
        other => panic!("unexpected request {:?}", other),
    };
    assert_eq!(files.len(), 2);
    assert!(contents_fit(&files));
    p.analyze_package(files);
    assert!(p.report_fits());
    let report = p.report();
    let o = report_observation("obs_001", true, &report, Vec::new());
    assert_eq!(o.kind, "repo_intel.package_analyzed");
    assert_eq!(meta(&o, "file_count"), Some("2"));
    assert_eq!(meta(&o, "package_count"), Some("2"));
}

#[test]
fn report_after_analysis() {
    let mut p = RepoIntelProcessor::new();
    p.analyze_file("lib.rs", "pub fn a() {}\npub fn b() {}\n").unwrap();
    assert!(matches!(repo_request(Some("report"), b"{}").unwrap(), RepoRequest::Report));
    let report = p.report();
    let o = report_observation("obs_002", false, &report, Vec::new());
    assert_eq!(o.kind, "repo_intel.report");
    assert_eq!(meta(&o, "file_count"), Some("1"));
}

#[test]
fn call_graph_action() {
    let mut p = RepoIntelProcessor::new();
    p.analyze_file("main.rs", "fn main() {}\nfn helper() {}\n").unwrap();
    assert!(matches!(repo_request(Some("call_graph"), b"{}").unwrap(), RepoRequest::CallGraph));
    let report = p.report();
    let o = call_graph_observation("obs_002", &report, Vec::new());
    assert_eq!(o.kind, "repo_intel.call_graph");
    assert!(meta(&o, "node_count").is_some());
}

#[test]
fn repo_intel_processor_missing_path_returns_error() {
    let e = repo_request(Some("analyze_file"), br#"{"content": "fn main() {}"}"#).unwrap_err();
    assert_eq!(invalid_text(e), "missing 'path' field");
    let e = repo_request(None, br#"{"path": "a.rs"}"#).unwrap_err();
    assert_eq!(invalid_text(e), "missing 'content' field");
}

#[test]
fn repo_intel_processor_unknown_action_returns_error() {
    let e = repo_request(Some("bogus"), b"{}").unwrap_err();
    assert_eq!(invalid_text(e), "unknown action: bogus");
}

#[test]
fn repo_intel_processor_invalid_json_returns_error() {
    let e = repo_request(Some("analyze_file"), b"not valid json").unwrap_err();
    assert!(invalid_text(e).starts_with("invalid JSON: "));
}

#[test]
fn empty_files_array_returns_error() {
    let e = repo_request(Some("analyze_package"), br#"{"files": []}"#).unwrap_err();
    assert_eq!(invalid_text(e), "'files' array is empty or contains invalid entries");
    let e = repo_request(Some("analyze_package"), br#"{"files": 3}"#).unwrap_err();
    assert_eq!(invalid_text(e), "missing 'files' array field");
}

#[test]
fn cfg_action_returns_cfgs() {
    let mut p = RepoIntelProcessor::new();
    p.analyze_file("main.rs", "fn main() { if x {} }").unwrap();
    assert!(matches!(repo_request(Some("cfg"), b"{}").unwrap(), RepoRequest::Cfg));
    let report = p.report();
    let o = cfgs_observation("obs_002", &report, Vec::new());
    assert_eq!(o.kind, "repo_intel.cfgs");
}

#[test]
fn unrecognized_file_is_refused_by_name() {
    let mut p = RepoIntelProcessor::new();
    let e = p.analyze_file("notes.unknownext", "plain words").unwrap_err();
    assert_eq!(
        invalid_text(e),
        "unable to analyze file: notes.unknownext (unsupported language or extension)"
    );
}

// ─── temporal graph processor ───

#[test]
fn temporal_graph_processor_name_and_content_types() {
    let p = TemporalGraphProcessor::new();
    assert_eq!(p.name(), "TemporalGraphProcessor");
    assert!(p.content_types().contains(&"application/x-temporal-graph"));
}

#[test]
fn temporal_graph_processor_unknown_action_returns_error() {
    let e = temporal_action(Some("bogus")).unwrap_err();
    assert_eq!(invalid_text(e), "unknown action: bogus");
    assert_eq!(temporal_action(None).unwrap(), TemporalAction::Snapshot);
    assert_eq!(temporal_action(Some("ingest_relationship")).unwrap(), TemporalAction::IngestRelationship);
}

#[test]
fn state_at_without_timestamp_errors() {
    let e = required_instant(None, "timestamp").unwrap_err();
    assert_eq!(invalid_text(e), "missing or invalid 'timestamp' metadata");
    let e = required_instant(Some("yesterday"), "target_time").unwrap_err();
    assert_eq!(invalid_text(e), "missing or invalid 'target_time' metadata");
}

#[test]
fn snapshots_then_state_and_diff() {
    let mut p = TemporalGraphProcessor::new();
    let t1 = snapshot_instant(Some("2024-01-01T00:00:00Z"));
    assert_eq!(t1.unix_nanos, 1_704_067_200_000_000_000);
    assert!(p.snapshot_fits(t1));
    p.snapshot(t1);
    let t2 = instant_entry(Some("2024-01-02T00:00:00Z")).unwrap();
    p.snapshot(t2);
    assert_eq!(p.engine().snapshot_count(), 2);
    assert_eq!(state_counts(p.engine(), t2), (true, 0, 0));
    let before = instant_entry(Some("2023-12-31T00:00:00Z")).unwrap();
    assert_eq!(state_counts(p.engine(), before), (false, 0, 0));
    let (from, to) = diff_indices(Some("0"), Some("1")).unwrap();
    let d = p.engine().history.diff_between(from, to).unwrap();
    assert_eq!(d.change_count_checked(), Some(0));
    assert!(p.engine().history.diff_between(0, 5).is_none());
}

#[test]
fn diff_indices_name_the_bad_entry() {
    assert_eq!(invalid_text(diff_indices(None, Some("1")).unwrap_err()), "missing or invalid 'from_idx'");
    assert_eq!(invalid_text(diff_indices(Some("0"), Some("x")).unwrap_err()), "missing or invalid 'to_idx'");
}

// ─── fabric and service decisions ───

#[test]
fn domain_filter_restricts_processing() {
    let domains = vec!["text/".to_string(), "image/".to_string()];
    assert!(admits(&domains, "text/html"));
    assert!(admits(&domains, "image/png"));
    assert!(!admits(&domains, "application/json"));
    assert!(!admits(&Vec::new(), "text/html"));
}

#[test]
fn failure_becomes_an_error_observation() {
    let o = error_observation("obs_1", "failing", "processing failed: boom");
    assert_eq!(o.id, "obs_1_error_failing");
    assert_eq!(o.kind, "processing.error");
    assert_eq!(o.data, b"processing failed: boom".to_vec());
    assert_eq!(meta(&o, "processor"), Some("failing"));
    assert_eq!(meta(&o, "source_observation"), Some("obs_1"));
}

#[test]
fn readiness_needs_both_stores() {
    assert_eq!(readiness(true, true), (200, "ready"));
    assert_eq!(readiness(true, false), (503, "not_ready"));
    assert_eq!(readiness(false, true), (503, "not_ready"));
}

// ─── search strategies ───

#[test]
fn keyword_score_counts_title_three_times() {
    let d = document_from_text("d", "Rust and rust", "RUST is here", "k", "s");
    assert_eq!(keyword_score(&d, "rust"), 7);
    assert_eq!(keyword_score(&d, "python"), 0);
}

#[test]
fn word_frequencies_weigh_titles_and_sort() {
    let docs = vec![
        document_from_text("a", "Rust", "rust memory safety memory", "k", "s"),
        document_from_text("b", "Go", "go", "k", "s"),
        document_from_text("a", "Zig", "zig", "k", "s"),
    ];
    let table = build_word_frequencies(&docs);
    assert_eq!(table.len(), 2);
    assert_eq!(table[0].0, "a");
    assert_eq!(table[0].1, vec![("zig".to_string(), 4)]);
    assert_eq!(table[1].1, vec![("go".to_string(), 4)]);
    let first = build_word_frequencies(&docs[..1]);
    assert_eq!(
        first[0].1,
        vec![("rust".to_string(), 4), ("memory".to_string(), 2), ("safety".to_string(), 1)]
    );
}

#[test]
fn routing_picks_accepting_processors_and_honours_the_domain_filter() {
    let accepts = vec![
        vec!["text/html".to_string()],
        vec!["text/markdown".to_string(), "text/html".to_string()],
        vec!["image/png".to_string()],
    ];
    assert_eq!(route(&accepts, None, Some("text/html")), vec![0, 1]);
    assert_eq!(route(&accepts, None, None), vec![0, 1, 2]);
    assert_eq!(route(&accepts, None, Some("video/mp4")), Vec::<usize>::new());
    let domains = vec!["image/".to_string()];
    assert_eq!(route(&accepts, Some(&domains), Some("text/html")), Vec::<usize>::new());
    assert_eq!(route(&accepts, Some(&domains), Some("image/png")), vec![2]);
}

#[test]
fn error_messages_name_the_kind_of_failure() {
    assert_eq!(error_message(&ProcessorError::InvalidInput("bad".into())), "invalid input: bad");
    assert_eq!(error_message(&ProcessorError::ProcessingFailed("x".into())), "processing failed: x");
    assert_eq!(error_message(&ProcessorError::UnsupportedContent("y".into())), "unsupported content: y");
}
