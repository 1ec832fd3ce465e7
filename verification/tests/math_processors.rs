use tordex::observation::{ProcessedObservation, ProcessorError};
use tordex::processors::algorithm_engine::{algorithm_by_name, Algorithm, AlgorithmEngine};
use tordex::processors::graph_theory::{GraphMetricTexts, GraphTheoryProcessor};
use tordex::processors::information_theory::InformationTheoryProcessor;
use tordex::processors::optimization::{NumericSummary, OptimizationProcessor};
use tordex::processors::probability::ProbabilityProcessor;
use tordex::processors::temporal_algebra::TemporalAlgebraProcessor;
use tordex::processors::vector_spaces::VectorSpaceProcessor;

fn of_kind<'a>(results: &'a [ProcessedObservation], kind: &str) -> Vec<&'a ProcessedObservation> {
    results.iter().filter(|o| o.kind == kind).collect()
}

fn meta<'a>(o: &'a ProcessedObservation, key: &str) -> Option<&'a str> {
    o.metadata.iter().find(|(k, _)| k == key).map(|(_, v)| v.as_str())
}

// ─── temporal algebra ───

#[test]
fn basic_temporal_analysis() {
    let p = TemporalAlgebraProcessor::new();
    let results = p.observations("t1", b"hello world", "0.8000").unwrap();
    let summaries = of_kind(&results, "temporal.summary");
    assert!(!summaries.is_empty());
    assert!(std::str::from_utf8(&summaries[0].data).unwrap().contains("11 positions"));
    assert_eq!(meta(summaries[0], "transition_rate"), Some("0.8000"));
}

#[test]
fn detects_temporal_relations() {
    let p = TemporalAlgebraProcessor::new();
    let data = b"[event1]\n[event2]\nbefore: event2\nafter: event1";
    let results = p.observations("t2", data, "0.0").unwrap();
    let evts = of_kind(&results, "temporal.sequence");
    assert!(!evts.is_empty());
    let spans = of_kind(&results, "temporal.interval");
    assert_eq!(meta(spans[0], "intervals_detected"), Some("2"));
}

#[test]
fn transition_rate_computation() {
    let p = TemporalAlgebraProcessor::new();
    let results = p.observations("t3", b"aaaa", "0.0000").unwrap();
    let summaries = of_kind(&results, "temporal.summary");
    assert!(std::str::from_utf8(&summaries[0].data).unwrap().contains("4 positions"));
    let meta_obs = of_kind(&results, "temporal.metadata");
    assert_eq!(meta_obs.len(), 1);
    assert_eq!(meta(meta_obs[0], "transitions"), Some("0"));
    assert_eq!(TemporalAlgebraProcessor::transition_counts(b"aaaa"), (0, 3));
    assert_eq!(TemporalAlgebraProcessor::transition_counts(b"abba"), (2, 3));
}

#[test]
fn temporal_algebra_empty_data_returns_error() {
    let p = TemporalAlgebraProcessor::new();
    assert!(matches!(p.observations("t4", b"", "0"), Err(ProcessorError::InvalidInput(_))));
}

#[test]
fn temporal_events_in_order() {
    let events = TemporalAlgebraProcessor::events("# note\n[a]\n  begin \nx\nend\nseq a b\nsingle\nduring: z");
    let kinds: Vec<char> = events.iter().map(|e| e.1).collect();
    assert_eq!(kinds, vec!['I', 'B', 'E', 'S', 'D']);
    assert_eq!(events[0].0, 1);
    assert_eq!(events[1], (2, 'B', "  begin ".to_string()));
    assert_eq!(events[2], (4, 'E', "end".to_string()));
    assert_eq!(events[3].2, "seq a b");
    assert_eq!(events[4], (7, 'D', "z".to_string()));
}

#[test]
fn temporal_spans_list_repeated_bytes() {
    let p = TemporalAlgebraProcessor::new();
    let results = p.observations("t5", b"abca", "0.6667").unwrap();
    let spans = of_kind(&results, "temporal.interval");
    assert_eq!(
        std::str::from_utf8(&spans[0].data).unwrap(),
        "[{\"byte\":\"0x61\",\"first_at\":0,\"last_at\":3,\"span\":3}]"
    );
}

// ─── graph theory ───

fn metrics() -> GraphMetricTexts {
    GraphMetricTexts {
        density: "1".to_string(),
        density_fixed: "1.0000".to_string(),
        average_degree: "2".to_string(),
        average_degree_fixed: "2.00".to_string(),
    }
}

#[test]
fn detect_simple_graph() {
    let p = GraphTheoryProcessor::new();
    let results = p.observations("g1", b"a--b\nb--c\na--c", &metrics()).unwrap();
    let summaries = of_kind(&results, "graph.summary");
    assert_eq!(summaries.len(), 1);
    assert!(std::str::from_utf8(&summaries[0].data).unwrap().contains("3 nodes"));
}

#[test]
fn detect_comma_separated_graph() {
    let p = GraphTheoryProcessor::new();
    let results = p.observations("g2", b"x,y\nx,z\ny,z", &metrics()).unwrap();
    let edges = of_kind(&results, "graph.edges");
    assert!(!edges.is_empty());
    assert_eq!(std::str::from_utf8(&edges[0].data).unwrap(), "[[\"x\",\"y\"],[\"x\",\"z\"],[\"y\",\"z\"]]");
}

#[test]
fn no_graph_returns_error() {
    let p = GraphTheoryProcessor::new();
    let r = p.observations("g3", b"some arbitrary text without graph structure", &metrics());
    assert!(matches!(r, Err(ProcessorError::ProcessingFailed(_))));
}

#[test]
fn handles_empty_input() {
    let p = GraphTheoryProcessor::new();
    assert!(p.observations("g4", b"", &metrics()).is_err());
}

#[test]
fn produces_nodes_observation() {
    let p = GraphTheoryProcessor::new();
    let results = p.observations("g5", b"alpha--beta\nbeta--gamma", &metrics()).unwrap();
    let nodes = of_kind(&results, "graph.nodes");
    assert_eq!(nodes.len(), 1);
    assert_eq!(std::str::from_utf8(&nodes[0].data).unwrap(), "[\"alpha\",\"beta\",\"gamma\"]");
}

#[test]
fn graph_edges_skip_blank_ends() {
    let edges = GraphTheoryProcessor::edges("# c\na -- b\n--x\n,y\np, q\n");
    assert_eq!(edges, vec![("a".to_string(), "b".to_string()), ("p".to_string(), "q".to_string())]);
    assert!(GraphTheoryProcessor::new().observations("g6", &[0xff, 0xfe], &metrics()).is_err());
}

// ─── optimization ───

fn numbers(count: usize) -> NumericSummary {
    NumericSummary {
        count,
        min: "1".to_string(),
        max: "9".to_string(),
        min_fixed: "1.0000".to_string(),
        max_fixed: "9.0000".to_string(),
    }
}

#[test]
fn detects_optimization_problem() {
    let p = OptimizationProcessor::new();
    let data = b"minimize cost\nsubject to x + y <= 10\nx >= 0\ny >= 0";
    let results = p.observations("o1", data, &numbers(3)).unwrap();
    let summaries = of_kind(&results, "optimization.summary");
    assert!(!summaries.is_empty());
    assert_eq!(meta(summaries[0], "objective_count"), Some("1"));
    assert_eq!(meta(summaries[0], "constraint_count"), Some("3"));
}

#[test]
fn extracts_numeric_range() {
    let p = OptimizationProcessor::new();
    let results = p.observations("o2", b"3.0 7.0 1.0 9.0 2.0", &numbers(5)).unwrap();
    let solutions = of_kind(&results, "optimization.solution");
    let sol = std::str::from_utf8(&solutions[0].data).unwrap();
    assert_eq!(sol, "range: [1, 9]");
}

#[test]
fn extracts_variables() {
    let p = OptimizationProcessor::new();
    let results = p.observations("o3", b"cost + revenue + profit", &numbers(0)).unwrap();
    let vars = of_kind(&results, "optimization.variables");
    assert!(!vars.is_empty());
    assert_eq!(std::str::from_utf8(&vars[0].data).unwrap(), "[\"cost\",\"revenue\",\"profit\"]");
}

#[test]
fn optimization_empty_data_returns_error() {
    let p = OptimizationProcessor::new();
    assert!(p.observations("o4", b"", &numbers(0)).is_err());
}

#[test]
fn optimization_structure_rules() {
    let (objectives, constraints, variables) = OptimizationProcessor::structure(b"Maximize Profit\nx leq y\nx2 ab ab Zed");
    assert_eq!(objectives, vec!["Maximize Profit".to_string()]);
    assert_eq!(constraints, vec!["x leq y".to_string()]);
    assert_eq!(variables, vec!["leq".to_string(), "ab".to_string()]);
}

// ─── byte statistics ───

#[test]
fn information_counts_by_halves() {
    let p = InformationTheoryProcessor::new();
    let c = p.counts(b"aabb").unwrap();
    assert_eq!(c.histogram[b'a' as usize], 2);
    assert_eq!(c.first_half[b'a' as usize], 2);
    assert_eq!(c.second_half[b'b' as usize], 2);
    assert_eq!(c.distinct, 2);
    assert_eq!(c.total, 4);
}

#[test]
fn information_theory_empty_data_returns_error() {
    assert!(InformationTheoryProcessor::new().counts(b"").is_err());
}

#[test]
fn probability_distribution_ranks_by_count() {
    let p = ProbabilityProcessor::new();
    let c = p.counts(b"hello world").unwrap();
    assert_eq!(c.mode_byte, b'l');
    assert_eq!(c.distinct, 8);
    assert_eq!(c.top[0], (b'l', 3));
    assert_eq!(c.top[1], (b'o', 2));
    assert_eq!(c.top[2], (b' ', 1));
    assert_eq!(c.top.len(), 8);
    let all: Vec<u8> = (0..=255).cycle().take(2560).collect();
    let c = p.counts(&all).unwrap();
    assert_eq!(c.top.len(), 16);
    assert_eq!(c.top[0], (0, 10));
    assert_eq!(c.mode_byte, 0);
}

#[test]
fn probability_empty_data_returns_error() {
    assert!(ProbabilityProcessor::new().counts(b"").is_err());
}

#[test]
fn vector_counts() {
    let p = VectorSpaceProcessor::new();
    let c = p.counts(b"\x01\x02\x03\x04").unwrap();
    assert_eq!((c.dimension, c.rank_estimate, c.half), (4, 4, 2));
    let c = p.counts(&[0u8; 10]).unwrap();
    assert_eq!((c.dimension, c.rank_estimate, c.half), (10, 1, 5));
}

#[test]
fn vector_spaces_empty_data_returns_error() {
    assert!(VectorSpaceProcessor::new().counts(b"").is_err());
}

// ─── algorithm engine ───

#[test]
fn missing_algorithm_returns_error() {
    let e = AlgorithmEngine::new();
    assert!(matches!(e.select(None, b"data"), Err(ProcessorError::InvalidInput(_))));
    assert!(matches!(e.select(Some(""), b"data"), Err(ProcessorError::InvalidInput(_))));
}

#[test]
fn unsupported_algorithm_returns_error() {
    let e = AlgorithmEngine::new();
    assert!(matches!(
        e.select(Some("Nonsense"), b"data"),
        Err(ProcessorError::UnsupportedContent(m)) if m == "unknown algorithm: Nonsense"
    ));
}

#[test]
fn algorithm_spellings() {
    assert_eq!(algorithm_by_name("A*"), Some(Algorithm::AStar));
    assert_eq!(algorithm_by_name("tarjan"), Some(Algorithm::TarjanScc));
    assert_eq!(algorithm_by_name("HLL"), Some(Algorithm::HyperLogLog));
    assert_eq!(algorithm_by_name("FM_Index"), Some(Algorithm::FmIndex));
    assert_eq!(algorithm_by_name("Bfs"), None);
    let e = AlgorithmEngine::new();
    assert!(matches!(e.select(Some("BFS"), b"0 1\n1 2"), Ok((Algorithm::Bfs, "0 1\n1 2"))));
    assert!(matches!(e.select(Some("BFS"), &[0xff]), Err(ProcessorError::InvalidInput(_))));
}
