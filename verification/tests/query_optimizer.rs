use tordex::tdxl::kir::{FilterCond, KirOp, KirProgram};
use tordex::tdxl::query_optimizer::{
    join_reordering, operator_fusion, optimize_query, pipeline_ops, predicate_pushdown, traversal_pruning,
};

fn filter(field: &str, value: &str) -> FilterCond {
    FilterCond { field: field.into(), op: "eq".into(), value: value.into() }
}

fn make_filter_program() -> KirProgram {
    let mut prog = KirProgram::new();
    let src = prog.alloc_id();
    let f1_out = prog.alloc_id();
    let f2_out = prog.alloc_id();
    let f3_out = prog.alloc_id();

    let kind = prog.alloc_id();
    prog.push(KirOp::ConstStr { output: kind, value: "Sites".into() });
    prog.push(KirOp::Collect { output: src, source_id: kind });
    prog.push(KirOp::Filter { output: f1_out, input: src, filter: filter("Technology", "WordPress") });
    prog.push(KirOp::Filter { output: f2_out, input: f1_out, filter: filter("Status", "Alive") });
    prog.push(KirOp::Filter { output: f3_out, input: f2_out, filter: filter("Country", "US") });
    prog.output = Some(f3_out);
    prog
}

fn make_traversal_program() -> KirProgram {
    let mut prog = KirProgram::new();
    let src = prog.alloc_id();
    let trav_out = prog.alloc_id();

    let kind = prog.alloc_id();
    let rel = prog.alloc_id();
    prog.push(KirOp::ConstStr { output: kind, value: "Sites".into() });
    prog.push(KirOp::ConstStr { output: rel, value: "LINKS_TO".into() });
    prog.push(KirOp::Collect { output: src, source_id: kind });
    prog.push(KirOp::Traverse { output: trav_out, input: src, relation_id: rel, depth: Some(5) });
    prog.push(KirOp::LimitHint { input: trav_out, limit: 10 });
    prog.output = Some(trav_out);
    prog
}

fn make_fusion_program() -> KirProgram {
    let mut prog = KirProgram::new();
    let src = prog.alloc_id();
    let graph_out = prog.alloc_id();

    let kind = prog.alloc_id();
    prog.push(KirOp::ConstStr { output: kind, value: "Sites".into() });
    prog.push(KirOp::Collect { output: src, source_id: kind });
    prog.push(KirOp::LoadGraph { output: graph_out, input: src });
    prog.output = Some(graph_out);
    prog
}

fn filter_count(prog: &KirProgram) -> usize {
    prog.ops.iter().filter(|op| matches!(op, KirOp::Filter { .. })).count()
}

#[test]
fn test_predicate_pushdown_merges_filters() {
    let prog = make_filter_program();
    let optimized = predicate_pushdown(prog);
    let count = filter_count(&optimized);
    assert!(count <= 3, "expected ≤3 filters, got {}", count);
}

#[test]
fn test_traversal_pruning_reduces_depth() {
    let prog = make_traversal_program();
    let optimized = traversal_pruning(prog);
    for op in &optimized.ops {
        if let KirOp::Traverse { depth, .. } = op {
            assert!(depth.unwrap_or(5) < 5, "depth should be pruned below 5");
        }
    }
}

#[test]
fn test_operator_fusion_removes_load_graph() {
    let prog = make_fusion_program();
    let optimized = operator_fusion(prog);
    let load_graph_count = optimized.ops.iter().filter(|op| matches!(op, KirOp::LoadGraph { .. })).count();
    assert_eq!(load_graph_count, 0, "LoadGraph should be fused");
}

#[test]
fn query_optimizer_test_full_pipeline() {
    let prog = make_filter_program();
    let optimized = optimize_query(prog);
    assert!(optimized.output.is_some());
}

// ─── further cases ───

#[test]
fn pipeline_follows_single_readers_from_the_first_source() {
    let prog = make_filter_program();
    assert_eq!(pipeline_ops(&prog.ops), vec![1, 2, 3, 4]);
    let prog = make_traversal_program();
    assert_eq!(pipeline_ops(&prog.ops), vec![2, 3, 4]);
}

#[test]
fn pushdown_merges_the_first_two_filters_into_a_compound_one() {
    let optimized = predicate_pushdown(make_filter_program());
    assert_eq!(filter_count(&optimized), 2);
    match &optimized.ops[2] {
        KirOp::Filter { filter, .. } => {
            assert_eq!(filter.field, "Technology_and_Status");
            assert_eq!(filter.op, "compound");
            assert_eq!(filter.value, "Technology eq WordPress AND Status eq Alive");
        },
        other => panic!("expected a filter, got {:?}", other),
    }
    // constant first (id 0), then the pipeline renumbered 1, 2, 3
    assert!(matches!(optimized.ops[0], KirOp::ConstStr { output: 0, .. }));
    assert!(matches!(optimized.ops[1], KirOp::Collect { output: 1, source_id: 0 }));
    assert!(matches!(optimized.ops[2], KirOp::Filter { output: 2, input: 1, .. }));
    assert!(matches!(optimized.ops[3], KirOp::Filter { output: 3, input: 2, .. }));
    assert_eq!(optimized.output, Some(3));
    assert_eq!(optimized.next_id, 4);
}

#[test]
fn pruning_cuts_to_the_base_five_logarithm_of_the_limit() {
    let optimized = traversal_pruning(make_traversal_program());
    let depths: Vec<Option<i32>> = optimized
        .ops
        .iter()
        .filter_map(|op| match op {
            KirOp::Traverse { depth, .. } => Some(*depth),
            _ => None,
        })
        .collect();
    // 5^5 = 3125 exceeds twice the limit 10; 5^2 = 25 is the first power reaching 10
    assert_eq!(depths, vec![Some(2)]);
}

#[test]
fn pruning_leaves_shallow_traversals_and_programs_without_hints() {
    let mut prog = KirProgram::new();
    let src = prog.alloc_id();
    let out = prog.alloc_id();
    let kind = prog.alloc_id();
    let rel = prog.alloc_id();
    prog.push(KirOp::ConstStr { output: kind, value: "Sites".into() });
    prog.push(KirOp::ConstStr { output: rel, value: "LINKS_TO".into() });
    prog.push(KirOp::Collect { output: src, source_id: kind });
    prog.push(KirOp::Traverse { output: out, input: src, relation_id: rel, depth: Some(2) });
    prog.push(KirOp::LimitHint { input: out, limit: 100 });
    prog.output = Some(out);
    let optimized = traversal_pruning(prog);
    // 5^2 = 25 does not exceed 200: nothing is cut, nothing renumbered
    assert!(matches!(optimized.ops[3], KirOp::Traverse { output: 1, depth: Some(2), .. }));
    assert_eq!(optimized.next_id, 4);
}

#[test]
fn join_reordering_chains_consecutive_filters() {
    let optimized = join_reordering(make_filter_program());
    assert_eq!(filter_count(&optimized), 3);
    assert!(matches!(optimized.ops[2], KirOp::Filter { output: 2, input: 1, .. }));
    assert!(matches!(optimized.ops[3], KirOp::Filter { output: 3, input: 2, .. }));
    assert!(matches!(optimized.ops[4], KirOp::Filter { output: 4, input: 3, .. }));
    assert_eq!(optimized.output, Some(4));
}

#[test]
fn fusion_keeps_the_load_value_and_the_output() {
    let optimized = operator_fusion(make_fusion_program());
    assert_eq!(optimized.ops.len(), 2);
    assert!(matches!(optimized.ops[1], KirOp::Collect { output: 1, source_id: 0 }));
    assert_eq!(optimized.output, Some(1));
}

#[test]
fn program_without_source_is_left_alone() {
    let mut prog = KirProgram::new();
    let c = prog.alloc_id();
    prog.push(KirOp::ConstStr { output: c, value: "x".into() });
    prog.output = Some(c);
    let optimized = optimize_query(prog);
    assert_eq!(optimized.ops.len(), 1);
    assert_eq!(optimized.output, Some(c));
    assert_eq!(optimized.next_id, 1);
}
