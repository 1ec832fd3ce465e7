//! Dataflow optimisation of KIR programs along their main pipeline: the
//! chain of operations from the first source, each the only unvisited
//! reader of the previous one's value. Consecutive filters are merged,
//! traversal depth is capped under a limit hint, filters are rewired in
//! sequence, and adjacent redundant operations are fused.
use vstd::prelude::*;
use crate::tdxl::kir::{
    op_inputs, op_output, ops_model, replaced, rewrite_inputs, rewrite_op, FilterCond, FilterModel, KirModel, KirOp,
    KirOpModel, KirProgram, KirValueId,
};
use crate::tdxl::optimizer::{copy_op, id_set, set_id};
use crate::text::{append_chars, chars_of, string_of};

verus! {

// ─── the pipeline ───

/// Whether an operation starts a pipeline (a collection or a source).
pub open spec fn is_source(op: KirOpModel) -> bool {
    op is Collect || op is SourceEntity || op is SourceSearch
}

/// The first index at or after `i` of a source operation.
pub open spec fn first_source_from(ops: Seq<KirOpModel>, i: int) -> Option<usize>
    decreases ops.len() - i,
{
    if i < 0 || i >= ops.len() {
        None
    } else if is_source(ops[i]) {
        Some(i as usize)
    } else {
        first_source_from(ops, i + 1)
    }
}

/// `i` once for each of the inputs that is `v`.
pub open spec fn reads_of(ins: Seq<KirValueId>, v: KirValueId, i: usize) -> Seq<usize>
    decreases ins.len(),
{
    if ins.len() == 0 {
        seq![]
    } else {
        reads_of(ins.drop_last(), v, i) + if ins.last() == v {
            seq![i]
        } else {
            seq![]
        }
    }
}

/// The indices of the first `n` operations that read `v`, once per read.
pub open spec fn consumers(ops: Seq<KirOpModel>, v: KirValueId, n: int) -> Seq<usize>
    decreases n,
{
    if n <= 0 || n > ops.len() {
        seq![]
    } else {
        consumers(ops, v, n - 1) + reads_of(op_inputs(ops[n - 1]), v, (n - 1) as usize)
    }
}

/// The indices not yet on the path, in order.
pub open spec fn unvisited(cs: Seq<usize>, seen: Seq<usize>) -> Seq<usize>
    decreases cs.len(),
{
    if cs.len() == 0 {
        seq![]
    } else {
        let prev = unvisited(cs.drop_last(), seen);
        if seen.contains(cs.last()) {
            prev
        } else {
            prev.push(cs.last())
        }
    }
}

/// The path continued from `current`: while an operation's value has
/// exactly one reader off the path, that reader comes next.
pub open spec fn walk(ops: Seq<KirOpModel>, seen: Seq<usize>, current: usize) -> Seq<usize>
    decreases ops.len() - seen.len(),
{
    if seen.len() >= ops.len() || seen.contains(current) {
        seen
    } else {
        let path = seen.push(current);
        match op_output(ops[current as int]) {
            Some(out) => {
                let nexts = unvisited(consumers(ops, out, ops.len() as int), path);
                if nexts.len() == 1 {
                    walk(ops, path, nexts[0])
                } else {
                    path
                }
            },
            None => path,
        }
    }
}

/// The main pipeline: the path from the first source operation (none
/// without one).
pub open spec fn pipeline_of(ops: Seq<KirOpModel>) -> Seq<usize> {
    match first_source_from(ops, 0) {
        Some(s) => walk(ops, seq![], s),
        None => seq![],
    }
}

proof fn lemma_reads_of(ins: Seq<KirValueId>, v: KirValueId, i: usize)
    ensures
        forall|k: int| 0 <= k < reads_of(ins, v, i).len() ==> #[trigger] reads_of(ins, v, i)[k] == i,
    decreases ins.len(),
{
    if ins.len() > 0 {
        lemma_reads_of(ins.drop_last(), v, i);
        let a = reads_of(ins.drop_last(), v, i);
        let b: Seq<usize> = if ins.last() == v {
            seq![i]
        } else {
            seq![]
        };
        assert(reads_of(ins, v, i) == a + b);
        assert forall|k: int| 0 <= k < reads_of(ins, v, i).len() implies #[trigger] reads_of(ins, v, i)[k] == i by {
            if k < a.len() {
                assert((a + b)[k] == a[k]);
            } else {
                assert((a + b)[k] == b[k - a.len()]);
            }
        }
    }
}

proof fn lemma_consumers_bound(ops: Seq<KirOpModel>, v: KirValueId, n: int)
    ensures
        forall|k: int| 0 <= k < consumers(ops, v, n).len() ==> #[trigger] consumers(ops, v, n)[k] < ops.len() && consumers(ops, v, n)[k] < n,
    decreases n,
{
    if n > 0 && n <= ops.len() {
        lemma_consumers_bound(ops, v, n - 1);
        lemma_reads_of(op_inputs(ops[n - 1]), v, (n - 1) as usize);
        let a = consumers(ops, v, n - 1);
        let b = reads_of(op_inputs(ops[n - 1]), v, (n - 1) as usize);
        assert forall|k: int| 0 <= k < consumers(ops, v, n).len() implies #[trigger] consumers(ops, v, n)[k] < ops.len()
            && consumers(ops, v, n)[k] < n by {
            if k < a.len() {
                assert(consumers(ops, v, n)[k] == a[k]);
            } else {
                assert(consumers(ops, v, n)[k] == b[k - a.len()]);
            }
        }
    }
}

proof fn lemma_unvisited_from(cs: Seq<usize>, seen: Seq<usize>)
    ensures
        forall|k: int| 0 <= k < unvisited(cs, seen).len() ==> cs.contains(#[trigger] unvisited(cs, seen)[k]) && !seen.contains(
            unvisited(cs, seen)[k],
        ),
    decreases cs.len(),
{
    if cs.len() > 0 {
        let p = cs.drop_last();
        lemma_unvisited_from(p, seen);
        assert forall|k: int| 0 <= k < unvisited(cs, seen).len() implies cs.contains(#[trigger] unvisited(cs, seen)[k])
            && !seen.contains(unvisited(cs, seen)[k]) by {
            let u = unvisited(cs, seen);
            if k < unvisited(p, seen).len() {
                assert(u[k] == unvisited(p, seen)[k]);
                let j = choose|j: int| 0 <= j < p.len() && p[j] == u[k];
                assert(cs[j] == u[k]);
            } else {
                assert(u[k] == cs.last());
                assert(cs[cs.len() - 1] == u[k]);
            }
        }
    }
}

/// The index of the first source operation.
fn first_source(ops: &Vec<KirOp>) -> (r: Option<usize>)
    ensures
        r == first_source_from(ops_model(ops@), 0),
{
    let ghost om = ops_model(ops@);
    let mut i: usize = 0;
    while i < ops.len()
        invariant
            i <= ops@.len(),
            om == ops_model(ops@),
            first_source_from(om, i as int) == first_source_from(om, 0),
        decreases ops@.len() - i,
    {
        assert(om[i as int] == ops@[i as int]@);
        match &ops[i] {
            KirOp::Collect { .. } | KirOp::SourceEntity { .. } | KirOp::SourceSearch { .. } => {
                return Some(i);
            },
            _ => {},
        }
        i += 1;
    }
    None
}

/// The operations that read `v`, once per read.
fn consumers_of(ops: &Vec<KirOp>, v: KirValueId) -> (r: Vec<usize>)
    ensures
        r@ == consumers(ops_model(ops@), v, ops@.len() as int),
{
    let ghost om = ops_model(ops@);
    let mut r: Vec<usize> = Vec::new();
    let mut i: usize = 0;
    while i < ops.len()
        invariant
            i <= ops@.len(),
            om == ops_model(ops@),
            r@ == consumers(om, v, i as int),
        decreases ops@.len() - i,
    {
        assert(om[i as int] == ops@[i as int]@);
        let ins = ops[i].input_ids();
        let ghost base = r@;
        let mut j: usize = 0;
        assert(ins@.subrange(0, 0) =~= Seq::<KirValueId>::empty());
        while j < ins.len()
            invariant
                j <= ins@.len(),
                r@ == base + reads_of(ins@.subrange(0, j as int), v, i),
            decreases ins@.len() - j,
        {
            assert(ins@.subrange(0, j + 1).drop_last() =~= ins@.subrange(0, j as int));
            if ins[j] == v {
                r.push(i);
            }
            assert(r@ =~= base + reads_of(ins@.subrange(0, j + 1), v, i));
            j += 1;
        }
        assert(ins@.subrange(0, ins@.len() as int) =~= ins@);
        i += 1;
    }
    r
}

/// Whether an index is on the path.
fn holds_index(v: &Vec<usize>, x: usize) -> (r: bool)
    ensures
        r == v@.contains(x),
{
    let mut i: usize = 0;
    while i < v.len()
        invariant
            i <= v@.len(),
            forall|k: int| 0 <= k < i ==> v@[k] != x,
        decreases v@.len() - i,
    {
        if v[i] == x {
            assert(v@[i as int] == x);
            return true;
        }
        i += 1;
    }
    false
}

/// The indices not yet on the path.
fn unvisited_exec(cs: &Vec<usize>, seen: &Vec<usize>) -> (r: Vec<usize>)
    ensures
        r@ == unvisited(cs@, seen@),
{
    let mut r: Vec<usize> = Vec::new();
    let mut i: usize = 0;
    assert(cs@.subrange(0, 0) =~= Seq::<usize>::empty());
    while i < cs.len()
        invariant
            i <= cs@.len(),
            r@ == unvisited(cs@.subrange(0, i as int), seen@),
        decreases cs@.len() - i,
    {
        assert(cs@.subrange(0, i + 1).drop_last() =~= cs@.subrange(0, i as int));
        if !holds_index(seen, cs[i]) {
            r.push(cs[i]);
        }
        i += 1;
    }
    assert(cs@.subrange(0, cs@.len() as int) =~= cs@);
    r
}

/// The indices of the main pipeline, in order.
pub fn pipeline_ops(ops: &Vec<KirOp>) -> (r: Vec<usize>)
    ensures
        r@ == pipeline_of(ops_model(ops@)),
{
    let ghost om = ops_model(ops@);
    let start = match first_source(ops) {
        Some(s) => s,
        None => return Vec::new(),
    };
    proof {
        lemma_first_source_bound(om, 0);
    }
    let mut pipeline: Vec<usize> = Vec::new();
    let mut current = start;
    loop
        invariant_except_break
            om == ops_model(ops@),
            current < ops@.len(),
            walk(om, pipeline@, current) == pipeline_of(om),
        ensures
            pipeline@ == pipeline_of(om),
        decreases ops@.len() - pipeline@.len(),
    {
        if pipeline.len() >= ops.len() || holds_index(&pipeline, current) {
            break;
        }
        let ghost seen = pipeline@;
        pipeline.push(current);
        assert(om[current as int] == ops@[current as int]@);
        match ops[current].output_id() {
            Some(out) => {
                let cs = consumers_of(ops, out);
                let nexts = unvisited_exec(&cs, &pipeline);
                if nexts.len() == 1 {
                    proof {
                        lemma_consumers_bound(om, out, om.len() as int);
                        lemma_unvisited_from(cs@, pipeline@);
                        let j = choose|j: int| 0 <= j < cs@.len() && cs@[j] == nexts@[0];
                        assert(cs@[j] < ops@.len());
                    }
                    current = nexts[0];
                } else {
                    break;
                }
            },
            None => {
                break;
            },
        }
    }
    pipeline
}

proof fn lemma_first_source_bound(ops: Seq<KirOpModel>, i: int)
    ensures
        first_source_from(ops, i) matches Some(s) ==> s < ops.len(),
    decreases ops.len() - i,
{
    if 0 <= i < ops.len() && !is_source(ops[i]) {
        lemma_first_source_bound(ops, i + 1);
    }
}

// ─── rebuilding a program around a new pipeline ───

/// An operation with its produced value renamed to `id`; operations that
/// produce none are unchanged.
pub open spec fn with_output(op: KirOpModel, id: KirValueId) -> KirOpModel {
    match op {
        KirOpModel::Collect { source_id, .. } => KirOpModel::Collect { output: id, source_id },
        KirOpModel::SourceEntity { kind_id, .. } => KirOpModel::SourceEntity { output: id, kind_id },
        KirOpModel::SourceSearch { query_id, .. } => KirOpModel::SourceSearch { output: id, query_id },
        KirOpModel::Observe { input, .. } => KirOpModel::Observe { output: id, input },
        KirOpModel::Classify { input, .. } => KirOpModel::Classify { output: id, input },
        KirOpModel::LoadGraph { input, .. } => KirOpModel::LoadGraph { output: id, input },
        KirOpModel::Filter { input, filter, .. } => KirOpModel::Filter { output: id, input, filter },
        KirOpModel::Resolve { input, strategy_id, .. } => KirOpModel::Resolve { output: id, input, strategy_id },
        KirOpModel::Traverse { input, relation_id, depth, .. } => KirOpModel::Traverse { output: id, input, relation_id, depth },
        KirOpModel::Correlate { input, target_id, .. } => KirOpModel::Correlate { output: id, input, target_id },
        KirOpModel::Similar { target_id, threshold_pct, .. } => KirOpModel::Similar { output: id, target_id, threshold_pct },
        KirOpModel::Infer { input, rule_id, .. } => KirOpModel::Infer { output: id, input, rule_id },
        KirOpModel::Timeline { query_id, .. } => KirOpModel::Timeline { output: id, query_id },
        KirOpModel::Snapshot { value_id, kind, .. } => KirOpModel::Snapshot { output: id, value_id, kind },
        KirOpModel::ConstStr { value, .. } => KirOpModel::ConstStr { output: id, value },
        KirOpModel::ConstInt { value, .. } => KirOpModel::ConstInt { output: id, value },
        KirOpModel::ConstFloat { value, .. } => KirOpModel::ConstFloat { output: id, value },
        _ => op,
    }
}

/// A rebuild in progress: the operations emitted, the map from old to new
/// value ids, and the next fresh id.
pub type Rebuild = (Seq<KirOpModel>, Seq<(KirValueId, KirValueId)>, nat);

/// The first `n` operations that are off the pipeline, each emitted with a
/// fresh id (even one that produces no value takes an id), reading the new
/// ids of earlier values.
pub open spec fn rebuild_rest(ops: Seq<KirOpModel>, pipe: Seq<usize>, n: int) -> Rebuild
    decreases n,
{
    if n <= 0 {
        (seq![], seq![], 0)
    } else {
        let (out, m, next) = rebuild_rest(ops, pipe, n - 1);
        let op = ops[n - 1];
        if pipe.contains((n - 1) as usize) {
            (out, m, next)
        } else {
            let m2 = match op_output(op) {
                Some(o) => id_set(m, o, next as usize),
                None => m,
            };
            (out.push(rewrite_op(with_output(op, next as usize), |id: KirValueId| replaced(m2, id))), m2, next + 1)
        }
    }
}

/// The first `k` new pipeline operations emitted after a rebuild state: one
/// that produces a value takes a fresh id.
pub open spec fn rebuild_pipe(pipe_ops: Seq<KirOpModel>, k: int, start: Rebuild) -> Rebuild
    decreases k,
{
    if k <= 0 {
        start
    } else {
        let (out, m, next) = rebuild_pipe(pipe_ops, k - 1, start);
        let op = pipe_ops[k - 1];
        match op_output(op) {
            Some(o) => {
                let m2 = id_set(m, o, next as usize);
                (out.push(rewrite_op(with_output(op, next as usize), |id: KirValueId| replaced(m2, id))), m2, next + 1)
            },
            None => (out.push(rewrite_op(op, |id: KirValueId| replaced(m, id))), m, next),
        }
    }
}

/// The program rebuilt with a new main pipeline: the other operations
/// first, then the new pipeline, all values renumbered from zero; the
/// output follows its value.
pub open spec fn rebuilt(p: KirModel, new_pipe: Seq<KirOpModel>) -> KirModel {
    let r = rebuild_pipe(new_pipe, new_pipe.len() as int, rebuild_rest(p.ops, pipeline_of(p.ops), p.ops.len() as int));
    KirModel {
        ops: r.0,
        output: match p.output {
            Some(o) => Some(replaced(r.1, o)),
            None => None,
        },
        next_id: r.2 as usize,
    }
}

proof fn lemma_rebuild_rest_len(ops: Seq<KirOpModel>, pipe: Seq<usize>, n: int)
    requires
        n >= 0,
    ensures
        rebuild_rest(ops, pipe, n).0.len() == rebuild_rest(ops, pipe, n).2,
        rebuild_rest(ops, pipe, n).2 <= n,
    decreases n,
{
    if n > 0 {
        lemma_rebuild_rest_len(ops, pipe, n - 1);
    }
}

proof fn lemma_rebuild_pipe_len(pipe_ops: Seq<KirOpModel>, k: int, start: Rebuild)
    requires
        k >= 0,
    ensures
        rebuild_pipe(pipe_ops, k, start).0.len() == start.0.len() + k,
        rebuild_pipe(pipe_ops, k, start).2 <= start.2 + k,
    decreases k,
{
    if k > 0 {
        lemma_rebuild_pipe_len(pipe_ops, k - 1, start);
    }
}

/// How many of the indices below `n` are on the pipeline.
pub open spec fn on_pipe_below(pipe: Seq<usize>, n: int) -> nat
    decreases n,
{
    if n <= 0 {
        0
    } else {
        on_pipe_below(pipe, n - 1) + if pipe.contains((n - 1) as usize) {
            1nat
        } else {
            0nat
        }
    }
}

proof fn lemma_rebuild_rest_count(ops: Seq<KirOpModel>, pipe: Seq<usize>, n: int)
    requires
        n >= 0,
    ensures
        rebuild_rest(ops, pipe, n).2 + on_pipe_below(pipe, n) == n,
    decreases n,
{
    if n > 0 {
        lemma_rebuild_rest_count(ops, pipe, n - 1);
    }
}

proof fn lemma_on_pipe_below_set(pipe: Seq<usize>, n: int)
    requires
        0 <= n <= usize::MAX + 1,
    ensures
        pipe.to_set().filter(|x: usize| (x as int) < n).finite(),
        on_pipe_below(pipe, n) == pipe.to_set().filter(|x: usize| (x as int) < n).len(),
    decreases n,
{
    broadcast use vstd::seq_lib::seq_to_set_is_finite;

    let t = pipe.to_set().filter(|x: usize| (x as int) < n);
    assert(t.subset_of(pipe.to_set()));
    vstd::set_lib::lemma_set_subset_finite(pipe.to_set(), t);
    if n == 0 {
        assert(t =~= Set::empty());
    } else {
        lemma_on_pipe_below_set(pipe, n - 1);
        let t0 = pipe.to_set().filter(|x: usize| (x as int) < n - 1);
        let k = (n - 1) as usize;
        if pipe.contains(k) {
            assert(t =~= t0.insert(k));
            assert(!t0.contains(k));
        } else {
            assert(t =~= t0);
        }
    }
}

/// Every index of a pipeline without repeats that lies below `n` counts
/// once.
proof fn lemma_on_pipe_count(pipe: Seq<usize>, n: int)
    requires
        0 <= n <= usize::MAX + 1,
        pipe.no_duplicates(),
        forall|k: int| 0 <= k < pipe.len() ==> #[trigger] pipe[k] < n,
    ensures
        on_pipe_below(pipe, n) == pipe.len(),
{
    lemma_on_pipe_below_set(pipe, n);
    assert forall|x: usize| pipe.to_set().contains(x) implies (x as int) < n by {
        let k = choose|k: int| 0 <= k < pipe.len() && pipe[k] == x;
        assert(pipe[k] < n);
    }
    assert(pipe.to_set().filter(|x: usize| (x as int) < n) =~= pipe.to_set());
    pipe.unique_seq_to_set();
}

/// An operation with its produced value renamed to `id`.
fn with_output_exec(op: &KirOp, id: KirValueId) -> (r: KirOp)
    ensures
        r@ == with_output(op@, id),
{
    let c = copy_op(op);
    match c {
        KirOp::Collect { source_id, .. } => KirOp::Collect { output: id, source_id },
        KirOp::SourceEntity { kind_id, .. } => KirOp::SourceEntity { output: id, kind_id },
        KirOp::SourceSearch { query_id, .. } => KirOp::SourceSearch { output: id, query_id },
        KirOp::Observe { input, .. } => KirOp::Observe { output: id, input },
        KirOp::Classify { input, .. } => KirOp::Classify { output: id, input },
        KirOp::LoadGraph { input, .. } => KirOp::LoadGraph { output: id, input },
        KirOp::Filter { input, filter, .. } => KirOp::Filter { output: id, input, filter },
        KirOp::Resolve { input, strategy_id, .. } => KirOp::Resolve { output: id, input, strategy_id },
        KirOp::Traverse { input, relation_id, depth, .. } => KirOp::Traverse { output: id, input, relation_id, depth },
        KirOp::Correlate { input, target_id, .. } => KirOp::Correlate { output: id, input, target_id },
        KirOp::Similar { target_id, threshold_pct, .. } => KirOp::Similar { output: id, target_id, threshold_pct },
        KirOp::Infer { input, rule_id, .. } => KirOp::Infer { output: id, input, rule_id },
        KirOp::Timeline { query_id, .. } => KirOp::Timeline { output: id, query_id },
        KirOp::Snapshot { value_id, kind, .. } => KirOp::Snapshot { output: id, value_id, kind },
        KirOp::ConstStr { value, .. } => KirOp::ConstStr { output: id, value },
        KirOp::ConstInt { value, .. } => KirOp::ConstInt { output: id, value },
        KirOp::ConstFloat { value, .. } => KirOp::ConstFloat { output: id, value },
        other => other,
    }
}

/// Rebuilds a program around a new main pipeline: the operations off the
/// current pipeline keep their order, the new pipeline follows, and every
/// value is renumbered.
pub fn rebuild_from_pipeline(program: &KirProgram, new_pipe: &Vec<KirOp>) -> (r: KirProgram)
    requires
        program@.ops.len() - pipeline_of(program@.ops).len() + new_pipe@.len() <= usize::MAX,
    ensures
        r@ == rebuilt(program@, ops_model(new_pipe@)),
        r@.ops.len() == program@.ops.len() - pipeline_of(program@.ops).len() + new_pipe@.len(),
{
    let pipe = pipeline_ops(&program.ops);
    let n = program.ops.len();
    proof {
        lemma_pipeline_bounds(program@.ops);
        assert(program@.ops.len() == n);
        lemma_on_pipe_count(pipe@, program@.ops.len() as int);
    }
    let ghost om = program@.ops;
    let ghost nm = ops_model(new_pipe@);
    let mut new_prog = KirProgram::new();
    let mut id_map: Vec<(KirValueId, KirValueId)> = Vec::new();
    let mut i: usize = 0;
    while i < program.ops.len()
        invariant
            i <= program.ops@.len(),
            om == program@.ops,
            om.len() == program.ops@.len(),
            pipe@ == pipeline_of(om),
            (new_prog@.ops, id_map@, new_prog@.next_id as nat) == rebuild_rest(om, pipe@, i as int),
            new_prog@.output is None,
        decreases program.ops@.len() - i,
    {
        proof {
            lemma_rebuild_rest_len(om, pipe@, i as int);
            lemma_rebuild_rest_count(om, pipe@, i as int);
        }
        assert(om[i as int] == program.ops@[i as int]@);
        if !holds_index(&pipe, i) {
            let op = &program.ops[i];
            let new_id = new_prog.alloc_id();
            let mapped = with_output_exec(op, new_id);
            match op.output_id() {
                Some(old_out) => set_id(&mut id_map, old_out, new_id),
                None => {},
            }
            new_prog.push(rewrite_inputs(&mapped, &id_map));
        }
        i += 1;
    }
    proof {
        lemma_rebuild_rest_len(om, pipe@, om.len() as int);
        lemma_rebuild_rest_count(om, pipe@, om.len() as int);
    }
    let ghost start = rebuild_rest(om, pipe@, om.len() as int);
    let mut j: usize = 0;
    while j < new_pipe.len()
        invariant
            j <= new_pipe@.len(),
            nm == ops_model(new_pipe@),
            start.2 + pipe@.len() == om.len(),
            start.0.len() == start.2,
            om.len() - pipe@.len() + new_pipe@.len() <= usize::MAX,
            (new_prog@.ops, id_map@, new_prog@.next_id as nat) == rebuild_pipe(nm, j as int, start),
            new_prog@.output is None,
        decreases new_pipe@.len() - j,
    {
        proof {
            lemma_rebuild_pipe_len(nm, j as int, start);
        }
        assert(nm[j as int] == new_pipe@[j as int]@);
        let op = &new_pipe[j];
        match op.output_id() {
            Some(old_out) => {
                let new_id = new_prog.alloc_id();
                set_id(&mut id_map, old_out, new_id);
                let mapped = with_output_exec(op, new_id);
                new_prog.push(rewrite_inputs(&mapped, &id_map));
            },
            None => {
                new_prog.push(rewrite_inputs(op, &id_map));
            },
        }
        j += 1;
    }
    proof {
        lemma_rebuild_pipe_len(nm, new_pipe@.len() as int, start);
    }
    new_prog.output = match program.output {
        Some(o) => Some(crate::tdxl::kir::replace_id(&id_map, o)),
        None => None,
    };
    new_prog
}

// ─── the passes ───

/// The operations at the given indices.
pub open spec fn pipe_models(ops: Seq<KirOpModel>, pipe: Seq<usize>) -> Seq<KirOpModel> {
    pipe.map_values(|i: usize| ops[i as int])
}

proof fn lemma_walk(ops: Seq<KirOpModel>, seen: Seq<usize>, current: usize)
    requires
        seen.len() <= ops.len(),
        seen.no_duplicates(),
        forall|k: int| 0 <= k < seen.len() ==> #[trigger] seen[k] < ops.len(),
        current < ops.len(),
    ensures
        walk(ops, seen, current).len() <= ops.len(),
        walk(ops, seen, current).no_duplicates(),
        forall|k: int| 0 <= k < walk(ops, seen, current).len() ==> #[trigger] walk(ops, seen, current)[k] < ops.len(),
    decreases ops.len() - seen.len(),
{
    if !(seen.len() >= ops.len() || seen.contains(current)) {
        let path = seen.push(current);
        assert forall|k: int| 0 <= k < path.len() implies #[trigger] path[k] < ops.len() by {
            if k < seen.len() {
                assert(path[k] == seen[k]);
            }
        }
        assert forall|a: int, b: int| 0 <= a < path.len() && 0 <= b < path.len() && a != b implies path[a]
            != path[b] by {
            if a < seen.len() && b < seen.len() {
                assert(path[a] == seen[a] && path[b] == seen[b]);
            } else if a < seen.len() {
                assert(path[a] == seen[a]);
            } else if b < seen.len() {
                assert(path[b] == seen[b]);
            }
        }
        match op_output(ops[current as int]) {
            Some(out) => {
                let cs = consumers(ops, out, ops.len() as int);
                let nexts = unvisited(cs, path);
                if nexts.len() == 1 {
                    lemma_consumers_bound(ops, out, ops.len() as int);
                    lemma_unvisited_from(cs, path);
                    let j = choose|j: int| 0 <= j < cs.len() && cs[j] == nexts[0];
                    assert(cs[j] < ops.len());
                    lemma_walk(ops, path, nexts[0]);
                }
            },
            None => {},
        }
    }
}

/// The pipeline is at most as long as the program, indexes into it, and
/// holds no index twice.
pub proof fn lemma_pipeline_bounds(ops: Seq<KirOpModel>)
    ensures
        pipeline_of(ops).len() <= ops.len(),
        pipeline_of(ops).no_duplicates(),
        forall|k: int| 0 <= k < pipeline_of(ops).len() ==> #[trigger] pipeline_of(ops)[k] < ops.len(),
{
    lemma_first_source_bound(ops, 0);
    match first_source_from(ops, 0) {
        Some(s) => lemma_walk(ops, seq![], s),
        None => {},
    }
}

/// Copies of the operations at the given indices.
fn pipe_copies(ops: &Vec<KirOp>, pipe: &Vec<usize>) -> (r: Vec<KirOp>)
    requires
        forall|k: int| 0 <= k < pipe@.len() ==> #[trigger] pipe@[k] < ops@.len(),
    ensures
        ops_model(r@) == pipe_models(ops_model(ops@), pipe@),
{
    let mut r: Vec<KirOp> = Vec::new();
    let mut i: usize = 0;
    while i < pipe.len()
        invariant
            i <= pipe@.len(),
            forall|k: int| 0 <= k < pipe@.len() ==> #[trigger] pipe@[k] < ops@.len(),
            ops_model(r@) == pipe_models(ops_model(ops@), pipe@).subrange(0, i as int),
        decreases pipe@.len() - i,
    {
        let ghost before = ops_model(r@);
        assert(pipe@[i as int] < ops@.len());
        let c = copy_op(&ops[pipe[i]]);
        assert(pipe_models(ops_model(ops@), pipe@)[i as int] == ops_model(ops@)[pipe@[i as int] as int]);
        assert(ops_model(ops@)[pipe@[i as int] as int] == ops@[pipe@[i as int] as int]@);
        let ghost cm = c@;
        r.push(c);
        assert(ops_model(r@) =~= before.push(cm));
        assert(ops_model(r@) =~= pipe_models(ops_model(ops@), pipe@).subrange(0, i + 1));
        i += 1;
    }
    assert(pipe_models(ops_model(ops@), pipe@).subrange(0, pipe@.len() as int) =~= pipe_models(ops_model(ops@), pipe@));
    r
}

/// The condition of two filters merged: both conditions written out and
/// joined by `AND`.
pub open spec fn compound_filter(f1: FilterModel, f2: FilterModel) -> FilterModel {
    (
        f1.0 + "_and_"@ + f2.0,
        "compound"@,
        f1.0 + " "@ + f1.1 + " "@ + f1.2 + " AND "@ + f2.0 + " "@ + f2.1 + " "@ + f2.2,
    )
}

/// The operations from `i` on with each pair of consecutive filters merged
/// into one, reading the first's input and producing the second's value.
pub open spec fn merged_from(ops: Seq<KirOpModel>, i: int) -> Seq<KirOpModel>
    decreases ops.len() - i,
{
    if i < 0 || i >= ops.len() {
        seq![]
    } else if i + 1 < ops.len() && ops[i] is Filter && ops[i + 1] is Filter {
        match (ops[i], ops[i + 1]) {
            (KirOpModel::Filter { input, filter: f1, .. }, KirOpModel::Filter { output, filter: f2, .. }) => seq![
                KirOpModel::Filter { output, input, filter: compound_filter(f1, f2) },
            ] + merged_from(ops, i + 2),
            _ => seq![],
        }
    } else {
        seq![ops[i]] + merged_from(ops, i + 1)
    }
}

/// Predicate pushdown: the pipeline with consecutive filters merged.
pub open spec fn pushed_down(p: KirModel) -> KirModel {
    let pipe = pipeline_of(p.ops);
    if pipe.len() == 0 {
        p
    } else {
        rebuilt(p, merged_from(pipe_models(p.ops, pipe), 0))
    }
}

proof fn lemma_merged_len(ops: Seq<KirOpModel>, i: int)
    requires
        0 <= i,
    ensures
        merged_from(ops, i).len() <= if i < ops.len() { ops.len() - i } else { 0 },
    decreases ops.len() - i,
{
    if i < ops.len() {
        if i + 1 < ops.len() && ops[i] is Filter && ops[i + 1] is Filter {
            lemma_merged_len(ops, i + 2);
        } else {
            lemma_merged_len(ops, i + 1);
        }
    }
}

fn texts_joined(a: &String, b: &str, c: &String) -> (r: String)
    ensures
        r@ == a@ + b@ + c@,
{
    let mut r = string_of(chars_of(a.as_str()).as_slice());
    append_chars(&mut r, chars_of(b).as_slice());
    append_chars(&mut r, chars_of(c.as_str()).as_slice());
    r
}

/// The merged condition of two filters.
fn compound_filter_exec(f1: &FilterCond, f2: &FilterCond) -> (r: FilterCond)
    ensures
        r@ == compound_filter(f1@, f2@),
{
    let mut value = texts_joined(&f1.field, " ", &f1.op);
    append_chars(&mut value, chars_of(" ").as_slice());
    append_chars(&mut value, chars_of(f1.value.as_str()).as_slice());
    append_chars(&mut value, chars_of(" AND ").as_slice());
    append_chars(&mut value, chars_of(f2.field.as_str()).as_slice());
    append_chars(&mut value, chars_of(" ").as_slice());
    append_chars(&mut value, chars_of(f2.op.as_str()).as_slice());
    append_chars(&mut value, chars_of(" ").as_slice());
    append_chars(&mut value, chars_of(f2.value.as_str()).as_slice());
    FilterCond {
        field: texts_joined(&f1.field, "_and_", &f2.field),
        op: string_of(chars_of("compound").as_slice()),
        value,
    }
}

/// Merges consecutive filters of the main pipeline into one.
pub fn predicate_pushdown(program: KirProgram) -> (r: KirProgram)
    ensures
        r@ == pushed_down(program@),
        r@.ops.len() <= program@.ops.len(),
{
    let pipe = pipeline_ops(&program.ops);
    if pipe.len() == 0 {
        return program;
    }
    let n = program.ops.len();
    proof {
        lemma_pipeline_bounds(program@.ops);
        assert(program@.ops.len() == n);
    }
    let pipe_ops = pipe_copies(&program.ops, &pipe);
    assert(pipe_ops@.len() == pipe@.len()) by {
        assert(ops_model(pipe_ops@).len() == pipe_ops@.len());
    }
    let ghost pm = ops_model(pipe_ops@);
    let mut merged: Vec<KirOp> = Vec::new();
    let mut i: usize = 0;
    while i < pipe_ops.len()
        invariant
            i <= pipe_ops@.len(),
            pm == ops_model(pipe_ops@),
            merged@.len() <= i,
            ops_model(merged@) + merged_from(pm, i as int) == merged_from(pm, 0),
        decreases pipe_ops@.len() - i,
    {
        let ghost before = ops_model(merged@);
        assert(pm[i as int] == pipe_ops@[i as int]@);
        if i + 1 < pipe_ops.len() {
            assert(pm[i + 1] == pipe_ops@[i + 1]@);
            match &pipe_ops[i] {
                KirOp::Filter { input, filter: f1, .. } => match &pipe_ops[i + 1] {
                    KirOp::Filter { output, filter: f2, .. } => {
                        let x = KirOp::Filter { output: *output, input: *input, filter: compound_filter_exec(f1, f2) };
                        let ghost xm = x@;
                        merged.push(x);
                        assert(ops_model(merged@) =~= before.push(xm));
                        assert(merged_from(pm, i as int) == seq![xm] + merged_from(pm, i + 2));
                        assert(ops_model(merged@) + merged_from(pm, i + 2) =~= before + merged_from(pm, i as int));
                        i += 2;
                        continue;
                    },
                    _ => {},
                },
                _ => {},
            }
        }
        let x = copy_op(&pipe_ops[i]);
        let ghost xm = x@;
        merged.push(x);
        assert(ops_model(merged@) =~= before.push(xm));
        assert(merged_from(pm, i as int) == seq![xm] + merged_from(pm, i + 1));
        assert(ops_model(merged@) + merged_from(pm, i + 1) =~= before + merged_from(pm, i as int));
        i += 1;
    }
    assert(ops_model(merged@) =~= merged_from(pm, 0));
    rebuild_from_pipeline(&program, &merged)
}

/// Five to the power `n`: the estimated fan-out of an `n`-deep traversal.
pub open spec fn pow5(n: nat) -> nat
    decreases n,
{
    if n == 0 {
        1
    } else {
        5 * pow5((n - 1) as nat)
    }
}

/// Whether `k` is the least exponent with `5^k >= l` (the ceiling of the
/// base-5 logarithm of `l`, zero for `l` at most one).
pub open spec fn is_log5_ceil(l: nat, k: nat) -> bool {
    pow5(k) >= l && (k == 0 || pow5((k - 1) as nat) < l)
}

/// The least exponent with `5^k >= l`.
pub open spec fn log5_ceil(l: nat) -> nat {
    choose|k: nat| is_log5_ceil(l, k)
}

proof fn lemma_pow5_grows(a: nat, b: nat)
    requires
        a < b,
    ensures
        pow5(a) < pow5(b),
    decreases b,
{
    lemma_pow5_at_least(a);
    if a + 1 < b {
        lemma_pow5_grows(a, (b - 1) as nat);
    }
}

proof fn lemma_pow5_at_least(k: nat)
    ensures
        pow5(k) >= 1,
    decreases k,
{
    if k > 0 {
        lemma_pow5_at_least((k - 1) as nat);
    }
}

proof fn lemma_log5_unique(l: nat, k: nat)
    requires
        is_log5_ceil(l, k),
    ensures
        log5_ceil(l) == k,
{
    let c = log5_ceil(l);
    assert(is_log5_ceil(l, c));
    if c < k {
        lemma_pow5_grows(c, (k - 1) as nat);
        if c < (k - 1) as nat {
        }
    } else if k < c {
        if k < (c - 1) as nat {
            lemma_pow5_grows(k, (c - 1) as nat);
        }
    }
}

/// The depth a traversal is cut to under a limit hint, if it is cut: a
/// traversal of depth `d` (one when unset) whose fan-out `5^d` exceeds
/// twice the limit is cut to `max(log5_ceil(limit), 1)` where that is less.
pub open spec fn pruned_depth(depth: Option<i32>, limit: usize) -> Option<i32> {
    let d: int = match depth {
        Some(x) => x as int,
        None => 1,
    };
    let k: int = if log5_ceil(limit as nat) >= 1 {
        log5_ceil(limit as nat) as int
    } else {
        1
    };
    if d >= 2 && pow5(d as nat) > 2 * limit && k < d {
        Some(k as i32)
    } else {
        None
    }
}

/// The limit of the first limit hint at or after `i`.
pub open spec fn first_limit(ops: Seq<KirOpModel>, i: int) -> Option<usize>
    decreases ops.len() - i,
{
    if i < 0 || i >= ops.len() {
        None
    } else {
        match ops[i] {
            KirOpModel::LimitHint { limit, .. } => Some(limit),
            _ => first_limit(ops, i + 1),
        }
    }
}

/// The new depth of operation `i`, if it is a traversal that a later limit
/// hint cuts.
pub open spec fn prune_at(ops: Seq<KirOpModel>, i: int) -> Option<i32> {
    match ops[i] {
        KirOpModel::Traverse { depth, .. } => match first_limit(ops, i + 1) {
            Some(l) => pruned_depth(depth, l),
            None => None,
        },
        _ => None,
    }
}

/// The operations with every cut traversal at its new depth.
pub open spec fn pruned_ops(ops: Seq<KirOpModel>) -> Seq<KirOpModel> {
    Seq::new(
        ops.len(),
        |i: int|
            match (prune_at(ops, i), ops[i]) {
                (Some(nd), KirOpModel::Traverse { output, input, relation_id, .. }) => KirOpModel::Traverse {
                    output,
                    input,
                    relation_id,
                    depth: Some(nd),
                },
                _ => ops[i],
            },
    )
}

/// Traversal pruning: where a pipeline traversal is cut, the program is
/// rebuilt with the cut pipeline; otherwise it is left as it is.
pub open spec fn pruned(p: KirModel) -> KirModel {
    let pipe = pipeline_of(p.ops);
    let pm = pipe_models(p.ops, pipe);
    if pipe.len() > 0 && exists|i: int| 0 <= i < pm.len() && (#[trigger] prune_at(pm, i)) is Some {
        rebuilt(p, pruned_ops(pm))
    } else {
        p
    }
}

/// `log5_ceil(l)`.
fn log5_ceil_exec(l: usize) -> (k: usize)
    ensures
        k as nat == log5_ceil(l as nat),
{
    let mut k: usize = 0;
    let mut p: u128 = 1;
    while p < l as u128
        invariant
            p == pow5(k as nat),
            k == 0 || pow5((k - 1) as nat) < l,
            k + 1 <= p,
            k == 0 || p <= 5 * (l as u128),
        decreases l as int - k as int,
    {
        assert(pow5((k + 1) as nat) == 5 * pow5(k as nat));
        p = p * 5;
        k = k + 1;
    }
    proof {
        lemma_log5_unique(l as nat, k as nat);
    }
    k
}

/// The depth a traversal is cut to under a limit, if it is cut.
fn pruned_depth_exec(depth: Option<i32>, limit: usize) -> (r: Option<i32>)
    ensures
        r == pruned_depth(depth, limit),
{
    let d: i32 = match depth {
        Some(x) => x,
        None => 1,
    };
    if d < 2 {
        return None;
    }
    // Whether 5^d exceeds twice the limit, multiplying until it does.
    let bound: u128 = 2 * (limit as u128);
    let mut p: u128 = 1;
    let mut j: i32 = 0;
    while p <= bound && j < d
        invariant
            0 <= j <= d,
            p == pow5(j as nat),
            bound == 2 * limit,
        decreases d - j,
    {
        assert(pow5((j + 1) as nat) == 5 * pow5(j as nat));
        p = p * 5;
        j = j + 1;
    }
    proof {
        if p > bound && j < d {
            lemma_pow5_grows(j as nat, d as nat);
        }
    }
    if p <= bound {
        return None;
    }
    let lk = log5_ceil_exec(limit);
    if lk >= 1 {
        if lk < d as usize {
            Some(lk as i32)
        } else {
            None
        }
    } else {
        Some(1)
    }
}

/// The limit of the first limit hint at or after `i`.
fn first_limit_exec(ops: &Vec<KirOp>, i: usize) -> (r: Option<usize>)
    ensures
        r == first_limit(ops_model(ops@), i as int),
{
    let ghost om = ops_model(ops@);
    let mut j: usize = i;
    while j < ops.len()
        invariant
            i <= j,
            om == ops_model(ops@),
            first_limit(om, j as int) == first_limit(om, i as int),
        decreases ops@.len() - j,
    {
        assert(om[j as int] == ops@[j as int]@);
        match &ops[j] {
            KirOp::LimitHint { limit, .. } => {
                return Some(*limit);
            },
            _ => {},
        }
        j += 1;
    }
    None
}

/// Cuts the depth of each pipeline traversal whose fan-out exceeds twice
/// the limit of a later limit hint; where one is cut, the program is
/// rebuilt.
pub fn traversal_pruning(program: KirProgram) -> (r: KirProgram)
    ensures
        r@ == pruned(program@),
        r@.ops.len() <= program@.ops.len(),
{
    let pipe = pipeline_ops(&program.ops);
    if pipe.len() == 0 {
        return program;
    }
    let n = program.ops.len();
    proof {
        lemma_pipeline_bounds(program@.ops);
        assert(program@.ops.len() == n);
    }
    let pipe_ops = pipe_copies(&program.ops, &pipe);
    assert(pipe_ops@.len() == pipe@.len()) by {
        assert(ops_model(pipe_ops@).len() == pipe_ops@.len());
    }
    let ghost pm = ops_model(pipe_ops@);
    let mut out: Vec<KirOp> = Vec::new();
    let mut modified = false;
    let mut i: usize = 0;
    while i < pipe_ops.len()
        invariant
            i <= pipe_ops@.len(),
            pm == ops_model(pipe_ops@),
            ops_model(out@) == pruned_ops(pm).subrange(0, i as int),
            modified == exists|k: int| 0 <= k < i && (#[trigger] prune_at(pm, k)) is Some,
        decreases pipe_ops@.len() - i,
    {
        let ghost before = ops_model(out@);
        assert(pm[i as int] == pipe_ops@[i as int]@);
        let cut = match &pipe_ops[i] {
            KirOp::Traverse { depth, .. } => match first_limit_exec(&pipe_ops, i + 1) {
                Some(l) => pruned_depth_exec(*depth, l),
                None => None,
            },
            _ => None,
        };
        assert(cut == prune_at(pm, i as int));
        let x = match cut {
            Some(nd) => match &pipe_ops[i] {
                KirOp::Traverse { output, input, relation_id, .. } => {
                    modified = true;
                    KirOp::Traverse { output: *output, input: *input, relation_id: *relation_id, depth: Some(nd) }
                },
                _ => copy_op(&pipe_ops[i]),
            },
            None => copy_op(&pipe_ops[i]),
        };
        let ghost xm = x@;
        assert(xm == pruned_ops(pm)[i as int]);
        out.push(x);
        assert(ops_model(out@) =~= before.push(xm));
        assert(ops_model(out@) =~= pruned_ops(pm).subrange(0, i + 1));
        i += 1;
    }
    assert(ops_model(out@) =~= pruned_ops(pm));
    if modified {
        rebuild_from_pipeline(&program, &out)
    } else {
        program
    }
}

/// The pipeline with each filter that follows another reading the previous
/// one's value.
pub open spec fn rewired(ops: Seq<KirOpModel>) -> Seq<KirOpModel> {
    Seq::new(
        ops.len(),
        |j: int|
            if j > 0 {
                match (ops[j], ops[j - 1]) {
                    (KirOpModel::Filter { output, filter, .. }, KirOpModel::Filter { output: prev, .. }) => KirOpModel::Filter {
                        output,
                        input: prev,
                        filter,
                    },
                    _ => ops[j],
                }
            } else {
                ops[j]
            },
    )
}

/// Join reordering: in each run of consecutive pipeline filters, the
/// filters ordered by selectivity (every filter has the default one, so
/// they keep their order) and each reading the previous one's value. A
/// pipeline of at least two operations is rebuilt.
pub open spec fn joined(p: KirModel) -> KirModel {
    let pipe = pipeline_of(p.ops);
    if pipe.len() < 2 {
        p
    } else {
        rebuilt(p, rewired(pipe_models(p.ops, pipe)))
    }
}

/// Orders each run of consecutive pipeline filters by selectivity and
/// chains them.
pub fn join_reordering(program: KirProgram) -> (r: KirProgram)
    ensures
        r@ == joined(program@),
        r@.ops.len() <= program@.ops.len(),
{
    let pipe = pipeline_ops(&program.ops);
    if pipe.len() < 2 {
        return program;
    }
    let n = program.ops.len();
    proof {
        lemma_pipeline_bounds(program@.ops);
        assert(program@.ops.len() == n);
    }
    let pipe_ops = pipe_copies(&program.ops, &pipe);
    assert(pipe_ops@.len() == pipe@.len()) by {
        assert(ops_model(pipe_ops@).len() == pipe_ops@.len());
    }
    let ghost pm = ops_model(pipe_ops@);
    let mut out: Vec<KirOp> = Vec::new();
    let mut j: usize = 0;
    while j < pipe_ops.len()
        invariant
            j <= pipe_ops@.len(),
            pm == ops_model(pipe_ops@),
            ops_model(out@) == rewired(pm).subrange(0, j as int),
        decreases pipe_ops@.len() - j,
    {
        let ghost before = ops_model(out@);
        assert(pm[j as int] == pipe_ops@[j as int]@);
        let x = if j > 0 {
            assert(pm[j - 1] == pipe_ops@[j - 1]@);
            match &pipe_ops[j] {
                KirOp::Filter { output, filter, .. } => match &pipe_ops[j - 1] {
                    KirOp::Filter { output: prev, .. } => KirOp::Filter {
                        output: *output,
                        input: *prev,
                        filter: filter.copy(),
                    },
                    _ => copy_op(&pipe_ops[j]),
                },
                _ => copy_op(&pipe_ops[j]),
            }
        } else {
            copy_op(&pipe_ops[j])
        };
        let ghost xm = x@;
        assert(xm == rewired(pm)[j as int]);
        out.push(x);
        assert(ops_model(out@) =~= before.push(xm));
        assert(ops_model(out@) =~= rewired(pm).subrange(0, j + 1));
        j += 1;
    }
    assert(ops_model(out@) =~= rewired(pm));
    rebuild_from_pipeline(&program, &out)
}

/// The operations from `i` on with adjacent redundant pairs fused: a
/// collection followed by a graph load becomes one collection producing the
/// load's value, and an observation followed by a classification keeps only
/// the observation.
pub open spec fn fused_from(ops: Seq<KirOpModel>, i: int) -> Seq<KirOpModel>
    decreases ops.len() - i,
{
    if i < 0 || i >= ops.len() {
        seq![]
    } else if i + 1 < ops.len() && ops[i] is Collect && ops[i + 1] is LoadGraph {
        match (ops[i], ops[i + 1]) {
            (KirOpModel::Collect { source_id, .. }, KirOpModel::LoadGraph { output, .. }) => seq![
                KirOpModel::Collect { output, source_id },
            ] + fused_from(ops, i + 2),
            _ => seq![],
        }
    } else if i + 1 < ops.len() && ops[i] is Observe && ops[i + 1] is Classify {
        seq![ops[i]] + fused_from(ops, i + 2)
    } else {
        seq![ops[i]] + fused_from(ops, i + 1)
    }
}

/// Operator fusion along the pipeline.
pub open spec fn fused(p: KirModel) -> KirModel {
    let pipe = pipeline_of(p.ops);
    if pipe.len() == 0 {
        p
    } else {
        rebuilt(p, fused_from(pipe_models(p.ops, pipe), 0))
    }
}

proof fn lemma_fused_len(ops: Seq<KirOpModel>, i: int)
    requires
        0 <= i,
    ensures
        fused_from(ops, i).len() <= if i < ops.len() { ops.len() - i } else { 0 },
    decreases ops.len() - i,
{
    if i < ops.len() {
        if i + 1 < ops.len() && ((ops[i] is Collect && ops[i + 1] is LoadGraph) || (ops[i] is Observe
            && ops[i + 1] is Classify)) {
            lemma_fused_len(ops, i + 2);
        } else {
            lemma_fused_len(ops, i + 1);
        }
    }
}

/// Fuses adjacent redundant operations of the main pipeline.
pub fn operator_fusion(program: KirProgram) -> (r: KirProgram)
    ensures
        r@ == fused(program@),
        r@.ops.len() <= program@.ops.len(),
{
    let pipe = pipeline_ops(&program.ops);
    if pipe.len() == 0 {
        return program;
    }
    let n = program.ops.len();
    proof {
        lemma_pipeline_bounds(program@.ops);
        assert(program@.ops.len() == n);
    }
    let pipe_ops = pipe_copies(&program.ops, &pipe);
    assert(pipe_ops@.len() == pipe@.len()) by {
        assert(ops_model(pipe_ops@).len() == pipe_ops@.len());
    }
    let ghost pm = ops_model(pipe_ops@);
    let mut out: Vec<KirOp> = Vec::new();
    let mut i: usize = 0;
    while i < pipe_ops.len()
        invariant
            i <= pipe_ops@.len(),
            pm == ops_model(pipe_ops@),
            out@.len() <= i,
            ops_model(out@) + fused_from(pm, i as int) == fused_from(pm, 0),
        decreases pipe_ops@.len() - i,
    {
        let ghost before = ops_model(out@);
        assert(pm[i as int] == pipe_ops@[i as int]@);
        if i + 1 < pipe_ops.len() {
            assert(pm[i + 1] == pipe_ops@[i + 1]@);
            match &pipe_ops[i] {
                KirOp::Collect { source_id, .. } => match &pipe_ops[i + 1] {
                    KirOp::LoadGraph { output, .. } => {
                        let x = KirOp::Collect { output: *output, source_id: *source_id };
                        let ghost xm = x@;
                        out.push(x);
                        assert(ops_model(out@) =~= before.push(xm));
                        assert(fused_from(pm, i as int) == seq![xm] + fused_from(pm, i + 2));
                        assert(ops_model(out@) + fused_from(pm, i + 2) =~= before + fused_from(pm, i as int));
                        i += 2;
                        continue;
                    },
                    _ => {},
                },
                KirOp::Observe { .. } => match &pipe_ops[i + 1] {
                    KirOp::Classify { .. } => {
                        let x = copy_op(&pipe_ops[i]);
                        let ghost xm = x@;
                        out.push(x);
                        assert(ops_model(out@) =~= before.push(xm));
                        assert(fused_from(pm, i as int) == seq![xm] + fused_from(pm, i + 2));
                        assert(ops_model(out@) + fused_from(pm, i + 2) =~= before + fused_from(pm, i as int));
                        i += 2;
                        continue;
                    },
                    _ => {},
                },
                _ => {},
            }
        }
        let x = copy_op(&pipe_ops[i]);
        let ghost xm = x@;
        out.push(x);
        assert(ops_model(out@) =~= before.push(xm));
        assert(fused_from(pm, i as int) == seq![xm] + fused_from(pm, i + 1));
        assert(ops_model(out@) + fused_from(pm, i + 1) =~= before + fused_from(pm, i as int));
        i += 1;
    }
    assert(ops_model(out@) =~= fused_from(pm, 0));
    rebuild_from_pipeline(&program, &out)
}

/// All four passes in order: predicate pushdown, traversal pruning, join
/// reordering, operator fusion.
pub open spec fn query_optimized(p: KirModel) -> KirModel {
    fused(joined(pruned(pushed_down(p))))
}

/// Runs the four dataflow passes over a program.
pub fn optimize_query(program: KirProgram) -> (r: KirProgram)
    ensures
        r@ == query_optimized(program@),
        r@.ops.len() <= program@.ops.len(),
{
    let program = predicate_pushdown(program);
    let program = traversal_pruning(program);
    let program = join_reordering(program);
    operator_fusion(program)
}

/// Optimisation keeps a program's output: an output stays (renumbered),
/// and none is added.
pub proof fn lemma_optimized_keeps_output(p: KirModel)
    ensures
        (query_optimized(p).output is Some) == (p.output is Some),
{
}

/// A program without a source operation has no pipeline, and optimisation
/// leaves it as it is.
pub proof fn lemma_sourceless_unchanged(p: KirModel)
    requires
        first_source_from(p.ops, 0) is None,
    ensures
        query_optimized(p) == p,
{
}

} // verus!
