//! Lowering of TDXL statements to the knowledge IR. Each statement extends
//! the pipeline: its output becomes the input of the next one.
use vstd::prelude::*;
use crate::json::{json_string_map, to_json_string_map};
use crate::observation::meta_texts;
use crate::tdxl::ast::{BinExpr, BinExprModel, Order, Stmt, StmtModel, Value, ValueModel, bin_expr_model, stmt_model, stmts_model, value_text};
use crate::tdxl::error::Error;
use crate::tdxl::kir::{FilterCond, KirModel, KirOp, KirOpModel, KirProgram, KirValueId, op_inputs, op_output};
use crate::tdxl::lexer::{Lexer, is_lex_error, lex, tokens_model};
use crate::tdxl::optimizer::{optimize, optimized};
use crate::tdxl::parser::{Parser, is_parse_error, parse_tokens};
use crate::tdxl::query_optimizer::{optimize_query, query_optimized};
use crate::tdxl::token::BinOp;
use crate::text::{chars_of, string_of};

verus! {

/// A fresh identifier: the program with its counter moved on, and the
/// identifier.
pub open spec fn fresh_id(m: KirModel) -> (KirModel, KirValueId) {
    (KirModel { next_id: (m.next_id + 1) as usize, ..m }, m.next_id)
}

/// The program with one more operation.
pub open spec fn push_op(m: KirModel, op: KirOpModel) -> KirModel {
    KirModel { ops: m.ops.push(op), ..m }
}

/// A string constant: a fresh identifier holding `s`.
pub open spec fn lower_raw(m: KirModel, s: Seq<char>) -> (KirModel, KirValueId) {
    let (m1, id) = fresh_id(m);
    (push_op(m1, KirOpModel::ConstStr { output: id, value: s }), id)
}

/// The pipeline input: the given one, or else a collection of everything
/// (`_`) made for the purpose.
pub open spec fn ensure_input(m: KirModel, input: Option<KirValueId>) -> (KirModel, KirValueId) {
    match input {
        Some(i) => (m, i),
        None => {
            let (m1, dummy) = fresh_id(m);
            let (m2, kind) = fresh_id(m1);
            let m3 = push_op(m2, KirOpModel::ConstStr { output: kind, value: "_"@ });
            (push_op(m3, KirOpModel::Collect { output: dummy, source_id: kind }), dummy)
        },
    }
}

/// The name of an operator (its `Debug` name in lower case).
pub open spec fn bin_op_name(op: BinOp) -> Seq<char> {
    match op {
        BinOp::Eq => "eq"@,
        BinOp::Neq => "neq"@,
        BinOp::Ge => "ge"@,
        BinOp::Le => "le"@,
        BinOp::Gt => "gt"@,
        BinOp::Lt => "lt"@,
        BinOp::And => "and"@,
        BinOp::Or => "or"@,
    }
}

/// The entries of a timeline query: `from` and `to` where given.
pub open spec fn timeline_entries(from: Option<ValueModel>, to: Option<ValueModel>) -> Seq<(Seq<char>, Seq<char>)> {
    (match from {
        Some(f) => seq![("from"@, value_text(f))],
        None => seq![],
    }) + match to {
        Some(t) => seq![("to"@, value_text(t))],
        None => seq![],
    }
}

/// A condition statement (MATCH, WHERE, FILTER): a filter on the input
/// where the condition compares a field; otherwise the input passes.
pub open spec fn lower_condition(e: BinExprModel, m: KirModel, input: Option<KirValueId>) -> (KirModel, Option<KirValueId>) {
    let (m1, inp) = ensure_input(m, input);
    match e {
        BinExprModel::Field { field, op, value } => {
            let (m2, out) = fresh_id(m1);
            (push_op(m2, KirOpModel::Filter { output: out, input: inp, filter: (field, bin_op_name(op), value_text(value)) }), Some(out))
        },
        _ => (m1, Some(inp)),
    }
}

/// One statement lowered after the pipeline value `input`: the program and
/// the new pipeline value.
pub open spec fn lower_stmt_spec(s: StmtModel, m: KirModel, input: Option<KirValueId>) -> (KirModel, Option<KirValueId>) {
    match s {
        StmtModel::From(v) | StmtModel::Load(v) => {
            let (m1, src) = lower_raw(m, value_text(v));
            let (m2, out) = fresh_id(m1);
            (push_op(m2, KirOpModel::Collect { output: out, source_id: src }), Some(out))
        },
        StmtModel::Match(e) | StmtModel::Where(e) | StmtModel::Filter(e) => lower_condition(e, m, input),
        StmtModel::Traverse { relation, depth } => {
            let (m1, inp) = ensure_input(m, input);
            let (m2, rel) = lower_raw(m1, value_text(relation));
            let (m3, out) = fresh_id(m2);
            (
                push_op(
                    m3,
                    KirOpModel::Traverse {
                        output: out,
                        input: inp,
                        relation_id: rel,
                        depth: match depth {
                            Some(d) => Some(d as i32),
                            None => None,
                        },
                    },
                ),
                Some(out),
            )
        },
        StmtModel::Summarize | StmtModel::Classify { .. } => {
            let (m1, inp) = ensure_input(m, input);
            let (m2, out) = fresh_id(m1);
            (push_op(m2, KirOpModel::Observe { output: out, input: inp }), Some(out))
        },
        StmtModel::Infer(v) => {
            let (m1, inp) = ensure_input(m, input);
            let (m2, rule) = lower_raw(m1, value_text(v));
            let (m3, out) = fresh_id(m2);
            (push_op(m3, KirOpModel::Infer { output: out, input: inp, rule_id: rule }), Some(out))
        },
        StmtModel::Correlate { target } => {
            let (m1, inp) = ensure_input(m, input);
            let (m2, t) = lower_raw(m1, value_text(target));
            let (m3, out) = fresh_id(m2);
            (push_op(m3, KirOpModel::Correlate { output: out, input: inp, target_id: t }), Some(out))
        },
        StmtModel::Similar { target } => {
            let (m1, t) = lower_raw(m, value_text(target));
            let (m2, out) = fresh_id(m1);
            (push_op(m2, KirOpModel::Similar { output: out, target_id: t, threshold_pct: 80 }), Some(out))
        },
        StmtModel::Timeline { from, to } => {
            let (m1, q) = lower_raw(m, json_string_map(timeline_entries(from, to)));
            let (m2, out) = fresh_id(m1);
            (push_op(m2, KirOpModel::Timeline { output: out, query_id: q }), Some(out))
        },
        StmtModel::Sort { field, order } => {
            let (m1, inp) = ensure_input(m, input);
            (push_op(m1, KirOpModel::SortHint { input: inp, field: value_text(field), ascending: order == Order::Asc }), Some(inp))
        },
        StmtModel::Limit(n) => {
            let (m1, inp) = ensure_input(m, input);
            (push_op(m1, KirOpModel::LimitHint { input: inp, limit: n }), Some(inp))
        },
        StmtModel::Store(v) => {
            let (m1, inp) = ensure_input(m, input);
            let (m2, name) = lower_raw(m1, value_text(v));
            (push_op(m2, KirOpModel::Store { value_id: inp, name_id: name }), Some(inp))
        },
        StmtModel::Export(v) => {
            let (m1, inp) = ensure_input(m, input);
            let (m2, f) = lower_raw(m1, value_text(v));
            (push_op(m2, KirOpModel::Export { value_id: inp, format_id: f }), Some(inp))
        },
    }
}

/// Statements lowered one after the other.
pub open spec fn lower_all(ss: Seq<StmtModel>, m: KirModel, input: Option<KirValueId>) -> (KirModel, Option<KirValueId>)
    decreases ss.len(),
{
    if ss.len() == 0 {
        (m, input)
    } else {
        let (m1, next) = lower_stmt_spec(ss[0], m, input);
        lower_all(ss.drop_first(), m1, next)
    }
}

/// A program lowered from statements: the pipeline ends with an explicit
/// return of its last value, which is the program output.
pub open spec fn lowered(ss: Seq<StmtModel>) -> KirModel {
    let (m, last) = lower_all(ss, KirModel { ops: seq![], output: None, next_id: 0 }, None);
    match last {
        Some(l) => KirModel { output: Some(l), ..push_op(m, KirOpModel::Return { value_id: l }) },
        None => KirModel { output: None, ..m },
    }
}

proof fn lemma_lower_stmt_ids(st: StmtModel, m: KirModel, input: Option<KirValueId>)
    requires
        m.next_id + 4 <= usize::MAX,
    ensures
        lower_stmt_spec(st, m, input).0.next_id <= m.next_id + 4,
{
}

/// `b` extends `a` with new operations only: the old operations stay in
/// place, the counter does not go back, every new operation that produces
/// a value takes an identifier that was fresh in `a` and is below the new
/// counter, and no two new operations produce the same identifier.
pub open spec fn appends_fresh(a: KirModel, b: KirModel) -> bool {
    &&& a.ops.len() <= b.ops.len()
    &&& b.ops.subrange(0, a.ops.len() as int) == a.ops
    &&& a.next_id <= b.next_id
    &&& forall|k: int|
        a.ops.len() <= k < b.ops.len() ==> (#[trigger] op_output(b.ops[k]) matches Some(o) ==> a.next_id <= o < b.next_id)
    &&& forall|k1: int, k2: int|
        a.ops.len() <= k1 < k2 < b.ops.len() && op_output(#[trigger] b.ops[k1]) is Some ==> op_output(b.ops[k1])
            != op_output(#[trigger] b.ops[k2])
}

proof fn lemma_appends_fresh_trans(a: KirModel, b: KirModel, c: KirModel)
    requires
        appends_fresh(a, b),
        appends_fresh(b, c),
    ensures
        appends_fresh(a, c),
{
    assert(c.ops.subrange(0, a.ops.len() as int) =~= a.ops) by {
        assert forall|k: int| 0 <= k < a.ops.len() implies c.ops[k] == a.ops[k] by {
            assert(c.ops.subrange(0, b.ops.len() as int)[k] == b.ops[k]);
            assert(b.ops.subrange(0, a.ops.len() as int)[k] == a.ops[k]);
        }
    }
    assert forall|k: int| a.ops.len() <= k < c.ops.len() implies (#[trigger] op_output(c.ops[k]) matches Some(o)
        ==> a.next_id <= o < c.next_id) by {
        if k < b.ops.len() {
            assert(c.ops.subrange(0, b.ops.len() as int)[k] == b.ops[k]);
            assert(op_output(b.ops[k]) == op_output(c.ops[k]));
        }
    }
    assert forall|k1: int, k2: int|
        a.ops.len() <= k1 < k2 < c.ops.len() && op_output(#[trigger] c.ops[k1]) is Some implies op_output(c.ops[k1])
            != op_output(#[trigger] c.ops[k2]) by {
        if k1 < b.ops.len() {
            assert(c.ops.subrange(0, b.ops.len() as int)[k1] == b.ops[k1]);
            assert(op_output(b.ops[k1]) == op_output(c.ops[k1]));
            if k2 < b.ops.len() {
                assert(c.ops.subrange(0, b.ops.len() as int)[k2] == b.ops[k2]);
            } else {
                assert(op_output(c.ops[k2]) matches Some(o) ==> b.next_id <= o);
            }
        }
    }
}

proof fn lemma_fresh_push(m: KirModel, op: KirOpModel)
    requires
        m.next_id < usize::MAX,
        op_output(op) == Some(m.next_id),
    ensures
        appends_fresh(m, push_op(fresh_id(m).0, op)),
{
    let b = push_op(fresh_id(m).0, op);
    assert(b.ops.subrange(0, m.ops.len() as int) =~= m.ops);
}

proof fn lemma_plain_push(m: KirModel, op: KirOpModel)
    requires
        op_output(op) is None,
    ensures
        appends_fresh(m, push_op(m, op)),
{
    let b = push_op(m, op);
    assert(b.ops.subrange(0, m.ops.len() as int) =~= m.ops);
}

proof fn lemma_same(m: KirModel)
    ensures
        appends_fresh(m, m),
{
    assert(m.ops.subrange(0, m.ops.len() as int) =~= m.ops);
}

proof fn lemma_lower_raw_fresh(m: KirModel, s: Seq<char>)
    requires
        m.next_id < usize::MAX,
    ensures
        appends_fresh(m, lower_raw(m, s).0),
        lower_raw(m, s).1 == m.next_id,
        lower_raw(m, s).0.next_id == m.next_id + 1,
{
    lemma_fresh_push(m, KirOpModel::ConstStr { output: m.next_id, value: s });
}

proof fn lemma_ensure_input_fresh(m: KirModel, input: Option<KirValueId>)
    requires
        m.next_id + 2 <= usize::MAX,
    ensures
        appends_fresh(m, ensure_input(m, input).0),
        ensure_input(m, input).0.next_id <= m.next_id + 2,
{
    match input {
        Some(_) => lemma_same(m),
        None => {
            let b = ensure_input(m, input).0;
            assert(b.ops.subrange(0, m.ops.len() as int) =~= m.ops);
            assert(b.ops[m.ops.len() as int] == KirOpModel::ConstStr { output: (m.next_id + 1) as usize, value: "_"@ });
            assert(b.ops[m.ops.len() as int + 1] == KirOpModel::Collect { output: m.next_id, source_id: (m.next_id + 1) as usize });
        },
    }
}

/// Lowering a statement only appends operations: the ones already emitted
/// stay, and each new one that produces a value takes a fresh identifier,
/// distinct from those of the other new operations.
pub proof fn lemma_lower_stmt_appends_fresh(st: StmtModel, m: KirModel, input: Option<KirValueId>)
    requires
        m.next_id + 4 <= usize::MAX,
    ensures
        appends_fresh(m, lower_stmt_spec(st, m, input).0),
{
    match st {
        StmtModel::From(v) | StmtModel::Load(v) => {
            let (m1, src) = lower_raw(m, value_text(v));
            lemma_lower_raw_fresh(m, value_text(v));
            let (m2, out) = fresh_id(m1);
            lemma_fresh_push(m1, KirOpModel::Collect { output: out, source_id: src });
            lemma_appends_fresh_trans(m, m1, lower_stmt_spec(st, m, input).0);
        },
        StmtModel::Match(e) | StmtModel::Where(e) | StmtModel::Filter(e) => {
            let (m1, inp) = ensure_input(m, input);
            lemma_ensure_input_fresh(m, input);
            match e {
                BinExprModel::Field { field, op, value } => {
                    let out = m1.next_id;
                    lemma_fresh_push(m1, KirOpModel::Filter { output: out, input: inp, filter: (field, bin_op_name(op), value_text(value)) });
                    lemma_appends_fresh_trans(m, m1, lower_stmt_spec(st, m, input).0);
                },
                _ => {},
            }
        },
        StmtModel::Traverse { relation, depth } => {
            let (m1, inp) = ensure_input(m, input);
            lemma_ensure_input_fresh(m, input);
            let (m2, rel) = lower_raw(m1, value_text(relation));
            lemma_lower_raw_fresh(m1, value_text(relation));
            lemma_appends_fresh_trans(m, m1, m2);
            let out = m2.next_id;
            lemma_fresh_push(m2, KirOpModel::Traverse {
                output: out,
                input: inp,
                relation_id: rel,
                depth: match depth {
                    Some(d) => Some(d as i32),
                    None => None,
                },
            });
            lemma_appends_fresh_trans(m, m2, lower_stmt_spec(st, m, input).0);
        },
        StmtModel::Summarize | StmtModel::Classify { .. } => {
            let (m1, inp) = ensure_input(m, input);
            lemma_ensure_input_fresh(m, input);
            lemma_fresh_push(m1, KirOpModel::Observe { output: m1.next_id, input: inp });
            lemma_appends_fresh_trans(m, m1, lower_stmt_spec(st, m, input).0);
        },
        StmtModel::Infer(v) => {
            let (m1, inp) = ensure_input(m, input);
            lemma_ensure_input_fresh(m, input);
            let (m2, rule) = lower_raw(m1, value_text(v));
            lemma_lower_raw_fresh(m1, value_text(v));
            lemma_appends_fresh_trans(m, m1, m2);
            lemma_fresh_push(m2, KirOpModel::Infer { output: m2.next_id, input: inp, rule_id: rule });
            lemma_appends_fresh_trans(m, m2, lower_stmt_spec(st, m, input).0);
        },
        StmtModel::Correlate { target } => {
            let (m1, inp) = ensure_input(m, input);
            lemma_ensure_input_fresh(m, input);
            let (m2, t) = lower_raw(m1, value_text(target));
            lemma_lower_raw_fresh(m1, value_text(target));
            lemma_appends_fresh_trans(m, m1, m2);
            lemma_fresh_push(m2, KirOpModel::Correlate { output: m2.next_id, input: inp, target_id: t });
            lemma_appends_fresh_trans(m, m2, lower_stmt_spec(st, m, input).0);
        },
        StmtModel::Similar { target } => {
            let (m1, t) = lower_raw(m, value_text(target));
            lemma_lower_raw_fresh(m, value_text(target));
            lemma_fresh_push(m1, KirOpModel::Similar { output: m1.next_id, target_id: t, threshold_pct: 80 });
            lemma_appends_fresh_trans(m, m1, lower_stmt_spec(st, m, input).0);
        },
        StmtModel::Timeline { from, to } => {
            let (m1, q) = lower_raw(m, json_string_map(timeline_entries(from, to)));
            lemma_lower_raw_fresh(m, json_string_map(timeline_entries(from, to)));
            lemma_fresh_push(m1, KirOpModel::Timeline { output: m1.next_id, query_id: q });
            lemma_appends_fresh_trans(m, m1, lower_stmt_spec(st, m, input).0);
        },
        StmtModel::Sort { field, order } => {
            let (m1, inp) = ensure_input(m, input);
            lemma_ensure_input_fresh(m, input);
            lemma_plain_push(m1, KirOpModel::SortHint { input: inp, field: value_text(field), ascending: order == Order::Asc });
            lemma_appends_fresh_trans(m, m1, lower_stmt_spec(st, m, input).0);
        },
        StmtModel::Limit(n) => {
            let (m1, inp) = ensure_input(m, input);
            lemma_ensure_input_fresh(m, input);
            lemma_plain_push(m1, KirOpModel::LimitHint { input: inp, limit: n });
            lemma_appends_fresh_trans(m, m1, lower_stmt_spec(st, m, input).0);
        },
        StmtModel::Store(v) => {
            let (m1, inp) = ensure_input(m, input);
            lemma_ensure_input_fresh(m, input);
            let (m2, name) = lower_raw(m1, value_text(v));
            lemma_lower_raw_fresh(m1, value_text(v));
            lemma_appends_fresh_trans(m, m1, m2);
            lemma_plain_push(m2, KirOpModel::Store { value_id: inp, name_id: name });
            lemma_appends_fresh_trans(m, m2, lower_stmt_spec(st, m, input).0);
        },
        StmtModel::Export(v) => {
            let (m1, inp) = ensure_input(m, input);
            lemma_ensure_input_fresh(m, input);
            let (m2, f) = lower_raw(m1, value_text(v));
            lemma_lower_raw_fresh(m1, value_text(v));
            lemma_appends_fresh_trans(m, m1, m2);
            lemma_plain_push(m2, KirOpModel::Export { value_id: inp, format_id: f });
            lemma_appends_fresh_trans(m, m2, lower_stmt_spec(st, m, input).0);
        },
    }
}

/// Every operation that `b` adds to `a` reads only `input` (the pipeline
/// value it was given) or values created since `a`.
pub open spec fn reads_given(a: KirModel, b: KirModel, input: Option<KirValueId>) -> bool {
    forall|k: int, j: int|
        a.ops.len() <= k < b.ops.len() && 0 <= j < op_inputs(b.ops[k]).len() ==> input == Some(
            #[trigger] op_inputs(b.ops[k])[j],
        ) || (a.next_id <= op_inputs(b.ops[k])[j] < b.next_id)
}

/// Lowering a statement reads only the pipeline value it is given, or
/// values it has just created, and always leaves a pipeline value.
pub proof fn lemma_lower_stmt_reads_given(st: StmtModel, m: KirModel, input: Option<KirValueId>)
    requires
        m.next_id + 4 <= usize::MAX,
    ensures
        reads_given(m, lower_stmt_spec(st, m, input).0, input),
        lower_stmt_spec(st, m, input).1 is Some,
{
    let b = lower_stmt_spec(st, m, input).0;
    lemma_lower_stmt_ids(st, m, input);
    let n = m.ops.len() as int;
    assert forall|k: int, j: int|
        n <= k < b.ops.len() && 0 <= j < op_inputs(b.ops[k]).len() implies input == Some(
            #[trigger] op_inputs(b.ops[k])[j],
        ) || (m.next_id <= op_inputs(b.ops[k])[j] < b.next_id) by {
        let (m1, inp) = ensure_input(m, input);
        assert(input is None ==> m1.ops.len() == n + 2 && m1.next_id == m.next_id + 2 && inp == m.next_id);
        assert(input is Some ==> m1 == m);
    }
}

/// What each statement lowers to, read off the operation it adds last and
/// the pipeline value it leaves:
/// - `FROM v` / `LOAD v`: a collection from a fresh string constant `v`,
///   whose value becomes the pipeline value;
/// - `SORT BY f ASC|DESC`: a sort hint on the pipeline value, on field `f`,
///   ascending exactly for `ASC` (and for `SORT BY f`, which the parser
///   reads as `ASC`);
/// - `LIMIT n`: a limit hint of `n` on the pipeline value;
/// - `TRAVERSE r [DEPTH d]`: a traversal along a string constant `r`, with
///   depth `d` where one is given, producing the new pipeline value;
/// - `SIMILAR TO t`: a similarity search at eighty per cent;
/// - `STORE v` / `EXPORT v`: the pipeline value stored under, or exported
///   in, a string constant `v`; the pipeline value stays.
pub proof fn lemma_lowered_statement(st: StmtModel, m: KirModel, input: Option<KirValueId>)
    requires
        m.next_id + 4 <= usize::MAX,
    ensures
        ({
            let b = lower_stmt_spec(st, m, input).0;
            let out = lower_stmt_spec(st, m, input).1;
            &&& (st matches StmtModel::Sort { field, order } ==> (b.ops.last() matches KirOpModel::SortHint {
                input: i,
                field: f,
                ascending,
            } && ascending == (order == Order::Asc) && f == value_text(field) && out == Some(i) && (input matches Some(x)
                ==> i == x)))
            &&& (st matches StmtModel::Limit(n) ==> (b.ops.last() matches KirOpModel::LimitHint { input: i, limit } && limit
                == n && out == Some(i) && (input matches Some(x) ==> i == x)))
            &&& (st matches StmtModel::From(v) ==> (b.ops.last() matches KirOpModel::Collect {
                output,
                source_id,
            } && out == Some(output) && b.ops.len() >= 2 && b.ops[b.ops.len() - 2] == KirOpModel::ConstStr {
                output: source_id,
                value: value_text(v),
            }))
            &&& (st matches StmtModel::Load(v) ==> (b.ops.last() matches KirOpModel::Collect {
                output,
                source_id,
            } && out == Some(output) && b.ops.len() >= 2 && b.ops[b.ops.len() - 2] == KirOpModel::ConstStr {
                output: source_id,
                value: value_text(v),
            }))
            &&& (st matches StmtModel::Traverse { relation, depth } ==> (b.ops.last() matches KirOpModel::Traverse {
                output,
                input: i,
                relation_id,
                depth: dd,
            } && out == Some(output) && dd == (match depth {
                Some(d) => Some(d as i32),
                None => None,
            }) && b.ops.len() >= 2 && b.ops[b.ops.len() - 2] == KirOpModel::ConstStr {
                output: relation_id,
                value: value_text(relation),
            } && (input matches Some(x) ==> i == x)))
            &&& (st matches StmtModel::Similar { target } ==> (b.ops.last() matches KirOpModel::Similar {
                output,
                target_id,
                threshold_pct,
            } && threshold_pct == 80 && out == Some(output) && b.ops.len() >= 2 && b.ops[b.ops.len() - 2]
                == KirOpModel::ConstStr { output: target_id, value: value_text(target) }))
            &&& ((st is Summarize || st is Classify) ==> (b.ops.last() matches KirOpModel::Observe { output, input: i }
                && out == Some(output) && (input matches Some(x) ==> i == x)))
            &&& (st matches StmtModel::Infer(v) ==> (b.ops.last() matches KirOpModel::Infer { output, input: i, rule_id }
                && out == Some(output) && b.ops.len() >= 2 && b.ops[b.ops.len() - 2] == KirOpModel::ConstStr {
                output: rule_id,
                value: value_text(v),
            } && (input matches Some(x) ==> i == x)))
            &&& (st matches StmtModel::Correlate { target } ==> (b.ops.last() matches KirOpModel::Correlate {
                output,
                input: i,
                target_id,
            } && out == Some(output) && b.ops.len() >= 2 && b.ops[b.ops.len() - 2] == KirOpModel::ConstStr {
                output: target_id,
                value: value_text(target),
            } && (input matches Some(x) ==> i == x)))
            &&& (st is Timeline ==> (b.ops.last() matches KirOpModel::Timeline { output, .. } && out == Some(output)))
            &&& (st matches StmtModel::Match(e) ==> (e matches BinExprModel::Field { field, op, value } ==> (b.ops.last() matches KirOpModel::Filter {
                output,
                input: i,
                filter,
            } && filter == (field, bin_op_name(op), value_text(value)) && out == Some(output) && (input matches Some(x)
                ==> i == x))))
            &&& (st matches StmtModel::Where(e) ==> (e matches BinExprModel::Field { field, op, value } ==> (b.ops.last() matches KirOpModel::Filter {
                output,
                input: i,
                filter,
            } && filter == (field, bin_op_name(op), value_text(value)) && out == Some(output) && (input matches Some(x)
                ==> i == x))))
            &&& (st matches StmtModel::Filter(e) ==> (e matches BinExprModel::Field { field, op, value } ==> (b.ops.last() matches KirOpModel::Filter {
                output,
                input: i,
                filter,
            } && filter == (field, bin_op_name(op), value_text(value)) && out == Some(output) && (input matches Some(x)
                ==> i == x))))
            &&& (st matches StmtModel::Store(v) ==> (b.ops.last() matches KirOpModel::Store { value_id, name_id }
                && out == Some(value_id) && b.ops.len() >= 2 && b.ops[b.ops.len() - 2] == KirOpModel::ConstStr {
                output: name_id,
                value: value_text(v),
            } && (input matches Some(x) ==> value_id == x)))
            &&& (st matches StmtModel::Export(v) ==> (b.ops.last() matches KirOpModel::Export { value_id, format_id }
                && out == Some(value_id) && b.ops.len() >= 2 && b.ops[b.ops.len() - 2] == KirOpModel::ConstStr {
                output: format_id,
                value: value_text(v),
            } && (input matches Some(x) ==> value_id == x)))
        }),
{
    match st {
        StmtModel::Sort { .. } | StmtModel::Limit(_) | StmtModel::Summarize | StmtModel::Classify { .. } => {
            lemma_ensure_input_fresh(m, input);
        },
        _ => {},
    }
}

/// Lowering statements one after the other only appends operations with
/// fresh, distinct identifiers.
pub proof fn lemma_lower_all_appends_fresh(ss: Seq<StmtModel>, m: KirModel, input: Option<KirValueId>)
    requires
        m.next_id + 4 * ss.len() <= usize::MAX,
    ensures
        appends_fresh(m, lower_all(ss, m, input).0),
    decreases ss.len(),
{
    if ss.len() == 0 {
        lemma_same(m);
    } else {
        let (m1, next) = lower_stmt_spec(ss[0], m, input);
        lemma_lower_stmt_appends_fresh(ss[0], m, input);
        lemma_lower_stmt_ids(ss[0], m, input);
        lemma_lower_all_appends_fresh(ss.drop_first(), m1, next);
        lemma_appends_fresh_trans(m, m1, lower_all(ss, m, input).0);
    }
}

/// A lowered program gives each of its values one operation: every
/// operation that produces a value has its own identifier, below the
/// program's counter.
pub proof fn lemma_lowered_ids_fresh(ss: Seq<StmtModel>)
    requires
        4 * ss.len() + 1 <= usize::MAX,
    ensures
        appends_fresh(KirModel { ops: seq![], output: None, next_id: 0 }, lowered(ss)),
{
    let e = KirModel { ops: seq![], output: None, next_id: 0 };
    lemma_lower_all_appends_fresh(ss, e, None);
    let (m, last) = lower_all(ss, e, None);
    match last {
        Some(l) => {
            lemma_plain_push(m, KirOpModel::Return { value_id: l });
            lemma_appends_fresh_trans(e, m, push_op(m, KirOpModel::Return { value_id: l }));
        },
        None => {},
    }
}

/// The name of an operator.
fn bin_op_text(op: BinOp) -> (r: String)
    ensures
        r@ == bin_op_name(op),
{
    let s = match op {
        BinOp::Eq => "eq",
        BinOp::Neq => "neq",
        BinOp::Ge => "ge",
        BinOp::Le => "le",
        BinOp::Gt => "gt",
        BinOp::Lt => "lt",
        BinOp::And => "and",
        BinOp::Or => "or",
    };
    string_of(chars_of(s).as_slice())
}

/// A string constant holding `s`.
fn lower_raw_string(s: String, prog: &mut KirProgram) -> (r: KirValueId)
    requires
        old(prog).next_id < usize::MAX,
    ensures
        (final(prog)@, r) == lower_raw(old(prog)@, s@),
{
    let output = prog.alloc_id();
    prog.push(KirOp::ConstStr { output, value: s });
    output
}

/// The pipeline input, made where there is none.
fn ensure_input_exec(prog: &mut KirProgram, input: Option<KirValueId>) -> (r: KirValueId)
    requires
        old(prog).next_id + 2 <= usize::MAX,
    ensures
        (final(prog)@, r) == ensure_input(old(prog)@, input),
{
    match input {
        Some(i) => i,
        None => {
            let dummy = prog.alloc_id();
            let kind = prog.alloc_id();
            prog.push(KirOp::ConstStr { output: kind, value: string_of(chars_of("_").as_slice()) });
            prog.push(KirOp::Collect { output: dummy, source_id: kind });
            dummy
        },
    }
}

/// A condition statement.
fn lower_condition_exec(expr: &BinExpr, prog: &mut KirProgram, input: Option<KirValueId>) -> (r: Option<KirValueId>)
    requires
        old(prog).next_id + 4 <= usize::MAX,
    ensures
        (final(prog)@, r) == lower_condition(bin_expr_model(*expr), old(prog)@, input),
{
    let inp = ensure_input_exec(prog, input);
    match expr {
        BinExpr::Field { field, op, value } => {
            let filter = FilterCond { field: field.clone(), op: bin_op_text(*op), value: value.as_string() };
            let output = prog.alloc_id();
            prog.push(KirOp::Filter { output, input: inp, filter });
            Some(output)
        },
        _ => Some(inp),
    }
}

/// One statement lowered after the pipeline value `input`; returns the new
/// pipeline value.
pub fn lower_stmt(stmt: &Stmt, prog: &mut KirProgram, input: Option<KirValueId>) -> (r: Option<KirValueId>)
    requires
        old(prog).next_id + 4 <= usize::MAX,
    ensures
        (final(prog)@, r) == lower_stmt_spec(stmt_model(*stmt), old(prog)@, input),
{
    match stmt {
        Stmt::From(val) | Stmt::Load(val) => {
            let source_id = lower_raw_string(val.as_string(), prog);
            let output = prog.alloc_id();
            prog.push(KirOp::Collect { output, source_id });
            Some(output)
        },
        Stmt::Match(expr) | Stmt::Where(expr) | Stmt::Filter(expr) => lower_condition_exec(expr, prog, input),
        Stmt::Traverse { relation, depth } => {
            let inp = ensure_input_exec(prog, input);
            let relation_id = lower_raw_string(relation.as_string(), prog);
            let output = prog.alloc_id();
            let d = match depth {
                Some(d) => Some(#[verifier::truncate] (*d as i32)),
                None => None,
            };
            prog.push(KirOp::Traverse { output, input: inp, relation_id, depth: d });
            Some(output)
        },
        Stmt::Summarize | Stmt::Classify { .. } => {
            let inp = ensure_input_exec(prog, input);
            let output = prog.alloc_id();
            prog.push(KirOp::Observe { output, input: inp });
            Some(output)
        },
        Stmt::Infer(val) => {
            let inp = ensure_input_exec(prog, input);
            let rule_id = lower_raw_string(val.as_string(), prog);
            let output = prog.alloc_id();
            prog.push(KirOp::Infer { output, input: inp, rule_id });
            Some(output)
        },
        Stmt::Correlate { target } => {
            let inp = ensure_input_exec(prog, input);
            let target_id = lower_raw_string(target.as_string(), prog);
            let output = prog.alloc_id();
            prog.push(KirOp::Correlate { output, input: inp, target_id });
            Some(output)
        },
        Stmt::Similar { target } => {
            let target_id = lower_raw_string(target.as_string(), prog);
            let output = prog.alloc_id();
            prog.push(KirOp::Similar { output, target_id, threshold_pct: 80 });
            Some(output)
        },
        Stmt::Timeline { from, to } => {
            let mut entries: Vec<(String, String)> = Vec::new();
            if let Some(f) = from {
                entries.push((string_of(chars_of("from").as_slice()), f.as_string()));
            }
            if let Some(t) = to {
                entries.push((string_of(chars_of("to").as_slice()), t.as_string()));
            }
            proof {
                let opt = |v: Option<Value>|
                    match v {
                        Some(x) => Some(x@),
                        None => None,
                    };
                assert(meta_texts(entries@) =~= timeline_entries(opt(*from), opt(*to)));
            }
            let json = to_json_string_map(&entries);
            let query_id = lower_raw_string(json, prog);
            let output = prog.alloc_id();
            prog.push(KirOp::Timeline { output, query_id });
            Some(output)
        },
        Stmt::Sort { field, order } => {
            let inp = ensure_input_exec(prog, input);
            let ascending = match order {
                Order::Asc => true,
                Order::Desc => false,
            };
            prog.push(KirOp::SortHint { input: inp, field: field.as_string(), ascending });
            Some(inp)
        },
        Stmt::Limit(n) => {
            let inp = ensure_input_exec(prog, input);
            prog.push(KirOp::LimitHint { input: inp, limit: *n });
            Some(inp)
        },
        Stmt::Store(val) => {
            let inp = ensure_input_exec(prog, input);
            let name_id = lower_raw_string(val.as_string(), prog);
            prog.push(KirOp::Store { value_id: inp, name_id });
            Some(inp)
        },
        Stmt::Export(val) => {
            let inp = ensure_input_exec(prog, input);
            let format_id = lower_raw_string(val.as_string(), prog);
            prog.push(KirOp::Export { value_id: inp, format_id });
            Some(inp)
        },
    }
}

/// A KIR program from statements: each statement lowered after the
/// previous one's value, and an explicit return of the last value, which
/// is also the program output.
pub fn lower_ast(stmts: &[Stmt]) -> (r: KirProgram)
    requires
        4 * stmts@.len() + 1 <= usize::MAX,
    ensures
        r@ == lowered(stmts_model(stmts@)),
{
    let ghost ss = stmts_model(stmts@);
    let mut prog = KirProgram::new();
    let mut pipeline: Option<KirValueId> = None;
    let mut i: usize = 0;
    let ghost start = prog@;
    assert(ss.subrange(0, ss.len() as int) == ss);
    while i < stmts.len()
        invariant
            i <= stmts@.len(),
            ss == stmts_model(stmts@),
            4 * stmts@.len() + 1 <= usize::MAX,
            start == (KirModel { ops: seq![], output: None, next_id: 0 }),
            prog@.next_id <= 4 * i,
            lower_all(ss.subrange(i as int, ss.len() as int), prog@, pipeline) == lower_all(ss, start, None),
        decreases stmts@.len() - i,
    {
        let ghost rest = ss.subrange(i as int, ss.len() as int);
        assert(rest[0] == stmt_model(stmts@[i as int]));
        assert(rest.drop_first() == ss.subrange(i + 1, ss.len() as int));
        let ghost before = (prog@, pipeline);
        pipeline = lower_stmt(&stmts[i], &mut prog, pipeline);
        proof {
            lemma_lower_stmt_ids(rest[0], before.0, before.1);
        }
        i += 1;
    }
    if let Some(last) = pipeline {
        prog.push(KirOp::Return { value_id: last });
    }
    prog.output = pipeline;
    prog
}

/// Compiles a TDXL text to optimised KIR: lexing, parsing, lowering, the
/// compiler passes (duplicate strings merged, dead code removed), and the
/// dataflow passes of the query optimiser. A text
/// with more statements than value identifiers can number fails to compile.
pub fn compile_to_kir(source: &str) -> (r: Result<KirProgram, Error>)
    requires
        source@.len() + 2 <= usize::MAX,
    ensures
        match lex(source@) {
            Err(e) => r matches Err(x) && is_lex_error(x, e),
            Ok(ts) => match parse_tokens(ts) {
                Err(e) => r matches Err(x) && is_parse_error(x, e),
                Ok(ss) => if 4 * ss.len() + 1 <= usize::MAX {
                    r matches Ok(p) && p@ == query_optimized(optimized(lowered(ss)))
                } else {
                    r matches Err(Error::Compile { .. })
                },
            },
        },
{
    let mut lexer = Lexer::new(source);
    let tokens = lexer.tokenize()?;
    proof {
        assert(tokens_model(tokens@).last() == tokens_model(tokens@)[tokens@.len() - 1]);
        assert(tokens_model(tokens@)[tokens@.len() - 1].0 == tokens@[tokens@.len() - 1].0@);
    }
    let mut parser = Parser::new(tokens);
    let ast = parser.parse()?;
    if ast.statements.len() > (usize::MAX - 1) / 4 {
        return Err(Error::Compile { message: string_of(chars_of("too many statements").as_slice()) });
    }
    let kir = lower_ast(ast.statements.as_slice());
    Ok(optimize_query(optimize(kir)))
}

} // verus!
