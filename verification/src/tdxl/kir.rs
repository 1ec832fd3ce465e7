//! Knowledge IR: a dataflow form between the syntax tree and execution.
//! Each operation produces at most one value, identified by a
//! [`KirValueId`]; values flow into later operations as inputs.
use std::collections::HashSet;
use vstd::prelude::*;

verus! {

/// Identifier of a KIR value (an SSA virtual register).
pub type KirValueId = usize;

/// The kind of knowledge a value holds.
#[derive(Debug, Clone, Copy, PartialEq, Eq, Structural)]
pub enum KirType {
    Entity,
    FactSet,
    Fact,
    Relationship,
    Correlation,
    Timeline,
    StringVal,
    IntVal,
    FloatVal,
    BoolVal,
    Nil,
}

/// A structured filter condition (MATCH / WHERE).
#[derive(Debug)]
pub struct FilterCond {
    pub field: String,
    pub op: String,
    pub value: String,
}

/// The abstract value of a [`FilterCond`]: field, operator, value.
pub type FilterModel = (Seq<char>, Seq<char>, Seq<char>);

impl View for FilterCond {
    type V = FilterModel;

    open spec fn view(&self) -> FilterModel {
        (self.field@, self.op@, self.value@)
    }
}

impl FilterCond {
    /// A copy of the condition.
    pub fn copy(&self) -> (r: FilterCond)
        ensures
            r@ == self@,
    {
        FilterCond { field: self.field.clone(), op: self.op.clone(), value: self.value.clone() }
    }
}

/// A KIR operation — one node of the knowledge dataflow graph.
#[derive(Debug)]
pub enum KirOp {
    /// Gather intelligence from a named source (FROM / LOAD).
    Collect { output: KirValueId, source_id: KirValueId },
    /// Load an entity reference by kind string.
    SourceEntity { output: KirValueId, kind_id: KirValueId },
    /// Load facts from semantic memory for a given entity.
    SourceSearch { output: KirValueId, query_id: KirValueId },
    /// Process raw data into structured observations (CLASSIFY / SUMMARIZE).
    Observe { output: KirValueId, input: KirValueId },
    /// Classify the input value.
    Classify { output: KirValueId, input: KirValueId },
    /// Load the full fact graph for an entity.
    LoadGraph { output: KirValueId, input: KirValueId },
    /// Filter a fact set by a structured condition (MATCH / WHERE).
    Filter { output: KirValueId, input: KirValueId, filter: FilterCond },
    /// Resolve an entity reference.
    Resolve { output: KirValueId, input: KirValueId, strategy_id: KirValueId },
    /// Traverse a relationship from the current value.
    Traverse { output: KirValueId, input: KirValueId, relation_id: KirValueId, depth: Option<i32> },
    /// Correlate with another entity.
    Correlate { output: KirValueId, input: KirValueId, target_id: KirValueId },
    /// Similarity search; the threshold is in hundredths.
    Similar { output: KirValueId, target_id: KirValueId, threshold_pct: u32 },
    /// Infer new facts using a rule (INFER).
    Infer { output: KirValueId, input: KirValueId, rule_id: KirValueId },
    /// Build a timeline from episodic memory (TIMELINE).
    Timeline { output: KirValueId, query_id: KirValueId },
    /// Explicit pipeline output.
    Return { value_id: KirValueId },
    /// Store a value to long-term memory.
    Store { value_id: KirValueId, name_id: KirValueId },
    /// Export a value in a given format.
    Export { value_id: KirValueId, format_id: KirValueId },
    /// Take a snapshot of the current state.
    Snapshot { output: KirValueId, value_id: KirValueId, kind: u8 },
    /// A string constant.
    ConstStr { output: KirValueId, value: String },
    /// An integer constant.
    ConstInt { output: KirValueId, value: i64 },
    /// A decimal constant, as written.
    ConstFloat { output: KirValueId, value: String },
    /// Sort hint (metadata).
    SortHint { input: KirValueId, field: String, ascending: bool },
    /// Limit hint (metadata).
    LimitHint { input: KirValueId, limit: usize },
}

/// The abstract value of a [`KirOp`].
pub enum KirOpModel {
    Collect { output: KirValueId, source_id: KirValueId },
    SourceEntity { output: KirValueId, kind_id: KirValueId },
    SourceSearch { output: KirValueId, query_id: KirValueId },
    Observe { output: KirValueId, input: KirValueId },
    Classify { output: KirValueId, input: KirValueId },
    LoadGraph { output: KirValueId, input: KirValueId },
    Filter { output: KirValueId, input: KirValueId, filter: FilterModel },
    Resolve { output: KirValueId, input: KirValueId, strategy_id: KirValueId },
    Traverse { output: KirValueId, input: KirValueId, relation_id: KirValueId, depth: Option<i32> },
    Correlate { output: KirValueId, input: KirValueId, target_id: KirValueId },
    Similar { output: KirValueId, target_id: KirValueId, threshold_pct: u32 },
    Infer { output: KirValueId, input: KirValueId, rule_id: KirValueId },
    Timeline { output: KirValueId, query_id: KirValueId },
    Return { value_id: KirValueId },
    Store { value_id: KirValueId, name_id: KirValueId },
    Export { value_id: KirValueId, format_id: KirValueId },
    Snapshot { output: KirValueId, value_id: KirValueId, kind: u8 },
    ConstStr { output: KirValueId, value: Seq<char> },
    ConstInt { output: KirValueId, value: i64 },
    ConstFloat { output: KirValueId, value: Seq<char> },
    SortHint { input: KirValueId, field: Seq<char>, ascending: bool },
    LimitHint { input: KirValueId, limit: usize },
}

impl View for KirOp {
    type V = KirOpModel;

    open spec fn view(&self) -> KirOpModel {
        match self {
            KirOp::Collect { output, source_id } => KirOpModel::Collect { output: *output, source_id: *source_id },
            KirOp::SourceEntity { output, kind_id } => KirOpModel::SourceEntity { output: *output, kind_id: *kind_id },
            KirOp::SourceSearch { output, query_id } => KirOpModel::SourceSearch { output: *output, query_id: *query_id },
            KirOp::Observe { output, input } => KirOpModel::Observe { output: *output, input: *input },
            KirOp::Classify { output, input } => KirOpModel::Classify { output: *output, input: *input },
            KirOp::LoadGraph { output, input } => KirOpModel::LoadGraph { output: *output, input: *input },
            KirOp::Filter { output, input, filter } => KirOpModel::Filter { output: *output, input: *input, filter: filter@ },
            KirOp::Resolve { output, input, strategy_id } => KirOpModel::Resolve { output: *output, input: *input, strategy_id: *strategy_id },
            KirOp::Traverse { output, input, relation_id, depth } => KirOpModel::Traverse { output: *output, input: *input, relation_id: *relation_id, depth: *depth },
            KirOp::Correlate { output, input, target_id } => KirOpModel::Correlate { output: *output, input: *input, target_id: *target_id },
            KirOp::Similar { output, target_id, threshold_pct } => KirOpModel::Similar { output: *output, target_id: *target_id, threshold_pct: *threshold_pct },
            KirOp::Infer { output, input, rule_id } => KirOpModel::Infer { output: *output, input: *input, rule_id: *rule_id },
            KirOp::Timeline { output, query_id } => KirOpModel::Timeline { output: *output, query_id: *query_id },
            KirOp::Return { value_id } => KirOpModel::Return { value_id: *value_id },
            KirOp::Store { value_id, name_id } => KirOpModel::Store { value_id: *value_id, name_id: *name_id },
            KirOp::Export { value_id, format_id } => KirOpModel::Export { value_id: *value_id, format_id: *format_id },
            KirOp::Snapshot { output, value_id, kind } => KirOpModel::Snapshot { output: *output, value_id: *value_id, kind: *kind },
            KirOp::ConstStr { output, value } => KirOpModel::ConstStr { output: *output, value: value@ },
            KirOp::ConstInt { output, value } => KirOpModel::ConstInt { output: *output, value: *value },
            KirOp::ConstFloat { output, value } => KirOpModel::ConstFloat { output: *output, value: value@ },
            KirOp::SortHint { input, field, ascending } => KirOpModel::SortHint { input: *input, field: field@, ascending: *ascending },
            KirOp::LimitHint { input, limit } => KirOpModel::LimitHint { input: *input, limit: *limit },
        }
    }
}

/// The value an operation produces, if any.
pub open spec fn op_output(op: KirOpModel) -> Option<KirValueId> {
    match op {
        KirOpModel::Collect { output, .. } => Some(output),
        KirOpModel::SourceEntity { output, .. } => Some(output),
        KirOpModel::SourceSearch { output, .. } => Some(output),
        KirOpModel::Observe { output, .. } => Some(output),
        KirOpModel::Classify { output, .. } => Some(output),
        KirOpModel::LoadGraph { output, .. } => Some(output),
        KirOpModel::Filter { output, .. } => Some(output),
        KirOpModel::Resolve { output, .. } => Some(output),
        KirOpModel::Traverse { output, .. } => Some(output),
        KirOpModel::Correlate { output, .. } => Some(output),
        KirOpModel::Similar { output, .. } => Some(output),
        KirOpModel::Infer { output, .. } => Some(output),
        KirOpModel::Timeline { output, .. } => Some(output),
        KirOpModel::Return { .. } => None,
        KirOpModel::Store { .. } => None,
        KirOpModel::Export { .. } => None,
        KirOpModel::Snapshot { output, .. } => Some(output),
        KirOpModel::ConstStr { output, .. } => Some(output),
        KirOpModel::ConstInt { output, .. } => Some(output),
        KirOpModel::ConstFloat { output, .. } => Some(output),
        KirOpModel::SortHint { .. } => None,
        KirOpModel::LimitHint { .. } => None,
    }
}

/// The values an operation consumes, in order.
pub open spec fn op_inputs(op: KirOpModel) -> Seq<KirValueId> {
    match op {
        KirOpModel::Collect { source_id, .. } => seq![source_id],
        KirOpModel::SourceEntity { kind_id, .. } => seq![kind_id],
        KirOpModel::SourceSearch { query_id, .. } => seq![query_id],
        KirOpModel::Observe { input, .. } => seq![input],
        KirOpModel::Classify { input, .. } => seq![input],
        KirOpModel::LoadGraph { input, .. } => seq![input],
        KirOpModel::Filter { input, .. } => seq![input],
        KirOpModel::Resolve { input, strategy_id, .. } => seq![input, strategy_id],
        KirOpModel::Traverse { input, relation_id, .. } => seq![input, relation_id],
        KirOpModel::Correlate { input, target_id, .. } => seq![input, target_id],
        KirOpModel::Similar { target_id, .. } => seq![target_id],
        KirOpModel::Infer { input, rule_id, .. } => seq![input, rule_id],
        KirOpModel::Timeline { query_id, .. } => seq![query_id],
        KirOpModel::Return { value_id, .. } => seq![value_id],
        KirOpModel::Store { value_id, name_id, .. } => seq![value_id, name_id],
        KirOpModel::Export { value_id, format_id, .. } => seq![value_id, format_id],
        KirOpModel::Snapshot { value_id, .. } => seq![value_id],
        KirOpModel::ConstStr { .. } => seq![],
        KirOpModel::ConstInt { .. } => seq![],
        KirOpModel::ConstFloat { .. } => seq![],
        KirOpModel::SortHint { input, .. } => seq![input],
        KirOpModel::LimitHint { input, .. } => seq![input],
    }
}

/// An operation with each consumed value `id` replaced by `r(id)`.
pub open spec fn rewrite_op(op: KirOpModel, r: spec_fn(KirValueId) -> KirValueId) -> KirOpModel {
    match op {
        KirOpModel::Collect { output, source_id } => KirOpModel::Collect { output, source_id: r(source_id) },
        KirOpModel::SourceEntity { output, kind_id } => KirOpModel::SourceEntity { output, kind_id: r(kind_id) },
        KirOpModel::SourceSearch { output, query_id } => KirOpModel::SourceSearch { output, query_id: r(query_id) },
        KirOpModel::Observe { output, input } => KirOpModel::Observe { output, input: r(input) },
        KirOpModel::Classify { output, input } => KirOpModel::Classify { output, input: r(input) },
        KirOpModel::LoadGraph { output, input } => KirOpModel::LoadGraph { output, input: r(input) },
        KirOpModel::Filter { output, input, filter } => KirOpModel::Filter { output, input: r(input), filter },
        KirOpModel::Resolve { output, input, strategy_id } => KirOpModel::Resolve { output, input: r(input), strategy_id: r(strategy_id) },
        KirOpModel::Traverse { output, input, relation_id, depth } => KirOpModel::Traverse { output, input: r(input), relation_id: r(relation_id), depth },
        KirOpModel::Correlate { output, input, target_id } => KirOpModel::Correlate { output, input: r(input), target_id: r(target_id) },
        KirOpModel::Similar { output, target_id, threshold_pct } => KirOpModel::Similar { output, target_id: r(target_id), threshold_pct },
        KirOpModel::Infer { output, input, rule_id } => KirOpModel::Infer { output, input: r(input), rule_id: r(rule_id) },
        KirOpModel::Timeline { output, query_id } => KirOpModel::Timeline { output, query_id: r(query_id) },
        KirOpModel::Return { value_id } => KirOpModel::Return { value_id: r(value_id) },
        KirOpModel::Store { value_id, name_id } => KirOpModel::Store { value_id: r(value_id), name_id: r(name_id) },
        KirOpModel::Export { value_id, format_id } => KirOpModel::Export { value_id: r(value_id), format_id: r(format_id) },
        KirOpModel::Snapshot { output, value_id, kind } => KirOpModel::Snapshot { output, value_id: r(value_id), kind },
        KirOpModel::ConstStr { output, value } => KirOpModel::ConstStr { output, value },
        KirOpModel::ConstInt { output, value } => KirOpModel::ConstInt { output, value },
        KirOpModel::ConstFloat { output, value } => KirOpModel::ConstFloat { output, value },
        KirOpModel::SortHint { input, field, ascending } => KirOpModel::SortHint { input: r(input), field, ascending },
        KirOpModel::LimitHint { input, limit } => KirOpModel::LimitHint { input: r(input), limit },
    }
}


/// The models of a list of operations.
pub open spec fn ops_model(v: Seq<KirOp>) -> Seq<KirOpModel> {
    v.map_values(|o: KirOp| o@)
}

/// What a replacement list maps `id` to: the target of its first pair for
/// `id`, or `id` itself.
pub open spec fn replaced(repl: Seq<(KirValueId, KirValueId)>, id: KirValueId) -> KirValueId
    decreases repl.len(),
{
    if repl.len() == 0 {
        id
    } else if repl[0].0 == id {
        repl[0].1
    } else {
        replaced(repl.drop_first(), id)
    }
}

/// What a replacement list maps `id` to.
pub fn replace_id(repl: &Vec<(KirValueId, KirValueId)>, id: KirValueId) -> (r: KirValueId)
    ensures
        r == replaced(repl@, id),
{
    let mut i: usize = 0;
    assert(repl@.subrange(0, repl@.len() as int) == repl@);
    while i < repl.len()
        invariant
            i <= repl@.len(),
            replaced(repl@.subrange(i as int, repl@.len() as int), id) == replaced(repl@, id),
        decreases repl@.len() - i,
    {
        assert(repl@.subrange(i as int, repl@.len() as int).drop_first() == repl@.subrange(i + 1, repl@.len() as int));
        if repl[i].0 == id {
            return repl[i].1;
        }
        i += 1;
    }
    id
}

impl KirOp {
    /// The value this operation produces, if any.
    pub fn output_id(&self) -> (r: Option<KirValueId>)
        ensures
            r == op_output(self@),
    {
        match self {
            KirOp::Collect { output, .. } => Some(*output),
            KirOp::SourceEntity { output, .. } => Some(*output),
            KirOp::SourceSearch { output, .. } => Some(*output),
            KirOp::Observe { output, .. } => Some(*output),
            KirOp::Classify { output, .. } => Some(*output),
            KirOp::LoadGraph { output, .. } => Some(*output),
            KirOp::Filter { output, .. } => Some(*output),
            KirOp::Resolve { output, .. } => Some(*output),
            KirOp::Traverse { output, .. } => Some(*output),
            KirOp::Correlate { output, .. } => Some(*output),
            KirOp::Similar { output, .. } => Some(*output),
            KirOp::Infer { output, .. } => Some(*output),
            KirOp::Timeline { output, .. } => Some(*output),
            KirOp::Return { .. } => None,
            KirOp::Store { .. } => None,
            KirOp::Export { .. } => None,
            KirOp::Snapshot { output, .. } => Some(*output),
            KirOp::ConstStr { output, .. } => Some(*output),
            KirOp::ConstInt { output, .. } => Some(*output),
            KirOp::ConstFloat { output, .. } => Some(*output),
            KirOp::SortHint { .. } => None,
            KirOp::LimitHint { .. } => None,
        }
    }

    /// All values this operation consumes, in order.
    pub fn input_ids(&self) -> (r: Vec<KirValueId>)
        ensures
            r@ == op_inputs(self@),
    {
        match self {
            KirOp::Collect { source_id, .. } => {
                let r = vec![*source_id];
                assert(r@ == seq![*source_id]);
                r
            },
            KirOp::SourceEntity { kind_id, .. } => {
                let r = vec![*kind_id];
                assert(r@ == seq![*kind_id]);
                r
            },
            KirOp::SourceSearch { query_id, .. } => {
                let r = vec![*query_id];
                assert(r@ == seq![*query_id]);
                r
            },
            KirOp::Observe { input, .. } => {
                let r = vec![*input];
                assert(r@ == seq![*input]);
                r
            },
            KirOp::Classify { input, .. } => {
                let r = vec![*input];
                assert(r@ == seq![*input]);
                r
            },
            KirOp::LoadGraph { input, .. } => {
                let r = vec![*input];
                assert(r@ == seq![*input]);
                r
            },
            KirOp::Filter { input, .. } => {
                let r = vec![*input];
                assert(r@ == seq![*input]);
                r
            },
            KirOp::Resolve { input, strategy_id, .. } => {
                let r = vec![*input, *strategy_id];
                assert(r@ == seq![*input, *strategy_id]);
                r
            },
            KirOp::Traverse { input, relation_id, .. } => {
                let r = vec![*input, *relation_id];
                assert(r@ == seq![*input, *relation_id]);
                r
            },
            KirOp::Correlate { input, target_id, .. } => {
                let r = vec![*input, *target_id];
                assert(r@ == seq![*input, *target_id]);
                r
            },
            KirOp::Similar { target_id, .. } => {
                let r = vec![*target_id];
                assert(r@ == seq![*target_id]);
                r
            },
            KirOp::Infer { input, rule_id, .. } => {
                let r = vec![*input, *rule_id];
                assert(r@ == seq![*input, *rule_id]);
                r
            },
            KirOp::Timeline { query_id, .. } => {
                let r = vec![*query_id];
                assert(r@ == seq![*query_id]);
                r
            },
            KirOp::Return { value_id, .. } => {
                let r = vec![*value_id];
                assert(r@ == seq![*value_id]);
                r
            },
            KirOp::Store { value_id, name_id, .. } => {
                let r = vec![*value_id, *name_id];
                assert(r@ == seq![*value_id, *name_id]);
                r
            },
            KirOp::Export { value_id, format_id, .. } => {
                let r = vec![*value_id, *format_id];
                assert(r@ == seq![*value_id, *format_id]);
                r
            },
            KirOp::Snapshot { value_id, .. } => {
                let r = vec![*value_id];
                assert(r@ == seq![*value_id]);
                r
            },
            KirOp::ConstStr { .. } => {
                let r: Vec<KirValueId> = Vec::new();
                assert(r@ =~= Seq::<KirValueId>::empty());
                r
            },
            KirOp::ConstInt { .. } => {
                let r: Vec<KirValueId> = Vec::new();
                assert(r@ =~= Seq::<KirValueId>::empty());
                r
            },
            KirOp::ConstFloat { .. } => {
                let r: Vec<KirValueId> = Vec::new();
                assert(r@ =~= Seq::<KirValueId>::empty());
                r
            },
            KirOp::SortHint { input, .. } => {
                let r = vec![*input];
                assert(r@ == seq![*input]);
                r
            },
            KirOp::LimitHint { input, .. } => {
                let r = vec![*input];
                assert(r@ == seq![*input]);
                r
            },
        }
    }
}

/// An operation with each consumed value replaced as `repl` says.
pub fn rewrite_inputs(op: &KirOp, repl: &Vec<(KirValueId, KirValueId)>) -> (r: KirOp)
    ensures
        r@ == rewrite_op(op@, |id: KirValueId| replaced(repl@, id)),
{
    match op {
        KirOp::Collect { output, source_id } => KirOp::Collect { output: *output, source_id: replace_id(repl, *source_id) },
        KirOp::SourceEntity { output, kind_id } => KirOp::SourceEntity { output: *output, kind_id: replace_id(repl, *kind_id) },
        KirOp::SourceSearch { output, query_id } => KirOp::SourceSearch { output: *output, query_id: replace_id(repl, *query_id) },
        KirOp::Observe { output, input } => KirOp::Observe { output: *output, input: replace_id(repl, *input) },
        KirOp::Classify { output, input } => KirOp::Classify { output: *output, input: replace_id(repl, *input) },
        KirOp::LoadGraph { output, input } => KirOp::LoadGraph { output: *output, input: replace_id(repl, *input) },
        KirOp::Filter { output, input, filter } => KirOp::Filter { output: *output, input: replace_id(repl, *input), filter: filter.copy() },
        KirOp::Resolve { output, input, strategy_id } => KirOp::Resolve { output: *output, input: replace_id(repl, *input), strategy_id: replace_id(repl, *strategy_id) },
        KirOp::Traverse { output, input, relation_id, depth } => KirOp::Traverse { output: *output, input: replace_id(repl, *input), relation_id: replace_id(repl, *relation_id), depth: *depth },
        KirOp::Correlate { output, input, target_id } => KirOp::Correlate { output: *output, input: replace_id(repl, *input), target_id: replace_id(repl, *target_id) },
        KirOp::Similar { output, target_id, threshold_pct } => KirOp::Similar { output: *output, target_id: replace_id(repl, *target_id), threshold_pct: *threshold_pct },
        KirOp::Infer { output, input, rule_id } => KirOp::Infer { output: *output, input: replace_id(repl, *input), rule_id: replace_id(repl, *rule_id) },
        KirOp::Timeline { output, query_id } => KirOp::Timeline { output: *output, query_id: replace_id(repl, *query_id) },
        KirOp::Return { value_id } => KirOp::Return { value_id: replace_id(repl, *value_id) },
        KirOp::Store { value_id, name_id } => KirOp::Store { value_id: replace_id(repl, *value_id), name_id: replace_id(repl, *name_id) },
        KirOp::Export { value_id, format_id } => KirOp::Export { value_id: replace_id(repl, *value_id), format_id: replace_id(repl, *format_id) },
        KirOp::Snapshot { output, value_id, kind } => KirOp::Snapshot { output: *output, value_id: replace_id(repl, *value_id), kind: *kind },
        KirOp::ConstStr { output, value } => KirOp::ConstStr { output: *output, value: value.clone() },
        KirOp::ConstInt { output, value } => KirOp::ConstInt { output: *output, value: *value },
        KirOp::ConstFloat { output, value } => KirOp::ConstFloat { output: *output, value: value.clone() },
        KirOp::SortHint { input, field, ascending } => KirOp::SortHint { input: replace_id(repl, *input), field: field.clone(), ascending: *ascending },
        KirOp::LimitHint { input, limit } => KirOp::LimitHint { input: replace_id(repl, *input), limit: *limit },
    }
}


/// A KIR program: operations in program order, the final pipeline value,
/// and the next free value identifier.
#[derive(Debug)]
pub struct KirProgram {
    pub ops: Vec<KirOp>,
    pub output: Option<KirValueId>,
    pub next_id: KirValueId,
}

/// The abstract value of a [`KirProgram`].
pub struct KirModel {
    pub ops: Seq<KirOpModel>,
    pub output: Option<KirValueId>,
    pub next_id: KirValueId,
}

impl View for KirProgram {
    type V = KirModel;

    open spec fn view(&self) -> KirModel {
        KirModel { ops: ops_model(self.ops@), output: self.output, next_id: self.next_id }
    }
}

/// The values some operation consumes, with the program output.
pub open spec fn used_set(ops: Seq<KirOpModel>, output: Option<KirValueId>) -> Set<KirValueId> {
    let consumed = Set::new(|id: KirValueId| exists|k: int| 0 <= k < ops.len() && #[trigger] op_inputs(ops[k]).contains(id));
    match output {
        Some(o) => consumed.insert(o),
        None => consumed,
    }
}

impl KirProgram {
    /// An empty program.
    pub fn new() -> (r: Self)
        ensures
            r@.ops == Seq::<KirOpModel>::empty(),
            r@.output is None,
            r@.next_id == 0,
    {
        let r = KirProgram { ops: Vec::new(), output: None, next_id: 0 };
        assert(ops_model(r.ops@) =~= Seq::<KirOpModel>::empty());
        r
    }

    /// A fresh value identifier.
    pub fn alloc_id(&mut self) -> (r: KirValueId)
        requires
            old(self).next_id < usize::MAX,
        ensures
            r == old(self).next_id,
            final(self)@.next_id == old(self).next_id + 1,
            final(self)@.ops == old(self)@.ops,
            final(self)@.output == old(self)@.output,
    {
        let id = self.next_id;
        self.next_id = self.next_id + 1;
        id
    }

    /// Appends an operation; returns the value it produces, if any.
    pub fn push(&mut self, op: KirOp) -> (r: Option<KirValueId>)
        ensures
            r == op_output(op@),
            final(self)@.ops == old(self)@.ops.push(op@),
            final(self)@.output == old(self)@.output,
            final(self)@.next_id == old(self)@.next_id,
    {
        let out = op.output_id();
        let ghost m = op@;
        self.ops.push(op);
        assert(ops_model(self.ops@) =~= ops_model(old(self).ops@).push(m));
        out
    }

    /// The values that some operation consumes, and the program output.
    pub fn used_values(&self) -> (r: HashSet<KirValueId>)
        ensures
            r@ == used_set(self@.ops, self@.output),
    {
        broadcast use vstd::std_specs::hash::group_hash_axioms;
        let ghost ops = self@.ops;
        let mut used: HashSet<KirValueId> = HashSet::new();
        let mut i: usize = 0;
        while i < self.ops.len()
            invariant
                i <= self.ops@.len(),
                ops == self@.ops,
                forall|x: KirValueId| #[trigger] used@.contains(x) <==> exists|k: int| 0 <= k < i && #[trigger] op_inputs(ops[k]).contains(x),
            decreases self.ops@.len() - i,
        {
            let ins = self.ops[i].input_ids();
            let mut j: usize = 0;
            let ghost before = used@;
            while j < ins.len()
                invariant
                    j <= ins@.len(),
                    i < ops.len(),
                    ins@ == op_inputs(ops[i as int]),
                    forall|x: KirValueId| #[trigger] used@.contains(x) <==> before.contains(x) || exists|m: int| 0 <= m < j && ins@[m] == x,
                decreases ins@.len() - j,
            {
                used.insert(ins[j]);
                j += 1;
                assert forall|x: KirValueId| #[trigger] used@.contains(x) <==> before.contains(x) || exists|m: int| 0 <= m < j && ins@[m] == x by {
                    if x == ins@[j - 1] {
                        assert(ins@[j - 1] == x);
                    }
                }
            }
            assert forall|x: KirValueId| #[trigger] used@.contains(x) <==> exists|k: int| 0 <= k < i + 1 && #[trigger] op_inputs(ops[k]).contains(x) by {
                if used@.contains(x) && !before.contains(x) {
                    let m = choose|m: int| 0 <= m < ins@.len() && ins@[m] == x;
                    assert(op_inputs(ops[i as int]).contains(x));
                }
                if exists|k: int| 0 <= k < i + 1 && #[trigger] op_inputs(ops[k]).contains(x) {
                    let k = choose|k: int| 0 <= k < i + 1 && #[trigger] op_inputs(ops[k]).contains(x);
                    if k == i {
                        let m = choose|m: int| 0 <= m < op_inputs(ops[k]).len() && op_inputs(ops[k])[m] == x;
                        assert(ins@[m] == x);
                    }
                }
            }
            i += 1;
        }
        if let Some(o) = self.output {
            used.insert(o);
        }
        assert(used@ =~= used_set(ops, self@.output));
        used
    }
}

} // verus!
