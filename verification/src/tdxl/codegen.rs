//! Code generation: KIR to register-machine instructions with a string
//! constant pool. The pipeline value lives in the accumulator (register 0);
//! string values take the temporaries 1, 2 and 3 in turn; register 4 holds a
//! similarity threshold and register 5 a traversal depth.
use vstd::prelude::*;
use crate::json::{json_string_map, to_json_string_map};
use crate::observation::meta_texts;
use crate::tdxl::compiler::compile_to_kir;
use crate::tdxl::error::Error;
use crate::tdxl::kir::{KirModel, KirOp, KirOpModel, KirProgram, KirValueId, op_output};
use crate::tdxl::lexer::{is_lex_error, lex};
use crate::tdxl::optimizer::optimized;
use crate::tdxl::parser::{is_parse_error, parse_tokens};
use crate::tdxl::compiler::lowered;
use crate::tdxl::query_optimizer::query_optimized;
use crate::text::{chars_of, same_text, string_of, texts};

verus! {

/// The pipeline accumulator.
pub const ACC: u8 = 0;

/// The first temporary register.
pub const TMP1: u8 = 1;

/// The second temporary register.
pub const TMP2: u8 = 2;

/// The third temporary register.
pub const TMP3: u8 = 3;

/// The register that holds a numeric operand.
pub const NUM: u8 = 4;

/// The register that holds a traversal depth.
pub const DEPTH: u8 = 5;

/// One machine instruction: the operation and its register operands.
#[derive(Debug, Clone, Copy, PartialEq, Eq, Structural)]
pub enum Instr {
    LoadEntity { dst: u8, src: u8 },
    Search { dst: u8, query: u8 },
    Classify { dst: u8, src: u8 },
    LoadGraph { dst: u8, src: u8 },
    Traverse { dst: u8, relation: u8 },
    LoadImm { dst: u8, value: i32 },
    Infer { dst: u8, src: u8, rule: u8 },
    LoadStr { dst: u8, index: u16 },
    Correlate { dst: u8, target: u8 },
    Similar { dst: u8, target: u8, threshold: u8 },
    Timeline { dst: u8, query: u8 },
    StoreVal { src: u8 },
    Snapshot { src: u8, kind: u8 },
    Mov { dst: u8, src: u8 },
    Halt,
}

/// A compiled program: its name, its string constants and its
/// instructions.
pub struct Bytecode {
    pub name: String,
    pub constants: Vec<String>,
    pub instructions: Vec<Instr>,
}

/// The abstract value of a [`Bytecode`].
pub struct BytecodeModel {
    pub name: Seq<char>,
    pub constants: Seq<Seq<char>>,
    pub instructions: Seq<Instr>,
}

impl View for Bytecode {
    type V = BytecodeModel;

    open spec fn view(&self) -> BytecodeModel {
        BytecodeModel { name: self.name@, constants: texts(self.constants@), instructions: self.instructions@ }
    }
}

/// The state of code generation: the constant pool, the instructions so
/// far, the register of each value given one, the next temporary to hand
/// out, the string values already loaded, and the value in the
/// accumulator.
pub struct CgModel {
    pub consts: Seq<Seq<char>>,
    pub instrs: Seq<Instr>,
    pub regs: Seq<(KirValueId, u8)>,
    pub next_tmp: u8,
    pub loaded: Seq<KirValueId>,
    pub pipeline: Option<KirValueId>,
}

/// The register given to `id` among the first `n` assignments (the first
/// one for it).
pub open spec fn reg_of(regs: Seq<(KirValueId, u8)>, id: KirValueId, n: int) -> Option<u8>
    decreases n,
{
    if n <= 0 {
        None
    } else {
        match reg_of(regs, id, n - 1) {
            Some(r) => Some(r),
            None => if regs[n - 1].0 == id {
                Some(regs[n - 1].1)
            } else {
                None
            },
        }
    }
}

proof fn lemma_reg_of_stays(regs: Seq<(KirValueId, u8)>, id: KirValueId, k: int, n: int)
    requires
        k <= n,
        reg_of(regs, id, k) is Some,
    ensures
        reg_of(regs, id, n) == reg_of(regs, id, k),
    decreases n - k,
{
    if k < n {
        lemma_reg_of_stays(regs, id, k, n - 1);
    }
}

/// The temporary after `r`, round the three.
pub open spec fn next_temp(r: u8) -> u8 {
    if r == TMP1 {
        TMP2
    } else if r == TMP2 {
        TMP3
    } else {
        TMP1
    }
}

/// The register of `id`: the one it has, or else the next temporary, which
/// it then keeps.
pub open spec fn cg_alloc(m: CgModel, id: KirValueId) -> (CgModel, u8) {
    match reg_of(m.regs, id, m.regs.len() as int) {
        Some(r) => (m, r),
        None => (CgModel { regs: m.regs.push((id, m.next_tmp)), next_tmp: next_temp(m.next_tmp), ..m }, m.next_tmp),
    }
}

/// The first index among the first `n` constants that holds `s`.
pub open spec fn const_index(consts: Seq<Seq<char>>, s: Seq<char>, n: int) -> Option<int>
    decreases n,
{
    if n <= 0 {
        None
    } else {
        match const_index(consts, s, n - 1) {
            Some(i) => Some(i),
            None => if consts[n - 1] == s {
                Some(n - 1)
            } else {
                None
            },
        }
    }
}

proof fn lemma_const_index_stays(consts: Seq<Seq<char>>, s: Seq<char>, k: int, n: int)
    requires
        k <= n,
        const_index(consts, s, k) is Some,
    ensures
        const_index(consts, s, n) == const_index(consts, s, k),
    decreases n - k,
{
    if k < n {
        lemma_const_index_stays(consts, s, k, n - 1);
    }
}

/// The pool index of a string, added at the end where it is new (indices
/// taken as `u16`).
pub open spec fn cg_add_string(m: CgModel, s: Seq<char>) -> (CgModel, u16) {
    match const_index(m.consts, s, m.consts.len() as int) {
        Some(i) => (m, i as u16),
        None => (CgModel { consts: m.consts.push(s), ..m }, m.consts.len() as u16),
    }
}

/// One more instruction.
pub open spec fn cg_emit(m: CgModel, i: Instr) -> CgModel {
    CgModel { instrs: m.instrs.push(i), ..m }
}

/// The register of a string value, loaded from the pool the first time.
pub open spec fn cg_load_str(m: CgModel, id: KirValueId, s: Seq<char>) -> (CgModel, u8) {
    if m.loaded.contains(id) {
        cg_alloc(m, id)
    } else {
        let (m1, reg) = cg_alloc(m, id);
        let (m2, idx) = cg_add_string(m1, s);
        (CgModel { loaded: m2.loaded.push(id), ..cg_emit(m2, Instr::LoadStr { dst: reg, index: idx }) }, reg)
    }
}

/// The value `id` brought into the accumulator, unless it is there.
pub open spec fn cg_to_acc(m: CgModel, id: KirValueId) -> CgModel {
    if m.pipeline == Some(id) {
        m
    } else {
        let (m1, reg) = cg_alloc(m, id);
        if reg != ACC {
            cg_emit(m1, Instr::Mov { dst: ACC, src: reg })
        } else {
            m1
        }
    }
}

/// The accumulator now holds `id`.
pub open spec fn in_acc(m: CgModel, id: KirValueId) -> CgModel {
    CgModel { pipeline: Some(id), ..m }
}

/// The text of a filter condition: a JSON object of its field, operator
/// and value.
pub open spec fn filter_json(f: (Seq<char>, Seq<char>, Seq<char>)) -> Seq<char> {
    json_string_map(seq![("field"@, f.0), ("op"@, f.1), ("value"@, f.2)])
}

/// The instructions of one operation.
pub open spec fn cg_op(m: CgModel, op: KirOpModel) -> CgModel {
    match op {
        KirOpModel::Collect { output, source_id } => {
            let (m1, r) = cg_alloc(m, source_id);
            in_acc(cg_emit(m1, Instr::LoadEntity { dst: ACC, src: r }), output)
        },
        KirOpModel::SourceEntity { output, kind_id } => {
            let (m1, r) = cg_alloc(m, kind_id);
            in_acc(cg_emit(m1, Instr::LoadEntity { dst: ACC, src: r }), output)
        },
        KirOpModel::SourceSearch { output, query_id } => {
            let (m1, r) = cg_alloc(m, query_id);
            in_acc(cg_emit(m1, Instr::Search { dst: ACC, query: r }), output)
        },
        KirOpModel::Observe { output, input } | KirOpModel::Classify { output, input } => in_acc(
            cg_emit(cg_to_acc(m, input), Instr::Classify { dst: ACC, src: ACC }),
            output,
        ),
        KirOpModel::LoadGraph { output, input } => in_acc(
            cg_emit(cg_to_acc(m, input), Instr::LoadGraph { dst: ACC, src: ACC }),
            output,
        ),
        KirOpModel::Resolve { output, input, strategy_id } => {
            let (m1, r) = cg_alloc(cg_to_acc(m, input), strategy_id);
            let m2 = cg_emit(m1, Instr::LoadGraph { dst: TMP1, src: ACC });
            in_acc(cg_emit(m2, Instr::Search { dst: ACC, query: r }), output)
        },
        KirOpModel::Filter { output, input, filter } => {
            let m1 = cg_emit(cg_to_acc(m, input), Instr::LoadGraph { dst: TMP1, src: ACC });
            let (m2, _) = cg_load_str(m1, output, filter_json(filter));
            let (m3, r) = cg_alloc(m2, output);
            in_acc(cg_emit(m3, Instr::Search { dst: ACC, query: r }), output)
        },
        KirOpModel::Traverse { output, input, relation_id, depth } => {
            let (m1, r) = cg_alloc(cg_to_acc(m, input), relation_id);
            let m2 = cg_emit(m1, Instr::Traverse { dst: ACC, relation: r });
            let m3 = match depth {
                Some(d) => cg_emit(m2, Instr::LoadImm { dst: DEPTH, value: d }),
                None => m2,
            };
            in_acc(m3, output)
        },
        KirOpModel::Infer { output, input, rule_id } => {
            let (m1, r) = cg_alloc(cg_to_acc(m, input), rule_id);
            in_acc(cg_emit(m1, Instr::Infer { dst: ACC, src: ACC, rule: r }), output)
        },
        KirOpModel::Correlate { output, input, target_id } => {
            let (m1, t) = cg_alloc(cg_to_acc(m, input), target_id);
            let (m2, idx) = cg_add_string(m1, "_target"@);
            let m3 = cg_emit(m2, Instr::LoadStr { dst: TMP2, index: idx });
            let m4 = cg_emit(m3, Instr::LoadEntity { dst: TMP3, src: t });
            in_acc(cg_emit(m4, Instr::Correlate { dst: ACC, target: TMP3 }), output)
        },
        KirOpModel::Similar { output, target_id, threshold_pct } => {
            let (m1, t) = cg_alloc(m, target_id);
            let m2 = cg_emit(m1, Instr::LoadImm { dst: NUM, value: (threshold_pct / 10) as i32 });
            in_acc(cg_emit(m2, Instr::Similar { dst: ACC, target: t, threshold: NUM }), output)
        },
        KirOpModel::Timeline { output, query_id } => {
            let (m1, q) = cg_alloc(m, query_id);
            in_acc(cg_emit(m1, Instr::Timeline { dst: ACC, query: q }), output)
        },
        KirOpModel::Store { value_id, name_id } => {
            let (m1, _) = cg_alloc(cg_to_acc(m, value_id), name_id);
            cg_emit(m1, Instr::StoreVal { src: ACC })
        },
        KirOpModel::Export { value_id, format_id } => {
            let (m1, f) = cg_alloc(cg_to_acc(m, value_id), format_id);
            in_acc(cg_emit(m1, Instr::Snapshot { src: ACC, kind: f }), value_id)
        },
        KirOpModel::Snapshot { output, value_id, kind } => in_acc(
            cg_emit(cg_to_acc(m, value_id), Instr::Snapshot { src: ACC, kind }),
            output,
        ),
        KirOpModel::Return { value_id } => in_acc(m, value_id),
        _ => m,
    }
}

/// The first `n` string constants of a program loaded, in order.
pub open spec fn cg_preload(m: CgModel, ops: Seq<KirOpModel>, n: int) -> CgModel
    decreases n,
{
    if n <= 0 {
        m
    } else {
        let prev = cg_preload(m, ops, n - 1);
        match ops[n - 1] {
            KirOpModel::ConstStr { output, value } => cg_load_str(prev, output, value).0,
            _ => prev,
        }
    }
}

/// The first `n` operations generated in order.
pub open spec fn cg_ops(m: CgModel, ops: Seq<KirOpModel>, n: int) -> CgModel
    decreases n,
{
    if n <= 0 {
        m
    } else {
        cg_op(cg_ops(m, ops, n - 1), ops[n - 1])
    }
}

/// Code generation before any instruction.
pub open spec fn cg_start() -> CgModel {
    CgModel { consts: seq![], instrs: seq![], regs: seq![], next_tmp: TMP1, loaded: seq![], pipeline: None }
}

/// The program generated for a KIR program: the string constants loaded
/// first, then each operation, then a halt.
pub open spec fn generated(p: KirModel) -> BytecodeModel {
    let m = cg_ops(cg_preload(cg_start(), p.ops, p.ops.len() as int), p.ops, p.ops.len() as int);
    BytecodeModel { name: "tdxl_program"@, constants: m.consts, instructions: m.instrs.push(Instr::Halt) }
}

proof fn lemma_const_index(consts: Seq<Seq<char>>, s: Seq<char>, n: int)
    requires
        0 <= n <= consts.len(),
    ensures
        const_index(consts, s, n) matches Some(i) ==> 0 <= i < n && consts[i] == s,
        const_index(consts, s, n) is None ==> forall|k: int| 0 <= k < n ==> consts[k] != s,
    decreases n,
{
    if n > 0 {
        lemma_const_index(consts, s, n - 1);
    }
}

/// The constant pool never holds a string twice: adding a string gives the
/// index where it already stands, or appends it once; either way the pool
/// then holds it at the index returned (while indices fit in `u16`).
pub proof fn lemma_add_string_pool(m: CgModel, s: Seq<char>)
    requires
        m.consts.no_duplicates(),
    ensures
        cg_add_string(m, s).0.consts.no_duplicates(),
        m.consts.contains(s) ==> cg_add_string(m, s).0.consts == m.consts,
        !m.consts.contains(s) ==> cg_add_string(m, s).0.consts == m.consts.push(s),
        m.consts.len() < 0x10000 ==> cg_add_string(m, s).0.consts[cg_add_string(m, s).1 as int] == s,
{
    lemma_const_index(m.consts, s, m.consts.len() as int);
    match const_index(m.consts, s, m.consts.len() as int) {
        Some(i) => {
            assert(m.consts.contains(s));
        },
        None => {
            assert(!m.consts.contains(s));
            let c = m.consts.push(s);
            assert forall|a: int, b: int| 0 <= a < c.len() && 0 <= b < c.len() && a != b implies c[a] != c[b] by {
                if a < m.consts.len() && b < m.consts.len() {
                    assert(c[a] == m.consts[a] && c[b] == m.consts[b]);
                } else if a < m.consts.len() {
                    assert(c[a] == m.consts[a]);
                } else if b < m.consts.len() {
                    assert(c[b] == m.consts[b]);
                }
            }
        },
    }
}

proof fn lemma_load_str_pool(m: CgModel, id: KirValueId, s: Seq<char>)
    requires
        m.consts.no_duplicates(),
    ensures
        cg_load_str(m, id, s).0.consts.no_duplicates(),
{
    let (m1, _) = cg_alloc(m, id);
    lemma_add_string_pool(m1, s);
}

proof fn lemma_op_pool(m: CgModel, op: KirOpModel)
    requires
        m.consts.no_duplicates(),
    ensures
        cg_op(m, op).consts.no_duplicates(),
{
    match op {
        KirOpModel::Filter { output, input, filter } => {
            let m1 = cg_emit(cg_to_acc(m, input), Instr::LoadGraph { dst: TMP1, src: ACC });
            lemma_load_str_pool(m1, output, filter_json(filter));
        },
        KirOpModel::Correlate { output, input, target_id } => {
            let (m1, t) = cg_alloc(cg_to_acc(m, input), target_id);
            lemma_add_string_pool(m1, "_target"@);
        },
        _ => {},
    }
}

proof fn lemma_preload_pool(m: CgModel, ops: Seq<KirOpModel>, n: int)
    requires
        m.consts.no_duplicates(),
        n <= ops.len(),
    ensures
        cg_preload(m, ops, n).consts.no_duplicates(),
    decreases n,
{
    if n > 0 {
        lemma_preload_pool(m, ops, n - 1);
        match ops[n - 1] {
            KirOpModel::ConstStr { output, value } => lemma_load_str_pool(cg_preload(m, ops, n - 1), output, value),
            _ => {},
        }
    }
}

proof fn lemma_ops_pool(m: CgModel, ops: Seq<KirOpModel>, n: int)
    requires
        m.consts.no_duplicates(),
        n <= ops.len(),
    ensures
        cg_ops(m, ops, n).consts.no_duplicates(),
    decreases n,
{
    if n > 0 {
        lemma_ops_pool(m, ops, n - 1);
        lemma_op_pool(cg_ops(m, ops, n - 1), ops[n - 1]);
    }
}

/// A generated program's constant pool holds no string twice.
pub proof fn lemma_generated_pool_distinct(p: KirModel)
    ensures
        generated(p).constants.no_duplicates(),
{
    lemma_preload_pool(cg_start(), p.ops, p.ops.len() as int);
    lemma_ops_pool(cg_preload(cg_start(), p.ops, p.ops.len() as int), p.ops, p.ops.len() as int);
}

/// `b` extends the instructions of `a`.
pub open spec fn extends_code(a: CgModel, b: CgModel) -> bool {
    a.instrs.len() <= b.instrs.len() && b.instrs.subrange(0, a.instrs.len() as int) == a.instrs
}

proof fn lemma_extends_trans(a: CgModel, b: CgModel, c: CgModel)
    requires
        extends_code(a, b),
        extends_code(b, c),
    ensures
        extends_code(a, c),
{
    assert(c.instrs.subrange(0, a.instrs.len() as int) =~= b.instrs.subrange(0, a.instrs.len() as int));
}

proof fn lemma_emit_extends(m: CgModel, i: Instr)
    ensures
        extends_code(m, cg_emit(m, i)),
{
    assert(cg_emit(m, i).instrs.subrange(0, m.instrs.len() as int) =~= m.instrs);
}

proof fn lemma_same_code(m: CgModel, b: CgModel)
    requires
        b.instrs == m.instrs,
    ensures
        extends_code(m, b),
{
    assert(b.instrs.subrange(0, m.instrs.len() as int) =~= m.instrs);
}

proof fn lemma_to_acc_extends(m: CgModel, id: KirValueId)
    ensures
        extends_code(m, cg_to_acc(m, id)),
{
    let (m1, reg) = cg_alloc(m, id);
    lemma_same_code(m, m1);
    if m.pipeline != Some(id) && reg != ACC {
        lemma_emit_extends(m1, Instr::Mov { dst: ACC, src: reg });
        lemma_extends_trans(m, m1, cg_to_acc(m, id));
    } else {
        lemma_same_code(m, cg_to_acc(m, id));
    }
}

/// The instructions each operation ends with. Every operation keeps the
/// instructions already generated and appends to them:
/// - a traversal ends with a `Traverse` into the accumulator, followed,
///   where the operation has a depth `d`, by loading `d` into the depth
///   register;
/// - a similarity search loads its threshold (tenths of the percentage)
///   into the number register, then searches into the accumulator with it;
/// - a correlation loads the target entity into the third temporary, then
///   correlates the accumulator with it;
/// - observation and classification classify the accumulator in place,
///   a graph load loads the accumulator's graph in place;
/// - a collection or entity source loads an entity into the accumulator,
///   a search source and a filter search into it, a timeline and an
///   inference write it;
/// - a store stores the accumulator and keeps the pipeline value; a
///   snapshot writes the accumulator with the snapshot's kind;
/// - a return emits nothing and makes its value the pipeline value.
/// Every operation that produces a value leaves that value in the
/// accumulator.
pub proof fn lemma_op_code(m: CgModel, op: KirOpModel)
    ensures
        extends_code(m, cg_op(m, op)),
        ({
            let r = cg_op(m, op).instrs;
            let n = r.len() as int;
            &&& (op matches KirOpModel::Traverse { depth, .. } ==> match depth {
                Some(d) => n >= 2 && r[n - 1] == Instr::LoadImm { dst: DEPTH, value: d } && r[n - 2] is Traverse && r[n
                    - 2]->Traverse_dst == ACC,
                None => n >= 1 && r[n - 1] is Traverse && r[n - 1]->Traverse_dst == ACC,
            })
            &&& (op matches KirOpModel::Similar { threshold_pct, .. } ==> n >= 2 && r[n - 2] == Instr::LoadImm {
                dst: NUM,
                value: (threshold_pct / 10) as i32,
            } && r[n - 1] is Similar && r[n - 1]->Similar_dst == ACC && r[n - 1]->threshold == NUM)
            &&& (op is Correlate ==> n >= 2 && r[n - 1] == Instr::Correlate { dst: ACC, target: TMP3 } && r[n
                - 2] is LoadEntity && r[n - 2]->LoadEntity_dst == TMP3)
            &&& ((op is Observe || op is Classify) ==> n >= 1 && r[n - 1] == Instr::Classify { dst: ACC, src: ACC })
            &&& (op is LoadGraph ==> n >= 1 && r[n - 1] == Instr::LoadGraph { dst: ACC, src: ACC })
            &&& ((op is Collect || op is SourceEntity) ==> n >= 1 && r[n - 1] is LoadEntity && r[n - 1]->LoadEntity_dst
                == ACC)
            &&& ((op is SourceSearch || op is Filter || op is Resolve) ==> n >= 1 && r[n - 1] is Search && r[n
                - 1]->Search_dst == ACC)
            &&& (op is Timeline ==> n >= 1 && r[n - 1] is Timeline && r[n - 1]->Timeline_dst == ACC)
            &&& (op is Infer ==> n >= 1 && r[n - 1] is Infer && r[n - 1]->Infer_dst == ACC && r[n - 1]->Infer_src == ACC)
            &&& (op is Store ==> n >= 1 && r[n - 1] == Instr::StoreVal { src: ACC } && cg_op(m, op).pipeline
                == cg_to_acc(m, op->Store_value_id).pipeline)
            &&& (op matches KirOpModel::Snapshot { kind, .. } ==> n >= 1 && r[n - 1] == Instr::Snapshot { src: ACC, kind })
            &&& (op is Export ==> n >= 1 && r[n - 1] is Snapshot && r[n - 1]->Snapshot_src == ACC)
            &&& (op matches KirOpModel::Return { value_id } ==> r == m.instrs && cg_op(m, op).pipeline == Some(value_id))
            &&& (op_output(op) matches Some(o) ==> !(op is ConstStr || op is ConstInt || op is ConstFloat)
                ==> cg_op(m, op).pipeline == Some(o))
        }),
{
    match op {
        KirOpModel::Collect { source_id, .. } | KirOpModel::SourceEntity { kind_id: source_id, .. } | KirOpModel::SourceSearch {
            query_id: source_id,
            ..
        } | KirOpModel::Timeline { query_id: source_id, .. } | KirOpModel::Similar { target_id: source_id, .. } => {
            let (m1, r) = cg_alloc(m, source_id);
            lemma_same_code(m, m1);
            let m2 = match op {
                KirOpModel::Similar { threshold_pct, .. } => {
                    let x = cg_emit(m1, Instr::LoadImm { dst: NUM, value: (threshold_pct / 10) as i32 });
                    lemma_emit_extends(m1, Instr::LoadImm { dst: NUM, value: (threshold_pct / 10) as i32 });
                    lemma_extends_trans(m, m1, x);
                    x
                },
                _ => m1,
            };
            lemma_emit_extends(m2, cg_op(m, op).instrs.last());
            lemma_same_code(cg_emit(m2, cg_op(m, op).instrs.last()), cg_op(m, op));
            lemma_extends_trans(m, m2, cg_op(m, op));
        },
        KirOpModel::Observe { input, .. } | KirOpModel::Classify { input, .. } | KirOpModel::LoadGraph { input, .. }
        | KirOpModel::Snapshot { value_id: input, .. } => {
            lemma_to_acc_extends(m, input);
            let m1 = cg_to_acc(m, input);
            lemma_emit_extends(m1, cg_op(m, op).instrs.last());
            lemma_same_code(cg_emit(m1, cg_op(m, op).instrs.last()), cg_op(m, op));
            lemma_extends_trans(m, m1, cg_op(m, op));
        },
        KirOpModel::Resolve { input, strategy_id, .. } => {
            lemma_to_acc_extends(m, input);
            let (m1, r) = cg_alloc(cg_to_acc(m, input), strategy_id);
            lemma_same_code(cg_to_acc(m, input), m1);
            lemma_extends_trans(m, cg_to_acc(m, input), m1);
            let m2 = cg_emit(m1, Instr::LoadGraph { dst: TMP1, src: ACC });
            lemma_emit_extends(m1, Instr::LoadGraph { dst: TMP1, src: ACC });
            lemma_extends_trans(m, m1, m2);
            lemma_emit_extends(m2, Instr::Search { dst: ACC, query: r });
            lemma_same_code(cg_emit(m2, Instr::Search { dst: ACC, query: r }), cg_op(m, op));
            lemma_extends_trans(m, m2, cg_op(m, op));
        },
        KirOpModel::Filter { output, input, filter } => {
            lemma_to_acc_extends(m, input);
            let m1 = cg_emit(cg_to_acc(m, input), Instr::LoadGraph { dst: TMP1, src: ACC });
            lemma_emit_extends(cg_to_acc(m, input), Instr::LoadGraph { dst: TMP1, src: ACC });
            lemma_extends_trans(m, cg_to_acc(m, input), m1);
            let (m2, _) = cg_load_str(m1, output, filter_json(filter));
            let (a1, reg) = cg_alloc(m1, output);
            lemma_same_code(m1, a1);
            if !m1.loaded.contains(output) {
                let (a2, idx) = cg_add_string(a1, filter_json(filter));
                lemma_same_code(a1, a2);
                lemma_emit_extends(a2, Instr::LoadStr { dst: reg, index: idx });
                lemma_extends_trans(a1, a2, cg_emit(a2, Instr::LoadStr { dst: reg, index: idx }));
                lemma_same_code(cg_emit(a2, Instr::LoadStr { dst: reg, index: idx }), m2);
                lemma_extends_trans(a1, cg_emit(a2, Instr::LoadStr { dst: reg, index: idx }), m2);
                lemma_extends_trans(m1, a1, m2);
            } else {
                lemma_same_code(m1, m2);
            }
            lemma_extends_trans(m, m1, m2);
            let (m3, r) = cg_alloc(m2, output);
            lemma_same_code(m2, m3);
            lemma_extends_trans(m, m2, m3);
            lemma_emit_extends(m3, Instr::Search { dst: ACC, query: r });
            lemma_same_code(cg_emit(m3, Instr::Search { dst: ACC, query: r }), cg_op(m, op));
            lemma_extends_trans(m, m3, cg_op(m, op));
        },
        KirOpModel::Traverse { input, relation_id, .. } | KirOpModel::Infer { input, rule_id: relation_id, .. }
        | KirOpModel::Store { value_id: input, name_id: relation_id } | KirOpModel::Export {
            value_id: input,
            format_id: relation_id,
        } => {
            lemma_to_acc_extends(m, input);
            let (m1, r) = cg_alloc(cg_to_acc(m, input), relation_id);
            lemma_same_code(cg_to_acc(m, input), m1);
            lemma_extends_trans(m, cg_to_acc(m, input), m1);
            let i = match op {
                KirOpModel::Traverse { .. } => Instr::Traverse { dst: ACC, relation: r },
                KirOpModel::Infer { .. } => Instr::Infer { dst: ACC, src: ACC, rule: r },
                KirOpModel::Store { .. } => Instr::StoreVal { src: ACC },
                _ => Instr::Snapshot { src: ACC, kind: r },
            };
            let m2 = cg_emit(m1, i);
            lemma_emit_extends(m1, i);
            lemma_extends_trans(m, m1, m2);
            match op {
                KirOpModel::Traverse { depth: Some(d), .. } => {
                    lemma_emit_extends(m2, Instr::LoadImm { dst: DEPTH, value: d });
                    lemma_same_code(cg_emit(m2, Instr::LoadImm { dst: DEPTH, value: d }), cg_op(m, op));
                    lemma_extends_trans(m, m2, cg_op(m, op));
                },
                _ => {
                    lemma_same_code(m2, cg_op(m, op));
                    lemma_extends_trans(m, m2, cg_op(m, op));
                },
            }
        },
        KirOpModel::Correlate { input, target_id, .. } => {
            lemma_to_acc_extends(m, input);
            let (m1, t) = cg_alloc(cg_to_acc(m, input), target_id);
            lemma_same_code(cg_to_acc(m, input), m1);
            lemma_extends_trans(m, cg_to_acc(m, input), m1);
            let (m2, idx) = cg_add_string(m1, "_target"@);
            lemma_same_code(m1, m2);
            lemma_extends_trans(m, m1, m2);
            let m3 = cg_emit(m2, Instr::LoadStr { dst: TMP2, index: idx });
            lemma_emit_extends(m2, Instr::LoadStr { dst: TMP2, index: idx });
            lemma_extends_trans(m, m2, m3);
            let m4 = cg_emit(m3, Instr::LoadEntity { dst: TMP3, src: t });
            lemma_emit_extends(m3, Instr::LoadEntity { dst: TMP3, src: t });
            lemma_extends_trans(m, m3, m4);
            lemma_emit_extends(m4, Instr::Correlate { dst: ACC, target: TMP3 });
            lemma_same_code(cg_emit(m4, Instr::Correlate { dst: ACC, target: TMP3 }), cg_op(m, op));
            lemma_extends_trans(m, m4, cg_op(m, op));
        },
        _ => {
            lemma_same_code(m, cg_op(m, op));
        },
    }
}

/// The code generator's state.
struct CodegenEngine {
    consts: Vec<String>,
    instrs: Vec<Instr>,
    regs: Vec<(KirValueId, u8)>,
    next_tmp: u8,
    loaded: Vec<KirValueId>,
    pipeline_val: Option<KirValueId>,
}

impl View for CodegenEngine {
    type V = CgModel;

    closed spec fn view(&self) -> CgModel {
        CgModel {
            consts: texts(self.consts@),
            instrs: self.instrs@,
            regs: self.regs@,
            next_tmp: self.next_tmp,
            loaded: self.loaded@,
            pipeline: self.pipeline_val,
        }
    }
}

impl CodegenEngine {
    fn new() -> (r: Self)
        ensures
            r@ == cg_start(),
    {
        let r = CodegenEngine {
            consts: Vec::new(),
            instrs: Vec::new(),
            regs: Vec::new(),
            next_tmp: TMP1,
            loaded: Vec::new(),
            pipeline_val: None,
        };
        assert(r@.consts =~= Seq::<Seq<char>>::empty());
        r
    }

    /// The register of `id`, handing out the next temporary if it has none.
    fn register_of(&mut self, id: KirValueId) -> (r: u8)
        ensures
            (final(self)@, r) == cg_alloc(old(self)@, id),
    {
        let mut i: usize = 0;
        while i < self.regs.len()
            invariant
                i <= self.regs@.len(),
                reg_of(self.regs@, id, i as int) is None,
            decreases self.regs@.len() - i,
        {
            if self.regs[i].0 == id {
                proof {
                    lemma_reg_of_stays(self.regs@, id, i + 1, self.regs@.len() as int);
                }
                return self.regs[i].1;
            }
            i += 1;
        }
        let reg = self.next_tmp;
        self.regs.push((id, reg));
        self.next_tmp = if reg == TMP1 {
            TMP2
        } else if reg == TMP2 {
            TMP3
        } else {
            TMP1
        };
        reg
    }

    /// The pool index of a string, adding it where it is new.
    fn add_string(&mut self, s: &str) -> (r: u16)
        ensures
            (final(self)@, r) == cg_add_string(old(self)@, s@),
    {
        let mut i: usize = 0;
        while i < self.consts.len()
            invariant
                i <= self.consts@.len(),
                const_index(texts(self.consts@), s@, i as int) is None,
            decreases self.consts@.len() - i,
        {
            assert(texts(self.consts@)[i as int] == self.consts@[i as int]@);
            if same_text(self.consts[i].as_str(), s) {
                proof {
                    lemma_const_index_stays(texts(self.consts@), s@, i + 1, self.consts@.len() as int);
                }
                return i as u16;
            }
            i += 1;
        }
        let idx = self.consts.len();
        let ghost before = texts(self.consts@);
        self.consts.push(string_of(chars_of(s).as_slice()));
        assert(texts(self.consts@) =~= before.push(s@));
        idx as u16
    }

    fn emit(&mut self, i: Instr)
        ensures
            final(self)@ == cg_emit(old(self)@, i),
    {
        self.instrs.push(i);
    }

    fn is_loaded(&self, id: KirValueId) -> (r: bool)
        ensures
            r == self@.loaded.contains(id),
    {
        let mut i: usize = 0;
        while i < self.loaded.len()
            invariant
                i <= self.loaded@.len(),
                forall|k: int| 0 <= k < i ==> self.loaded@[k] != id,
            decreases self.loaded@.len() - i,
        {
            if self.loaded[i] == id {
                return true;
            }
            i += 1;
        }
        false
    }

    /// The register of a string value, loading it the first time.
    fn load_str(&mut self, id: KirValueId, s: &str) -> (r: u8)
        ensures
            (final(self)@, r) == cg_load_str(old(self)@, id, s@),
    {
        if self.is_loaded(id) {
            return self.register_of(id);
        }
        let reg = self.register_of(id);
        let idx = self.add_string(s);
        self.emit(Instr::LoadStr { dst: reg, index: idx });
        self.loaded.push(id);
        reg
    }

    /// Brings a value into the accumulator unless it is there.
    fn to_acc(&mut self, id: KirValueId)
        ensures
            final(self)@ == cg_to_acc(old(self)@, id),
    {
        if self.pipeline_val == Some(id) {
            return;
        }
        let reg = self.register_of(id);
        if reg != ACC {
            self.emit(Instr::Mov { dst: ACC, src: reg });
        }
    }

    /// The instructions of one operation.
    fn emit_op(&mut self, op: &KirOp)
        ensures
            final(self)@ == cg_op(old(self)@, op@),
    {
        match op {
            KirOp::Collect { output, source_id } => {
                let r = self.register_of(*source_id);
                self.emit(Instr::LoadEntity { dst: ACC, src: r });
                self.pipeline_val = Some(*output);
            },
            KirOp::SourceEntity { output, kind_id } => {
                let r = self.register_of(*kind_id);
                self.emit(Instr::LoadEntity { dst: ACC, src: r });
                self.pipeline_val = Some(*output);
            },
            KirOp::SourceSearch { output, query_id } => {
                let r = self.register_of(*query_id);
                self.emit(Instr::Search { dst: ACC, query: r });
                self.pipeline_val = Some(*output);
            },
            KirOp::Observe { output, input } | KirOp::Classify { output, input } => {
                self.to_acc(*input);
                self.emit(Instr::Classify { dst: ACC, src: ACC });
                self.pipeline_val = Some(*output);
            },
            KirOp::LoadGraph { output, input } => {
                self.to_acc(*input);
                self.emit(Instr::LoadGraph { dst: ACC, src: ACC });
                self.pipeline_val = Some(*output);
            },
            KirOp::Resolve { output, input, strategy_id } => {
                self.to_acc(*input);
                let r = self.register_of(*strategy_id);
                self.emit(Instr::LoadGraph { dst: TMP1, src: ACC });
                self.emit(Instr::Search { dst: ACC, query: r });
                self.pipeline_val = Some(*output);
            },
            KirOp::Filter { output, input, filter } => {
                self.to_acc(*input);
                self.emit(Instr::LoadGraph { dst: TMP1, src: ACC });
                let entries = vec![
                    (string_of(chars_of("field").as_slice()), string_of(chars_of(filter.field.as_str()).as_slice())),
                    (string_of(chars_of("op").as_slice()), string_of(chars_of(filter.op.as_str()).as_slice())),
                    (string_of(chars_of("value").as_slice()), string_of(chars_of(filter.value.as_str()).as_slice())),
                ];
                assert(meta_texts(entries@) =~= seq![("field"@, filter@.0), ("op"@, filter@.1), ("value"@, filter@.2)]);
                let json = to_json_string_map(&entries);
                self.load_str(*output, json.as_str());
                let r = self.register_of(*output);
                self.emit(Instr::Search { dst: ACC, query: r });
                self.pipeline_val = Some(*output);
            },
            KirOp::Traverse { output, input, relation_id, depth } => {
                self.to_acc(*input);
                let r = self.register_of(*relation_id);
                self.emit(Instr::Traverse { dst: ACC, relation: r });
                match depth {
                    Some(d) => self.emit(Instr::LoadImm { dst: DEPTH, value: *d }),
                    None => {},
                }
                self.pipeline_val = Some(*output);
            },
            KirOp::Infer { output, input, rule_id } => {
                self.to_acc(*input);
                let r = self.register_of(*rule_id);
                self.emit(Instr::Infer { dst: ACC, src: ACC, rule: r });
                self.pipeline_val = Some(*output);
            },
            KirOp::Correlate { output, input, target_id } => {
                self.to_acc(*input);
                let t = self.register_of(*target_id);
                let idx = self.add_string("_target");
                self.emit(Instr::LoadStr { dst: TMP2, index: idx });
                self.emit(Instr::LoadEntity { dst: TMP3, src: t });
                self.emit(Instr::Correlate { dst: ACC, target: TMP3 });
                self.pipeline_val = Some(*output);
            },
            KirOp::Similar { output, target_id, threshold_pct } => {
                let t = self.register_of(*target_id);
                self.emit(Instr::LoadImm { dst: NUM, value: (*threshold_pct / 10) as i32 });
                self.emit(Instr::Similar { dst: ACC, target: t, threshold: NUM });
                self.pipeline_val = Some(*output);
            },
            KirOp::Timeline { output, query_id } => {
                let q = self.register_of(*query_id);
                self.emit(Instr::Timeline { dst: ACC, query: q });
                self.pipeline_val = Some(*output);
            },
            KirOp::Store { value_id, name_id } => {
                self.to_acc(*value_id);
                let _name = self.register_of(*name_id);
                self.emit(Instr::StoreVal { src: ACC });
            },
            KirOp::Export { value_id, format_id } => {
                self.to_acc(*value_id);
                let f = self.register_of(*format_id);
                self.emit(Instr::Snapshot { src: ACC, kind: f });
                self.pipeline_val = Some(*value_id);
            },
            KirOp::Snapshot { output, value_id, kind } => {
                self.to_acc(*value_id);
                self.emit(Instr::Snapshot { src: ACC, kind: *kind });
                self.pipeline_val = Some(*output);
            },
            KirOp::Return { value_id } => {
                self.pipeline_val = Some(*value_id);
            },
            _ => {},
        }
    }

    /// The string constants loaded first, then every operation.
    fn emit_all(&mut self, program: &KirProgram)
        ensures
            final(self)@ == cg_ops(
                cg_preload(old(self)@, program@.ops, program@.ops.len() as int),
                program@.ops,
                program@.ops.len() as int,
            ),
    {
        let ghost ops = program@.ops;
        let ghost start = self@;
        let mut i: usize = 0;
        while i < program.ops.len()
            invariant
                i <= program.ops@.len(),
                ops == program@.ops,
                ops.len() == program.ops@.len(),
                self@ == cg_preload(start, ops, i as int),
            decreases program.ops@.len() - i,
        {
            assert(ops[i as int] == program.ops@[i as int]@);
            match &program.ops[i] {
                KirOp::ConstStr { output, value } => {
                    self.load_str(*output, value.as_str());
                },
                _ => {},
            }
            i += 1;
        }
        let ghost loaded = self@;
        let mut j: usize = 0;
        while j < program.ops.len()
            invariant
                j <= program.ops@.len(),
                ops == program@.ops,
                ops.len() == program.ops@.len(),
                self@ == cg_ops(loaded, ops, j as int),
            decreases program.ops@.len() - j,
        {
            assert(ops[j as int] == program.ops@[j as int]@);
            self.emit_op(&program.ops[j]);
            j += 1;
        }
    }
}

/// Generates the instructions and constant pool of a KIR program.
pub fn codegen_kir(program: &KirProgram) -> (r: Bytecode)
    ensures
        r@ == generated(program@),
{
    let mut cg = CodegenEngine::new();
    cg.emit_all(program);
    cg.emit(Instr::Halt);
    Bytecode { name: string_of(chars_of("tdxl_program").as_slice()), constants: cg.consts, instructions: cg.instrs }
}

/// Compiles a TDXL text to instructions: lexing, parsing, lowering, the
/// compiler and dataflow passes, then code generation.
pub fn compile(source: &str) -> (r: Result<Bytecode, Error>)
    requires
        source@.len() + 2 <= usize::MAX,
    ensures
        match lex(source@) {
            Err(e) => r matches Err(x) && is_lex_error(x, e),
            Ok(ts) => match parse_tokens(ts) {
                Err(e) => r matches Err(x) && is_parse_error(x, e),
                Ok(ss) => if 4 * ss.len() + 1 <= usize::MAX {
                    r matches Ok(b) && b@ == generated(query_optimized(optimized(lowered(ss))))
                } else {
                    r matches Err(Error::Compile { .. })
                },
            },
        },
{
    match compile_to_kir(source) {
        Ok(kir) => Ok(codegen_kir(&kir)),
        Err(e) => Err(e),
    }
}

} // verus!
