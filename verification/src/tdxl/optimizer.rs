//! Compiler-level optimisation of KIR programs: duplicate string constants
//! are merged and operations whose value nobody uses are removed.
use vstd::prelude::*;
use crate::tdxl::kir::{
    KirModel, KirOp, KirOpModel, KirProgram, KirValueId, op_output, ops_model, replaced, rewrite_inputs,
    rewrite_op, used_set,
};
use crate::text::same_text;

verus! {

/// Index of the first entry for `k`.
pub open spec fn id_index(m: Seq<(KirValueId, KirValueId)>, k: KirValueId) -> Option<int>
    decreases m.len(),
{
    if m.len() == 0 {
        None
    } else {
        match id_index(m.drop_last(), k) {
            Some(i) => Some(i),
            None => if m.last().0 == k {
                Some(m.len() - 1)
            } else {
                None
            },
        }
    }
}

/// The entries with `k` mapped to `v` (`HashMap::insert`).
pub open spec fn id_set(m: Seq<(KirValueId, KirValueId)>, k: KirValueId, v: KirValueId) -> Seq<(KirValueId, KirValueId)> {
    match id_index(m, k) {
        Some(i) => m.update(i, (k, v)),
        None => m.push((k, v)),
    }
}

/// Index of the first entry for the text `s`.
pub open spec fn str_index(m: Seq<(Seq<char>, KirValueId)>, s: Seq<char>) -> Option<int>
    decreases m.len(),
{
    if m.len() == 0 {
        None
    } else {
        match str_index(m.drop_last(), s) {
            Some(i) => Some(i),
            None => if m.last().0 == s {
                Some(m.len() - 1)
            } else {
                None
            },
        }
    }
}

/// After the operations `ops`: the first value holding each string
/// constant, and the replacement of every later value holding the same
/// string by that first one.
pub open spec fn string_merges(ops: Seq<KirOpModel>) -> (Seq<(Seq<char>, KirValueId)>, Seq<(KirValueId, KirValueId)>)
    decreases ops.len(),
{
    if ops.len() == 0 {
        (seq![], seq![])
    } else {
        let (seen, repl) = string_merges(ops.drop_last());
        match ops.last() {
            KirOpModel::ConstStr { output, value } => match str_index(seen, value) {
                Some(i) => (seen, id_set(repl, output, seen[i].1)),
                None => (seen.push((value, output)), repl),
            },
            _ => (seen, repl),
        }
    }
}

/// The operations kept after merging: replaced constants left out, every
/// other operation reading the replacement values.
pub open spec fn merged_ops(ops: Seq<KirOpModel>, repl: Seq<(KirValueId, KirValueId)>) -> Seq<KirOpModel>
    decreases ops.len(),
{
    if ops.len() == 0 {
        seq![]
    } else {
        let rest = merged_ops(ops.drop_last(), repl);
        match ops.last() {
            KirOpModel::ConstStr { output, .. } if id_index(repl, output) is Some => rest,
            _ => rest.push(rewrite_op(ops.last(), |id: KirValueId| replaced(repl, id))),
        }
    }
}

/// A program with duplicate string constants merged; its id counter starts
/// over.
pub open spec fn without_duplicate_strings(p: KirModel) -> KirModel {
    let repl = string_merges(p.ops).1;
    KirModel {
        ops: merged_ops(p.ops, repl),
        output: match p.output {
            Some(o) => Some(replaced(repl, o)),
            None => None,
        },
        next_id: 0,
    }
}

/// The operations whose value is used, or that produce none.
pub open spec fn live_ops(ops: Seq<KirOpModel>, used: Set<KirValueId>) -> Seq<KirOpModel>
    decreases ops.len(),
{
    if ops.len() == 0 {
        seq![]
    } else {
        let rest = live_ops(ops.drop_last(), used);
        match op_output(ops.last()) {
            Some(id) => if used.contains(id) {
                rest.push(ops.last())
            } else {
                rest
            },
            None => rest.push(ops.last()),
        }
    }
}

/// A program without the operations whose value nobody uses; its id
/// counter starts over.
pub open spec fn without_dead_code(p: KirModel) -> KirModel {
    KirModel { ops: live_ops(p.ops, used_set(p.ops, p.output)), output: p.output, next_id: 0 }
}

/// All passes: duplicate strings merged, then dead code removed.
pub open spec fn optimized(p: KirModel) -> KirModel {
    without_dead_code(without_duplicate_strings(p))
}

proof fn lemma_id_index(m: Seq<(KirValueId, KirValueId)>, k: KirValueId)
    ensures
        id_index(m, k) matches Some(i) ==> 0 <= i < m.len() && m[i].0 == k && forall|j: int| 0 <= j < i ==> m[j].0 != k,
        id_index(m, k) is None ==> forall|j: int| 0 <= j < m.len() ==> m[j].0 != k,
    decreases m.len(),
{
    if m.len() > 0 {
        lemma_id_index(m.drop_last(), k);
        assert forall|j: int| 0 <= j < m.len() - 1 implies m[j] == m.drop_last()[j] by {}
    }
}

proof fn lemma_str_index(m: Seq<(Seq<char>, KirValueId)>, s: Seq<char>)
    ensures
        str_index(m, s) matches Some(i) ==> 0 <= i < m.len() && m[i].0 == s,
        str_index(m, s) is None ==> forall|j: int| 0 <= j < m.len() ==> m[j].0 != s,
    decreases m.len(),
{
    if m.len() > 0 {
        lemma_str_index(m.drop_last(), s);
        assert forall|j: int| 0 <= j < m.len() - 1 implies m[j] == m.drop_last()[j] by {}
    }
}

/// Index of the entry for `k`.
fn id_position(m: &Vec<(KirValueId, KirValueId)>, k: KirValueId) -> (r: Option<usize>)
    ensures
        match r {
            Some(i) => id_index(m@, k) == Some(i as int),
            None => id_index(m@, k) is None,
        },
{
    let mut i: usize = 0;
    while i < m.len()
        invariant
            i <= m@.len(),
            id_index(m@.subrange(0, i as int), k) is None,
        decreases m@.len() - i,
    {
        assert(m@.subrange(0, i + 1).drop_last() == m@.subrange(0, i as int));
        if m[i].0 == k {
            proof {
                lemma_id_index_first(m@, k, i + 1);
            }
            return Some(i);
        }
        i += 1;
    }
    assert(m@.subrange(0, m@.len() as int) == m@);
    None
}

proof fn lemma_id_index_first(m: Seq<(KirValueId, KirValueId)>, k: KirValueId, n: int)
    requires
        0 < n <= m.len(),
        id_index(m.subrange(0, n - 1), k) is None,
        m[n - 1].0 == k,
    ensures
        id_index(m, k) == Some(n - 1),
    decreases m.len() - n,
{
    assert(m.subrange(0, n).drop_last() == m.subrange(0, n - 1));
    if n < m.len() {
        lemma_id_index_keep(m, k, n);
    } else {
        assert(m.subrange(0, n) == m);
    }
}

proof fn lemma_id_index_keep(m: Seq<(KirValueId, KirValueId)>, k: KirValueId, n: int)
    requires
        0 < n <= m.len(),
        id_index(m.subrange(0, n), k) is Some,
    ensures
        id_index(m, k) == id_index(m.subrange(0, n), k),
    decreases m.len() - n,
{
    if n < m.len() {
        assert(m.subrange(0, n + 1).drop_last() == m.subrange(0, n));
        lemma_id_index_keep(m, k, n + 1);
    } else {
        assert(m.subrange(0, n) == m);
    }
}

proof fn lemma_str_index_first(m: Seq<(Seq<char>, KirValueId)>, s: Seq<char>, n: int)
    requires
        0 < n <= m.len(),
        str_index(m.subrange(0, n - 1), s) is None,
        m[n - 1].0 == s,
    ensures
        str_index(m, s) == Some(n - 1),
    decreases m.len() - n,
{
    assert(m.subrange(0, n).drop_last() == m.subrange(0, n - 1));
    if n < m.len() {
        lemma_str_index_keep(m, s, n);
    } else {
        assert(m.subrange(0, n) == m);
    }
}

proof fn lemma_str_index_keep(m: Seq<(Seq<char>, KirValueId)>, s: Seq<char>, n: int)
    requires
        0 < n <= m.len(),
        str_index(m.subrange(0, n), s) is Some,
    ensures
        str_index(m, s) == str_index(m.subrange(0, n), s),
    decreases m.len() - n,
{
    if n < m.len() {
        assert(m.subrange(0, n + 1).drop_last() == m.subrange(0, n));
        lemma_str_index_keep(m, s, n + 1);
    } else {
        assert(m.subrange(0, n) == m);
    }
}

/// The texts and values of a list of first occurrences.
pub open spec fn seen_model(v: Seq<(String, KirValueId)>) -> Seq<(Seq<char>, KirValueId)> {
    v.map_values(|e: (String, KirValueId)| (e.0@, e.1))
}

/// The value first holding `s`.
fn seen_position(m: &Vec<(String, KirValueId)>, s: &str) -> (r: Option<usize>)
    ensures
        match r {
            Some(i) => str_index(seen_model(m@), s@) == Some(i as int),
            None => str_index(seen_model(m@), s@) is None,
        },
{
    let ghost sm = seen_model(m@);
    let mut i: usize = 0;
    while i < m.len()
        invariant
            i <= m@.len(),
            sm == seen_model(m@),
            str_index(sm.subrange(0, i as int), s@) is None,
        decreases m@.len() - i,
    {
        assert(sm.subrange(0, i + 1).drop_last() == sm.subrange(0, i as int));
        if same_text(m[i].0.as_str(), s) {
            proof {
                lemma_str_index_first(sm, s@, i + 1);
            }
            return Some(i);
        }
        i += 1;
    }
    assert(sm.subrange(0, m@.len() as int) == sm);
    None
}

/// Maps `k` to `v` in a list of entries (`HashMap::insert`).
pub(crate) fn set_id(m: &mut Vec<(KirValueId, KirValueId)>, k: KirValueId, v: KirValueId)
    ensures
        final(m)@ == id_set(old(m)@, k, v),
{
    proof {
        lemma_id_index(m@, k);
    }
    match id_position(m, k) {
        Some(i) => {
            m.set(i, (k, v));
        },
        None => {
            m.push((k, v));
        },
    }
}

/// The first occurrences of string constants and the replacements of the
/// later ones.
fn collect_merges(ops: &Vec<KirOp>) -> (r: (Vec<(String, KirValueId)>, Vec<(KirValueId, KirValueId)>))
    ensures
        (seen_model(r.0@), r.1@) == string_merges(ops_model(ops@)),
{
    let ghost om = ops_model(ops@);
    let mut seen: Vec<(String, KirValueId)> = Vec::new();
    let mut repl: Vec<(KirValueId, KirValueId)> = Vec::new();
    let mut i: usize = 0;
    assert(seen_model(seen@) =~= Seq::<(Seq<char>, KirValueId)>::empty());
    assert(om.subrange(0, 0) =~= Seq::<KirOpModel>::empty());
    while i < ops.len()
        invariant
            i <= ops@.len(),
            om == ops_model(ops@),
            (seen_model(seen@), repl@) == string_merges(om.subrange(0, i as int)),
        decreases ops@.len() - i,
    {
        assert(om.subrange(0, i + 1).drop_last() == om.subrange(0, i as int));
        assert(om.subrange(0, i + 1).last() == ops@[i as int]@);
        if let KirOp::ConstStr { output, value } = &ops[i] {
            proof {
                lemma_str_index(seen_model(seen@), value@);
            }
            match seen_position(&seen, value.as_str()) {
                Some(k) => {
                    let existing = seen[k].1;
                    set_id(&mut repl, *output, existing);
                },
                None => {
                    let ghost before = seen_model(seen@);
                    seen.push((value.clone(), *output));
                    assert(seen_model(seen@) =~= before.push((value@, *output)));
                },
            }
        }
        i += 1;
    }
    assert(om.subrange(0, ops@.len() as int) == om);
    (seen, repl)
}

/// Merges duplicate string constants: every later constant holding a
/// string already held is left out, and its readers read the first one.
pub fn eliminate_redundant_strings(program: KirProgram) -> (r: KirProgram)
    ensures
        r@ == without_duplicate_strings(program@),
{
    let (_seen, repl) = collect_merges(&program.ops);
    let ghost om = program@.ops;
    let mut new_prog = KirProgram::new();
    let mut i: usize = 0;
    assert(om.subrange(0, 0) =~= Seq::<KirOpModel>::empty());
    while i < program.ops.len()
        invariant
            i <= program.ops@.len(),
            om == program@.ops,
            repl@ == string_merges(om).1,
            new_prog@.ops == merged_ops(om.subrange(0, i as int), repl@),
            new_prog@.output is None,
            new_prog@.next_id == 0,
        decreases program.ops@.len() - i,
    {
        assert(om.subrange(0, i + 1).drop_last() == om.subrange(0, i as int));
        assert(om.subrange(0, i + 1).last() == program.ops@[i as int]@);
        let op = &program.ops[i];
        let skip = match op {
            KirOp::ConstStr { output, .. } => id_position(&repl, *output).is_some(),
            _ => false,
        };
        if !skip {
            new_prog.push(rewrite_inputs(op, &repl));
        }
        i += 1;
    }
    assert(om.subrange(0, program.ops@.len() as int) == om);
    new_prog.output = match program.output {
        Some(o) => Some(crate::tdxl::kir::replace_id(&repl, o)),
        None => None,
    };
    new_prog
}

/// Limit propagation: reserved for later; the program is left as it is.
pub fn propagate_limits(program: KirProgram) -> (r: KirProgram)
    ensures
        r@ == program@,
{
    program
}

/// Removes the operations whose value is neither read by another operation
/// nor the program output.
pub fn eliminate_dead_code(program: KirProgram) -> (r: KirProgram)
    ensures
        r@ == without_dead_code(program@),
{
    let used = program.used_values();
    let ghost om = program@.ops;
    let mut new_prog = KirProgram::new();
    let mut i: usize = 0;
    assert(om.subrange(0, 0) =~= Seq::<KirOpModel>::empty());
    while i < program.ops.len()
        invariant
            i <= program.ops@.len(),
            om == program@.ops,
            used@ == used_set(om, program@.output),
            new_prog@.ops == live_ops(om.subrange(0, i as int), used@),
            new_prog@.output is None,
            new_prog@.next_id == 0,
        decreases program.ops@.len() - i,
    {
        broadcast use vstd::std_specs::hash::group_hash_axioms;
        assert(om.subrange(0, i + 1).drop_last() == om.subrange(0, i as int));
        assert(om.subrange(0, i + 1).last() == program.ops@[i as int]@);
        let keep = match program.ops[i].output_id() {
            None => true,
            Some(id) => used.contains(&id),
        };
        if keep {
            new_prog.push(copy_op(&program.ops[i]));
        }
        i += 1;
    }
    assert(om.subrange(0, program.ops@.len() as int) == om);
    new_prog.output = program.output;
    new_prog
}

/// A copy of an operation.
pub(crate) fn copy_op(op: &KirOp) -> (r: KirOp)
    ensures
        r@ == op@,
{
    let none: Vec<(KirValueId, KirValueId)> = Vec::new();
    let r = rewrite_inputs(op, &none);
    assert(r@ == op@) by {
        assert(forall|id: KirValueId| replaced(none@, id) == id);
        assert((|id: KirValueId| replaced(none@, id)) =~= (|id: KirValueId| id));
        lemma_rewrite_identity(op@);
    }
    r
}

proof fn lemma_rewrite_identity(op: KirOpModel)
    ensures
        rewrite_op(op, |id: KirValueId| id) == op,
{
}

/// All passes: duplicate strings merged, limits propagated, dead code
/// removed.
pub fn optimize(program: KirProgram) -> (r: KirProgram)
    ensures
        r@ == optimized(program@),
{
    let program = eliminate_redundant_strings(program);
    let program = propagate_limits(program);
    eliminate_dead_code(program)
}

} // verus!
