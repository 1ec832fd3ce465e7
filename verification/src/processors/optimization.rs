//! Optimization processor — finds objectives, constraints and variables in
//! the statement of an optimization problem.
use vstd::prelude::*;
use vstd::utf8::{decode_utf8, valid_utf8};
use crate::json::{json_string_list, to_json_string_list};
use crate::language::{lower_text, to_lowercase};
use crate::observation::{
    ObsModel, ProcessedObservation, ProcessorError, decimal_text, obs, obs_models, push_obs, suffixed,
    text_bytes, utf8, with_meta,
};
use crate::sorted::holds_text;
use crate::text::{
    append_chars, chars_of, contains, contains_char, contains_char_exec, contains_str, decimal,
    lemma_starts_with_char, lines, next_line, str_from_utf8, string_of, texts, trim, trimmed, words,
    words_exec,
};

verus! {

/// Processor for optimization problems.
pub struct OptimizationProcessor;

/// Whether a character is an ASCII letter.
pub open spec fn ascii_alpha(c: char) -> bool {
    ('a' <= c && c <= 'z') || ('A' <= c && c <= 'Z')
}

/// Whether a word names a variable: two or more ASCII letters, the first
/// lower-case.
pub open spec fn is_variable_word(w: Seq<char>) -> bool {
    w.len() >= 2 && (forall|i: int| 0 <= i < w.len() ==> ascii_alpha(#[trigger] w[i])) && 'a' <= w[0] && w[0] <= 'z'
}

/// `vars` with each variable word of `ws` added that it lacks.
pub open spec fn add_variables(vars: Seq<Seq<char>>, ws: Seq<Seq<char>>) -> Seq<Seq<char>>
    decreases ws.len(),
{
    if ws.len() == 0 {
        vars
    } else {
        let v = add_variables(vars, ws.drop_last());
        let w = ws.last();
        if is_variable_word(w) && !v.contains(w) {
            v.push(w)
        } else {
            v
        }
    }
}

/// Objectives, constraints and variables found so far.
pub struct OptStructure {
    pub objectives: Seq<Seq<char>>,
    pub constraints: Seq<Seq<char>>,
    pub variables: Seq<Seq<char>>,
}

/// Whether a trimmed line states an objective.
pub open spec fn is_objective(l: Seq<char>) -> bool {
    contains(lower_text(l), "minimize"@) || contains(lower_text(l), "maximize"@)
}

/// Whether a trimmed line states a constraint.
pub open spec fn is_constraint(l: Seq<char>) -> bool {
    contains(lower_text(l), "subject to"@) || contains_char(l, '<') || contains_char(l, '>') || contains(l, "leq"@)
        || contains(l, "geq"@)
}

/// What the lines `ls` state (blank and `#` lines skipped).
pub open spec fn opt_lines(ls: Seq<Seq<char>>) -> OptStructure
    decreases ls.len(),
{
    if ls.len() == 0 {
        OptStructure { objectives: seq![], constraints: seq![], variables: seq![] }
    } else {
        let st = opt_lines(ls.drop_last());
        let l = trim(ls.last());
        if l.len() == 0 || l[0] == '#' {
            st
        } else {
            OptStructure {
                objectives: if is_objective(l) { st.objectives.push(l) } else { st.objectives },
                constraints: if is_constraint(l) { st.constraints.push(l) } else { st.constraints },
                variables: add_variables(st.variables, words(l)),
            }
        }
    }
}

/// What the data states: nothing where it is not UTF-8.
pub open spec fn opt_structure(d: Seq<u8>) -> OptStructure {
    if valid_utf8(d) {
        opt_lines(lines(decode_utf8(d)))
    } else {
        OptStructure { objectives: seq![], constraints: seq![], variables: seq![] }
    }
}

/// The numbers of the problem, as written: how many there are, and the
/// least and greatest in shortest form and to four decimals.
pub struct NumericSummary {
    pub count: usize,
    pub min: String,
    pub max: String,
    pub min_fixed: String,
    pub max_fixed: String,
}

/// An observation listing texts as JSON, where there are any.
pub open spec fn list_obs(id: Seq<char>, suffix: Seq<char>, kind: Seq<char>, metric: Seq<char>, items: Seq<Seq<char>>) -> Seq<ObsModel> {
    if items.len() > 0 {
        seq![with_meta(
            with_meta(obs(id + suffix, kind, utf8(json_string_list(items)), "application/json"@), "metric"@, metric),
            "source_observation"@,
            id,
        )]
    } else {
        seq![]
    }
}

/// The observations of the data `d`, with its numbers summarised in `ns`.
pub open spec fn opt_observations(id: Seq<char>, d: Seq<u8>, ns: NumericSummary) -> Seq<ObsModel> {
    let st = opt_structure(d);
    let v = st.variables.len();
    let c = st.constraints.len();
    let o = st.objectives.len();
    seq![
        with_meta(
            with_meta(
                with_meta(
                    with_meta(
                        obs(
                            id + "_opt_summary"@,
                            "optimization.summary"@,
                            utf8(decimal(v) + " variables, "@ + decimal(c) + " constraints, "@ + decimal(o) + " objectives"@),
                            "text/plain"@,
                        ),
                        "variable_count"@,
                        decimal(v),
                    ),
                    "constraint_count"@,
                    decimal(c),
                ),
                "objective_count"@,
                decimal(o),
            ),
            "source_observation"@,
            id,
        ),
        with_meta(
            with_meta(
                with_meta(
                    with_meta(
                        obs(id + "_opt_range"@, "optimization.solution"@, utf8("range: ["@ + ns.min@ + ", "@ + ns.max@ + "]"@), "text/plain"@),
                        "metric"@,
                        "value_range"@,
                    ),
                    "min"@,
                    ns.min_fixed@,
                ),
                "max"@,
                ns.max_fixed@,
            ),
            "source_observation"@,
            id,
        ),
    ] + list_obs(id, "_opt_variables"@, "optimization.variables"@, "variables"@, st.variables) + list_obs(
        id,
        "_opt_constraints"@,
        "optimization.constraint"@,
        "constraints"@,
        st.constraints,
    ) + list_obs(id, "_opt_objectives"@, "optimization.objective"@, "objectives"@, st.objectives) + seq![
        with_meta(
            with_meta(
                with_meta(
                    with_meta(obs(id + "_opt_metadata"@, "optimization.metadata"@, utf8(decimal(d.len())), "text/plain"@), "metric"@, "byte_size"@),
                    "value"@,
                    decimal(d.len()),
                ),
                "data_points"@,
                decimal(ns.count as nat),
            ),
            "source_observation"@,
            id,
        ),
    ]
}

/// Whether a word names a variable.
fn is_variable_word_exec(w: &str) -> (r: bool)
    ensures
        r == is_variable_word(w@),
{
    let c = chars_of(w);
    if c.len() < 2 {
        return false;
    }
    let mut i: usize = 0;
    while i < c.len()
        invariant
            i <= c@.len(),
            c@ == w@,
            forall|j: int| 0 <= j < i ==> ascii_alpha(#[trigger] c@[j]),
        decreases c@.len() - i,
    {
        let ch = c[i];
        if !(('a' <= ch && ch <= 'z') || ('A' <= ch && ch <= 'Z')) {
            return false;
        }
        i += 1;
    }
    'a' <= c[0] && c[0] <= 'z'
}

/// Adds the variable words of `ws` that `vars` lacks.
fn add_variables_exec(vars: &mut Vec<String>, ws: &Vec<String>)
    ensures
        texts(final(vars)@) == add_variables(texts(old(vars)@), texts(ws@)),
{
    let ghost start = texts(vars@);
    let mut i: usize = 0;
    assert(texts(ws@).subrange(0, 0) =~= Seq::<Seq<char>>::empty());
    while i < ws.len()
        invariant
            i <= ws@.len(),
            texts(vars@) == add_variables(start, texts(ws@).subrange(0, i as int)),
        decreases ws@.len() - i,
    {
        assert(texts(ws@).subrange(0, i + 1).drop_last() =~= texts(ws@).subrange(0, i as int));
        if is_variable_word_exec(ws[i].as_str()) && !holds_text(vars, ws[i].as_str()) {
            let ghost before = texts(vars@);
            vars.push(ws[i].clone());
            assert(texts(vars@) =~= before.push(texts(ws@)[i as int]));
        }
        i += 1;
    }
    assert(texts(ws@).subrange(0, ws@.len() as int) =~= texts(ws@));
}

/// Observations listing texts as JSON, where there are any.
fn push_list(results: &mut Vec<ProcessedObservation>, id: &str, suffix: &str, kind: &str, metric: &str, items: &Vec<String>)
    ensures
        obs_models(final(results)@) == obs_models(old(results)@) + list_obs(id@, suffix@, kind@, metric@, texts(items@)),
{
    assert(items@.len() == texts(items@).len());
    if items.len() > 0 {
        let json = to_json_string_list(items);
        push_obs(
            results,
            ProcessedObservation::new(suffixed(id, suffix), kind, text_bytes(json.as_str()), "application/json")
                .with_metadata("metric", metric)
                .with_metadata("source_observation", id),
        );
    } else {
        assert(obs_models(results@) =~= obs_models(old(results)@) + list_obs(id@, suffix@, kind@, metric@, texts(items@)));
    }
}

impl OptimizationProcessor {
    pub fn new() -> (r: Self) {
        OptimizationProcessor
    }

    /// Processor name.
    pub fn name(&self) -> (r: &'static str)
        ensures
            r@ == "optimization"@,
    {
        "optimization"
    }

    /// Processor description.
    pub fn description(&self) -> (r: &'static str)
        ensures
            r@ == "Analyzes data for optimization potential: objective functions, constraints, and solution spaces"@,
    {
        "Analyzes data for optimization potential: objective functions, constraints, and solution spaces"
    }

    /// Content types this processor accepts.
    pub fn content_types(&self) -> (r: Vec<&'static str>)
        ensures
            r@.map_values(|s: &'static str| s@) == seq!["application/x-optimization"@, "application/x-mathematics"@],
    {
        let r = vec!["application/x-optimization", "application/x-mathematics"];
        assert(r@.map_values(|s: &'static str| s@) =~= seq!["application/x-optimization"@, "application/x-mathematics"@]);
        r
    }

    /// The objectives, constraints and variables the data states, each in
    /// order of appearance (variables once each).
    pub fn structure(data: &[u8]) -> (r: (Vec<String>, Vec<String>, Vec<String>))
        ensures
            texts(r.0@) == opt_structure(data@).objectives,
            texts(r.1@) == opt_structure(data@).constraints,
            texts(r.2@) == opt_structure(data@).variables,
    {
        let mut objectives: Vec<String> = Vec::new();
        let mut constraints: Vec<String> = Vec::new();
        let mut variables: Vec<String> = Vec::new();
        assert(texts(objectives@) =~= Seq::<Seq<char>>::empty());
        assert(texts(constraints@) =~= Seq::<Seq<char>>::empty());
        assert(texts(variables@) =~= Seq::<Seq<char>>::empty());
        let source = match str_from_utf8(data) {
            Ok(s) => s,
            Err(_) => {
                return (objectives, constraints, variables);
            },
        };
        let text = chars_of(source);
        let text = text.as_slice();
        let mut pos: usize = 0;
        let ghost all = lines(source@);
        assert(text@.subrange(0, text@.len() as int) == text@);
        let ghost mut k: int = 0;
        assert(all.subrange(0, 0) =~= Seq::<Seq<char>>::empty());
        while pos < text.len()
            invariant
                pos <= text@.len(),
                text@ == source@,
                all == lines(source@),
                0 <= k <= all.len(),
                all.subrange(k, all.len() as int) == lines(text@.subrange(pos as int, text@.len() as int)),
                texts(objectives@) == opt_lines(all.subrange(0, k)).objectives,
                texts(constraints@) == opt_lines(all.subrange(0, k)).constraints,
                texts(variables@) == opt_lines(all.subrange(0, k)).variables,
            decreases text@.len() - pos,
        {
            let (a, b, n) = next_line(text, pos);
            let ghost rest = lines(text@.subrange(pos as int, text@.len() as int));
            proof {
                assert(rest.len() > 0);
                assert(all.subrange(k, all.len() as int)[0] == all[k]);
                assert(all.subrange(0, k + 1).drop_last() =~= all.subrange(0, k));
                assert(all.subrange(0, k + 1).last() == all[k]);
            }
            let line = trimmed(&text[a..b]);
            proof {
                lemma_starts_with_char(line@, '#');
                reveal_strlit("minimize");
                reveal_strlit("maximize");
                reveal_strlit("subject to");
                reveal_strlit("leq");
                reveal_strlit("geq");
            }
            if line.len() == 0 || line[0] == '#' {
            } else {
                let ls = string_of(line);
                let lower = to_lowercase(ls.as_str());
                let lc = chars_of(lower.as_str());
                if contains_str(lc.as_slice(), "minimize") || contains_str(lc.as_slice(), "maximize") {
                    let ghost before = texts(objectives@);
                    objectives.push(string_of(line));
                    assert(texts(objectives@) =~= before.push(line@));
                }
                if contains_str(lc.as_slice(), "subject to") || contains_char_exec(line, '<') || contains_char_exec(line, '>')
                    || contains_str(line, "leq") || contains_str(line, "geq") {
                    let ghost before = texts(constraints@);
                    constraints.push(string_of(line));
                    assert(texts(constraints@) =~= before.push(line@));
                }
                let ws = words_exec(line);
                add_variables_exec(&mut variables, &ws);
            }
            proof {
                assert(rest.drop_first() == lines(text@.subrange(n as int, text@.len() as int)));
                assert(all.subrange(k + 1, all.len() as int) =~= all.subrange(k, all.len() as int).drop_first());
                k = k + 1;
            }
            pos = n;
        }
        proof {
            assert(text@.subrange(pos as int, text@.len() as int).len() == 0);
            assert(all.subrange(k, all.len() as int).len() == 0);
            assert(all.subrange(0, k) =~= all);
        }
        (objectives, constraints, variables)
    }

    /// Summary, value range, variables, constraints, objectives and size of
    /// a problem statement, with its numbers summarised in `numbers`. Empty
    /// data is refused.
    pub fn observations(&self, id: &str, data: &[u8], numbers: &NumericSummary) -> (r: Result<Vec<ProcessedObservation>, ProcessorError>)
        ensures
            data@.len() == 0 <==> r matches Err(ProcessorError::InvalidInput(_)),
            data@.len() > 0 ==> r is Ok,
            r matches Ok(v) ==> obs_models(v@) == opt_observations(id@, data@, *numbers),
    {
        if data.len() == 0 {
            return Err(ProcessorError::InvalidInput(string_of(chars_of("cannot perform optimization analysis on empty data").as_slice())));
        }
        let (objectives, constraints, variables) = Self::structure(data);
        assert(objectives@.len() == texts(objectives@).len());
        assert(constraints@.len() == texts(constraints@).len());
        assert(variables@.len() == texts(variables@).len());
        let vc = decimal_text(variables.len());
        let cc = decimal_text(constraints.len());
        let oc = decimal_text(objectives.len());
        let mut summary = string_of(chars_of(vc.as_str()).as_slice());
        append_chars(&mut summary, chars_of(" variables, ").as_slice());
        append_chars(&mut summary, chars_of(cc.as_str()).as_slice());
        append_chars(&mut summary, chars_of(" constraints, ").as_slice());
        append_chars(&mut summary, chars_of(oc.as_str()).as_slice());
        append_chars(&mut summary, chars_of(" objectives").as_slice());
        let mut results: Vec<ProcessedObservation> = Vec::new();
        push_obs(
            &mut results,
            ProcessedObservation::new(suffixed(id, "_opt_summary"), "optimization.summary", text_bytes(summary.as_str()), "text/plain")
                .with_metadata("variable_count", vc.as_str())
                .with_metadata("constraint_count", cc.as_str())
                .with_metadata("objective_count", oc.as_str())
                .with_metadata("source_observation", id),
        );
        let mut range = string_of(chars_of("range: [").as_slice());
        append_chars(&mut range, chars_of(numbers.min.as_str()).as_slice());
        append_chars(&mut range, chars_of(", ").as_slice());
        append_chars(&mut range, chars_of(numbers.max.as_str()).as_slice());
        append_chars(&mut range, chars_of("]").as_slice());
        push_obs(
            &mut results,
            ProcessedObservation::new(suffixed(id, "_opt_range"), "optimization.solution", text_bytes(range.as_str()), "text/plain")
                .with_metadata("metric", "value_range")
                .with_metadata("min", numbers.min_fixed.as_str())
                .with_metadata("max", numbers.max_fixed.as_str())
                .with_metadata("source_observation", id),
        );
        push_list(&mut results, id, "_opt_variables", "optimization.variables", "variables", &variables);
        push_list(&mut results, id, "_opt_constraints", "optimization.constraint", "constraints", &constraints);
        push_list(&mut results, id, "_opt_objectives", "optimization.objective", "objectives", &objectives);
        let size = decimal_text(data.len());
        let dp = decimal_text(numbers.count);
        push_obs(
            &mut results,
            ProcessedObservation::new(suffixed(id, "_opt_metadata"), "optimization.metadata", text_bytes(size.as_str()), "text/plain")
                .with_metadata("metric", "byte_size")
                .with_metadata("value", size.as_str())
                .with_metadata("data_points", dp.as_str())
                .with_metadata("source_observation", id),
        );
        assert(obs_models(results@) =~= opt_observations(id@, data@, *numbers));
        Ok(results)
    }
}

} // verus!
