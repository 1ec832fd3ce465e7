//! Set-theory processor — finds sets in data and reports their cardinality,
//! elements, and the intersection, union and difference of the first two.
use std::collections::HashMap;
use vstd::prelude::*;
use vstd::utf8::{decode_utf8, valid_utf8};
use crate::json::{json_string_list, to_json_string_list};
use crate::observation::{
    ObsModel, ProcessedObservation, ProcessorError, decimal_text, obs, obs_models, push_obs,
    suffixed, text_bytes, utf8, with_meta,
};
use crate::sorted::{
    filter_in, filter_in_exec, insert_sorted, insert_sorted_exec, sorted_set, sorted_set_exec, union_sorted,
    union_sorted_exec,
};
use crate::text::{
    append_chars, byte_hex, char_index_exec, chars_of, decimal, hex_char,
    lemma_char_index, lemma_ends_with_char, lemma_starts_with_char, lines, next_line, same_chars,
    split_char, str_from_utf8, string_of, texts, trim, trim_char, trimmed, trimmed_char,
};

verus! {

/// Processor for set structures.
pub struct SetTheoryProcessor;

/// A piece of a `{…}` line as an element: trimmed of blanks, then of quotes.
pub open spec fn brace_element(p: Seq<char>) -> Seq<char> {
    trim_char(trim(p), '"')
}

/// The non-empty elements of the comma-separated pieces `ps`.
pub open spec fn brace_items(ps: Seq<Seq<char>>) -> Seq<Seq<char>>
    decreases ps.len(),
{
    if ps.len() == 0 {
        seq![]
    } else {
        let rest = brace_items(ps.drop_first());
        if brace_element(ps[0]).len() > 0 {
            seq![brace_element(ps[0])] + rest
        } else {
            rest
        }
    }
}

/// The set written on a trimmed `{a, b, c}` line.
pub open spec fn brace_set(l: Seq<char>) -> Seq<Seq<char>> {
    sorted_set(brace_items(split_char(l.subrange(1, l.len() - 1), ',')))
}

/// Whether a trimmed line is written as `{…}`.
pub open spec fn brace_line(l: Seq<char>) -> bool {
    l.len() > 0 && l[0] == '{' && l.last() == '}'
}

/// The effect of one trimmed line on (finished sets, set being gathered):
/// a `{…}` line is a set of its own, `---` closes the gathered set, and any
/// other line that is neither empty nor a `#` comment joins it.
pub open spec fn set_step(sets: Seq<Seq<Seq<char>>>, cur: Seq<Seq<char>>, l: Seq<char>) -> (Seq<Seq<Seq<char>>>, Seq<Seq<char>>) {
    if brace_line(l) {
        let set = brace_set(l);
        (if set.len() > 0 {
            sets.push(set)
        } else {
            sets
        }, cur)
    } else if l == "---"@ {
        if cur.len() > 0 {
            (sets.push(cur), seq![])
        } else {
            (sets, cur)
        }
    } else if l.len() > 0 && l[0] != '#' {
        (sets, insert_sorted(cur, l))
    } else {
        (sets, cur)
    }
}

/// The sets after the lines `ls`, with the gathered set closed at the end.
pub open spec fn set_fold(ls: Seq<Seq<char>>, sets: Seq<Seq<Seq<char>>>, cur: Seq<Seq<char>>) -> Seq<Seq<Seq<char>>>
    decreases ls.len(),
{
    if ls.len() == 0 {
        if cur.len() > 0 {
            sets.push(cur)
        } else {
            sets
        }
    } else {
        let (s2, c2) = set_step(sets, cur, trim(ls[0]));
        set_fold(ls.drop_first(), s2, c2)
    }
}

/// A byte written as `0x` and two lower-case hexadecimal digits.
pub open spec fn byte_text(b: u8) -> Seq<char> {
    "0x"@ + seq![hex_char((b / 16) as nat), hex_char((b % 16) as nat)]
}

/// The sets found in `d`: those its text writes, or else the set of its bytes.
pub open spec fn data_sets(d: Seq<u8>) -> Seq<Seq<Seq<char>>> {
    let found: Seq<Seq<Seq<char>>> = if valid_utf8(d) {
        set_fold(lines(decode_utf8(d)), seq![], seq![])
    } else {
        seq![]
    };
    if found.len() == 0 {
        seq![sorted_set(d.map_values(|b: u8| byte_text(b)))]
    } else {
        found
    }
}

/// The cardinality and element observations of set `i`.
pub open spec fn set_pair(id: Seq<char>, set: Seq<Seq<char>>, i: nat) -> Seq<ObsModel> {
    let base = id + "_set_"@ + decimal(i);
    seq![
        with_meta(
            with_meta(
                with_meta(
                    with_meta(obs(base + "_cardinality"@, "set.cardinality"@, utf8(decimal(set.len())), "text/plain"@), "metric"@, "cardinality"@),
                    "set_index"@,
                    decimal(i),
                ),
                "value"@,
                decimal(set.len()),
            ),
            "source_observation"@,
            id,
        ),
        with_meta(
            with_meta(
                with_meta(
                    with_meta(obs(base + "_elements"@, "set.elements"@, utf8(json_string_list(set)), "application/json"@), "metric"@, "elements"@),
                    "set_index"@,
                    decimal(i),
                ),
                "cardinality"@,
                decimal(set.len()),
            ),
            "source_observation"@,
            id,
        ),
    ]
}

/// The observations of every set, in order.
pub open spec fn sets_observations(id: Seq<char>, sets: Seq<Seq<Seq<char>>>) -> Seq<ObsModel>
    decreases sets.len(),
{
    if sets.len() == 0 {
        seq![]
    } else {
        sets_observations(id, sets.drop_last()) + set_pair(id, sets.last(), (sets.len() - 1) as nat)
    }
}

/// The observation of a set operation's result.
pub open spec fn operation_obs(id: Seq<char>, suffix: Seq<char>, op: Seq<char>, set: Seq<Seq<char>>) -> ObsModel {
    with_meta(
        with_meta(
            with_meta(obs(id + suffix, "set.operation"@, utf8(json_string_list(set)), "application/json"@), "operation"@, op),
            "cardinality"@,
            decimal(set.len()),
        ),
        "source_observation"@,
        id,
    )
}

/// The intersection, union and (where not empty) difference of the first
/// two sets.
pub open spec fn operations_observations(id: Seq<char>, a: Seq<Seq<char>>, b: Seq<Seq<char>>) -> Seq<ObsModel> {
    let diff = filter_in(a, b, false);
    seq![
        operation_obs(id, "_set_intersection"@, "intersection"@, filter_in(a, b, true)),
        operation_obs(id, "_set_union"@, "union"@, union_sorted(a, b)),
    ] + if diff.len() > 0 {
        seq![operation_obs(id, "_set_difference"@, "set_difference"@, diff)]
    } else {
        seq![]
    }
}

/// The observations the set-theory processor derives from non-empty `d`.
pub open spec fn set_theory_observations(id: Seq<char>, d: Seq<u8>) -> Seq<ObsModel> {
    let sets = data_sets(d);
    let ops = if sets.len() >= 2 {
        operations_observations(id, sets[0], sets[1])
    } else {
        seq![]
    };
    sets_observations(id, sets) + ops + seq![with_meta(
        with_meta(
            with_meta(
                with_meta(obs(id + "_set_metadata"@, "set.metadata"@, utf8(decimal(sets.len()) + " set(s) detected"@), "text/plain"@), "total_sets"@, decimal(sets.len())),
                "metric"@,
                "byte_size"@,
            ),
            "value"@,
            decimal(d.len()),
        ),
        "source_observation"@,
        id,
    )]
}

/// The texts of a list of string lists.
pub open spec fn set_texts(v: Seq<Vec<String>>) -> Seq<Seq<Seq<char>>> {
    v.map_values(|s: Vec<String>| texts(s@))
}

/// The set written inside the braces of a `{…}` line.
fn brace_set_exec(inner: &[char]) -> (r: Vec<String>)
    ensures
        texts(r@) == sorted_set(brace_items(split_char(inner@, ','))),
{
    let mut items: Vec<String> = Vec::new();
    let mut pos: usize = 0;
    let mut done = false;
    assert(inner@.subrange(0, inner@.len() as int) == inner@);
    assert(texts(items@) =~= Seq::<Seq<char>>::empty());
    while !done
        invariant
            pos <= inner@.len(),
            !done ==> texts(items@) + brace_items(split_char(inner@.subrange(pos as int, inner@.len() as int), ','))
                == brace_items(split_char(inner@, ',')),
            done ==> texts(items@) == brace_items(split_char(inner@, ',')),
        decreases inner@.len() - pos + (if done { 0int } else { 1int }),
    {
        let rest = &inner[pos..inner.len()];
        let ghost rv = rest@;
        proof {
            lemma_char_index(rv, ',');
        }
        let ghost before = texts(items@);
        match char_index_exec(rest, ',') {
            Some(i) => {
                let piece = &rest[0..i];
                let e = trimmed_char(trimmed(piece), '"');
                assert(split_char(rv, ',') == seq![rv.subrange(0, i as int)] + split_char(rv.subrange(i + 1, rv.len() as int), ','));
                let ghost ps = split_char(rv, ',');
                assert(ps[0] == rv.subrange(0, i as int));
                assert(ps.drop_first() == split_char(rv.subrange(i + 1, rv.len() as int), ','));
                assert(rv.subrange(i + 1, rv.len() as int) == inner@.subrange(pos + i + 1, inner@.len() as int));
                if e.len() > 0 {
                    items.push(string_of(e));
                    assert(texts(items@) =~= before.push(e@));
                    assert(before + brace_items(ps) =~= before.push(e@) + brace_items(ps.drop_first()));
                }
                pos = pos + i + 1;
            },
            None => {
                let e = trimmed_char(trimmed(rest), '"');
                assert(split_char(rv, ',') == seq![rv]);
                let ghost ps = split_char(rv, ',');
                assert(ps[0] == rv);
                assert(ps.drop_first() =~= Seq::<Seq<char>>::empty());
                assert(brace_items(ps.drop_first()) =~= Seq::<Seq<char>>::empty());
                if e.len() > 0 {
                    items.push(string_of(e));
                    assert(texts(items@) =~= before.push(e@));
                    assert(before + brace_items(ps) =~= before.push(e@));
                } else {
                    assert(before + brace_items(ps) =~= before);
                }
                done = true;
            },
        }
    }
    sorted_set_exec(&items)
}

impl SetTheoryProcessor {
    pub fn new() -> (r: Self) {
        SetTheoryProcessor
    }

    /// Processor name.
    pub fn name(&self) -> (r: &'static str)
        ensures
            r@ == "set_theory"@,
    {
        "set_theory"
    }

    /// Processor description.
    pub fn description(&self) -> (r: &'static str)
        ensures
            r@ == "Detects set structures in data: unique elements, cardinality, set operations"@,
    {
        "Detects set structures in data: unique elements, cardinality, set operations"
    }

    /// Content types this processor accepts.
    pub fn content_types(&self) -> (r: Vec<&'static str>)
        ensures
            r@.map_values(|s: &'static str| s@) == seq!["application/x-set-theory"@, "application/x-mathematics"@],
    {
        let r = vec!["application/x-set-theory", "application/x-mathematics"];
        assert(r@.map_values(|s: &'static str| s@) =~= seq!["application/x-set-theory"@, "application/x-mathematics"@]);
        r
    }

    /// The sets that a text writes.
    fn text_sets(source: &str) -> (r: Vec<Vec<String>>)
        ensures
            set_texts(r@) == set_fold(lines(source@), seq![], seq![]),
    {
        let text = chars_of(source);
        let text = text.as_slice();
        let mut sets: Vec<Vec<String>> = Vec::new();
        let mut cur: Vec<String> = Vec::new();
        let mut pos: usize = 0;
        assert(text@.subrange(0, text@.len() as int) == text@);
        assert(set_texts(sets@) =~= Seq::<Seq<Seq<char>>>::empty());
        assert(texts(cur@) =~= Seq::<Seq<char>>::empty());
        while pos < text.len()
            invariant
                pos <= text@.len(),
                text@ == source@,
                set_fold(lines(text@.subrange(pos as int, text@.len() as int)), set_texts(sets@), texts(cur@))
                    == set_fold(lines(source@), seq![], seq![]),
            decreases text@.len() - pos,
        {
            let (a, b, n) = next_line(text, pos);
            let line = trimmed(&text[a..b]);
            let ghost rest = lines(text@.subrange(pos as int, text@.len() as int));
            let ghost before = (set_texts(sets@), texts(cur@));
            proof {
                lemma_starts_with_char(line@, '{');
                lemma_ends_with_char(line@, '}');
            }
            if line.len() > 1 && line[0] == '{' && line[line.len() - 1] == '}' {
                let set = brace_set_exec(&line[1..line.len() - 1]);
                if set.len() > 0 {
                    let ghost sv = texts(set@);
                    sets.push(set);
                    assert(set_texts(sets@) =~= before.0.push(sv));
                }
            } else if same_chars(line, chars_of("---").as_slice()) {
                if cur.len() > 0 {
                    let ghost cv = texts(cur@);
                    let done = cur;
                    sets.push(done);
                    cur = Vec::new();
                    assert(set_texts(sets@) =~= before.0.push(cv));
                    assert(texts(cur@) =~= Seq::<Seq<char>>::empty());
                }
            } else if line.len() > 0 && line[0] != '#' {
                insert_sorted_exec(&mut cur, string_of(line));
            }
            proof {
                assert((set_texts(sets@), texts(cur@)) == set_step(before.0, before.1, line@));
                assert(rest.drop_first() == lines(text@.subrange(n as int, text@.len() as int)));
            }
            pos = n;
        }
        assert(text@.subrange(pos as int, text@.len() as int).len() == 0);
        if cur.len() > 0 {
            let ghost before = set_texts(sets@);
            let ghost cv = texts(cur@);
            sets.push(cur);
            assert(set_texts(sets@) =~= before.push(cv));
        }
        sets
    }

    /// The sets found in data: those its text writes, or else the set of its
    /// bytes.
    pub fn find_sets(data: &[u8]) -> (r: Vec<Vec<String>>)
        ensures
            set_texts(r@) == data_sets(data@),
    {
        let found = match str_from_utf8(data) {
            Ok(s) => Self::text_sets(s),
            Err(_) => {
                let r: Vec<Vec<String>> = Vec::new();
                assert(set_texts(r@) =~= Seq::<Seq<Seq<char>>>::empty());
                r
            },
        };
        if found.len() > 0 {
            return found;
        }
        let mut bytes: Vec<String> = Vec::new();
        let mut i: usize = 0;
        while i < data.len()
            invariant
                i <= data@.len(),
                texts(bytes@) == data@.subrange(0, i as int).map_values(|b: u8| byte_text(b)),
            decreases data@.len() - i,
        {
            let ghost before = texts(bytes@);
            let h = byte_hex(data[i]);
            assert(h@ == byte_text(data@[i as int]));
            bytes.push(h);
            assert(texts(bytes@) =~= before.push(byte_text(data@[i as int])));
            assert(data@.subrange(0, i + 1).map_values(|b: u8| byte_text(b)) =~= data@.subrange(0, i as int).map_values(
                |b: u8| byte_text(b),
            ).push(byte_text(data@[i as int])));
            i += 1;
        }
        assert(data@.subrange(0, data@.len() as int) == data@);
        let set = sorted_set_exec(&bytes);
        let ghost sv = texts(set@);
        let r = vec![set];
        assert(set_texts(r@) =~= seq![sv]);
        r
    }

    /// `<id>_set_<i>`.
    fn set_base(id: &str, i: usize) -> (r: String)
        ensures
            r@ == id@ + "_set_"@ + decimal(i as nat),
    {
        let mut s = suffixed(id, "_set_");
        append_chars(&mut s, chars_of(decimal_text(i).as_str()).as_slice());
        s
    }

    /// The cardinality and element observations of set `i`.
    fn push_set_pair(results: &mut Vec<ProcessedObservation>, id: &str, set: &Vec<String>, i: usize)
        ensures
            obs_models(final(results)@) == obs_models(old(results)@) + set_pair(id@, texts(set@), i as nat),
    {
        assert(set@.len() == texts(set@).len());
        let base = Self::set_base(id, i);
        let index = decimal_text(i);
        let card = decimal_text(set.len());
        let mut card_id = string_of(chars_of(base.as_str()).as_slice());
        append_chars(&mut card_id, chars_of("_cardinality").as_slice());
        push_obs(
            results,
            ProcessedObservation::new(card_id, "set.cardinality", text_bytes(card.as_str()), "text/plain")
                .with_metadata("metric", "cardinality")
                .with_metadata("set_index", index.as_str())
                .with_metadata("value", card.as_str())
                .with_metadata("source_observation", id),
        );
        let mut elem_id = base;
        append_chars(&mut elem_id, chars_of("_elements").as_slice());
        let json = to_json_string_list(set);
        push_obs(
            results,
            ProcessedObservation::new(elem_id, "set.elements", text_bytes(json.as_str()), "application/json")
                .with_metadata("metric", "elements")
                .with_metadata("set_index", index.as_str())
                .with_metadata("cardinality", card.as_str())
                .with_metadata("source_observation", id),
        );
        assert(obs_models(results@) =~= obs_models(old(results)@) + set_pair(id@, texts(set@), i as nat));
    }

    /// The observation of a set operation's result.
    fn operation(id: &str, suffix: &str, op: &str, set: &Vec<String>) -> (r: ProcessedObservation)
        ensures
            r@ == operation_obs(id@, suffix@, op@, texts(set@)),
    {
        assert(set@.len() == texts(set@).len());
        let json = to_json_string_list(set);
        ProcessedObservation::new(suffixed(id, suffix), "set.operation", text_bytes(json.as_str()), "application/json")
            .with_metadata("operation", op)
            .with_metadata("cardinality", decimal_text(set.len()).as_str())
            .with_metadata("source_observation", id)
    }

    /// Cardinality and elements of every set in the data, the intersection,
    /// union and difference of the first two, and a summary; empty data is
    /// refused.
    pub fn process(
        &self,
        id: &str,
        data: &[u8],
        _content_type: Option<&str>,
        _metadata: HashMap<String, String>,
    ) -> (r: Result<Vec<ProcessedObservation>, ProcessorError>)
        ensures
            data@.len() == 0 <==> r is Err,
            r matches Err(e) ==> e is InvalidInput,
            r matches Ok(v) ==> obs_models(v@) == set_theory_observations(id@, data@),
    {
        if data.len() == 0 {
            return Err(ProcessorError::InvalidInput(string_of(chars_of("cannot perform set analysis on empty data").as_slice())));
        }
        let sets = Self::find_sets(data);
        let ghost sv = set_texts(sets@);
        let mut results: Vec<ProcessedObservation> = Vec::new();
        let mut i: usize = 0;
        assert(sv.subrange(0, 0) =~= Seq::<Seq<Seq<char>>>::empty());
        assert(obs_models(results@) =~= Seq::<ObsModel>::empty());
        while i < sets.len()
            invariant
                i <= sets@.len(),
                sv == set_texts(sets@),
                obs_models(results@) == sets_observations(id@, sv.subrange(0, i as int)),
            decreases sets@.len() - i,
        {
            assert(sv.subrange(0, i + 1).drop_last() == sv.subrange(0, i as int));
            Self::push_set_pair(&mut results, id, &sets[i], i);
            i += 1;
        }
        assert(sv.subrange(0, sets@.len() as int) == sv);
        let ghost a = obs_models(results@);
        if sets.len() >= 2 {
            let inter = filter_in_exec(&sets[0], &sets[1], true);
            push_obs(&mut results, Self::operation(id, "_set_intersection", "intersection", &inter));
            let uni = union_sorted_exec(&sets[0], &sets[1]);
            push_obs(&mut results, Self::operation(id, "_set_union", "union", &uni));
            let diff = filter_in_exec(&sets[0], &sets[1], false);
            if diff.len() > 0 {
                push_obs(&mut results, Self::operation(id, "_set_difference", "set_difference", &diff));
            }
            proof {
                assert(diff@.len() == texts(diff@).len());
                assert(obs_models(results@) =~= a + operations_observations(id@, sv[0], sv[1]));
            }
        } else {
            assert(obs_models(results@) =~= a + Seq::<ObsModel>::empty());
        }
        let total = decimal_text(sets.len());
        let mut summary = string_of(chars_of(total.as_str()).as_slice());
        append_chars(&mut summary, chars_of(" set(s) detected").as_slice());
        push_obs(
            &mut results,
            ProcessedObservation::new(suffixed(id, "_set_metadata"), "set.metadata", text_bytes(summary.as_str()), "text/plain")
                .with_metadata("total_sets", total.as_str())
                .with_metadata("metric", "byte_size")
                .with_metadata("value", decimal_text(data.len()).as_str())
                .with_metadata("source_observation", id),
        );
        assert(obs_models(results@) =~= set_theory_observations(id@, data@));
        Ok(results)
    }
}

} // verus!
