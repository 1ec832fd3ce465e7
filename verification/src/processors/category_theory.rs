//! Category-theory processor — finds objects, morphisms and composition
//! patterns in text.
use std::collections::HashMap;
use vstd::prelude::*;
use vstd::utf8::{decode_utf8, valid_utf8};
use crate::json::{json_arrow_list, json_string_list, to_json_arrows, to_json_string_list, triple_texts};
use crate::observation::{
    ObsModel, ProcessedObservation, ProcessorError, decimal_text, obs, obs_models, push_obs,
    suffixed, text_bytes, utf8, with_meta,
};
use crate::sorted::sorted_set_exec;
use crate::sorted::sorted_set;
use crate::text::{
    append_chars, char_index, char_index_exec, chars_of, decimal, find, find_str, lemma_char_index,
    lemma_find_bounds, lemma_starts_with_char, lines, next_line, same_text, starts_with,
    starts_with_str, str_from_utf8, string_of, texts, trim, trimmed, words, words_exec,
};

verus! {

/// Processor for categorical structure.
pub struct CategoryTheoryProcessor;

/// A named arrow: source, target, name.
pub type Arrow = (Seq<char>, Seq<char>, Seq<char>);

/// The arrow written after `arr:` as `source -> target : name`.
pub open spec fn arrow_of(rest: Seq<char>) -> Option<Arrow> {
    match find(rest, "->"@) {
        Some(p) => {
            let tn = trim(rest.subrange(p + 2, rest.len() as int));
            match char_index(tn, ':') {
                Some(c) => Some((trim(rest.subrange(0, p)), trim(tn.subrange(0, c)), trim(tn.subrange(c + 1, tn.len() as int)))),
                None => None,
            }
        },
        None => None,
    }
}

/// Whether a trimmed line is a composition `f -> g => h` with text on both
/// sides of `=>`.
pub open spec fn composition_line(l: Seq<char>) -> bool {
    match find(l, "=>"@) {
        Some(p) => trim(l.subrange(0, p)).len() > 0 && trim(l.subrange(p + 2, l.len() as int)).len() > 0,
        None => false,
    }
}

/// The effect of one trimmed line on (objects, arrows, compositions).
pub open spec fn cat_step(st: (Seq<Seq<char>>, Seq<Arrow>, nat), l: Seq<char>) -> (Seq<Seq<char>>, Seq<Arrow>, nat) {
    if l.len() == 0 || l[0] == '#' {
        st
    } else if starts_with(l, "obj:"@) {
        let o = trim(l.subrange(4, l.len() as int));
        if o.len() > 0 {
            (st.0.push(o), st.1, st.2)
        } else {
            st
        }
    } else if starts_with(l, "arr:"@) {
        match arrow_of(trim(l.subrange(4, l.len() as int))) {
            Some(a) => (st.0, st.1.push(a), st.2),
            None => st,
        }
    } else if composition_line(l) {
        (st.0, st.1, st.2 + 1)
    } else {
        st
    }
}

/// The state after the lines `ls`.
pub open spec fn cat_fold(ls: Seq<Seq<char>>, st: (Seq<Seq<char>>, Seq<Arrow>, nat)) -> (Seq<Seq<char>>, Seq<Arrow>, nat)
    decreases ls.len(),
{
    if ls.len() == 0 {
        st
    } else {
        cat_fold(ls.drop_first(), cat_step(st, trim(ls[0])))
    }
}

/// What the lines of `s` declare.
pub open spec fn declared(s: Seq<char>) -> (Seq<Seq<char>>, Seq<Arrow>, nat) {
    cat_fold(lines(s), (seq![], seq![], 0))
}

/// The objects of `s`: those declared, or where neither objects nor arrows
/// are declared, the distinct words of its leading pairs of words, sorted.
pub open spec fn category_objects(s: Seq<char>) -> Seq<Seq<char>> {
    let d = declared(s);
    if d.0.len() == 0 && d.1.len() == 0 {
        let ws = words(s);
        if ws.len() >= 2 {
            sorted_set(ws.subrange(0, (2 * (ws.len() / 2)) as int))
        } else {
            seq![]
        }
    } else {
        d.0
    }
}

/// How many arrows go from an object to itself.
pub open spec fn identity_count(arrows: Seq<Arrow>) -> nat
    decreases arrows.len(),
{
    if arrows.len() == 0 {
        0
    } else {
        identity_count(arrows.drop_last()) + if arrows.last().0 == arrows.last().1 {
            1nat
        } else {
            0nat
        }
    }
}

/// Whether the text `s` shows categorical structure: some object.
pub open spec fn has_structure(s: Seq<char>) -> bool {
    declared(s).1.len() > 0 || category_objects(s).len() > 0
}

/// The observations of a category text of `n` bytes.
pub open spec fn category_observations(id: Seq<char>, s: Seq<char>, n: nat) -> Seq<ObsModel> {
    let objects = category_objects(s);
    let arrows = declared(s).1;
    let comps = declared(s).2;
    let ids = identity_count(arrows);
    let summary = with_meta(
        with_meta(
            with_meta(
                obs(id + "_cat_summary"@, "category.summary"@, utf8(decimal(objects.len()) + " objects, "@ + decimal(arrows.len()) + " morphisms"@), "text/plain"@),
                "object_count"@,
                decimal(objects.len()),
            ),
            "morphism_count"@,
            decimal(arrows.len()),
        ),
        "source_observation"@,
        id,
    );
    let objs: Seq<ObsModel> = if objects.len() > 0 {
        seq![with_meta(
            with_meta(obs(id + "_cat_objects"@, "category.objects"@, utf8(json_string_list(objects)), "application/json"@), "metric"@, "objects"@),
            "source_observation"@,
            id,
        )]
    } else {
        seq![]
    };
    let arrs: Seq<ObsModel> = if arrows.len() > 0 {
        seq![with_meta(
            with_meta(obs(id + "_cat_morphisms"@, "category.morphisms"@, utf8(json_arrow_list(arrows)), "application/json"@), "metric"@, "morphisms"@),
            "source_observation"@,
            id,
        )] + if ids > 0 {
            seq![with_meta(
                with_meta(
                    with_meta(obs(id + "_cat_identities"@, "category.morphisms"@, utf8(decimal(ids)), "text/plain"@), "metric"@, "identity_morphisms"@),
                    "count"@,
                    decimal(ids),
                ),
                "source_observation"@,
                id,
            )]
        } else {
            seq![]
        }
    } else {
        seq![]
    };
    let cs: Seq<ObsModel> = if comps > 0 {
        seq![with_meta(
            with_meta(
                with_meta(obs(id + "_cat_compositions"@, "category.composition"@, utf8(decimal(comps)), "text/plain"@), "metric"@, "compositions"@),
                "count"@,
                decimal(comps),
            ),
            "source_observation"@,
            id,
        )]
    } else {
        seq![]
    };
    seq![summary] + objs + arrs + cs + seq![with_meta(
        with_meta(
            with_meta(obs(id + "_cat_metadata"@, "category.metadata"@, utf8(decimal(n)), "text/plain"@), "metric"@, "byte_size"@),
            "value"@,
            decimal(n),
        ),
        "source_observation"@,
        id,
    )]
}

/// The arrow written after `arr:`.
fn arrow_exec(rest: &[char]) -> (r: Option<(String, String, String)>)
    ensures
        match arrow_of(rest@) {
            Some(a) => r matches Some(t) && t.0@ == a.0 && t.1@ == a.1 && t.2@ == a.2,
            None => r is None,
        },
{
    proof {
        lemma_find_bounds(rest@, "->"@);
        reveal_strlit("->");
    }
    let len = rest.len();
    match find_str(rest, "->") {
        Some(p) => {
            assert(p + 2 <= len);
            let tn = trimmed(&rest[p + 2..len]);
            let tl = tn.len();
            proof {
                lemma_char_index(tn@, ':');
            }
            match char_index_exec(tn, ':') {
                Some(c) => Some((
                    string_of(trimmed(&rest[0..p])),
                    string_of(trimmed(&tn[0..c])),
                    string_of(trimmed(&tn[c + 1..tl])),
                )),
                None => None,
            }
        },
        None => None,
    }
}

/// Whether a trimmed line is a composition.
fn is_composition(l: &[char]) -> (r: bool)
    ensures
        r == composition_line(l@),
{
    proof {
        lemma_find_bounds(l@, "=>"@);
        reveal_strlit("=>");
    }
    let len = l.len();
    match find_str(l, "=>") {
        Some(p) => {
            assert(p + 2 <= len);
            trimmed(&l[0..p]).len() > 0 && trimmed(&l[p + 2..len]).len() > 0
        },
        None => false,
    }
}

/// How many arrows go from an object to itself.
fn identity_count_exec(arrows: &Vec<(String, String, String)>) -> (r: usize)
    ensures
        r == identity_count(triple_texts(arrows@)),
{
    let ghost t = triple_texts(arrows@);
    let mut n: usize = 0;
    let mut i: usize = 0;
    assert(t.subrange(0, 0) =~= Seq::<Arrow>::empty());
    while i < arrows.len()
        invariant
            i <= arrows@.len(),
            t == triple_texts(arrows@),
            n <= i,
            n == identity_count(t.subrange(0, i as int)),
        decreases arrows@.len() - i,
    {
        assert(t.subrange(0, i + 1).drop_last() == t.subrange(0, i as int));
        if same_text(arrows[i].0.as_str(), arrows[i].1.as_str()) {
            n += 1;
        }
        i += 1;
    }
    assert(t.subrange(0, arrows@.len() as int) == t);
    n
}

impl CategoryTheoryProcessor {
    pub fn new() -> (r: Self) {
        CategoryTheoryProcessor
    }

    /// Processor name.
    pub fn name(&self) -> (r: &'static str)
        ensures
            r@ == "category_theory"@,
    {
        "category_theory"
    }

    /// Processor description.
    pub fn description(&self) -> (r: &'static str)
        ensures
            r@ == "Detects categorical structure: objects, morphisms, and composition patterns in data"@,
    {
        "Detects categorical structure: objects, morphisms, and composition patterns in data"
    }

    /// Content types this processor accepts.
    pub fn content_types(&self) -> (r: Vec<&'static str>)
        ensures
            r@.map_values(|s: &'static str| s@) == seq!["application/x-category-theory"@, "application/x-mathematics"@],
    {
        let r = vec!["application/x-category-theory", "application/x-mathematics"];
        assert(r@.map_values(|s: &'static str| s@) =~= seq!["application/x-category-theory"@, "application/x-mathematics"@]);
        r
    }

    /// The objects, arrows and composition count that the lines of a text
    /// declare.
    pub fn declarations(source: &str) -> (r: (Vec<String>, Vec<(String, String, String)>, usize))
        ensures
            texts(r.0@) == declared(source@).0,
            triple_texts(r.1@) == declared(source@).1,
            r.2 == declared(source@).2,
    {
        let text = chars_of(source);
        let text = text.as_slice();
        let mut objects: Vec<String> = Vec::new();
        let mut arrows: Vec<(String, String, String)> = Vec::new();
        let mut comps: usize = 0;
        let mut pos: usize = 0;
        assert(text@.subrange(0, text@.len() as int) == text@);
        assert(texts(objects@) =~= Seq::<Seq<char>>::empty());
        assert(triple_texts(arrows@) =~= Seq::<Arrow>::empty());
        while pos < text.len()
            invariant
                pos <= text@.len(),
                text@ == source@,
                comps <= pos,
                cat_fold(lines(text@.subrange(pos as int, text@.len() as int)), (texts(objects@), triple_texts(arrows@), comps as nat))
                    == declared(source@),
            decreases text@.len() - pos,
        {
            let (a, b, n) = next_line(text, pos);
            let line = trimmed(&text[a..b]);
            let ghost rest = lines(text@.subrange(pos as int, text@.len() as int));
            let ghost before = (texts(objects@), triple_texts(arrows@), comps as nat);
            proof {
                lemma_starts_with_char(line@, '#');
                reveal_strlit("obj:");
                reveal_strlit("arr:");
            }
            if line.len() == 0 || line[0] == '#' {
            } else if starts_with_str(line, "obj:") {
                let o = trimmed(&line[4..line.len()]);
                if o.len() > 0 {
                    objects.push(string_of(o));
                    assert(texts(objects@) =~= before.0.push(o@));
                }
            } else if starts_with_str(line, "arr:") {
                match arrow_exec(trimmed(&line[4..line.len()])) {
                    Some(t) => {
                        let ghost tv = (t.0@, t.1@, t.2@);
                        arrows.push(t);
                        assert(triple_texts(arrows@) =~= before.1.push(tv));
                    },
                    None => {},
                }
            } else if is_composition(line) {
                comps += 1;
            }
            proof {
                assert((texts(objects@), triple_texts(arrows@), comps as nat) == cat_step(before, line@));
                assert(rest.drop_first() == lines(text@.subrange(n as int, text@.len() as int)));
            }
            pos = n;
        }
        assert(text@.subrange(pos as int, text@.len() as int).len() == 0);
        (objects, arrows, comps)
    }

    /// Summary, objects, morphisms, identities, compositions and size of a
    /// category text. Text that is not valid UTF-8 is refused; text that
    /// shows no object and no arrow fails.
    pub fn process(
        &self,
        id: &str,
        data: &[u8],
        _content_type: Option<&str>,
        _metadata: HashMap<String, String>,
    ) -> (r: Result<Vec<ProcessedObservation>, ProcessorError>)
        ensures
            !valid_utf8(data@) <==> r matches Err(ProcessorError::InvalidInput(_)),
            valid_utf8(data@) && !has_structure(decode_utf8(data@)) <==> r matches Err(
                ProcessorError::ProcessingFailed(_),
            ),
            valid_utf8(data@) && has_structure(decode_utf8(data@)) ==> r is Ok,
            r matches Ok(v) ==> obs_models(v@) == category_observations(id@, decode_utf8(data@), data@.len()),
    {
        let text = match str_from_utf8(data) {
            Ok(s) => s,
            Err(_) => {
                return Err(ProcessorError::InvalidInput(string_of(chars_of("category data must be valid UTF-8").as_slice())));
            },
        };
        let (declared_objects, arrows, comps) = Self::declarations(text);
        let ghost d = declared(text@);
        let objects = if declared_objects.len() == 0 && arrows.len() == 0 {
            let chars = chars_of(text);
            let tokens = words_exec(chars.as_slice());
            assert(tokens@.len() == words(text@).len()) by {
                assert(texts(tokens@).len() == tokens@.len());
            }
            if tokens.len() >= 2 {
                let mut pairs: Vec<String> = Vec::new();
                let even = 2 * (tokens.len() / 2);
                let mut i: usize = 0;
                assert(texts(pairs@) =~= Seq::<Seq<char>>::empty());
                while i < even
                    invariant
                        i <= even <= tokens@.len(),
                        even == 2 * (tokens@.len() / 2),
                        texts(pairs@) == texts(tokens@).subrange(0, i as int),
                    decreases even - i,
                {
                    let ghost before = texts(pairs@);
                    pairs.push(string_of(chars_of(tokens[i].as_str()).as_slice()));
                    assert(texts(pairs@) =~= before.push(texts(tokens@)[i as int]));
                    i += 1;
                    assert(texts(pairs@) =~= texts(tokens@).subrange(0, i as int));
                }
                sorted_set_exec(&pairs)
            } else {
                let none: Vec<String> = Vec::new();
                assert(texts(none@) =~= Seq::<Seq<char>>::empty());
                none
            }
        } else {
            declared_objects
        };
        assert(texts(objects@) == category_objects(text@));
        assert(objects@.len() == texts(objects@).len() && arrows@.len() == triple_texts(arrows@).len());
        if objects.len() == 0 && arrows.len() == 0 {
            return Err(ProcessorError::ProcessingFailed(string_of(chars_of("no categorical structure detected").as_slice())));
        }
        let mut results: Vec<ProcessedObservation> = Vec::new();
        let oc = decimal_text(objects.len());
        let mc = decimal_text(arrows.len());
        let mut summary = string_of(chars_of(oc.as_str()).as_slice());
        append_chars(&mut summary, chars_of(" objects, ").as_slice());
        append_chars(&mut summary, chars_of(mc.as_str()).as_slice());
        append_chars(&mut summary, chars_of(" morphisms").as_slice());
        push_obs(
            &mut results,
            ProcessedObservation::new(suffixed(id, "_cat_summary"), "category.summary", text_bytes(summary.as_str()), "text/plain")
                .with_metadata("object_count", oc.as_str())
                .with_metadata("morphism_count", mc.as_str())
                .with_metadata("source_observation", id),
        );
        let ghost a = obs_models(results@);
        if objects.len() > 0 {
            let json = to_json_string_list(&objects);
            push_obs(
                &mut results,
                ProcessedObservation::new(suffixed(id, "_cat_objects"), "category.objects", text_bytes(json.as_str()), "application/json")
                    .with_metadata("metric", "objects")
                    .with_metadata("source_observation", id),
            );
        }
        let ghost ab = obs_models(results@);
        if arrows.len() > 0 {
            let json = to_json_arrows(&arrows);
            push_obs(
                &mut results,
                ProcessedObservation::new(suffixed(id, "_cat_morphisms"), "category.morphisms", text_bytes(json.as_str()), "application/json")
                    .with_metadata("metric", "morphisms")
                    .with_metadata("source_observation", id),
            );
            let ids = identity_count_exec(&arrows);
            if ids > 0 {
                let it = decimal_text(ids);
                push_obs(
                    &mut results,
                    ProcessedObservation::new(suffixed(id, "_cat_identities"), "category.morphisms", text_bytes(it.as_str()), "text/plain")
                        .with_metadata("metric", "identity_morphisms")
                        .with_metadata("count", it.as_str())
                        .with_metadata("source_observation", id),
                );
            }
        }
        let ghost abc = obs_models(results@);
        if comps > 0 {
            let ct = decimal_text(comps);
            push_obs(
                &mut results,
                ProcessedObservation::new(suffixed(id, "_cat_compositions"), "category.composition", text_bytes(ct.as_str()), "text/plain")
                    .with_metadata("metric", "compositions")
                    .with_metadata("count", ct.as_str())
                    .with_metadata("source_observation", id),
            );
        }
        let ghost abcd = obs_models(results@);
        let size = decimal_text(data.len());
        push_obs(
            &mut results,
            ProcessedObservation::new(suffixed(id, "_cat_metadata"), "category.metadata", text_bytes(size.as_str()), "text/plain")
                .with_metadata("metric", "byte_size")
                .with_metadata("value", size.as_str())
                .with_metadata("source_observation", id),
        );
        proof {
            let objs = category_objects(text@);
            let arrs = d.1;
            if objs.len() == 0 {
                assert(ab =~= a);
            }
            if arrs.len() == 0 {
                assert(abc =~= ab);
            } else if identity_count(arrs) == 0 {
                assert(abc =~= ab + seq![abc.last()]);
            }
            if d.2 == 0 {
                assert(abcd =~= abc);
            }
        }
        assert(obs_models(results@) =~= category_observations(id@, text@, data@.len()));
        Ok(results)
    }
}

} // verus!
