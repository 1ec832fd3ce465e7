//! Markdown processor — extracts text, headings, code blocks and
//! frontmatter. `pulldown_cmark` parses; the processor reads its events.
use std::collections::HashMap;
use pulldown_cmark::{Event, Options, Parser, Tag, TagEnd};
use vstd::prelude::*;
use vstd::utf8::{decode_utf8, valid_utf8};
use crate::observation::{
    ObsModel, ProcessedObservation, ProcessorError, decimal_text, obs, obs_models, push_obs,
    suffixed, text_bytes, utf8, with_meta,
};
use crate::text::{
    append_chars, chars_of, decimal, find, find_str, join, join_strings, lemma_find_bounds,
    starts_with, starts_with_str, str_from_utf8, string_of, texts, trim, trimmed,
};

verus! {

/// Processor for Markdown documents.
pub struct MarkdownProcessor;

/// A Markdown parse event as the processor reads it: heading and code-block
/// boundaries, text (`Event::Text` and `Event::Code`), and anything else.
#[derive(Debug)]
pub enum MdEvent {
    HeadingStart(u32),
    HeadingEnd,
    CodeBlockStart,
    CodeBlockEnd,
    Text(String),
    Other,
}

/// The events `pulldown_cmark::Parser::new_ext` yields for a text, with
/// tables, footnotes, strikethrough and task lists enabled.
pub uninterp spec fn markdown_events(text: Seq<char>) -> Seq<MdEvent>;

/// Runs `pulldown_cmark::Parser::new_ext` (tables, footnotes, strikethrough,
/// task lists) and converts each event, variant by variant; a heading level
/// is kept as its number. The events are named `markdown_events`.
#[verifier::external_body]
fn parse_markdown(text: &str) -> (r: Vec<MdEvent>)
    ensures
        r@ == markdown_events(text@),
{
    let options = Options::ENABLE_TABLES | Options::ENABLE_FOOTNOTES | Options::ENABLE_STRIKETHROUGH | Options::ENABLE_TASKLISTS;
    let mut out = Vec::new();
    for event in Parser::new_ext(text, options) {
        out.push(match event {
            Event::Start(Tag::Heading { level, .. }) => MdEvent::HeadingStart(level as u32),
            Event::End(TagEnd::Heading(_)) => MdEvent::HeadingEnd,
            Event::Start(Tag::CodeBlock(_)) => MdEvent::CodeBlockStart,
            Event::End(TagEnd::CodeBlock) => MdEvent::CodeBlockEnd,
            Event::Text(t) | Event::Code(t) => MdEvent::Text(t.to_string()),
            _ => MdEvent::Other,
        });
    }
    out
}

/// The YAML frontmatter between a leading `---` and the next line that
/// starts with `---`, trimmed; none where it is empty.
pub open spec fn frontmatter(s: Seq<char>) -> Option<Seq<char>> {
    let t = trim(s);
    if starts_with(t, "---"@) {
        match find(t.subrange(3, t.len() as int), "\n---"@) {
            Some(end) => {
                let fm = trim(t.subrange(3, 3 + end));
                if fm.len() > 0 {
                    Some(fm)
                } else {
                    None
                }
            },
            None => None,
        }
    } else {
        None
    }
}

/// What the processor keeps while reading events: observations so far, the
/// heading text (all heading text is appended to the first heading read),
/// plain-text parts, code blocks, and where it stands.
pub struct MdState {
    pub out: Seq<ObsModel>,
    pub heading: Option<Seq<char>>,
    pub parts: Seq<Seq<char>>,
    pub codes: Seq<Seq<char>>,
    pub in_code: bool,
    pub level: u32,
    pub in_heading: bool,
}

/// The observation of a finished heading.
pub open spec fn heading_obs(id: Seq<char>, level: u32, text: Seq<char>) -> ObsModel {
    with_meta(
        with_meta(obs(id + "_h"@ + decimal(level as nat) + "_1"@, "markdown.heading"@, utf8(text), "text/plain"@), "heading_level"@, decimal(level as nat)),
        "source_observation"@,
        id,
    )
}

/// The effect of one event.
pub open spec fn md_step(id: Seq<char>, st: MdState, e: MdEvent) -> MdState {
    match e {
        MdEvent::HeadingStart(l) => MdState { level: l, in_heading: true, ..st },
        MdEvent::HeadingEnd => {
            let t = match st.heading {
                Some(t) => t,
                None => seq![],
            };
            MdState {
                out: if st.in_heading && t.len() > 0 {
                    st.out.push(heading_obs(id, st.level, t))
                } else {
                    st.out
                },
                in_heading: false,
                ..st
            }
        },
        MdEvent::CodeBlockStart => MdState { in_code: true, codes: st.codes.push(seq![]), ..st },
        MdEvent::CodeBlockEnd => MdState { in_code: false, ..st },
        MdEvent::Text(t) => if st.in_heading {
            MdState {
                heading: Some(
                    match st.heading {
                        Some(h) => h + t@,
                        None => t@,
                    },
                ),
                ..st
            }
        } else if st.in_code {
            if st.codes.len() > 0 {
                MdState { codes: st.codes.update(st.codes.len() - 1, st.codes.last() + t@), ..st }
            } else {
                st
            }
        } else {
            MdState { parts: st.parts.push(t@), ..st }
        },
        MdEvent::Other => st,
    }
}

/// The state after the events `es`.
pub open spec fn md_fold(id: Seq<char>, es: Seq<MdEvent>, st: MdState) -> MdState
    decreases es.len(),
{
    if es.len() == 0 {
        st
    } else {
        md_fold(id, es.drop_first(), md_step(id, st, es[0]))
    }
}

/// The observations of the non-empty code blocks, numbered by position.
pub open spec fn code_observations(id: Seq<char>, codes: Seq<Seq<char>>) -> Seq<ObsModel>
    decreases codes.len(),
{
    if codes.len() == 0 {
        seq![]
    } else {
        code_observations(id, codes.drop_last()) + if codes.last().len() > 0 {
            seq![with_meta(
                obs(id + "_code_"@ + decimal((codes.len() - 1) as nat), "markdown.code_block"@, utf8(codes.last()), "text/plain"@),
                "source_observation"@,
                id,
            )]
        } else {
            seq![]
        }
    }
}

/// The observations of a Markdown text read as the events `es`: its
/// frontmatter, headings, plain text and code blocks.
pub open spec fn markdown_observations(id: Seq<char>, s: Seq<char>, es: Seq<MdEvent>) -> Seq<ObsModel> {
    let fm: Seq<ObsModel> = match frontmatter(s) {
        Some(f) => seq![with_meta(obs(id + "_frontmatter"@, "markdown.frontmatter"@, utf8(f), "text/yaml"@), "source_observation"@, id)],
        None => seq![],
    };
    let st = md_fold(id, es, MdState { out: fm, heading: None, parts: seq![], codes: seq![], in_code: false, level: 0, in_heading: false });
    let plain = join(st.parts, " "@);
    st.out + (if plain.len() > 0 {
        seq![with_meta(obs(id + "_text"@, "markdown.text"@, utf8(plain), "text/plain"@), "source_observation"@, id)]
    } else {
        seq![]
    }) + code_observations(id, st.codes)
}

/// The frontmatter of a Markdown text.
pub fn extract_frontmatter(s: &str) -> (r: Option<String>)
    ensures
        match frontmatter(s@) {
            Some(f) => r matches Some(x) && x@ == f,
            None => r is None,
        },
{
    let c = chars_of(s);
    let t = trimmed(c.as_slice());
    if starts_with_str(t, "---") {
        proof {
            reveal_strlit("---");
        }
        let rest = &t[3..t.len()];
        proof {
            lemma_find_bounds(rest@, "\n---"@);
        }
        match find_str(rest, "\n---") {
            Some(end) => {
                let fm = trimmed(&t[3..3 + end]);
                if fm.len() > 0 {
                    Some(string_of(fm))
                } else {
                    None
                }
            },
            None => None,
        }
    } else {
        None
    }
}

/// The model of the processor's exec state.
pub open spec fn md_model(
    out: Seq<ProcessedObservation>,
    heading: Option<String>,
    parts: Seq<String>,
    codes: Seq<String>,
    in_code: bool,
    level: u32,
    in_heading: bool,
) -> MdState {
    MdState {
        out: obs_models(out),
        heading: match heading {
            Some(h) => Some(h@),
            None => None,
        },
        parts: texts(parts),
        codes: texts(codes),
        in_code,
        level,
        in_heading,
    }
}

impl MarkdownProcessor {
    pub fn new() -> (r: Self) {
        MarkdownProcessor
    }

    /// Processor name.
    pub fn name(&self) -> (r: &'static str)
        ensures
            r@ == "markdown"@,
    {
        "markdown"
    }

    /// Processor description.
    pub fn description(&self) -> (r: &'static str)
        ensures
            r@ == "Extracts text, headings, code blocks, and frontmatter from Markdown"@,
    {
        "Extracts text, headings, code blocks, and frontmatter from Markdown"
    }

    /// Content types this processor accepts.
    pub fn content_types(&self) -> (r: Vec<&'static str>)
        ensures
            r@.map_values(|s: &'static str| s@) == seq!["text/markdown"@, "text/x-markdown"@],
    {
        let r = vec!["text/markdown", "text/x-markdown"];
        assert(r@.map_values(|s: &'static str| s@) =~= seq!["text/markdown"@, "text/x-markdown"@]);
        r
    }

    /// The observations of a Markdown text read as the events `events`;
    /// `None` where there are none.
    pub fn read_events(id: &str, source: &str, events: &Vec<MdEvent>) -> (r: Option<Vec<ProcessedObservation>>)
        ensures
            markdown_observations(id@, source@, events@).len() == 0 <==> r is None,
            r matches Some(v) ==> obs_models(v@) == markdown_observations(id@, source@, events@),
    {
        let mut out: Vec<ProcessedObservation> = Vec::new();
        assert(obs_models(out@) =~= Seq::<ObsModel>::empty());
        if let Some(fm) = extract_frontmatter(source) {
            push_obs(
                &mut out,
                ProcessedObservation::new(suffixed(id, "_frontmatter"), "markdown.frontmatter", text_bytes(fm.as_str()), "text/yaml")
                    .with_metadata("source_observation", id),
            );
        }
        let mut heading: Option<String> = None;
        let mut parts: Vec<String> = Vec::new();
        let mut codes: Vec<String> = Vec::new();
        let mut in_code = false;
        let mut level: u32 = 0;
        let mut in_heading = false;
        let ghost start = md_model(out@, heading, parts@, codes@, in_code, level, in_heading);
        assert(start.parts =~= Seq::<Seq<char>>::empty());
        assert(start.codes =~= Seq::<Seq<char>>::empty());
        let mut i: usize = 0;
        assert(events@.subrange(0, events@.len() as int) == events@);
        while i < events.len()
            invariant
                i <= events@.len(),
                md_fold(id@, events@.subrange(i as int, events@.len() as int), md_model(out@, heading, parts@, codes@, in_code, level, in_heading))
                    == md_fold(id@, events@, start),
            decreases events@.len() - i,
        {
            let ghost before = md_model(out@, heading, parts@, codes@, in_code, level, in_heading);
            match &events[i] {
                MdEvent::HeadingStart(l) => {
                    level = *l;
                    in_heading = true;
                },
                MdEvent::HeadingEnd => {
                    if in_heading {
                        if let Some(t) = &heading {
                            if !t.as_str().is_empty() {
                                let lv = decimal_text(level as usize);
                                let mut hid = suffixed(id, "_h");
                                append_chars(&mut hid, chars_of(lv.as_str()).as_slice());
                                append_chars(&mut hid, chars_of("_1").as_slice());
                                push_obs(
                                    &mut out,
                                    ProcessedObservation::new(hid, "markdown.heading", text_bytes(t.as_str()), "text/plain")
                                        .with_metadata("heading_level", lv.as_str())
                                        .with_metadata("source_observation", id),
                                );
                            }
                        }
                    }
                    in_heading = false;
                },
                MdEvent::CodeBlockStart => {
                    in_code = true;
                    codes.push(String::new());
                    assert(texts(codes@) =~= before.codes.push(seq![]));
                },
                MdEvent::CodeBlockEnd => {
                    in_code = false;
                },
                MdEvent::Text(t) => {
                    if in_heading {
                        let joined = match &heading {
                            Some(h) => {
                                let mut j = string_of(chars_of(h.as_str()).as_slice());
                                append_chars(&mut j, chars_of(t.as_str()).as_slice());
                                j
                            },
                            None => string_of(chars_of(t.as_str()).as_slice()),
                        };
                        heading = Some(joined);
                    } else if in_code {
                        let n = codes.len();
                        if n > 0 {
                            let mut last = string_of(chars_of(codes[n - 1].as_str()).as_slice());
                            append_chars(&mut last, chars_of(t.as_str()).as_slice());
                            let ghost lv = last@;
                            codes.set(n - 1, last);
                            assert(texts(codes@) =~= before.codes.update(n - 1, lv));
                        }
                    } else {
                        let part = string_of(chars_of(t.as_str()).as_slice());
                        let ghost pv = part@;
                        parts.push(part);
                        assert(texts(parts@) =~= before.parts.push(pv));
                    }
                },
                MdEvent::Other => {},
            }
            proof {
                assert(md_model(out@, heading, parts@, codes@, in_code, level, in_heading) == md_step(id@, before, events@[i as int]));
                assert(events@.subrange(i as int, events@.len() as int).drop_first() == events@.subrange(i + 1, events@.len() as int));
            }
            i += 1;
        }
        assert(events@.subrange(i as int, events@.len() as int).len() == 0);
        let ghost fin = md_fold(id@, events@, start);
        let plain = join_strings(&parts, " ");
        if !plain.as_str().is_empty() {
            push_obs(
                &mut out,
                ProcessedObservation::new(suffixed(id, "_text"), "markdown.text", text_bytes(plain.as_str()), "text/plain")
                    .with_metadata("source_observation", id),
            );
        }
        let ghost with_text = obs_models(out@);
        assert(with_text =~= fin.out + (if join(fin.parts, " "@).len() > 0 {
            seq![with_meta(obs(id@ + "_text"@, "markdown.text"@, utf8(join(fin.parts, " "@)), "text/plain"@), "source_observation"@, id@)]
        } else {
            seq![]
        }));
        let mut k: usize = 0;
        assert(texts(codes@).subrange(0, 0) =~= Seq::<Seq<char>>::empty());
        assert(with_text + Seq::<ObsModel>::empty() =~= with_text);
        while k < codes.len()
            invariant
                k <= codes@.len(),
                obs_models(out@) == with_text + code_observations(id@, texts(codes@).subrange(0, k as int)),
            decreases codes@.len() - k,
        {
            let ghost before = obs_models(out@);
            assert(texts(codes@).subrange(0, k + 1).drop_last() == texts(codes@).subrange(0, k as int));
            if !codes[k].as_str().is_empty() {
                let mut cid = suffixed(id, "_code_");
                append_chars(&mut cid, chars_of(decimal_text(k).as_str()).as_slice());
                push_obs(
                    &mut out,
                    ProcessedObservation::new(cid, "markdown.code_block", text_bytes(codes[k].as_str()), "text/plain")
                        .with_metadata("source_observation", id),
                );
            }
            proof {
                assert(codes@[k as int]@.len() == codes@[k as int]@.len());
            }
            k += 1;
        }
        assert(texts(codes@).subrange(0, codes@.len() as int) == texts(codes@));
        if out.len() == 0 {
            None
        } else {
            Some(out)
        }
    }

    /// Frontmatter, headings, plain text and code blocks of a Markdown text.
    /// Text that is not valid UTF-8 is refused; a text with none of these
    /// fails.
    pub fn process(
        &self,
        id: &str,
        data: &[u8],
        _content_type: Option<&str>,
        _metadata: HashMap<String, String>,
    ) -> (r: Result<Vec<ProcessedObservation>, ProcessorError>)
        ensures
            !valid_utf8(data@) <==> r matches Err(ProcessorError::InvalidInput(_)),
            valid_utf8(data@) && markdown_observations(id@, decode_utf8(data@), markdown_events(decode_utf8(data@))).len() == 0
                <==> r matches Err(ProcessorError::ProcessingFailed(_)),
            valid_utf8(data@) && markdown_observations(id@, decode_utf8(data@), markdown_events(decode_utf8(data@))).len() > 0
                ==> r is Ok,
            r matches Ok(v) ==> obs_models(v@) == markdown_observations(id@, decode_utf8(data@), markdown_events(decode_utf8(data@))),
    {
        let source = match str_from_utf8(data) {
            Ok(s) => s,
            Err(e) => {
                return Err(ProcessorError::InvalidInput(e));
            },
        };
        let events = parse_markdown(source);
        match Self::read_events(id, source, &events) {
            Some(v) => Ok(v),
            None => Err(ProcessorError::ProcessingFailed(string_of(chars_of("no content extracted from Markdown").as_slice()))),
        }
    }
}

} // verus!
