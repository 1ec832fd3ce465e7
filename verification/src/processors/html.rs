//! HTML processor — extracts text, metadata, links and heading structure.
//! `scraper` parses the document and picks elements by CSS selector.
use std::collections::HashMap;
use scraper::{Html, Selector};
use vstd::prelude::*;
use vstd::utf8::{decode_utf8, valid_utf8};
use crate::observation::{
    ObsModel, ProcessedObservation, ProcessorError, decimal_text, obs, obs_models, push_obs,
    suffixed, text_bytes, utf8, with_meta,
};
use crate::text::{
    alphanumeric, append_chars, chars_of, is_alphanumeric, decimal, is_whitespace, is_ws, join, join_strings, starts_with,
    starts_with_str, str_from_utf8, string_of, texts, trim, trimmed,
};

verus! {

/// Processor for HTML documents.
pub struct HtmlProcessor;

/// An element that a CSS selector picks, as the processor reads it: its text
/// nodes in document order and the attributes it looks at.
#[derive(Debug)]
pub struct HtmlElement {
    pub texts: Vec<String>,
    pub name: Option<String>,
    pub property: Option<String>,
    pub content: Option<String>,
    pub href: Option<String>,
}

/// The elements of an HTML text that a CSS selector picks, in the order
/// `Html::select` yields them after `Html::parse_document` (no order is
/// claimed); `None` where the selector does not parse (`Selector::parse`).
pub uninterp spec fn html_select(html: Seq<char>, selector: Seq<char>) -> Option<Seq<HtmlElement>>;

/// Parses the selector and the document with `scraper` and converts each
/// element that the selector picks: its text nodes (`ElementRef::text`) and
/// the attributes `name`, `property`, `content` and `href`
/// (`Element::attr`). The result is named `html_select`.
#[verifier::external_body]
fn select_elements(html: &str, selector: &str) -> (r: Option<Vec<HtmlElement>>)
    ensures
        (match r {
            Some(v) => Some(v@),
            None => None,
        }) == html_select(html@, selector@),
{
    let sel = Selector::parse(selector).ok()?;
    let document = Html::parse_document(html);
    let mut out = Vec::new();
    for el in document.select(&sel) {
        let v = el.value();
        let texts = el.text().map(String::from).collect();
        let (name, property) = (v.attr("name").map(String::from), v.attr("property").map(String::from));
        let (content, href) = (v.attr("content").map(String::from), v.attr("href").map(String::from));
        out.push(HtmlElement { texts, name, property, content, href });
    }
    Some(out)
}

/// The elements picked, none where the selector does not parse.
pub open spec fn picked(r: Option<Seq<HtmlElement>>) -> Seq<HtmlElement> {
    match r {
        Some(v) => v,
        None => seq![],
    }
}

/// The concatenated text of an element.
pub open spec fn element_text(e: HtmlElement) -> Seq<char> {
    join(texts(e.texts@), ""@)
}

/// An optional string's text, empty where absent.
pub open spec fn attr_text(a: Option<String>) -> Seq<char> {
    match a {
        Some(s) => s@,
        None => seq![],
    }
}

/// A metadata key with every character that is not alphanumeric or `_`
/// replaced by `_`.
pub open spec fn sanitize(s: Seq<char>) -> Seq<char> {
    s.map_values(|c: char| if alphanumeric(c) || c == '_' { c } else { '_' })
}

/// Whitespace runs collapsed to one space, from index `i` on, `in_space`
/// telling whether the previous character was whitespace.
pub open spec fn collapse_from(s: Seq<char>, i: int, in_space: bool) -> Seq<char>
    decreases s.len() - i,
{
    if i < 0 || i >= s.len() {
        seq![]
    } else if is_ws(s[i]) {
        if in_space {
            collapse_from(s, i + 1, true)
        } else {
            seq![' '] + collapse_from(s, i + 1, true)
        }
    } else {
        seq![s[i]] + collapse_from(s, i + 1, false)
    }
}

/// Every run of whitespace collapsed to one space.
pub open spec fn collapse(s: Seq<char>) -> Seq<char> {
    collapse_from(s, 0, false)
}

/// The title observation.
pub open spec fn title_part(id: Seq<char>, els: Seq<HtmlElement>) -> Seq<ObsModel> {
    if els.len() > 0 {
        seq![with_meta(obs(id + "_title"@, "html.title"@, utf8(element_text(els[0])), "text/plain"@), "source_observation"@, id)]
    } else {
        seq![]
    }
}

/// The name a meta element goes by.
pub open spec fn meta_name(e: HtmlElement) -> Seq<char> {
    match e.name {
        Some(n) => n@,
        None => attr_text(e.property),
    }
}

/// The observations of meta elements with a name and content.
pub open spec fn meta_part(id: Seq<char>, els: Seq<HtmlElement>) -> Seq<ObsModel>
    decreases els.len(),
{
    if els.len() == 0 {
        seq![]
    } else {
        let e = els.last();
        let name = meta_name(e);
        let content = attr_text(e.content);
        meta_part(id, els.drop_last()) + if name.len() > 0 && content.len() > 0 {
            seq![with_meta(
                with_meta(obs(id + "_meta_"@ + sanitize(name), "html.metadata"@, utf8(content), "text/plain"@), "meta_name"@, name),
                "source_observation"@,
                id,
            )]
        } else {
            seq![]
        }
    }
}

/// The observations of the headings of one level with text.
pub open spec fn heading_part(id: Seq<char>, level: nat, els: Seq<HtmlElement>) -> Seq<ObsModel>
    decreases els.len(),
{
    if els.len() == 0 {
        seq![]
    } else {
        let t = trim(element_text(els.last()));
        heading_part(id, level, els.drop_last()) + if t.len() > 0 {
            seq![with_meta(
                with_meta(
                    obs(id + "_h"@ + decimal(level) + "_"@ + decimal((els.len() - 1) as nat), "html.heading"@, utf8(t), "text/plain"@),
                    "heading_level"@,
                    decimal(level),
                ),
                "source_observation"@,
                id,
            )]
        } else {
            seq![]
        }
    }
}

/// The heading observations of levels 1 to `n`.
pub open spec fn headings_upto(id: Seq<char>, html: Seq<char>, n: nat) -> Seq<ObsModel>
    decreases n,
{
    if n == 0 {
        seq![]
    } else {
        headings_upto(id, html, (n - 1) as nat) + heading_part(id, n, picked(html_select(html, "h"@ + decimal(n))))
    }
}

/// The extracted-text observation of the body.
pub open spec fn body_part(id: Seq<char>, els: Seq<HtmlElement>) -> Seq<ObsModel> {
    if els.len() > 0 {
        let t = collapse(join(texts(els[0].texts@), " "@));
        if t.len() > 0 {
            seq![with_meta(obs(id + "_text"@, "html.extracted_text"@, utf8(t), "text/plain"@), "source_observation"@, id)]
        } else {
            seq![]
        }
    } else {
        seq![]
    }
}

/// The observation of a link: its URL, the observation it comes from and,
/// where it has any, its text.
pub open spec fn link_obs(id: Seq<char>, i: nat, href: Seq<char>, text: Seq<char>) -> ObsModel {
    let base = with_meta(with_meta(obs(id + "_link_"@ + decimal(i), "html.link"@, seq![], "text/plain"@), "url"@, href), "source_observation"@, id);
    if text.len() > 0 {
        with_meta(base, "link_text"@, text)
    } else {
        base
    }
}

/// The observations of links that do not point into the page.
pub open spec fn links_part(id: Seq<char>, els: Seq<HtmlElement>) -> Seq<ObsModel>
    decreases els.len(),
{
    if els.len() == 0 {
        seq![]
    } else {
        let e = els.last();
        let href = attr_text(e.href);
        links_part(id, els.drop_last()) + if href.len() > 0 && !starts_with(href, "#"@) {
            seq![link_obs(id, (els.len() - 1) as nat, href, trim(element_text(e)))]
        } else {
            seq![]
        }
    }
}

/// The observations of an HTML text: title, meta tags, headings, body text
/// and links.
pub open spec fn html_observations(id: Seq<char>, html: Seq<char>) -> Seq<ObsModel> {
    title_part(id, picked(html_select(html, "title"@))) + meta_part(id, picked(html_select(html, "meta[name], meta[property]"@)))
        + headings_upto(id, html, 6) + body_part(id, picked(html_select(html, "body"@))) + links_part(
        id,
        picked(html_select(html, "a[href]"@)),
    )
}

/// A metadata key with every character that is not alphanumeric or `_`
/// replaced by `_`.
pub fn sanitize_key(s: &str) -> (r: String)
    ensures
        r@ == sanitize(s@),
{
    let c = chars_of(s);
    let mut out = String::new();
    let mut i: usize = 0;
    while i < c.len()
        invariant
            i <= c@.len(),
            c@ == s@,
            out@ == sanitize(s@).subrange(0, i as int),
        decreases c@.len() - i,
    {
        let ch = c[i];
        let k = if is_alphanumeric(ch) || ch == '_' {
            ch
        } else {
            '_'
        };
        append_chars(&mut out, &[k]);
        i += 1;
        assert(out@ =~= sanitize(s@).subrange(0, i as int));
    }
    assert(sanitize(s@).subrange(0, c@.len() as int) =~= sanitize(s@));
    out
}

/// Every run of whitespace collapsed to one space.
pub fn collapse_whitespace(s: &str) -> (r: String)
    ensures
        r@ == collapse(s@),
{
    let c = chars_of(s);
    let mut out = String::new();
    let mut in_space = false;
    let mut i: usize = 0;
    while i < c.len()
        invariant
            i <= c@.len(),
            c@ == s@,
            out@ + collapse_from(s@, i as int, in_space) == collapse(s@),
        decreases c@.len() - i,
    {
        let ghost before = out@;
        if is_whitespace(c[i]) {
            if !in_space {
                append_chars(&mut out, &[' ']);
                in_space = true;
                assert(before + collapse_from(s@, i as int, false) =~= out@ + collapse_from(s@, i + 1, true));
            }
        } else {
            append_chars(&mut out, &[c[i]]);
            let ghost was = in_space;
            in_space = false;
            assert(before + collapse_from(s@, i as int, was) =~= out@ + collapse_from(s@, i + 1, false));
        }
        i += 1;
    }
    assert(out@ + Seq::<char>::empty() =~= out@);
    out
}

/// The concatenated text of an element.
fn element_text_exec(e: &HtmlElement) -> (r: String)
    ensures
        r@ == element_text(*e),
{
    join_strings(&e.texts, "")
}

/// An optional string, empty where absent.
fn attr_string(a: &Option<String>) -> (r: String)
    ensures
        r@ == attr_text(*a),
{
    match a {
        Some(s) => s.clone(),
        None => String::new(),
    }
}

impl HtmlProcessor {
    pub fn new() -> (r: Self) {
        HtmlProcessor
    }

    /// Processor name.
    pub fn name(&self) -> (r: &'static str)
        ensures
            r@ == "html"@,
    {
        "html"
    }

    /// Processor description.
    pub fn description(&self) -> (r: &'static str)
        ensures
            r@ == "Extracts text, metadata, links, and structure from HTML"@,
    {
        "Extracts text, metadata, links, and structure from HTML"
    }

    /// Content types this processor accepts.
    pub fn content_types(&self) -> (r: Vec<&'static str>)
        ensures
            r@.map_values(|s: &'static str| s@) == seq!["text/html"@, "application/xhtml+xml"@],
    {
        let r = vec!["text/html", "application/xhtml+xml"];
        assert(r@.map_values(|s: &'static str| s@) =~= seq!["text/html"@, "application/xhtml+xml"@]);
        r
    }

    /// The elements a selector picks; none where it does not parse.
    fn pick(html: &str, selector: &str) -> (r: Vec<HtmlElement>)
        ensures
            r@ == picked(html_select(html@, selector@)),
    {
        match select_elements(html, selector) {
            Some(v) => v,
            None => Vec::new(),
        }
    }

    /// The meta-tag observations.
    fn push_meta(results: &mut Vec<ProcessedObservation>, id: &str, els: &Vec<HtmlElement>)
        ensures
            obs_models(final(results)@) == obs_models(old(results)@) + meta_part(id@, els@),
    {
        let mut i: usize = 0;
        assert(els@.subrange(0, 0) =~= Seq::<HtmlElement>::empty());
        assert(obs_models(results@) + Seq::<ObsModel>::empty() =~= obs_models(results@));
        while i < els.len()
            invariant
                i <= els@.len(),
                obs_models(results@) == obs_models(old(results)@) + meta_part(id@, els@.subrange(0, i as int)),
            decreases els@.len() - i,
        {
            let ghost before = obs_models(results@);
            assert(els@.subrange(0, i + 1).drop_last() == els@.subrange(0, i as int));
            let e = &els[i];
            let name = match &e.name {
                Some(n) => n.clone(),
                None => attr_string(&e.property),
            };
            let content = attr_string(&e.content);
            if !name.as_str().is_empty() && !content.as_str().is_empty() {
                let mut mid = suffixed(id, "_meta_");
                append_chars(&mut mid, chars_of(sanitize_key(name.as_str()).as_str()).as_slice());
                push_obs(
                    results,
                    ProcessedObservation::new(mid, "html.metadata", text_bytes(content.as_str()), "text/plain")
                        .with_metadata("meta_name", name.as_str())
                        .with_metadata("source_observation", id),
                );
            }
            i += 1;
            assert(obs_models(results@) =~= obs_models(old(results)@) + meta_part(id@, els@.subrange(0, i as int)));
        }
        assert(els@.subrange(0, els@.len() as int) == els@);
    }

    /// The heading observations of one level.
    fn push_headings(results: &mut Vec<ProcessedObservation>, id: &str, level: usize, els: &Vec<HtmlElement>)
        ensures
            obs_models(final(results)@) == obs_models(old(results)@) + heading_part(id@, level as nat, els@),
    {
        let lv = decimal_text(level);
        let mut i: usize = 0;
        assert(els@.subrange(0, 0) =~= Seq::<HtmlElement>::empty());
        assert(obs_models(results@) + Seq::<ObsModel>::empty() =~= obs_models(results@));
        while i < els.len()
            invariant
                i <= els@.len(),
                lv@ == decimal(level as nat),
                obs_models(results@) == obs_models(old(results)@) + heading_part(id@, level as nat, els@.subrange(0, i as int)),
            decreases els@.len() - i,
        {
            assert(els@.subrange(0, i + 1).drop_last() == els@.subrange(0, i as int));
            let full = element_text_exec(&els[i]);
            let fc = chars_of(full.as_str());
            let t = trimmed(fc.as_slice());
            if t.len() > 0 {
                let mut hid = suffixed(id, "_h");
                append_chars(&mut hid, chars_of(lv.as_str()).as_slice());
                append_chars(&mut hid, chars_of("_").as_slice());
                append_chars(&mut hid, chars_of(decimal_text(i).as_str()).as_slice());
                push_obs(
                    results,
                    ProcessedObservation::new(hid, "html.heading", text_bytes(string_of(t).as_str()), "text/plain")
                        .with_metadata("heading_level", lv.as_str())
                        .with_metadata("source_observation", id),
                );
            }
            i += 1;
            assert(obs_models(results@) =~= obs_models(old(results)@) + heading_part(id@, level as nat, els@.subrange(0, i as int)));
        }
        assert(els@.subrange(0, els@.len() as int) == els@);
    }

    /// The link observations.
    fn push_links(results: &mut Vec<ProcessedObservation>, id: &str, els: &Vec<HtmlElement>)
        ensures
            obs_models(final(results)@) == obs_models(old(results)@) + links_part(id@, els@),
    {
        let mut i: usize = 0;
        assert(els@.subrange(0, 0) =~= Seq::<HtmlElement>::empty());
        assert(obs_models(results@) + Seq::<ObsModel>::empty() =~= obs_models(results@));
        while i < els.len()
            invariant
                i <= els@.len(),
                obs_models(results@) == obs_models(old(results)@) + links_part(id@, els@.subrange(0, i as int)),
            decreases els@.len() - i,
        {
            assert(els@.subrange(0, i + 1).drop_last() == els@.subrange(0, i as int));
            let href = attr_string(&els[i].href);
            let hc = chars_of(href.as_str());
            if hc.len() > 0 && !starts_with_str(hc.as_slice(), "#") {
                let full = element_text_exec(&els[i]);
                let fc = chars_of(full.as_str());
                let t = trimmed(fc.as_slice());
                let mut lid = suffixed(id, "_link_");
                append_chars(&mut lid, chars_of(decimal_text(i).as_str()).as_slice());
                let mut o = ProcessedObservation::new(lid, "html.link", Vec::new(), "text/plain")
                    .with_metadata("url", href.as_str())
                    .with_metadata("source_observation", id);
                if t.len() > 0 {
                    o = o.with_metadata("link_text", string_of(t).as_str());
                }
                push_obs(results, o);
            }
            i += 1;
            assert(obs_models(results@) =~= obs_models(old(results)@) + links_part(id@, els@.subrange(0, i as int)));
        }
        assert(els@.subrange(0, els@.len() as int) == els@);
    }

    /// Title, meta tags, headings, body text and links of an HTML text.
    /// Text that is not valid UTF-8 is refused; a document with none of
    /// these fails.
    pub fn process(
        &self,
        id: &str,
        data: &[u8],
        _content_type: Option<&str>,
        _metadata: HashMap<String, String>,
    ) -> (r: Result<Vec<ProcessedObservation>, ProcessorError>)
        ensures
            !valid_utf8(data@) <==> r matches Err(ProcessorError::InvalidInput(_)),
            valid_utf8(data@) && html_observations(id@, decode_utf8(data@)).len() == 0 <==> r matches Err(
                ProcessorError::ProcessingFailed(_),
            ),
            valid_utf8(data@) && html_observations(id@, decode_utf8(data@)).len() > 0 ==> r is Ok,
            r matches Ok(v) ==> obs_models(v@) == html_observations(id@, decode_utf8(data@)),
    {
        let html = match str_from_utf8(data) {
            Ok(s) => s,
            Err(e) => {
                return Err(ProcessorError::InvalidInput(e));
            },
        };
        let mut results: Vec<ProcessedObservation> = Vec::new();
        assert(obs_models(results@) =~= Seq::<ObsModel>::empty());
        let titles = Self::pick(html, "title");
        if titles.len() > 0 {
            let t = element_text_exec(&titles[0]);
            push_obs(
                &mut results,
                ProcessedObservation::new(suffixed(id, "_title"), "html.title", text_bytes(t.as_str()), "text/plain")
                    .with_metadata("source_observation", id),
            );
        }
        assert(obs_models(results@) =~= title_part(id@, picked(html_select(html@, "title"@))));
        let metas = Self::pick(html, "meta[name], meta[property]");
        Self::push_meta(&mut results, id, &metas);
        let ghost before_headings = obs_models(results@);
        let mut level: usize = 1;
        assert(before_headings + headings_upto(id@, html@, 0) =~= before_headings);
        while level <= 6
            invariant
                1 <= level <= 7,
                obs_models(results@) == before_headings + headings_upto(id@, html@, (level - 1) as nat),
            decreases 7 - level,
        {
            let mut sel = string_of(chars_of("h").as_slice());
            append_chars(&mut sel, chars_of(decimal_text(level).as_str()).as_slice());
            let hs = Self::pick(html, sel.as_str());
            Self::push_headings(&mut results, id, level, &hs);
            assert(obs_models(results@) =~= before_headings + headings_upto(id@, html@, level as nat));
            level += 1;
        }
        let ghost before_body = obs_models(results@);
        let bodies = Self::pick(html, "body");
        if bodies.len() > 0 {
            let joined = join_strings(&bodies[0].texts, " ");
            let t = collapse_whitespace(joined.as_str());
            if !t.as_str().is_empty() {
                push_obs(
                    &mut results,
                    ProcessedObservation::new(suffixed(id, "_text"), "html.extracted_text", text_bytes(t.as_str()), "text/plain")
                        .with_metadata("source_observation", id),
                );
            }
        }
        assert(obs_models(results@) =~= before_body + body_part(id@, picked(html_select(html@, "body"@))));
        let links = Self::pick(html, "a[href]");
        Self::push_links(&mut results, id, &links);
        assert(obs_models(results@) =~= html_observations(id@, html@));
        if results.len() == 0 {
            return Err(ProcessorError::ProcessingFailed(string_of(chars_of("no content extracted from HTML").as_slice())));
        }
        Ok(results)
    }
}

} // verus!
