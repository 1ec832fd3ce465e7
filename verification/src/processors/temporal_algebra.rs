//! Temporal-algebra processor — reads temporal events, relations and
//! intervals from text, and the ordering of the bytes themselves.
use vstd::prelude::*;
use vstd::utf8::{decode_utf8, valid_utf8};
use crate::json::{event_texts, json_event_list, json_span_list, span_texts, to_json_events, to_json_spans};
use crate::observation::{
    ObsModel, ProcessedObservation, ProcessorError, decimal_text, obs, obs_models, push_obs, suffixed,
    text_bytes, utf8, with_meta,
};
use crate::text::{
    append_chars, byte_hex, chars_of, decimal, hex_char, lines, next_line, same_chars, starts_with,
    starts_with_str, str_from_utf8, string_of, trim, trimmed, words, words_exec,
};

verus! {

/// Processor for temporal structure.
pub struct TemporalAlgebraProcessor;

/// An event: line position, kind, label.
pub type TaEvent = (nat, char, Seq<char>);

/// What has been read so far: the events, whether a `begin` is open, and
/// the position and text of that `begin` line.
pub struct TaState {
    pub events: Seq<TaEvent>,
    pub open: bool,
    pub start: nat,
    pub start_line: Seq<char>,
}

/// The kind of an operator line: `seq`, `par`, `alt`, or another word.
pub open spec fn op_kind(w: Seq<char>) -> char {
    if w == "seq"@ {
        'S'
    } else if w == "par"@ {
        'P'
    } else if w == "alt"@ {
        'A'
    } else {
        'E'
    }
}

/// The effect of line `idx` (as written, `raw`) on the state.
pub open spec fn ta_step(st: TaState, idx: nat, raw: Seq<char>) -> TaState {
    let l = trim(raw);
    if l.len() == 0 || l[0] == '#' {
        st
    } else if l[0] == '[' && l.last() == ']' {
        TaState { events: st.events.push((idx, 'I', l.subrange(1, l.len() - 1))), ..st }
    } else if starts_with(l, "before:"@) {
        TaState { events: st.events.push((idx, '<', trim(l.subrange(7, l.len() as int)))), ..st }
    } else if starts_with(l, "after:"@) {
        TaState { events: st.events.push((idx, '>', trim(l.subrange(6, l.len() as int)))), ..st }
    } else if starts_with(l, "during:"@) {
        TaState { events: st.events.push((idx, 'D', trim(l.subrange(7, l.len() as int)))), ..st }
    } else if l == "begin"@ {
        TaState { open: true, start: idx, start_line: raw, ..st }
    } else if l == "end"@ && st.open {
        TaState { events: st.events.push((st.start, 'B', st.start_line)).push((idx, 'E', "end"@)), open: false, ..st }
    } else if words(l).len() >= 2 {
        TaState { events: st.events.push((idx, op_kind(words(l)[0]), l)), ..st }
    } else {
        st
    }
}

/// The state after the lines `ls`, the first of them at position `idx`.
pub open spec fn ta_fold(ls: Seq<Seq<char>>, idx: nat, st: TaState) -> TaState
    decreases ls.len(),
{
    if ls.len() == 0 {
        st
    } else {
        ta_fold(ls.drop_first(), idx + 1, ta_step(st, idx, ls[0]))
    }
}

/// The events of a text.
pub open spec fn ta_events(s: Seq<char>) -> Seq<TaEvent> {
    ta_fold(lines(s), 0, TaState { events: seq![], open: false, start: 0, start_line: seq![] }).events
}

/// The events of the data: none where it is not UTF-8.
pub open spec fn data_events(data: Seq<u8>) -> Seq<TaEvent> {
    if valid_utf8(data) {
        ta_events(decode_utf8(data))
    } else {
        seq![]
    }
}

/// How many events are intervals (`[label]` lines).
pub open spec fn interval_count(ev: Seq<TaEvent>) -> nat
    decreases ev.len(),
{
    if ev.len() == 0 {
        0
    } else {
        interval_count(ev.drop_last()) + if ev.last().1 == 'I' {
            1nat
        } else {
            0nat
        }
    }
}

/// How many neighbouring bytes of the first `n` differ.
pub open spec fn transitions_upto(d: Seq<u8>, n: int) -> nat
    decreases n,
{
    if n <= 1 {
        0
    } else {
        transitions_upto(d, n - 1) + if d[n - 2] != d[n - 1] {
            1nat
        } else {
            0nat
        }
    }
}

/// How many neighbouring bytes differ.
pub open spec fn transitions(d: Seq<u8>) -> nat {
    transitions_upto(d, d.len() as int)
}

/// Where byte `b` first occurs.
pub open spec fn first_at(d: Seq<u8>, b: u8) -> Option<int>
    decreases d.len(),
{
    if d.len() == 0 {
        None
    } else {
        match first_at(d.drop_last(), b) {
            Some(i) => Some(i),
            None => if d.last() == b {
                Some(d.len() - 1)
            } else {
                None
            },
        }
    }
}

/// Where byte `b` last occurs.
pub open spec fn last_at(d: Seq<u8>, b: u8) -> Option<int>
    decreases d.len(),
{
    if d.len() == 0 {
        None
    } else if d.last() == b {
        Some(d.len() - 1)
    } else {
        last_at(d.drop_last(), b)
    }
}

/// A byte that occurs more than once: its hex name, first and last
/// positions, and the span between them.
pub type Span = (Seq<char>, nat, nat, nat);

/// The spans of the bytes below `k`, in byte order.
pub open spec fn spans_upto(d: Seq<u8>, k: int) -> Seq<Span>
    decreases k,
{
    if k <= 0 {
        seq![]
    } else {
        let prev = spans_upto(d, k - 1);
        let b = (k - 1) as u8;
        match (first_at(d, b), last_at(d, b)) {
            (Some(f), Some(l)) => if f < l {
                prev.push(("0x"@ + seq![hex_char((b / 16) as nat), hex_char((b % 16) as nat)], f as nat, l as nat, (l - f) as nat))
            } else {
                prev
            },
            _ => prev,
        }
    }
}

/// The spans of every byte value.
pub open spec fn spans(d: Seq<u8>) -> Seq<Span> {
    spans_upto(d, 256)
}

/// Events as JSON members: position, kind as a text, label.
pub open spec fn event_members(ev: Seq<TaEvent>) -> Seq<(nat, Seq<char>, Seq<char>)> {
    ev.map_values(|e: TaEvent| (e.0, seq![e.1], e.2))
}

/// The observations of `n` bytes of data `d`, with the transition rate as
/// written by `rate`.
pub open spec fn ta_observations(id: Seq<char>, d: Seq<u8>, rate: Seq<char>) -> Seq<ObsModel> {
    let n = d.len();
    let ev = data_events(d);
    let summary = with_meta(
        with_meta(
            with_meta(
                with_meta(
                    obs(id + "_ta_summary"@, "temporal.summary"@, utf8(decimal(n) + " positions, "@ + decimal(ev.len()) + " events"@), "text/plain"@),
                    "sequence_length"@,
                    decimal(n),
                ),
                "event_count"@,
                decimal(ev.len()),
            ),
            "transition_rate"@,
            rate,
        ),
        "source_observation"@,
        id,
    );
    let events: Seq<ObsModel> = if ev.len() > 0 {
        seq![with_meta(
            with_meta(
                with_meta(
                    obs(id + "_ta_events"@, "temporal.sequence"@, utf8(json_event_list(event_members(ev))), "application/json"@),
                    "metric"@,
                    "events"@,
                ),
                "event_count"@,
                decimal(ev.len()),
            ),
            "source_observation"@,
            id,
        )]
    } else {
        seq![]
    };
    let span = with_meta(
        with_meta(
            with_meta(
                obs(id + "_ta_spans"@, "temporal.interval"@, utf8(json_span_list(spans(d))), "application/json"@),
                "metric"@,
                "temporal_spans"@,
            ),
            "intervals_detected"@,
            decimal(interval_count(ev)),
        ),
        "source_observation"@,
        id,
    );
    let meta = with_meta(
        with_meta(
            with_meta(
                with_meta(
                    with_meta(obs(id + "_ta_metadata"@, "temporal.metadata"@, utf8(decimal(n)), "text/plain"@), "metric"@, "byte_size"@),
                    "value"@,
                    decimal(n),
                ),
                "sequence_length"@,
                decimal(n),
            ),
            "transitions"@,
            decimal(transitions(d)),
        ),
        "source_observation"@,
        id,
    );
    seq![summary] + events + seq![span, meta]
}

/// Events as numbers and texts.
pub open spec fn event_models(v: Seq<(usize, char, String)>) -> Seq<TaEvent> {
    v.map_values(|e: (usize, char, String)| (e.0 as nat, e.1, e.2@))
}

/// The kind of an operator word.
fn op_kind_exec(w: &str) -> (r: char)
    ensures
        r == op_kind(w@),
{
    proof {
        reveal_strlit("seq");
        reveal_strlit("par");
        reveal_strlit("alt");
    }
    let c = chars_of(w);
    if same_chars(c.as_slice(), chars_of("seq").as_slice()) {
        'S'
    } else if same_chars(c.as_slice(), chars_of("par").as_slice()) {
        'P'
    } else if same_chars(c.as_slice(), chars_of("alt").as_slice()) {
        'A'
    } else {
        'E'
    }
}

/// How many events are intervals.
fn interval_count_exec(ev: &Vec<(usize, char, String)>) -> (r: usize)
    ensures
        r == interval_count(event_models(ev@)),
{
    let ghost m = event_models(ev@);
    let mut n: usize = 0;
    let mut i: usize = 0;
    while i < ev.len()
        invariant
            i <= ev@.len(),
            m == event_models(ev@),
            n <= i,
            n == interval_count(m.subrange(0, i as int)),
        decreases ev@.len() - i,
    {
        assert(m.subrange(0, i + 1).drop_last() =~= m.subrange(0, i as int));
        if ev[i].1 == 'I' {
            n += 1;
        }
        i += 1;
    }
    assert(m.subrange(0, ev@.len() as int) =~= m);
    n
}

/// How many neighbouring bytes differ.
fn transitions_exec(d: &[u8]) -> (r: usize)
    ensures
        r == transitions(d@),
{
    let mut t: usize = 0;
    let mut i: usize = 1;
    if d.len() == 0 {
        return 0;
    }
    while i < d.len()
        invariant
            1 <= i <= d@.len(),
            t < i,
            t == transitions_upto(d@, i as int),
        decreases d@.len() - i,
    {
        if d[i - 1] != d[i] {
            t += 1;
        }
        i += 1;
    }
    t
}

proof fn lemma_first_at(d: Seq<u8>, b: u8)
    ensures
        first_at(d, b) matches Some(i) ==> 0 <= i < d.len() && d[i] == b && forall|j: int| 0 <= j < i ==> d[j] != b,
        first_at(d, b) is None ==> forall|j: int| 0 <= j < d.len() ==> d[j] != b,
    decreases d.len(),
{
    if d.len() > 0 {
        lemma_first_at(d.drop_last(), b);
        assert forall|j: int| 0 <= j < d.len() - 1 implies d.drop_last()[j] == d[j] by {}
    }
}

proof fn lemma_last_at(d: Seq<u8>, b: u8)
    ensures
        last_at(d, b) matches Some(i) ==> 0 <= i < d.len() && d[i] == b && forall|j: int| i < j < d.len() ==> d[j] != b,
        last_at(d, b) is None ==> forall|j: int| 0 <= j < d.len() ==> d[j] != b,
    decreases d.len(),
{
    if d.len() > 0 {
        lemma_last_at(d.drop_last(), b);
        assert forall|j: int| 0 <= j < d.len() - 1 implies d.drop_last()[j] == d[j] by {}
    }
}

/// First and last positions found by scanning agree with the definitions.
proof fn lemma_positions(d: Seq<u8>, b: u8, f: int, l: int)
    requires
        0 <= f <= l < d.len(),
        d[f] == b,
        d[l] == b,
        forall|j: int| 0 <= j < f ==> d[j] != b,
        forall|j: int| l < j < d.len() ==> d[j] != b,
    ensures
        first_at(d, b) == Some(f),
        last_at(d, b) == Some(l),
{
    lemma_first_at(d, b);
    lemma_last_at(d, b);
    match first_at(d, b) {
        Some(x) => {
            if x < f {
                assert(d[x] != b);
            } else if x > f {
                assert(d[f] != b);
            }
        },
        None => {
            assert(d[f] != b);
        },
    }
    match last_at(d, b) {
        Some(x) => {
            if x > l {
                assert(d[x] != b);
            } else if x < l {
                assert(d[l] != b);
            }
        },
        None => {
            assert(d[l] != b);
        },
    }
}

/// The spans of every byte value, in byte order.
fn spans_exec(d: &[u8]) -> (r: Vec<(String, usize, usize, usize)>)
    ensures
        span_texts(r@) == spans(d@),
{
    let mut first: Vec<usize> = Vec::new();
    let mut last: Vec<usize> = Vec::new();
    let mut seen: Vec<bool> = Vec::new();
    let mut k: usize = 0;
    while k < 256
        invariant
            k <= 256,
            first@.len() == k,
            last@.len() == k,
            seen@.len() == k,
            forall|j: int| 0 <= j < k ==> !(#[trigger] seen@[j]),
        decreases 256 - k,
    {
        first.push(0);
        last.push(0);
        seen.push(false);
        k += 1;
    }
    let mut i: usize = 0;
    while i < d.len()
        invariant
            i <= d@.len(),
            first@.len() == 256,
            last@.len() == 256,
            seen@.len() == 256,
            forall|b: int|
                0 <= b < 256 ==> (#[trigger] seen@[b] <==> exists|j: int| 0 <= j < i && d@[j] == b as u8),
            forall|b: int|
                0 <= b < 256 && #[trigger] seen@[b] ==> first@[b] <= last@[b] < i && d@[first@[b] as int] == b as u8 && d@[last@[b] as int]
                    == b as u8 && (forall|j: int| 0 <= j < first@[b] ==> d@[j] != b as u8) && (forall|j: int|
                    last@[b] < j < i ==> d@[j] != b as u8),
        decreases d@.len() - i,
    {
        let b = d[i] as usize;
        if !seen[b] {
            first.set(b, i);
            seen.set(b, true);
        }
        last.set(b, i);
        i += 1;
        assert forall|c: int| 0 <= c < 256 implies (#[trigger] seen@[c] <==> exists|j: int| 0 <= j < i && d@[j] == c as u8) by {
            if c == b {
                assert(d@[i - 1] == c as u8);
            } else {
                if exists|j: int| 0 <= j < i && d@[j] == c as u8 {
                    let j = choose|j: int| 0 <= j < i && d@[j] == c as u8;
                    assert(j < i - 1);
                }
            }
        }
    }
    let mut r: Vec<(String, usize, usize, usize)> = Vec::new();
    let mut c: usize = 0;
    assert(span_texts(r@) =~= Seq::<Span>::empty());
    while c < 256
        invariant
            c <= 256,
            i == d@.len(),
            first@.len() == 256,
            last@.len() == 256,
            seen@.len() == 256,
            forall|b: int|
                0 <= b < 256 ==> (#[trigger] seen@[b] <==> exists|j: int| 0 <= j < i && d@[j] == b as u8),
            forall|b: int|
                0 <= b < 256 && #[trigger] seen@[b] ==> first@[b] <= last@[b] < i && d@[first@[b] as int] == b as u8 && d@[last@[b] as int]
                    == b as u8 && (forall|j: int| 0 <= j < first@[b] ==> d@[j] != b as u8) && (forall|j: int|
                    last@[b] < j < i ==> d@[j] != b as u8),
            span_texts(r@) == spans_upto(d@, c as int),
        decreases 256 - c,
    {
        let bv = c as u8;
        assert(bv as int == c);
        proof {
            lemma_first_at(d@, bv);
            lemma_last_at(d@, bv);
            if seen@[c as int] {
                lemma_positions(d@, bv, first@[c as int] as int, last@[c as int] as int);
            } else {
                if let Some(x) = first_at(d@, bv) {
                    assert(d@[x] == c as u8);
                }
            }
        }
        if seen[c] && first[c] < last[c] {
            let ghost before = span_texts(r@);
            let h = byte_hex(bv);
            r.push((h, first[c], last[c], last[c] - first[c]));
            assert(span_texts(r@) =~= before.push(span_texts(r@).last()));
        }
        c += 1;
    }
    r
}

impl TemporalAlgebraProcessor {
    pub fn new() -> (r: Self) {
        TemporalAlgebraProcessor
    }

    /// Processor name.
    pub fn name(&self) -> (r: &'static str)
        ensures
            r@ == "temporal_algebra"@,
    {
        "temporal_algebra"
    }

    /// Processor description.
    pub fn description(&self) -> (r: &'static str)
        ensures
            r@ == "Analyzes temporal patterns in sequential data: ordering, intervals, and temporal relations"@,
    {
        "Analyzes temporal patterns in sequential data: ordering, intervals, and temporal relations"
    }

    /// Content types this processor accepts.
    pub fn content_types(&self) -> (r: Vec<&'static str>)
        ensures
            r@.map_values(|s: &'static str| s@) == seq!["application/x-temporal-algebra"@, "application/x-mathematics"@],
    {
        let r = vec!["application/x-temporal-algebra", "application/x-mathematics"];
        assert(r@.map_values(|s: &'static str| s@) =~= seq!["application/x-temporal-algebra"@, "application/x-mathematics"@]);
        r
    }

    /// The events of a text, in line order: `[label]` intervals,
    /// `before:`/`after:`/`during:` relations, `begin` … `end` blocks, and
    /// lines of two or more words (`seq`, `par`, `alt` or another operator).
    pub fn events(source: &str) -> (r: Vec<(usize, char, String)>)
        ensures
            event_models(r@) == ta_events(source@),
    {
        let text = chars_of(source);
        let text = text.as_slice();
        let mut events: Vec<(usize, char, String)> = Vec::new();
        let mut open = false;
        let mut start: usize = 0;
        let mut start_line = String::new();
        let mut idx: usize = 0;
        let mut pos: usize = 0;
        assert(text@.subrange(0, text@.len() as int) == text@);
        assert(event_models(events@) =~= Seq::<TaEvent>::empty());
        while pos < text.len()
            invariant
                pos <= text@.len(),
                text@ == source@,
                idx <= pos,
                start <= idx,
                ta_fold(
                    lines(text@.subrange(pos as int, text@.len() as int)),
                    idx as nat,
                    TaState { events: event_models(events@), open, start: start as nat, start_line: start_line@ },
                ).events == ta_events(source@),
            decreases text@.len() - pos,
        {
            let (a, b, n) = next_line(text, pos);
            let raw = &text[a..b];
            let line = trimmed(raw);
            let ghost rest = lines(text@.subrange(pos as int, text@.len() as int));
            let ghost before = TaState { events: event_models(events@), open, start: start as nat, start_line: start_line@ };
            let ghost evb = event_models(events@);
            proof {
                reveal_strlit("before:");
                reveal_strlit("after:");
                reveal_strlit("during:");
                reveal_strlit("begin");
                reveal_strlit("end");
            }
            let len = line.len();
            if len == 0 || line[0] == '#' {
            } else if line[0] == '[' && line[len - 1] == ']' {
                let label = string_of(&line[1..len - 1]);
                events.push((idx, 'I', label));
                assert(line@.last() == line@[len - 1]);
                assert(event_models(events@) =~= evb.push((idx as nat, 'I', line@.subrange(1, len - 1))));
            } else if starts_with_str(line, "before:") {
                let label = string_of(trimmed(&line[7..len]));
                events.push((idx, '<', label));
                assert(event_models(events@) =~= evb.push((idx as nat, '<', trim(line@.subrange(7, len as int)))));
            } else if starts_with_str(line, "after:") {
                let label = string_of(trimmed(&line[6..len]));
                events.push((idx, '>', label));
                assert(event_models(events@) =~= evb.push((idx as nat, '>', trim(line@.subrange(6, len as int)))));
            } else if starts_with_str(line, "during:") {
                let label = string_of(trimmed(&line[7..len]));
                events.push((idx, 'D', label));
                assert(event_models(events@) =~= evb.push((idx as nat, 'D', trim(line@.subrange(7, len as int)))));
            } else if same_chars(line, chars_of("begin").as_slice()) {
                open = true;
                start = idx;
                start_line = string_of(raw);
            } else if same_chars(line, chars_of("end").as_slice()) && open {
                events.push((start, 'B', string_of(chars_of(start_line.as_str()).as_slice())));
                events.push((idx, 'E', string_of(chars_of("end").as_slice())));
                open = false;
                assert(event_models(events@) =~= evb.push((before.start, 'B', before.start_line)).push((idx as nat, 'E', "end"@)));
            } else {
                let ws = words_exec(line);
                assert(ws@.len() == words(line@).len());
                if ws.len() >= 2 {
                    let k = op_kind_exec(ws[0].as_str());
                    events.push((idx, k, string_of(line)));
                    assert(event_models(events@) =~= evb.push((idx as nat, op_kind(words(line@)[0]), line@)));
                }
            }
            proof {
                assert(raw@ == rest[0]);
                assert(TaState { events: event_models(events@), open, start: start as nat, start_line: start_line@ } == ta_step(
                    before,
                    idx as nat,
                    rest[0],
                ));
                assert(rest.drop_first() == lines(text@.subrange(n as int, text@.len() as int)));
            }
            pos = n;
            idx = idx + 1;
        }
        assert(text@.subrange(pos as int, text@.len() as int).len() == 0);
        events
    }

    /// Summary, events, byte spans and size of the data, with the
    /// transition rate (changes between neighbouring bytes over the
    /// neighbouring pairs) as written by `transition_rate`. Empty data is
    /// refused.
    pub fn observations(
        &self,
        id: &str,
        data: &[u8],
        transition_rate: &str,
    ) -> (r: Result<Vec<ProcessedObservation>, ProcessorError>)
        ensures
            data@.len() == 0 <==> r matches Err(ProcessorError::InvalidInput(_)),
            data@.len() > 0 ==> r is Ok,
            r matches Ok(v) ==> obs_models(v@) == ta_observations(id@, data@, transition_rate@),
    {
        if data.len() == 0 {
            return Err(ProcessorError::InvalidInput(string_of(chars_of("cannot perform temporal analysis on empty data").as_slice())));
        }
        let events = match str_from_utf8(data) {
            Ok(text) => Self::events(text),
            Err(_) => Vec::new(),
        };
        assert(event_models(events@) == data_events(data@)) by {
            if !valid_utf8(data@) {
                assert(event_models(events@) =~= Seq::<TaEvent>::empty());
            }
        }
        let n = decimal_text(data.len());
        let ec = decimal_text(events.len());
        let mut results: Vec<ProcessedObservation> = Vec::new();
        let mut summary = string_of(chars_of(n.as_str()).as_slice());
        append_chars(&mut summary, chars_of(" positions, ").as_slice());
        append_chars(&mut summary, chars_of(ec.as_str()).as_slice());
        append_chars(&mut summary, chars_of(" events").as_slice());
        push_obs(
            &mut results,
            ProcessedObservation::new(suffixed(id, "_ta_summary"), "temporal.summary", text_bytes(summary.as_str()), "text/plain")
                .with_metadata("sequence_length", n.as_str())
                .with_metadata("event_count", ec.as_str())
                .with_metadata("transition_rate", transition_rate)
                .with_metadata("source_observation", id),
        );
        let ghost a = obs_models(results@);
        if events.len() > 0 {
            let mut members: Vec<(usize, String, String)> = Vec::new();
            let mut i: usize = 0;
            while i < events.len()
                invariant
                    i <= events@.len(),
                    event_texts(members@) == event_members(event_models(events@)).subrange(0, i as int),
                decreases events@.len() - i,
            {
                let ghost prev = event_texts(members@);
                let kc = vec![events[i].1];
                let k = string_of(kc.as_slice());
                assert(kc@ =~= seq![events@[i as int].1]);
                members.push((events[i].0, k, string_of(chars_of(events[i].2.as_str()).as_slice())));
                assert(event_texts(members@) =~= prev.push(event_members(event_models(events@))[i as int]));
                i += 1;
                assert(event_texts(members@) =~= event_members(event_models(events@)).subrange(0, i as int));
            }
            assert(event_members(event_models(events@)).subrange(0, events@.len() as int) =~= event_members(event_models(events@)));
            let json = to_json_events(&members);
            push_obs(
                &mut results,
                ProcessedObservation::new(suffixed(id, "_ta_events"), "temporal.sequence", text_bytes(json.as_str()), "application/json")
                    .with_metadata("metric", "events")
                    .with_metadata("event_count", ec.as_str())
                    .with_metadata("source_observation", id),
            );
        }
        let ghost ab = obs_models(results@);
        let sp = spans_exec(data);
        let sj = to_json_spans(&sp);
        let ic = decimal_text(interval_count_exec(&events));
        push_obs(
            &mut results,
            ProcessedObservation::new(suffixed(id, "_ta_spans"), "temporal.interval", text_bytes(sj.as_str()), "application/json")
                .with_metadata("metric", "temporal_spans")
                .with_metadata("intervals_detected", ic.as_str())
                .with_metadata("source_observation", id),
        );
        let tc = decimal_text(transitions_exec(data));
        push_obs(
            &mut results,
            ProcessedObservation::new(suffixed(id, "_ta_metadata"), "temporal.metadata", text_bytes(n.as_str()), "text/plain")
                .with_metadata("metric", "byte_size")
                .with_metadata("value", n.as_str())
                .with_metadata("sequence_length", n.as_str())
                .with_metadata("transitions", tc.as_str())
                .with_metadata("source_observation", id),
        );
        proof {
            if event_models(events@).len() == 0 {
                assert(ab =~= a);
            }
        }
        assert(obs_models(results@) =~= ta_observations(id@, data@, transition_rate@));
        Ok(results)
    }

    /// How many neighbouring bytes differ, and how many neighbouring pairs
    /// there are: what the transition rate is the ratio of.
    pub fn transition_counts(data: &[u8]) -> (r: (usize, usize))
        ensures
            r.0 == transitions(data@),
            r.1 == if data@.len() > 1 { data@.len() - 1 } else { 0 },
    {
        let t = transitions_exec(data);
        let pairs = if data.len() > 1 { data.len() - 1 } else { 0 };
        (t, pairs)
    }
}

/// A constant run of bytes has no transitions.
pub proof fn lemma_constant_data_no_transitions(d: Seq<u8>, n: int)
    requires
        0 <= n <= d.len(),
        forall|i: int, j: int| 0 <= i < d.len() && 0 <= j < d.len() ==> d[i] == d[j],
    ensures
        transitions_upto(d, n) == 0,
    decreases n,
{
    if n > 1 {
        lemma_constant_data_no_transitions(d, n - 1);
    }
}

} // verus!
