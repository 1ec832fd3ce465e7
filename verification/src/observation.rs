//! Observations produced by content processors, and the errors they report.
use vstd::prelude::*;
use vstd::utf8::encode_utf8;
use crate::text::{append_chars, chars_of, decimal, decimal_string, same_text, string_of};

verus! {

/// A derived observation: an identified, typed payload with metadata.
#[derive(Debug)]
pub struct ProcessedObservation {
    pub id: String,
    pub kind: String,
    pub data: Vec<u8>,
    pub content_type: String,
    /// Metadata entries in insertion order; keys are unique.
    pub metadata: Vec<(String, String)>,
}

/// Why a processor could not produce observations.
#[derive(Debug)]
pub enum ProcessorError {
    InvalidInput(String),
    ProcessingFailed(String),
    UnsupportedContent(String),
}

/// Abstract value of a [`ProcessedObservation`].
pub struct ObsModel {
    pub id: Seq<char>,
    pub kind: Seq<char>,
    pub data: Seq<u8>,
    pub content_type: Seq<char>,
    pub metadata: Seq<(Seq<char>, Seq<char>)>,
}

/// Metadata entries as pairs of texts.
pub open spec fn meta_texts(v: Seq<(String, String)>) -> Seq<(Seq<char>, Seq<char>)> {
    v.map_values(|e: (String, String)| (e.0@, e.1@))
}

impl View for ProcessedObservation {
    type V = ObsModel;

    open spec fn view(&self) -> ObsModel {
        ObsModel {
            id: self.id@,
            kind: self.kind@,
            data: self.data@,
            content_type: self.content_type@,
            metadata: meta_texts(self.metadata@),
        }
    }
}

/// The models of a list of observations.
pub open spec fn obs_models(v: Seq<ProcessedObservation>) -> Seq<ObsModel> {
    v.map_values(|o: ProcessedObservation| o@)
}

/// Index of the first entry with key `k`.
pub open spec fn key_index(md: Seq<(Seq<char>, Seq<char>)>, k: Seq<char>) -> Option<int>
    decreases md.len(),
{
    if md.len() == 0 {
        None
    } else {
        match key_index(md.drop_last(), k) {
            Some(i) => Some(i),
            None => if md.last().0 == k {
                Some(md.len() - 1)
            } else {
                None
            },
        }
    }
}

/// Metadata after setting `k` to `v` (replacing an existing value).
pub open spec fn meta_set(md: Seq<(Seq<char>, Seq<char>)>, k: Seq<char>, v: Seq<char>) -> Seq<(Seq<char>, Seq<char>)> {
    match key_index(md, k) {
        Some(i) => md.update(i, (k, v)),
        None => md.push((k, v)),
    }
}

/// A new observation without metadata.
pub open spec fn obs(id: Seq<char>, kind: Seq<char>, data: Seq<u8>, content_type: Seq<char>) -> ObsModel {
    ObsModel { id, kind, data, content_type, metadata: seq![] }
}

/// An observation with one more metadata entry.
pub open spec fn with_meta(o: ObsModel, k: Seq<char>, v: Seq<char>) -> ObsModel {
    ObsModel { metadata: meta_set(o.metadata, k, v), ..o }
}

/// The UTF-8 bytes of a text.
pub open spec fn utf8(s: Seq<char>) -> Seq<u8> {
    encode_utf8(s)
}

/// The common byte-size observation: `<id>_size` of the given kind.
pub open spec fn size_obs(id: Seq<char>, kind: Seq<char>, n: nat) -> ObsModel {
    with_meta(
        with_meta(
            with_meta(obs(id + "_size"@, kind, utf8(decimal(n)), "text/plain"@), "metric"@, "byte_size"@),
            "value"@,
            decimal(n),
        ),
        "source_observation"@,
        id,
    )
}

/// A text observation of `<id><suffix>` tagged with its source.
pub open spec fn text_obs(id: Seq<char>, suffix: Seq<char>, kind: Seq<char>, text: Seq<char>) -> ObsModel {
    with_meta(obs(id + suffix, kind, utf8(text), "text/plain"@), "source_observation"@, id)
}

proof fn lemma_key_index_bounds(md: Seq<(Seq<char>, Seq<char>)>, k: Seq<char>)
    ensures
        key_index(md, k) matches Some(i) ==> 0 <= i < md.len() && md[i].0 == k,
        key_index(md, k) is None ==> forall|j: int| 0 <= j < md.len() ==> md[j].0 != k,
    decreases md.len(),
{
    if md.len() > 0 {
        lemma_key_index_bounds(md.drop_last(), k);
        if key_index(md, k) is None {
            assert forall|j: int| 0 <= j < md.len() implies md[j].0 != k by {
                if j < md.len() - 1 {
                    assert(md.drop_last()[j] == md[j]);
                }
            }
        }
    }
}

proof fn lemma_key_index_first(md: Seq<(Seq<char>, Seq<char>)>, k: Seq<char>, n: int)
    requires
        0 < n <= md.len(),
        key_index(md.subrange(0, n - 1), k) is None,
        md[n - 1].0 == k,
    ensures
        key_index(md, k) == Some(n - 1),
    decreases md.len() - n,
{
    let pre = md.subrange(0, n);
    assert(pre.drop_last() == md.subrange(0, n - 1));
    if n < md.len() {
        lemma_key_index_keep(md, k, n);
    } else {
        assert(pre == md);
    }
}

proof fn lemma_key_index_keep(md: Seq<(Seq<char>, Seq<char>)>, k: Seq<char>, n: int)
    requires
        0 < n <= md.len(),
        key_index(md.subrange(0, n), k) is Some,
    ensures
        key_index(md, k) == key_index(md.subrange(0, n), k),
    decreases md.len() - n,
{
    if n < md.len() {
        assert(md.subrange(0, n + 1).drop_last() == md.subrange(0, n));
        lemma_key_index_keep(md, k, n + 1);
    } else {
        assert(md.subrange(0, n) == md);
    }
}

impl ProcessedObservation {
    /// A new observation without metadata.
    pub fn new(id: String, kind: &str, data: Vec<u8>, content_type: &str) -> (r: Self)
        ensures
            r@ == obs(id@, kind@, data@, content_type@),
    {
        let r = ProcessedObservation {
            id,
            kind: string_of(chars_of(kind).as_slice()),
            data,
            content_type: string_of(chars_of(content_type).as_slice()),
            metadata: Vec::new(),
        };
        assert(meta_texts(r.metadata@) =~= Seq::<(Seq<char>, Seq<char>)>::empty());
        r
    }

    /// The observation with `key` set to `value`.
    pub fn with_metadata(self, key: &str, value: &str) -> (r: Self)
        ensures
            r@ == with_meta(self@, key@, value@),
    {
        let mut this = self;
        let k = string_of(chars_of(key).as_slice());
        let v = string_of(chars_of(value).as_slice());
        set_entry(&mut this.metadata, k, v);
        this
    }

    /// The value recorded under `key`.
    pub fn metadata_value(&self, key: &str) -> (r: Option<&String>)
        ensures
            match key_index(self@.metadata, key@) {
                Some(i) => r matches Some(v) && v@ == self@.metadata[i].1,
                None => r is None,
            },
    {
        get_entry(&self.metadata, key)
    }
}

/// Index of the entry with key `key`.
fn entry_position(md: &Vec<(String, String)>, key: &str) -> (r: Option<usize>)
    ensures
        match r {
            Some(i) => key_index(meta_texts(md@), key@) == Some(i as int),
            None => key_index(meta_texts(md@), key@) is None,
        },
{
    let mut i: usize = 0;
    while i < md.len()
        invariant
            i <= md@.len(),
            key_index(meta_texts(md@).subrange(0, i as int), key@) is None,
        decreases md@.len() - i,
    {
        let ghost m = meta_texts(md@);
        assert(m.subrange(0, i + 1).drop_last() == m.subrange(0, i as int));
        if same_text(md[i].0.as_str(), key) {
            proof {
                lemma_key_index_first(m, key@, i + 1);
            }
            return Some(i);
        }
        i += 1;
    }
    assert(meta_texts(md@).subrange(0, md@.len() as int) == meta_texts(md@));
    None
}

/// Sets `k` to `v` in a list of unique-keyed entries (`HashMap::insert`).
pub fn set_entry(md: &mut Vec<(String, String)>, k: String, v: String)
    ensures
        meta_texts(final(md)@) == meta_set(meta_texts(old(md)@), k@, v@),
{
    let ghost m = meta_texts(md@);
    proof {
        lemma_key_index_bounds(m, k@);
    }
    let ghost kv = k@;
    let ghost vv = v@;
    match entry_position(md, k.as_str()) {
        Some(i) => {
            md.set(i, (k, v));
            assert(meta_texts(md@) =~= m.update(i as int, (kv, vv)));
        },
        None => {
            md.push((k, v));
            assert(meta_texts(md@) =~= m.push((kv, vv)));
        },
    }
}

/// The value of key `key` in a list of entries (`HashMap::get`).
pub fn get_entry<'a>(md: &'a Vec<(String, String)>, key: &str) -> (r: Option<&'a String>)
    ensures
        match key_index(meta_texts(md@), key@) {
            Some(i) => r matches Some(v) && v@ == meta_texts(md@)[i].1,
            None => r is None,
        },
{
    proof {
        lemma_key_index_bounds(meta_texts(md@), key@);
    }
    match entry_position(md, key) {
        Some(i) => Some(&md[i].1),
        None => None,
    }
}

/// `id` followed by `suffix` (`format!("{id}{suffix}")`).
pub fn suffixed(id: &str, suffix: &str) -> (r: String)
    ensures
        r@ == id@ + suffix@,
{
    let mut s = string_of(chars_of(id).as_slice());
    append_chars(&mut s, chars_of(suffix).as_slice());
    s
}

/// The UTF-8 bytes of a string slice.
pub fn text_bytes(s: &str) -> (r: Vec<u8>)
    ensures
        r@ == utf8(s@),
{
    vstd::slice::slice_to_vec(s.as_bytes())
}

/// The decimal rendering of `n`, as text.
pub fn decimal_text(n: usize) -> (r: String)
    ensures
        r@ == decimal(n as nat),
{
    decimal_string(n)
}

/// A text observation of `<id><suffix>` tagged with its source.
pub fn text_observation(id: &str, suffix: &str, kind: &str, text: &str) -> (r: ProcessedObservation)
    ensures
        r@ == text_obs(id@, suffix@, kind@, text@),
{
    ProcessedObservation::new(suffixed(id, suffix), kind, text_bytes(text), "text/plain").with_metadata(
        "source_observation",
        id,
    )
}

/// The common `<id>_size` observation of a byte count.
pub fn size_observation(id: &str, kind: &str, n: usize) -> (r: ProcessedObservation)
    ensures
        r@ == size_obs(id@, kind@, n as nat),
{
    let d = decimal_text(n);
    ProcessedObservation::new(suffixed(id, "_size"), kind, text_bytes(d.as_str()), "text/plain")
        .with_metadata("metric", "byte_size")
        .with_metadata("value", d.as_str())
        .with_metadata("source_observation", id)
}

/// Appends an observation to a result list.
pub fn push_obs(results: &mut Vec<ProcessedObservation>, o: ProcessedObservation)
    ensures
        obs_models(final(results)@) == obs_models(old(results)@).push(o@),
{
    results.push(o);
    assert(obs_models(results@) =~= obs_models(old(results)@).push(o@));
}

} // verus!
