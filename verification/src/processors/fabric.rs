//! The decisions of the processing fabric that routes data through the
//! processors: which content types a domain filter admits, and the
//! observation that reports a processor's failure.
use vstd::prelude::*;
use crate::observation::{obs, utf8, with_meta, ObsModel, ProcessedObservation, ProcessorError};
use crate::text::{append_chars, chars_of, same_text, starts_with, starts_with_chars, string_of, texts};

verus! {

/// Whether a content type starts with one of the domain prefixes.
pub open spec fn domain_admits(domains: Seq<Seq<char>>, content_type: Seq<char>) -> bool {
    exists|i: int| 0 <= i < domains.len() && starts_with(content_type, #[trigger] domains[i])
}

/// Whether a domain filter admits a content type (`text/`, `image/`, ...).
pub fn admits(domains: &Vec<String>, content_type: &str) -> (r: bool)
    ensures
        r == domain_admits(texts(domains@), content_type@),
{
    let ct = chars_of(content_type);
    let mut i: usize = 0;
    while i < domains.len()
        invariant
            i <= domains@.len(),
            ct@ == content_type@,
            forall|k: int| 0 <= k < i ==> !starts_with(content_type@, #[trigger] texts(domains@)[k]),
        decreases domains@.len() - i,
    {
        let d = chars_of(domains[i].as_str());
        assert(texts(domains@)[i as int] == domains@[i as int]@);
        if starts_with_chars(ct.as_slice(), d.as_slice()) {
            return true;
        }
        i += 1;
    }
    false
}

/// The indices of the processors, among the first `n`, that accept a
/// content type (by the content types each lists).
pub open spec fn accepting(accepts: Seq<Seq<Seq<char>>>, ct: Seq<char>, n: int) -> Seq<usize>
    decreases n,
{
    if n <= 0 {
        seq![]
    } else if accepts[n - 1].contains(ct) {
        accepting(accepts, ct, n - 1).push((n - 1) as usize)
    } else {
        accepting(accepts, ct, n - 1)
    }
}

/// Which processors data goes through: with a content type, those that
/// accept it, and none where a domain filter does not admit it; without
/// one, all of them in order.
pub open spec fn routed(
    accepts: Seq<Seq<Seq<char>>>,
    domains: Option<Seq<Seq<char>>>,
    content_type: Option<Seq<char>>,
) -> Seq<usize> {
    match content_type {
        None => Seq::new(accepts.len(), |i: int| i as usize),
        Some(ct) => match domains {
            Some(ds) => if domain_admits(ds, ct) {
                accepting(accepts, ct, accepts.len() as int)
            } else {
                seq![]
            },
            None => accepting(accepts, ct, accepts.len() as int),
        },
    }
}

/// The content types of each processor, as texts.
pub open spec fn accept_lists(accepts: Seq<Vec<String>>) -> Seq<Seq<Seq<char>>> {
    accepts.map_values(|v: Vec<String>| texts(v@))
}

/// Whether a list of content types holds `ct`.
fn lists(types: &Vec<String>, ct: &str) -> (r: bool)
    ensures
        r == texts(types@).contains(ct@),
{
    let mut i: usize = 0;
    while i < types.len()
        invariant
            i <= types@.len(),
            forall|k: int| 0 <= k < i ==> #[trigger] texts(types@)[k] != ct@,
        decreases types@.len() - i,
    {
        assert(texts(types@)[i as int] == types@[i as int]@);
        if same_text(types[i].as_str(), ct) {
            assert(texts(types@)[i as int] == ct@);
            return true;
        }
        i += 1;
    }
    false
}

/// The indices of the processors that data goes through, given the content
/// types each accepts, the domain filter if any, and the data's content
/// type if known.
pub fn route(accepts: &Vec<Vec<String>>, domains: Option<&Vec<String>>, content_type: Option<&str>) -> (r: Vec<usize>)
    ensures
        r@ == routed(
            accept_lists(accepts@),
            match domains {
                Some(d) => Some(texts(d@)),
                None => None,
            },
            match content_type {
                Some(c) => Some(c@),
                None => None,
            },
        ),
{
    let ghost al = accept_lists(accepts@);
    let mut r: Vec<usize> = Vec::new();
    match content_type {
        None => {
            let mut i: usize = 0;
            while i < accepts.len()
                invariant
                    i <= accepts@.len(),
                    r@ == Seq::new(i as nat, |k: int| k as usize),
                decreases accepts@.len() - i,
            {
                r.push(i);
                assert(r@ =~= Seq::new((i + 1) as nat, |k: int| k as usize));
                i += 1;
            }
            assert(al.len() == accepts@.len());
            r
        },
        Some(ct) => {
            match domains {
                Some(d) => {
                    if !admits(d, ct) {
                        return r;
                    }
                },
                None => {},
            }
            let mut i: usize = 0;
            while i < accepts.len()
                invariant
                    i <= accepts@.len(),
                    al == accept_lists(accepts@),
                    r@ == accepting(al, ct@, i as int),
                decreases accepts@.len() - i,
            {
                assert(al[i as int] == texts(accepts@[i as int]@));
                if lists(&accepts[i], ct) {
                    r.push(i);
                }
                i += 1;
            }
            r
        },
    }
}

/// The message of a processor error: its kind, a colon, and its text.
pub open spec fn error_text(e: ProcessorError) -> Seq<char> {
    match e {
        ProcessorError::InvalidInput(m) => "invalid input: "@ + m@,
        ProcessorError::ProcessingFailed(m) => "processing failed: "@ + m@,
        ProcessorError::UnsupportedContent(m) => "unsupported content: "@ + m@,
    }
}

/// The message of a processor error, as the failure observation carries it.
pub fn error_message(e: &ProcessorError) -> (r: String)
    ensures
        r@ == error_text(*e),
{
    let (prefix, m) = match e {
        ProcessorError::InvalidInput(m) => ("invalid input: ", m),
        ProcessorError::ProcessingFailed(m) => ("processing failed: ", m),
        ProcessorError::UnsupportedContent(m) => ("unsupported content: ", m),
    };
    let mut s = string_of(chars_of(prefix).as_slice());
    append_chars(&mut s, chars_of(m.as_str()).as_slice());
    s
}

/// The observation reporting that a processor failed on some data.
pub open spec fn error_obs(id: Seq<char>, processor: Seq<char>, message: Seq<char>) -> ObsModel {
    with_meta(
        with_meta(
            obs(id + "_error_"@ + processor, "processing.error"@, utf8(message), "text/plain"@),
            "processor"@,
            processor,
        ),
        "source_observation"@,
        id,
    )
}

/// The observation reporting a processor's failure: `<id>_error_<name>`
/// carrying the error's message.
pub fn error_observation(id: &str, processor: &str, message: &str) -> (r: ProcessedObservation)
    ensures
        r@ == error_obs(id@, processor@, message@),
{
    let mut oid = string_of(chars_of(id).as_slice());
    append_chars(&mut oid, chars_of("_error_").as_slice());
    append_chars(&mut oid, chars_of(processor).as_slice());
    ProcessedObservation::new(oid, "processing.error", crate::observation::text_bytes(message), "text/plain")
        .with_metadata("processor", processor)
        .with_metadata("source_observation", id)
}

/// The readiness answer of the service: ready (200) when both backing
/// stores answer, otherwise not ready (503).
pub fn readiness(postgres_ok: bool, redis_ok: bool) -> (r: (u16, &'static str))
    ensures
        r.0 == (if postgres_ok && redis_ok { 200u16 } else { 503u16 }),
        r.1@ == (if postgres_ok && redis_ok { "ready"@ } else { "not_ready"@ }),
{
    if postgres_ok && redis_ok {
        (200, "ready")
    } else {
        (503, "not_ready")
    }
}

} // verus!
