//! PDF processor — reads the version from the PDF header.
use std::collections::HashMap;
use vstd::prelude::*;
use crate::observation::{
    ObsModel, ProcessedObservation, ProcessorError, obs, obs_models, push_obs, size_obs,
    size_observation, suffixed, text_bytes, utf8, with_meta,
};

verus! {

/// Processor for PDF documents.
pub struct PdfProcessor;

/// What `String::from_utf8_lossy` returns for some bytes.
pub uninterp spec fn lossy_text(b: Seq<u8>) -> Seq<char>;

/// Calls `String::from_utf8_lossy` (std). Its text is named `lossy_text`;
/// for valid UTF-8 it is the decoded text, as the documentation states.
#[verifier::external_body]
pub(crate) fn utf8_lossy(b: &[u8]) -> (r: String)
    ensures
        r@ == lossy_text(b@),
        vstd::utf8::valid_utf8(b@) ==> r@ == vstd::utf8::decode_utf8(b@),
{
    String::from_utf8_lossy(b).to_string()
}

/// Whether the data starts with `%PDF-`.
pub open spec fn pdf_header(d: Seq<u8>) -> bool {
    d.len() > 5 && d[0] == 0x25 && d[1] == 0x50 && d[2] == 0x44 && d[3] == 0x46 && d[4] == 0x2D
}

/// First position at or after `i` of a line ending.
pub open spec fn eol_from(d: Seq<u8>, i: int) -> Option<int>
    decreases d.len() - i,
{
    if i < 0 || i >= d.len() {
        None
    } else if d[i] == 0x0A || d[i] == 0x0D {
        Some(i)
    } else {
        eol_from(d, i + 1)
    }
}

/// Length of the version text after `%PDF-`: up to the line ending, at most 10.
pub open spec fn version_len(d: Seq<u8>) -> int {
    let end = match eol_from(d, 5) {
        Some(k) => k - 5,
        None => 10,
    };
    if end < 10 {
        end
    } else {
        10
    }
}

/// Headers whose version text would run past the end of the data.
pub open spec fn version_truncated(d: Seq<u8>) -> bool {
    pdf_header(d) && 5 + version_len(d) > d.len()
}

/// The version text of a PDF header, or `unknown`.
pub open spec fn pdf_version(d: Seq<u8>) -> Seq<char> {
    if pdf_header(d) {
        lossy_text(d.subrange(5, 5 + version_len(d)))
    } else {
        "unknown"@
    }
}

/// The observations the PDF processor derives from `d`.
pub open spec fn pdf_observations(id: Seq<char>, d: Seq<u8>) -> Seq<ObsModel> {
    seq![
        with_meta(
            with_meta(obs(id + "_version"@, "pdf.metadata"@, utf8(pdf_version(d)), "text/plain"@), "metric"@, "pdf_version"@),
            "source_observation"@,
            id,
        ),
        size_obs(id, "pdf.metadata"@, d.len()),
    ]
}

proof fn lemma_eol_bounds(d: Seq<u8>, i: int)
    requires
        0 <= i,
    ensures
        eol_from(d, i) matches Some(k) ==> i <= k < d.len(),
    decreases d.len() - i,
{
    if i < d.len() && !(d[i] == 0x0A || d[i] == 0x0D) {
        lemma_eol_bounds(d, i + 1);
    }
}

impl PdfProcessor {
    pub fn new() -> (r: Self) {
        PdfProcessor
    }

    /// Processor name.
    pub fn name(&self) -> (r: &'static str)
        ensures
            r@ == "pdf"@,
    {
        "pdf"
    }

    /// Processor description.
    pub fn description(&self) -> (r: &'static str)
        ensures
            r@ == "Extracts text, metadata, and page structure from PDF documents"@,
    {
        "Extracts text, metadata, and page structure from PDF documents"
    }

    /// Content types this processor accepts.
    pub fn content_types(&self) -> (r: Vec<&'static str>)
        ensures
            r@.map_values(|s: &'static str| s@) == seq!["application/pdf"@],
    {
        let r = vec!["application/pdf"];
        assert(r@.map_values(|s: &'static str| s@) =~= seq!["application/pdf"@]);
        r
    }

    /// The version text of the header.
    fn version(data: &[u8]) -> (r: String)
        requires
            !version_truncated(data@),
        ensures
            r@ == pdf_version(data@),
    {
        let n = data.len();
        if n > 5 && data[0] == 0x25 && data[1] == 0x50 && data[2] == 0x44 && data[3] == 0x46 && data[4] == 0x2D {
            let mut i: usize = 5;
            while i < n && !(data[i] == 0x0A || data[i] == 0x0D)
                invariant
                    5 <= i <= n,
                    n == data@.len(),
                    eol_from(data@, 5) == eol_from(data@, i as int),
                decreases n - i,
            {
                i += 1;
            }
            let end: usize = if i < n { i - 5 } else { 10 };
            let take: usize = if end < 10 { end } else { 10 };
            utf8_lossy(&data[5..5 + take])
        } else {
            crate::text::string_of(crate::text::chars_of("unknown").as_slice())
        }
    }

    /// The header version and the size of a PDF file.
    pub fn process(
        &self,
        id: &str,
        data: &[u8],
        _content_type: Option<&str>,
        _metadata: HashMap<String, String>,
    ) -> (r: Result<Vec<ProcessedObservation>, ProcessorError>)
        requires
            !version_truncated(data@),
        ensures
            r matches Ok(v) && obs_models(v@) == pdf_observations(id@, data@),
    {
        let mut results: Vec<ProcessedObservation> = Vec::new();
        let version = Self::version(data);
        push_obs(
            &mut results,
            ProcessedObservation::new(suffixed(id, "_version"), "pdf.metadata", text_bytes(version.as_str()), "text/plain")
                .with_metadata("metric", "pdf_version")
                .with_metadata("source_observation", id),
        );
        push_obs(&mut results, size_observation(id, "pdf.metadata", data.len()));
        assert(obs_models(results@) =~= pdf_observations(id@, data@));
        Ok(results)
    }
}

} // verus!
