//! OCR processor — identifies the image format of OCR inputs.
use std::collections::HashMap;
use vstd::prelude::*;
use crate::observation::{
    ObsModel, ProcessedObservation, ProcessorError, obs, obs_models, push_obs, size_obs,
    size_observation, suffixed, text_bytes, text_obs, text_observation, utf8, with_meta,
};
use crate::processors::images::{detect_image_format, image_format};

verus! {

/// Processor for images that carry text.
pub struct OcrProcessor;

/// The observations the OCR processor derives from `d`.
pub open spec fn ocr_observations(id: Seq<char>, d: Seq<u8>) -> Seq<ObsModel> {
    let fmt = match image_format(d) {
        Some(f) => f,
        None => "unknown"@,
    };
    seq![
        with_meta(
            with_meta(obs(id + "_format"@, "ocr.metadata"@, utf8(fmt), "text/plain"@), "metric"@, "image_format"@),
            "source_observation"@,
            id,
        ),
        size_obs(id, "ocr.metadata"@, d.len()),
        text_obs(id, "_note"@, "ocr.status"@, "OCR requires Tesseract runtime - text extraction not available in this build"@),
    ]
}

impl OcrProcessor {
    pub fn new() -> (r: Self) {
        OcrProcessor
    }

    /// Processor name.
    pub fn name(&self) -> (r: &'static str)
        ensures
            r@ == "ocr"@,
    {
        "ocr"
    }

    /// Processor description.
    pub fn description(&self) -> (r: &'static str)
        ensures
            r@ == "Optical character recognition for images — provides text detection and language identification"@,
    {
        "Optical character recognition for images — provides text detection and language identification"
    }

    /// Content types this processor accepts.
    pub fn content_types(&self) -> (r: Vec<&'static str>)
        ensures
            r@.map_values(|s: &'static str| s@) == seq!["image/"@],
    {
        let r = vec!["image/"];
        assert(r@.map_values(|s: &'static str| s@) =~= seq!["image/"@]);
        r
    }

    /// The image format, the size, and a note that text extraction is unavailable.
    pub fn process(
        &self,
        id: &str,
        data: &[u8],
        _content_type: Option<&str>,
        _metadata: HashMap<String, String>,
    ) -> (r: Result<Vec<ProcessedObservation>, ProcessorError>)
        ensures
            r matches Ok(v) && obs_models(v@) == ocr_observations(id@, data@),
    {
        let mut results: Vec<ProcessedObservation> = Vec::new();
        let fmt = match detect_image_format(data) {
            Some(f) => f,
            None => "unknown",
        };
        push_obs(
            &mut results,
            ProcessedObservation::new(suffixed(id, "_format"), "ocr.metadata", text_bytes(fmt), "text/plain")
                .with_metadata("metric", "image_format")
                .with_metadata("source_observation", id),
        );
        push_obs(&mut results, size_observation(id, "ocr.metadata", data.len()));
        push_obs(
            &mut results,
            text_observation(id, "_note", "ocr.status", "OCR requires Tesseract runtime - text extraction not available in this build"),
        );
        proof {
            assert(obs_models(results@) =~= ocr_observations(id@, data@));
        }
        Ok(results)
    }
}

} // verus!
