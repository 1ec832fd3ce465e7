//! Office processor — identifies OOXML and legacy Office documents.
use std::collections::HashMap;
use vstd::prelude::*;
use vstd::utf8::{decode_utf8, valid_utf8};
use crate::observation::{
    ObsModel, ProcessedObservation, ProcessorError, obs, obs_models, push_obs, text_bytes,
    utf8, with_meta,
};
use crate::text::{chars_of, contains, contains_str, str_from_utf8, string_of};

verus! {

/// Processor for Office documents.
pub struct OfficeProcessor;

/// The document type named by the header and, for ZIP files, by the
/// member names in the first 4096 bytes.
pub open spec fn office_type(d: Seq<u8>) -> Seq<char> {
    if d.len() > 4 && d[0] == 0x50 && d[1] == 0x4B && d[2] == 0x03 && d[3] == 0x04 {
        let head = d.subrange(0, if d.len() < 4096 { d.len() as int } else { 4096 });
        if valid_utf8(head) {
            let s = decode_utf8(head);
            if contains(s, "word/"@) {
                "DOCX (detected)"@
            } else if contains(s, "xl/"@) {
                "XLSX (detected)"@
            } else if contains(s, "ppt/"@) {
                "PPTX (detected)"@
            } else {
                "ZIP archive (may be OOXML)"@
            }
        } else {
            "ZIP archive"@
        }
    } else if d.len() > 2 && d[0] == 0xD0 && d[1] == 0xCF {
        "OLE2 (legacy Office)"@
    } else {
        "unknown"@
    }
}

/// The observations the Office processor derives from `d`.
pub open spec fn office_observations(d: Seq<u8>) -> Seq<ObsModel> {
    seq![with_meta(obs("_office_type"@, "office.metadata"@, utf8(office_type(d)), "text/plain"@), "metric"@, "document_type"@)]
}

impl OfficeProcessor {
    pub fn new() -> (r: Self) {
        OfficeProcessor
    }

    /// Processor name.
    pub fn name(&self) -> (r: &'static str)
        ensures
            r@ == "office"@,
    {
        "office"
    }

    /// Processor description.
    pub fn description(&self) -> (r: &'static str)
        ensures
            r@ == "Extracts text from Office documents (DOCX, XLSX, PPTX)"@,
    {
        "Extracts text from Office documents (DOCX, XLSX, PPTX)"
    }

    /// Content types this processor accepts.
    pub fn content_types(&self) -> (r: Vec<&'static str>)
        ensures
            r@.map_values(|s: &'static str| s@) == seq![
                "application/vnd.openxmlformats-officedocument"@,
                "application/msword"@,
                "application/vnd.ms-"@,
                "application/vnd.oasis.opendocument"@,
            ],
    {
        let r = vec![
            "application/vnd.openxmlformats-officedocument",
            "application/msword",
            "application/vnd.ms-",
            "application/vnd.oasis.opendocument",
        ];
        assert(r@.map_values(|s: &'static str| s@) =~= seq![
            "application/vnd.openxmlformats-officedocument"@,
            "application/msword"@,
            "application/vnd.ms-"@,
            "application/vnd.oasis.opendocument"@,
        ]);
        r
    }

    fn doc_type(data: &[u8]) -> (r: &'static str)
        ensures
            r@ == office_type(data@),
    {
        let n = data.len();
        if n > 4 && data[0] == 0x50 && data[1] == 0x4B && data[2] == 0x03 && data[3] == 0x04 {
            let m = if n < 4096 { n } else { 4096 };
            match str_from_utf8(&data[0..m]) {
                Ok(s) => {
                    let c = chars_of(s);
                    if contains_str(c.as_slice(), "word/") {
                        "DOCX (detected)"
                    } else if contains_str(c.as_slice(), "xl/") {
                        "XLSX (detected)"
                    } else if contains_str(c.as_slice(), "ppt/") {
                        "PPTX (detected)"
                    } else {
                        "ZIP archive (may be OOXML)"
                    }
                },
                Err(_) => "ZIP archive",
            }
        } else if n > 2 && data[0] == 0xD0 && data[1] == 0xCF {
            "OLE2 (legacy Office)"
        } else {
            "unknown"
        }
    }

    fn extract_magic(&self, data: &[u8]) -> (r: Vec<ProcessedObservation>)
        ensures
            obs_models(r@) == office_observations(data@),
    {
        let mut results: Vec<ProcessedObservation> = Vec::new();
        let doc_type = Self::doc_type(data);
        push_obs(
            &mut results,
            ProcessedObservation::new(string_of(chars_of("_office_type").as_slice()), "office.metadata", text_bytes(doc_type), "text/plain")
                .with_metadata("metric", "document_type"),
        );
        assert(obs_models(results@) =~= office_observations(data@));
        results
    }

    /// The document type of an Office file.
    pub fn process(
        &self,
        _id: &str,
        data: &[u8],
        _content_type: Option<&str>,
        _metadata: HashMap<String, String>,
    ) -> (r: Result<Vec<ProcessedObservation>, ProcessorError>)
        ensures
            r matches Ok(v) && obs_models(v@) == office_observations(data@),
    {
        Ok(self.extract_magic(data))
    }
}

} // verus!
