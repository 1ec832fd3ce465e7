//! Image processor — detects the format and reads dimensions from headers.
use std::collections::HashMap;
use vstd::prelude::*;
use crate::bytes::{be16, be16_at, be32, be32_at, le16, le16_at};
use crate::observation::{
    ObsModel, ProcessedObservation, ProcessorError, decimal_text, obs, obs_models, push_obs,
    size_obs, size_observation, suffixed, text_bytes, utf8, with_meta,
};
use crate::text::{append_chars, chars_of, decimal};

verus! {

/// Processor for raster images.
pub struct ImageProcessor;

/// The image format named by the header.
pub open spec fn image_format(d: Seq<u8>) -> Option<Seq<char>> {
    if d.len() < 4 {
        None
    } else if d[0] == 0x89 && d[1] == 0x50 && d[2] == 0x4E && d[3] == 0x47 {
        Some("PNG"@)
    } else if d[0] == 0xFF && d[1] == 0xD8 && d[2] == 0xFF {
        Some("JPEG"@)
    } else if d[0] == 0x47 && d[1] == 0x49 && d[2] == 0x46 && d[3] == 0x38 {
        Some("GIF"@)
    } else if d[0] == 0x42 && d[1] == 0x4D {
        Some("BMP"@)
    } else if d[0] == 0x00 && d[1] == 0x00 && d[2] == 0x01 && d[3] == 0x00 {
        Some("ICO"@)
    } else if d.len() > 12 && d[0] == 0x52 && d[1] == 0x49 && d[2] == 0x46 && d[3] == 0x46 && d[8]
        == 0x57 && d[9] == 0x45 && d[10] == 0x42 && d[11] == 0x50 {
        Some("WebP"@)
    } else {
        None
    }
}

/// The image formats and the signatures that select them: data of at least
/// four bytes that begins with `89 'P' 'N' 'G'` is PNG, with `FF D8 FF` JPEG,
/// with `"GIF8"` GIF, with `"BM"` BMP, with `00 00 01 00` ICO, and a RIFF
/// container (`"RIFF"`, then `"WEBP"` at offset 8) of more than twelve bytes
/// is WebP. Data shorter than four bytes has no format, and a format is
/// reported only for its signature.
pub proof fn lemma_image_signatures(d: Seq<u8>)
    ensures
        d.len() < 4 ==> image_format(d) is None,
        d.len() >= 4 && d[0] == 0x89 && d[1] == 0x50 && d[2] == 0x4E && d[3] == 0x47 ==> image_format(d) == Some("PNG"@),
        d.len() >= 4 && d[0] == 0xFF && d[1] == 0xD8 && d[2] == 0xFF ==> image_format(d) == Some("JPEG"@),
        d.len() >= 4 && d[0] == 0x47 && d[1] == 0x49 && d[2] == 0x46 && d[3] == 0x38 ==> image_format(d) == Some("GIF"@),
        d.len() >= 4 && d[0] == 0x42 && d[1] == 0x4D ==> image_format(d) == Some("BMP"@),
        d.len() >= 4 && d[0] == 0x00 && d[1] == 0x00 && d[2] == 0x01 && d[3] == 0x00 ==> image_format(d) == Some("ICO"@),
        d.len() > 12 && d[0] == 0x52 && d[1] == 0x49 && d[2] == 0x46 && d[3] == 0x46 && d[8] == 0x57 && d[9] == 0x45
            && d[10] == 0x42 && d[11] == 0x50 ==> image_format(d) == Some("WebP"@),
        image_format(d) == Some("GIF"@) ==> d.len() >= 4 && d[0] == 0x47 && d[1] == 0x49 && d[2] == 0x46 && d[3] == 0x38,
        image_format(d) == Some("PNG"@) ==> d.len() >= 4 && d[0] == 0x89 && d[1] == 0x50 && d[2] == 0x4E && d[3] == 0x47,
        image_format(d) == Some("JPEG"@) ==> d.len() >= 4 && d[0] == 0xFF && d[1] == 0xD8 && d[2] == 0xFF,
        image_format(d) == Some("BMP"@) ==> d.len() >= 4 && d[0] == 0x42 && d[1] == 0x4D,
{
    reveal_strlit("PNG");
    reveal_strlit("JPEG");
    reveal_strlit("GIF");
    reveal_strlit("BMP");
    reveal_strlit("ICO");
    reveal_strlit("WebP");
    assert("PNG"@ =~= seq!['P', 'N', 'G']);
    assert("JPEG"@ =~= seq!['J', 'P', 'E', 'G']);
    assert("GIF"@ =~= seq!['G', 'I', 'F']);
    assert("BMP"@ =~= seq!['B', 'M', 'P']);
    assert("ICO"@ =~= seq!['I', 'C', 'O']);
    assert("WebP"@ =~= seq!['W', 'e', 'b', 'P']);
}

/// The first JPEG start-of-frame marker at or after `i`: (width, height).
pub open spec fn jpeg_dims_from(d: Seq<u8>, i: int) -> Option<(int, int)>
    decreases d.len() - i,
{
    if i < 0 || i + 8 >= d.len() {
        None
    } else if d[i] == 0xFF && (d[i + 1] == 0xC0 || d[i + 1] == 0xC2) {
        Some((be16(d[i + 7], d[i + 8]), be16(d[i + 5], d[i + 6])))
    } else {
        jpeg_dims_from(d, i + 1)
    }
}

/// Image dimensions read from PNG, JPEG and GIF headers.
pub open spec fn image_dims(d: Seq<u8>) -> Option<(int, int)> {
    if d.len() < 16 {
        None
    } else if d[0] == 0x89 && d[1] == 0x50 && d[2] == 0x4E && d[3] == 0x47 {
        if d.len() < 24 {
            None
        } else {
            Some((be32(d[16], d[17], d[18], d[19]), be32(d[20], d[21], d[22], d[23])))
        }
    } else if d[0] == 0xFF && d[1] == 0xD8 && d[2] == 0xFF {
        jpeg_dims_from(d, 2)
    } else if d[0] == 0x47 && d[1] == 0x49 && d[2] == 0x46 && d[3] == 0x38 {
        if d.len() < 10 {
            None
        } else {
            Some((le16(d[6], d[7]), le16(d[8], d[9])))
        }
    } else {
        None
    }
}

/// The observations the image processor derives from `d`.
pub open spec fn image_observations(id: Seq<char>, d: Seq<u8>) -> Seq<ObsModel> {
    let fmt = match image_format(d) {
        Some(f) => f,
        None => "unknown"@,
    };
    let a = seq![with_meta(
        with_meta(obs(id + "_format"@, "image.metadata"@, utf8(fmt), "text/plain"@), "metric"@, "format"@),
        "source_observation"@,
        id,
    )];
    let b: Seq<ObsModel> = match image_dims(d) {
        Some((w, h)) => seq![with_meta(
            with_meta(
                with_meta(
                    obs(id + "_dimensions"@, "image.dimensions"@, utf8(decimal(w as nat) + "x"@ + decimal(h as nat)), "text/plain"@),
                    "width"@,
                    decimal(w as nat),
                ),
                "height"@,
                decimal(h as nat),
            ),
            "source_observation"@,
            id,
        )],
        None => seq![],
    };
    a + b + seq![size_obs(id, "image.metadata"@, d.len())]
}

/// Detect image format from magic bytes.
pub fn detect_image_format(data: &[u8]) -> (r: Option<&'static str>)
    ensures
        match r {
            Some(s) => image_format(data@) == Some(s@),
            None => image_format(data@) is None,
        },
{
    if data.len() < 4 {
        return None;
    }
    let (a, b, c, d) = (data[0], data[1], data[2], data[3]);
    if a == 0x89 && b == 0x50 && c == 0x4E && d == 0x47 {
        Some("PNG")
    } else if a == 0xFF && b == 0xD8 && c == 0xFF {
        Some("JPEG")
    } else if a == 0x47 && b == 0x49 && c == 0x46 && d == 0x38 {
        Some("GIF")
    } else if a == 0x42 && b == 0x4D {
        Some("BMP")
    } else if a == 0x00 && b == 0x00 && c == 0x01 && d == 0x00 {
        Some("ICO")
    } else if data.len() > 12 && a == 0x52 && b == 0x49 && c == 0x46 && d == 0x46 && data[8] == 0x57
        && data[9] == 0x45 && data[10] == 0x42 && data[11] == 0x50 {
        Some("WebP")
    } else {
        None
    }
}

/// Parse image dimensions from common format headers (without full decode).
pub fn parse_image_dimensions(data: &[u8]) -> (r: Option<(u32, u32)>)
    ensures
        match image_dims(data@) {
            Some((w, h)) => r matches Some((a, b)) && a == w && b == h,
            None => r is None,
        },
{
    let n = data.len();
    if n < 16 {
        return None;
    }
    if data[0] == 0x89 && data[1] == 0x50 && data[2] == 0x4E && data[3] == 0x47 {
        if n < 24 {
            return None;
        }
        let w = be32_at(data, 16);
        let h = be32_at(data, 20);
        Some((w, h))
    } else if data[0] == 0xFF && data[1] == 0xD8 && data[2] == 0xFF {
        let mut i: usize = 2;
        while i + 8 < n
            invariant
                n == data@.len(),
                n >= 16,
                data@[0] == 0xFF && data@[1] == 0xD8 && data@[2] == 0xFF,
                2 <= i,
                i + 8 <= n,
                jpeg_dims_from(data@, 2) == jpeg_dims_from(data@, i as int),
            decreases n - i,
        {
            if data[i] == 0xFF && (data[i + 1] == 0xC0 || data[i + 1] == 0xC2) {
                let h = be16_at(data, i + 5);
                let w = be16_at(data, i + 7);
                return Some((w as u32, h as u32));
            }
            i += 1;
        }
        None
    } else if data[0] == 0x47 && data[1] == 0x49 && data[2] == 0x46 && data[3] == 0x38 {
        if n < 10 {
            return None;
        }
        let w = le16_at(data, 6);
        let h = le16_at(data, 8);
        Some((w as u32, h as u32))
    } else {
        None
    }
}

impl ImageProcessor {
    pub fn new() -> (r: Self) {
        ImageProcessor
    }

    /// Processor name.
    pub fn name(&self) -> (r: &'static str)
        ensures
            r@ == "images"@,
    {
        "images"
    }

    /// Processor description.
    pub fn description(&self) -> (r: &'static str)
        ensures
            r@ == "Extracts metadata, EXIF, dimensions, and color information from images"@,
    {
        "Extracts metadata, EXIF, dimensions, and color information from images"
    }

    /// Content types this processor accepts.
    pub fn content_types(&self) -> (r: Vec<&'static str>)
        ensures
            r@.map_values(|s: &'static str| s@) == seq!["image/"@],
    {
        let r = vec!["image/"];
        assert(r@.map_values(|s: &'static str| s@) =~= seq!["image/"@]);
        r
    }

    /// Format, header dimensions and size of an image.
    pub fn process(
        &self,
        id: &str,
        data: &[u8],
        _content_type: Option<&str>,
        _metadata: HashMap<String, String>,
    ) -> (r: Result<Vec<ProcessedObservation>, ProcessorError>)
        ensures
            r matches Ok(v) && obs_models(v@) == image_observations(id@, data@),
    {
        Ok(self.extract_basic(data, id))
    }

    fn extract_basic(&self, data: &[u8], id: &str) -> (r: Vec<ProcessedObservation>)
        ensures
            obs_models(r@) == image_observations(id@, data@),
    {
        let mut results: Vec<ProcessedObservation> = Vec::new();
        let fmt = match detect_image_format(data) {
            Some(f) => f,
            None => "unknown",
        };
        push_obs(
            &mut results,
            ProcessedObservation::new(suffixed(id, "_format"), "image.metadata", text_bytes(fmt), "text/plain")
                .with_metadata("metric", "format")
                .with_metadata("source_observation", id),
        );
        let ghost a = obs_models(results@);
        if let Some((w, h)) = parse_image_dimensions(data) {
            let ws = decimal_text(w as usize);
            let hs = decimal_text(h as usize);
            let mut dims = decimal_text(w as usize);
            append_chars(&mut dims, chars_of("x").as_slice());
            append_chars(&mut dims, chars_of(hs.as_str()).as_slice());
            push_obs(
                &mut results,
                ProcessedObservation::new(suffixed(id, "_dimensions"), "image.dimensions", text_bytes(dims.as_str()), "text/plain")
                    .with_metadata("width", ws.as_str())
                    .with_metadata("height", hs.as_str())
                    .with_metadata("source_observation", id),
            );
        }
        let ghost ab = obs_models(results@);
        push_obs(&mut results, size_observation(id, "image.metadata", data.len()));
        proof {
            if image_dims(data@) is None {
                assert(ab =~= a + Seq::<ObsModel>::empty());
            }
        }
        results
    }
}

} // verus!
