//! Video processor — detects the container format of audio/video files.
use std::collections::HashMap;
use vstd::prelude::*;
use crate::observation::{
    ObsModel, ProcessedObservation, ProcessorError, obs_models, push_obs, size_obs,
    size_observation, text_obs, text_observation,
};

verus! {

/// Processor for audio and video containers.
pub struct VideoProcessor;

/// Whether the four bytes at `i` are `a b c d`.
pub open spec fn bytes4_at(s: Seq<u8>, i: int, a: u8, b: u8, c: u8, d: u8) -> bool {
    0 <= i && i + 4 <= s.len() && s[i] == a && s[i + 1] == b && s[i + 2] == c && s[i + 3] == d
}

/// The `ftyp` box check of MP4 files: some (0, 0) when the brand box is present.
pub open spec fn mp4_ftyp(d: Seq<u8>) -> Option<(u32, u32)> {
    if d.len() < 16 {
        None
    } else if bytes4_at(d, 4, 0x66, 0x74, 0x79, 0x70) {
        Some((0, 0))
    } else {
        None
    }
}

/// The container named by the header, with MP4 frame dimensions when read.
pub open spec fn container_of(d: Seq<u8>) -> Option<(Seq<char>, Option<(u32, u32)>)> {
    if d.len() < 4 {
        None
    } else if bytes4_at(d, 0, 0, 0, 0, 0x18) || bytes4_at(d, 0, 0, 0, 0, 0x1C) {
        Some(("MP4"@, mp4_ftyp(d)))
    } else if bytes4_at(d, 0, 0x1A, 0x45, 0xDF, 0xA3) {
        Some(("WebM/Matroska"@, None))
    } else if bytes4_at(d, 0, 0x52, 0x49, 0x46, 0x46) {
        if d.len() > 12 {
            if bytes4_at(d, 8, 0x41, 0x56, 0x49, 0x20) {
                Some(("AVI"@, None))
            } else if bytes4_at(d, 8, 0x57, 0x41, 0x56, 0x45) {
                Some(("WAV (audio)"@, None))
            } else {
                Some(("RIFF container"@, None))
            }
        } else {
            Some(("RIFF container"@, None))
        }
    } else if bytes4_at(d, 0, 0, 0, 0, 0x14) || bytes4_at(d, 0, 0, 0, 0, 0x20) {
        Some(("MP4 variant"@, mp4_ftyp(d)))
    } else if bytes4_at(d, 0, 0x4F, 0x67, 0x67, 0x53) {
        Some(("Ogg"@, None))
    } else if bytes4_at(d, 0, 0x66, 0x4C, 0x61, 0x43) {
        Some(("FLAC (audio)"@, None))
    } else {
        None
    }
}

/// The observations the video processor derives from `d`.
pub open spec fn video_observations(id: Seq<char>, d: Seq<u8>) -> Seq<ObsModel> {
    let a: Seq<ObsModel> = match container_of(d) {
        Some((c, _)) => seq![text_obs(id, "_container"@, "video.container"@, c)],
        None => seq![],
    };
    a + seq![size_obs(id, "video.metadata"@, d.len())]
}

fn bytes4(s: &[u8], i: usize, a: u8, b: u8, c: u8, d: u8) -> (r: bool)
    requires
        i + 4 <= s@.len(),
    ensures
        r == bytes4_at(s@, i as int, a, b, c, d),
{
    s[i] == a && s[i + 1] == b && s[i + 2] == c && s[i + 3] == d
}

impl VideoProcessor {
    pub fn new() -> (r: Self) {
        VideoProcessor
    }

    /// Processor name.
    pub fn name(&self) -> (r: &'static str)
        ensures
            r@ == "video"@,
    {
        "video"
    }

    /// Processor description.
    pub fn description(&self) -> (r: &'static str)
        ensures
            r@ == "Detects container format, extracts codec info, and basic video metadata"@,
    {
        "Detects container format, extracts codec info, and basic video metadata"
    }

    /// Content types this processor accepts.
    pub fn content_types(&self) -> (r: Vec<&'static str>)
        ensures
            r@.map_values(|s: &'static str| s@) == seq!["video/"@, "audio/"@],
    {
        let r = vec!["video/", "audio/"];
        assert(r@.map_values(|s: &'static str| s@) =~= seq!["video/"@, "audio/"@]);
        r
    }

    /// The container format and, for MP4, the frame dimensions when known.
    pub fn detect_container(&self, data: &[u8]) -> (r: Option<(&'static str, Option<(u32, u32)>)>)
        ensures
            match container_of(data@) {
                Some((c, dims)) => r matches Some((s, e)) && s@ == c && e == dims,
                None => r is None,
            },
    {
        if data.len() < 4 {
            return None;
        }
        if bytes4(data, 0, 0, 0, 0, 0x18) || bytes4(data, 0, 0, 0, 0, 0x1C) {
            Some(("MP4", self.parse_mp4_ftyp(data)))
        } else if bytes4(data, 0, 0x1A, 0x45, 0xDF, 0xA3) {
            Some(("WebM/Matroska", None))
        } else if bytes4(data, 0, 0x52, 0x49, 0x46, 0x46) {
            if data.len() > 12 {
                if bytes4(data, 8, 0x41, 0x56, 0x49, 0x20) {
                    Some(("AVI", None))
                } else if bytes4(data, 8, 0x57, 0x41, 0x56, 0x45) {
                    Some(("WAV (audio)", None))
                } else {
                    Some(("RIFF container", None))
                }
            } else {
                Some(("RIFF container", None))
            }
        } else if bytes4(data, 0, 0, 0, 0, 0x14) || bytes4(data, 0, 0, 0, 0, 0x20) {
            Some(("MP4 variant", self.parse_mp4_ftyp(data)))
        } else if bytes4(data, 0, 0x4F, 0x67, 0x67, 0x53) {
            Some(("Ogg", None))
        } else if bytes4(data, 0, 0x66, 0x4C, 0x61, 0x43) {
            Some(("FLAC (audio)", None))
        } else {
            None
        }
    }

    fn parse_mp4_ftyp(&self, data: &[u8]) -> (r: Option<(u32, u32)>)
        ensures
            r == mp4_ftyp(data@),
    {
        if data.len() < 16 {
            return None;
        }
        if bytes4(data, 4, 0x66, 0x74, 0x79, 0x70) {
            Some((0, 0))
        } else {
            None
        }
    }

    /// The container format and the size of a media file.
    pub fn process(
        &self,
        id: &str,
        data: &[u8],
        _content_type: Option<&str>,
        _metadata: HashMap<String, String>,
    ) -> (r: Result<Vec<ProcessedObservation>, ProcessorError>)
        ensures
            r matches Ok(v) && obs_models(v@) == video_observations(id@, data@),
    {
        let mut results: Vec<ProcessedObservation> = Vec::new();
        if let Some((container, _dims)) = self.detect_container(data) {
            push_obs(&mut results, text_observation(id, "_container", "video.container", container));
        }
        let ghost a = obs_models(results@);
        push_obs(&mut results, size_observation(id, "video.metadata", data.len()));
        proof {
            if container_of(data@) is None {
                assert(a =~= Seq::<ObsModel>::empty());
            }
        }
        Ok(results)
    }
}

/// The containers that headers select: `00 00 00 18` or `00 00 00 1C` is
/// MP4, `1A 45 DF A3` WebM/Matroska, `"RIFF"` with `"AVI "` at offset 8 AVI
/// and with `"WAVE"` WAV, `"OggS"` Ogg, `"fLaC"` FLAC; data shorter than
/// four bytes has no container.
pub proof fn lemma_container_signatures(d: Seq<u8>)
    ensures
        d.len() < 4 ==> container_of(d) is None,
        bytes4_at(d, 0, 0, 0, 0, 0x18) ==> container_of(d) == Some(("MP4"@, mp4_ftyp(d))),
        bytes4_at(d, 0, 0x1A, 0x45, 0xDF, 0xA3) ==> container_of(d) == Some(("WebM/Matroska"@, None::<(u32, u32)>)),
        bytes4_at(d, 0, 0x52, 0x49, 0x46, 0x46) && d.len() > 12 && bytes4_at(d, 8, 0x41, 0x56, 0x49, 0x20)
            ==> container_of(d) == Some(("AVI"@, None::<(u32, u32)>)),
        bytes4_at(d, 0, 0x52, 0x49, 0x46, 0x46) && d.len() > 12 && bytes4_at(d, 8, 0x57, 0x41, 0x56, 0x45)
            ==> container_of(d) == Some(("WAV (audio)"@, None::<(u32, u32)>)),
        bytes4_at(d, 0, 0x4F, 0x67, 0x67, 0x53) ==> container_of(d) == Some(("Ogg"@, None::<(u32, u32)>)),
        bytes4_at(d, 0, 0x66, 0x4C, 0x61, 0x43) ==> container_of(d) == Some(("FLAC (audio)"@, None::<(u32, u32)>)),
{
}

} // verus!
