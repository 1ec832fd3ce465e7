//! Binary processor — extracts strings, detects architecture, and identifies
//! embedded metadata from binary files.
use std::collections::HashMap;
use vstd::prelude::*;
use crate::json::{json_string_list, to_json_string_list};
use crate::observation::{
    ObsModel, ProcessedObservation, ProcessorError, obs, obs_models, push_obs, size_obs,
    size_observation, suffixed, text_bytes, text_obs, text_observation, utf8, with_meta,
    decimal_text,
};
use crate::text::{decimal, texts};

verus! {

/// Minimum length of a reported printable string.
pub const MIN_STRING_LENGTH: usize = 4;

/// Processor for executables and other binary files.
pub struct BinaryProcessor;

/// The file type named by the first four bytes.
pub open spec fn magic_type(d: Seq<u8>) -> Option<Seq<char>> {
    if d.len() < 4 {
        None
    } else if d[0] == 0x7F && d[1] == 0x45 && d[2] == 0x4C && d[3] == 0x46 {
        Some("ELF"@)
    } else if d[0] == 0x4D && d[1] == 0x5A {
        Some("PE"@)
    } else if d[0] == 0xCF && d[1] == 0xFA && d[2] == 0xED && d[3] == 0xFE {
        Some("Mach-O (32-bit)"@)
    } else if d[0] == 0xCE && d[1] == 0xFA && d[2] == 0xED && d[3] == 0xFE {
        Some("Mach-O (64-bit)"@)
    } else if d[0] == 0xCA && d[1] == 0xFE && d[2] == 0xBA && d[3] == 0xBE {
        Some("Mach-O universal"@)
    } else if d[0] == 0x89 && d[1] == 0x50 && d[2] == 0x4E && d[3] == 0x47 {
        Some("PNG image"@)
    } else if d[0] == 0xFF && d[1] == 0xD8 && d[2] == 0xFF {
        Some("JPEG image"@)
    } else if d[0] == 0x47 && d[1] == 0x49 && d[2] == 0x46 && d[3] == 0x38 {
        Some("GIF image"@)
    } else if d[0] == 0x25 && d[1] == 0x50 && d[2] == 0x44 && d[3] == 0x46 {
        Some("PDF"@)
    } else if d[0] == 0x50 && d[1] == 0x4B && d[2] == 0x03 && d[3] == 0x04 {
        Some("ZIP archive"@)
    } else if d[0] == 0x1F && d[1] == 0x8B && d[2] == 0x08 {
        Some("GZIP archive"@)
    } else if d[0] == 0x42 && d[1] == 0x5A && d[2] == 0x68 {
        Some("BZIP2 archive"@)
    } else if d[0] == 0xFD && d[1] == 0x37 && d[2] == 0x7A && d[3] == 0x58 {
        Some("XZ archive"@)
    } else if d[0] == 0x72 && d[1] == 0x61 && d[2] == 0x72 && d[3] == 0x21 {
        Some("RAR archive"@)
    } else if d[0] == 0x00 && d[1] == 0x00 && d[2] == 0x00 && d[3] == 0x18 {
        Some("MP4 video"@)
    } else if d[0] == 0x52 && d[1] == 0x49 && d[2] == 0x46 && d[3] == 0x46 {
        Some("AVI/WAV container"@)
    } else {
        None
    }
}

/// A byte that belongs to a printable string: ASCII graphic, space or tab.
pub open spec fn printable(b: u8) -> bool {
    (0x21 <= b && b <= 0x7E) || b == 0x20 || b == 0x09
}

/// Adds the current run to the output when it is long enough.
pub open spec fn flush_run(cur: Seq<u8>, out: Seq<Seq<u8>>) -> Seq<Seq<u8>> {
    if cur.len() >= MIN_STRING_LENGTH {
        out.push(cur)
    } else {
        out
    }
}

/// Runs of printable bytes in `d`, continuing a current run `cur` after the
/// runs `out` already found.
pub open spec fn runs_fold(d: Seq<u8>, cur: Seq<u8>, out: Seq<Seq<u8>>) -> Seq<Seq<u8>>
    decreases d.len(),
{
    if d.len() == 0 {
        flush_run(cur, out)
    } else if printable(d[0]) {
        runs_fold(d.drop_first(), cur.push(d[0]), out)
    } else {
        runs_fold(d.drop_first(), seq![], flush_run(cur, out))
    }
}

/// The maximal runs of at least four printable bytes, in order.
pub open spec fn printable_runs(d: Seq<u8>) -> Seq<Seq<u8>> {
    runs_fold(d, seq![], seq![])
}

/// ASCII bytes read as characters.
pub open spec fn ascii(b: Seq<u8>) -> Seq<char> {
    b.map_values(|x: u8| x as char)
}

/// The printable strings of `d` as texts.
pub open spec fn printable_strings(d: Seq<u8>) -> Seq<Seq<char>> {
    printable_runs(d).map_values(|r: Seq<u8>| ascii(r))
}

/// Word size named by the ELF class byte.
pub open spec fn elf_class(b: u8) -> Seq<char> {
    if b == 1 {
        "32-bit"@
    } else if b == 2 {
        "64-bit"@
    } else {
        "unknown"@
    }
}

/// Byte order named by the ELF data byte.
pub open spec fn elf_endian(b: u8) -> Seq<char> {
    if b == 1 {
        "Little Endian"@
    } else if b == 2 {
        "Big Endian"@
    } else {
        "unknown"@
    }
}

/// Whether the data starts with the ELF magic.
pub open spec fn is_elf(d: Seq<u8>) -> bool {
    d.len() >= 4 && d[0] == 0x7F && d[1] == 0x45 && d[2] == 0x4C && d[3] == 0x46
}

/// The ELF architecture description of a header of at least 20 bytes.
pub open spec fn elf_arch(d: Seq<u8>) -> Option<Seq<char>> {
    if d.len() < 20 || !is_elf(d) {
        None
    } else {
        Some("ELF "@ + elf_class(d[4]) + " "@ + elf_endian(d[5]))
    }
}

/// The observations the binary processor derives from `d`.
pub open spec fn binary_observations(id: Seq<char>, d: Seq<u8>) -> Seq<ObsModel> {
    let a: Seq<ObsModel> = match magic_type(d) {
        Some(t) => {
            let m = seq![text_obs(id, "_magic"@, "binary.file_type"@, t)];
            match elf_arch(d) {
                Some(arch) => m.push(text_obs(id, "_arch"@, "binary.architecture"@, arch)),
                None => m,
            }
        },
        None => seq![],
    };
    let strs = printable_strings(d);
    let b: Seq<ObsModel> = if strs.len() > 0 {
        seq![with_meta(
            with_meta(
                obs(id + "_strings"@, "binary.strings"@, utf8(json_string_list(strs)), "application/json"@),
                "string_count"@,
                decimal(strs.len()),
            ),
            "source_observation"@,
            id,
        )]
    } else {
        seq![]
    };
    a + b + seq![size_obs(id, "binary.metadata"@, d.len())]
}

/// Common magic bytes for file type detection.
pub fn detect_magic(data: &[u8]) -> (r: Option<&'static str>)
    ensures
        match r {
            Some(s) => magic_type(data@) == Some(s@),
            None => magic_type(data@) is None,
        },
{
    if data.len() < 4 {
        return None;
    }
    let (a, b, c, d) = (data[0], data[1], data[2], data[3]);
    if a == 0x7F && b == 0x45 && c == 0x4C && d == 0x46 {
        Some("ELF")
    } else if a == 0x4D && b == 0x5A {
        Some("PE")
    } else if a == 0xCF && b == 0xFA && c == 0xED && d == 0xFE {
        Some("Mach-O (32-bit)")
    } else if a == 0xCE && b == 0xFA && c == 0xED && d == 0xFE {
        Some("Mach-O (64-bit)")
    } else if a == 0xCA && b == 0xFE && c == 0xBA && d == 0xBE {
        Some("Mach-O universal")
    } else if a == 0x89 && b == 0x50 && c == 0x4E && d == 0x47 {
        Some("PNG image")
    } else if a == 0xFF && b == 0xD8 && c == 0xFF {
        Some("JPEG image")
    } else if a == 0x47 && b == 0x49 && c == 0x46 && d == 0x38 {
        Some("GIF image")
    } else if a == 0x25 && b == 0x50 && c == 0x44 && d == 0x46 {
        Some("PDF")
    } else if a == 0x50 && b == 0x4B && c == 0x03 && d == 0x04 {
        Some("ZIP archive")
    } else if a == 0x1F && b == 0x8B && c == 0x08 {
        Some("GZIP archive")
    } else if a == 0x42 && b == 0x5A && c == 0x68 {
        Some("BZIP2 archive")
    } else if a == 0xFD && b == 0x37 && c == 0x7A && d == 0x58 {
        Some("XZ archive")
    } else if a == 0x72 && b == 0x61 && c == 0x72 && d == 0x21 {
        Some("RAR archive")
    } else if a == 0x00 && b == 0x00 && c == 0x00 && d == 0x18 {
        Some("MP4 video")
    } else if a == 0x52 && b == 0x49 && c == 0x46 && d == 0x46 {
        Some("AVI/WAV container")
    } else {
        None
    }
}

/// Characters of ASCII bytes.
fn ascii_string(run: &[u8]) -> (r: String)
    ensures
        r@ == ascii(run@),
{
    let mut chars: Vec<char> = Vec::new();
    let mut i: usize = 0;
    while i < run.len()
        invariant
            i <= run@.len(),
            chars@ == ascii(run@.subrange(0, i as int)),
        decreases run@.len() - i,
    {
        chars.push(run[i] as char);
        i += 1;
        assert(chars@ =~= ascii(run@.subrange(0, i as int)));
    }
    assert(run@.subrange(0, run@.len() as int) == run@);
    crate::text::string_of(chars.as_slice())
}

impl BinaryProcessor {
    pub fn new() -> (r: Self) {
        BinaryProcessor
    }

    /// Processor name.
    pub fn name(&self) -> (r: &'static str)
        ensures
            r@ == "binary"@,
    {
        "binary"
    }

    /// Processor description.
    pub fn description(&self) -> (r: &'static str)
        ensures
            r@ == "Extracts strings, identifies file types, and detects binary metadata"@,
    {
        "Extracts strings, identifies file types, and detects binary metadata"
    }

    /// Content types this processor accepts.
    pub fn content_types(&self) -> (r: Vec<&'static str>)
        ensures
            r@.map_values(|s: &'static str| s@) == seq![
                "application/octet-stream"@,
                "application/x-executable"@,
                "application/x-elf"@,
                "application/x-sharedlib"@,
                "application/x-object"@,
            ],
    {
        let r = vec![
            "application/octet-stream",
            "application/x-executable",
            "application/x-elf",
            "application/x-sharedlib",
            "application/x-object",
        ];
        assert(r@.map_values(|s: &'static str| s@) =~= seq![
            "application/octet-stream"@,
            "application/x-executable"@,
            "application/x-elf"@,
            "application/x-sharedlib"@,
            "application/x-object"@,
        ]);
        r
    }

    /// Runs of at least four printable bytes, as strings.
    pub fn extract_printable_strings(&self, data: &[u8]) -> (r: Vec<String>)
        ensures
            texts(r@) == printable_strings(data@),
    {
        let mut strings: Vec<String> = Vec::new();
        let mut current: Vec<u8> = Vec::new();
        let ghost mut runs: Seq<Seq<u8>> = seq![];
        let mut i: usize = 0;
        assert(data@.subrange(0, data@.len() as int) == data@);
        while i < data.len()
            invariant
                i <= data@.len(),
                runs_fold(data@.subrange(i as int, data@.len() as int), current@, runs) == printable_runs(data@),
                texts(strings@) == runs.map_values(|r: Seq<u8>| ascii(r)),
            decreases data@.len() - i,
        {
            let byte = data[i];
            assert(data@.subrange(i as int, data@.len() as int).drop_first() == data@.subrange(i + 1, data@.len() as int));
            if (0x21 <= byte && byte <= 0x7E) || byte == 0x20 || byte == 0x09 {
                current.push(byte);
            } else {
                if current.len() >= MIN_STRING_LENGTH {
                    let s = ascii_string(current.as_slice());
                    let ghost old_strs = strings@;
                    strings.push(s);
                    proof {
                        assert(texts(strings@) =~= texts(old_strs).push(s@));
                        assert(runs.push(current@).map_values(|r: Seq<u8>| ascii(r)) =~= runs.map_values(|r: Seq<u8>| ascii(r)).push(ascii(current@)));
                        runs = runs.push(current@);
                    }
                }
                current = Vec::new();
            }
            i += 1;
        }
        assert(data@.subrange(i as int, data@.len() as int).len() == 0);
        if current.len() >= MIN_STRING_LENGTH {
            let s = ascii_string(current.as_slice());
            let ghost old_strs = strings@;
            strings.push(s);
            proof {
                assert(texts(strings@) =~= texts(old_strs).push(s@));
                assert(runs.push(current@).map_values(|r: Seq<u8>| ascii(r)) =~= runs.map_values(|r: Seq<u8>| ascii(r)).push(ascii(current@)));
                runs = runs.push(current@);
            }
        }
        strings
    }

    /// The ELF word size and byte order, for an ELF header of at least 20 bytes.
    pub fn extract_elf_arch(data: &[u8]) -> (r: Option<String>)
        ensures
            match elf_arch(data@) {
                Some(a) => r matches Some(s) && s@ == a,
                None => r is None,
            },
    {
        if data.len() < 20 || !(data[0] == 0x7F && data[1] == 0x45 && data[2] == 0x4C && data[3] == 0x46) {
            return None;
        }
        let arch = match data[4] {
            1 => "32-bit",
            2 => "64-bit",
            _ => "unknown",
        };
        let endian = match data[5] {
            1 => "Little Endian",
            2 => "Big Endian",
            _ => "unknown",
        };
        let mut s = suffixed("ELF ", arch);
        crate::text::append_chars(&mut s, crate::text::chars_of(" ").as_slice());
        crate::text::append_chars(&mut s, crate::text::chars_of(endian).as_slice());
        proof {
            assert(s@ == "ELF "@ + elf_class(data@[4]) + " "@ + elf_endian(data@[5]));
        }
        Some(s)
    }

    /// Detects the file type, the ELF architecture, printable strings and size.
    pub fn process(
        &self,
        id: &str,
        data: &[u8],
        _content_type: Option<&str>,
        _metadata: HashMap<String, String>,
    ) -> (r: Result<Vec<ProcessedObservation>, ProcessorError>)
        ensures
            r matches Ok(v) && obs_models(v@) == binary_observations(id@, data@),
    {
        let mut results: Vec<ProcessedObservation> = Vec::new();
        if let Some(ftype) = detect_magic(data) {
            push_obs(&mut results, text_observation(id, "_magic", "binary.file_type", ftype));
            if let Some(arch) = Self::extract_elf_arch(data) {
                push_obs(&mut results, text_observation(id, "_arch", "binary.architecture", arch.as_str()));
            }
        }
        let ghost a = obs_models(results@);
        let strings = self.extract_printable_strings(data);
        if strings.len() > 0 {
            let json = to_json_string_list(&strings);
            let o = ProcessedObservation::new(suffixed(id, "_strings"), "binary.strings", text_bytes(json.as_str()), "application/json")
                .with_metadata("string_count", decimal_text(strings.len()).as_str())
                .with_metadata("source_observation", id);
            push_obs(&mut results, o);
        }
        let ghost ab = obs_models(results@);
        push_obs(&mut results, size_observation(id, "binary.metadata", data.len()));
        proof {
            let strs = printable_strings(data@);
            assert(strings@.len() == strs.len()) by {
                assert(texts(strings@).len() == strings@.len());
            }
            if strs.len() > 0 {
                assert(ab =~= a + seq![with_meta(
                    with_meta(
                        obs(id@ + "_strings"@, "binary.strings"@, utf8(json_string_list(strs)), "application/json"@),
                        "string_count"@,
                        decimal(strs.len()),
                    ),
                    "source_observation"@,
                    id@,
                )]);
            } else {
                assert(ab =~= a + Seq::<ObsModel>::empty());
            }
        }
        Ok(results)
    }
}

/// The file types that signatures select: data of at least four bytes that
/// begins with `7F "ELF"` is ELF, with `"MZ"` PE, with `89 "PNG"` a PNG
/// image, with `FF D8 FF` a JPEG image, with `"GIF8"` a GIF image, with
/// `"%PDF"` a PDF, with `"PK" 03 04` a ZIP archive, with `1F 8B 08` a GZIP
/// archive; data shorter than four bytes has no type.
pub proof fn lemma_magic_signatures(d: Seq<u8>)
    ensures
        d.len() < 4 ==> magic_type(d) is None,
        d.len() >= 4 && d[0] == 0x7F && d[1] == 0x45 && d[2] == 0x4C && d[3] == 0x46 ==> magic_type(d) == Some("ELF"@),
        d.len() >= 4 && d[0] == 0x4D && d[1] == 0x5A ==> magic_type(d) == Some("PE"@),
        d.len() >= 4 && d[0] == 0x89 && d[1] == 0x50 && d[2] == 0x4E && d[3] == 0x47 ==> magic_type(d) == Some("PNG image"@),
        d.len() >= 4 && d[0] == 0xFF && d[1] == 0xD8 && d[2] == 0xFF ==> magic_type(d) == Some("JPEG image"@),
        d.len() >= 4 && d[0] == 0x47 && d[1] == 0x49 && d[2] == 0x46 && d[3] == 0x38 ==> magic_type(d) == Some("GIF image"@),
        d.len() >= 4 && d[0] == 0x25 && d[1] == 0x50 && d[2] == 0x44 && d[3] == 0x46 ==> magic_type(d) == Some("PDF"@),
        d.len() >= 4 && d[0] == 0x50 && d[1] == 0x4B && d[2] == 0x03 && d[3] == 0x04 ==> magic_type(d) == Some("ZIP archive"@),
        d.len() >= 4 && d[0] == 0x1F && d[1] == 0x8B && d[2] == 0x08 ==> magic_type(d) == Some("GZIP archive"@),
{
}

} // verus!
