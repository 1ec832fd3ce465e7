//! Decompiler processor — detects executable formats and ELF entry points.
use std::collections::HashMap;
use vstd::prelude::*;
use crate::bytes::{le32, le32_at, le64, le64_at};
use crate::observation::{
    ObsModel, ProcessedObservation, ProcessorError, obs, obs_models, push_obs, size_obs,
    size_observation, suffixed, text_bytes, text_obs, text_observation, utf8, with_meta,
};
use crate::processors::binary::is_elf;
use crate::text::{hex_digits, hex_string, starts_with, same_text};

verus! {

/// Processor that prepares executables for decompilation.
pub struct DecompilerProcessor;

/// The executable format named by the header.
pub open spec fn binary_format(d: Seq<u8>) -> Option<Seq<char>> {
    if d.len() < 4 {
        None
    } else if is_elf(d) {
        if d.len() > 4 && d[4] == 1 {
            Some("ELF32"@)
        } else if d.len() > 4 && d[4] == 2 {
            Some("ELF64"@)
        } else {
            Some("ELF"@)
        }
    } else if d[0] == 0x4D && d[1] == 0x5A {
        Some("PE"@)
    } else if d[0] == 0xCF && d[1] == 0xFA && d[2] == 0xED && d[3] == 0xFE {
        Some("Mach-O (32-bit)"@)
    } else if d[0] == 0xCE && d[1] == 0xFA && d[2] == 0xED && d[3] == 0xFE {
        Some("Mach-O (64-bit)"@)
    } else if d[0] == 0xCA && d[1] == 0xFE && d[2] == 0xBA && d[3] == 0xBE {
        Some("Mach-O Universal"@)
    } else {
        None
    }
}

/// The ELF entry point field (64-bit for ELF64, else 32-bit).
pub open spec fn elf_entry(d: Seq<u8>) -> int {
    if d[4] == 2 {
        le64(d, 24)
    } else {
        le32(d[24], d[25], d[26], d[27])
    }
}

/// Inputs whose entry-point field runs past the end of the data.
pub open spec fn entry_truncated(d: Seq<u8>) -> bool {
    is_elf(d) && 24 < d.len() && d.len() < (if d[4] == 2 { 32int } else { 28int })
}

/// The observations the decompiler processor derives from `d`.
pub open spec fn decompiler_observations(id: Seq<char>, d: Seq<u8>) -> Seq<ObsModel> {
    let a: Seq<ObsModel> = match binary_format(d) {
        Some(f) => {
            let first = seq![text_obs(id, "_format"@, "decompiler.format"@, f)];
            if is_elf(d) && d.len() > 24 && elf_entry(d) > 0 {
                let hx = "0x"@ + hex_digits(elf_entry(d) as nat);
                first.push(with_meta(
                    with_meta(
                        with_meta(obs(id + "_entry"@, "decompiler.metadata"@, utf8(hx), "text/plain"@), "metric"@, "entry_point"@),
                        "value"@,
                        hx,
                    ),
                    "source_observation"@,
                    id,
                ))
            } else {
                first
            }
        },
        None => seq![],
    };
    a + seq![
        text_obs(id, "_status"@, "decompiler.status"@, "Binary format detected - full decompilation requires Ghidra/radare2 bridge"@),
        size_obs(id, "decompiler.metadata"@, d.len()),
    ]
}

proof fn lemma_elf_names(d: Seq<u8>)
    ensures
        binary_format(d) matches Some(f) ==> (starts_with(f, "ELF"@) == is_elf(d)),
        binary_format(d) matches Some(f) ==> (f == "ELF64"@ <==> (is_elf(d) && d.len() > 4 && d[4] == 2)),
{
    reveal_strlit("ELF");
    reveal_strlit("ELF32");
    reveal_strlit("ELF64");
    reveal_strlit("PE");
    reveal_strlit("Mach-O (32-bit)");
    reveal_strlit("Mach-O (64-bit)");
    reveal_strlit("Mach-O Universal");
    if let Some(f) = binary_format(d) {
        if is_elf(d) {
            assert(f.subrange(0, 3) =~= "ELF"@);
            if d.len() > 4 && d[4] == 2 {
            } else if d.len() > 4 && d[4] == 1 {
                assert(f[3] != "ELF64"@[3]);
            } else {
                assert(f.len() != "ELF64"@.len());
            }
        } else {
            if f.len() >= 3 {
                assert(f.subrange(0, 3)[0] != "ELF"@[0]);
            }
            assert(f.len() != "ELF64"@.len() || f[0] != "ELF64"@[0]);
        }
    }
}

impl DecompilerProcessor {
    pub fn new() -> (r: Self) {
        DecompilerProcessor
    }

    /// Processor name.
    pub fn name(&self) -> (r: &'static str)
        ensures
            r@ == "decompiler"@,
    {
        "decompiler"
    }

    /// Processor description.
    pub fn description(&self) -> (r: &'static str)
        ensures
            r@ == "Detects binary format for decompilation — full decompilation requires Ghidra/radare2 at runtime"@,
    {
        "Detects binary format for decompilation — full decompilation requires Ghidra/radare2 at runtime"
    }

    /// Content types this processor accepts.
    pub fn content_types(&self) -> (r: Vec<&'static str>)
        ensures
            r@.map_values(|s: &'static str| s@) == seq![
                "application/x-elf"@,
                "application/x-pe"@,
                "application/x-mach-o"@,
                "application/x-executable"@,
                "application/octet-stream"@,
            ],
    {
        let r = vec![
            "application/x-elf",
            "application/x-pe",
            "application/x-mach-o",
            "application/x-executable",
            "application/octet-stream",
        ];
        assert(r@.map_values(|s: &'static str| s@) =~= seq![
            "application/x-elf"@,
            "application/x-pe"@,
            "application/x-mach-o"@,
            "application/x-executable"@,
            "application/octet-stream"@,
        ]);
        r
    }

    /// The executable format named by the header.
    pub fn detect_binary_format(&self, data: &[u8]) -> (r: Option<&'static str>)
        ensures
            match r {
                Some(s) => binary_format(data@) == Some(s@),
                None => binary_format(data@) is None,
            },
    {
        if data.len() < 4 {
            return None;
        }
        let (a, b, c, d) = (data[0], data[1], data[2], data[3]);
        if a == 0x7F && b == 0x45 && c == 0x4C && d == 0x46 {
            if data.len() > 4 && data[4] == 1 {
                Some("ELF32")
            } else if data.len() > 4 && data[4] == 2 {
                Some("ELF64")
            } else {
                Some("ELF")
            }
        } else if a == 0x4D && b == 0x5A {
            Some("PE")
        } else if a == 0xCF && b == 0xFA && c == 0xED && d == 0xFE {
            Some("Mach-O (32-bit)")
        } else if a == 0xCE && b == 0xFA && c == 0xED && d == 0xFE {
            Some("Mach-O (64-bit)")
        } else if a == 0xCA && b == 0xFE && c == 0xBA && d == 0xBE {
            Some("Mach-O Universal")
        } else {
            None
        }
    }

    /// The format, the ELF entry point, a status note and the size.
    pub fn process(
        &self,
        id: &str,
        data: &[u8],
        _content_type: Option<&str>,
        _metadata: HashMap<String, String>,
    ) -> (r: Result<Vec<ProcessedObservation>, ProcessorError>)
        requires
            !entry_truncated(data@),
        ensures
            r matches Ok(v) && obs_models(v@) == decompiler_observations(id@, data@),
    {
        let mut results: Vec<ProcessedObservation> = Vec::new();
        if let Some(fmt) = self.detect_binary_format(data) {
            push_obs(&mut results, text_observation(id, "_format", "decompiler.format", fmt));
            let fc = crate::text::chars_of(fmt);
            if crate::text::starts_with_str(fc.as_slice(), "ELF") && data.len() > 24 {
                proof {
                    lemma_elf_names(data@);
                }
                let e_entry = if same_text(fmt, "ELF64") {
                    le64_at(data, 24)
                } else {
                    le32_at(data, 24) as u64
                };
                if e_entry > 0 {
                    let hx = hex_string(e_entry);
                    push_obs(
                        &mut results,
                        ProcessedObservation::new(suffixed(id, "_entry"), "decompiler.metadata", text_bytes(hx.as_str()), "text/plain")
                            .with_metadata("metric", "entry_point")
                            .with_metadata("value", hx.as_str())
                            .with_metadata("source_observation", id),
                    );
                }
            } else {
                proof {
                    lemma_elf_names(data@);
                }
            }
        }
        let ghost a = obs_models(results@);
        push_obs(
            &mut results,
            text_observation(id, "_status", "decompiler.status", "Binary format detected - full decompilation requires Ghidra/radare2 bridge"),
        );
        push_obs(&mut results, size_observation(id, "decompiler.metadata", data.len()));
        proof {
            if binary_format(data@) is None {
                assert(a =~= Seq::<ObsModel>::empty());
            }
            assert(obs_models(results@) =~= a + seq![
                text_obs(id@, "_status"@, "decompiler.status"@, "Binary format detected - full decompilation requires Ghidra/radare2 bridge"@),
                size_obs(id@, "decompiler.metadata"@, data@.len()),
            ]);
        }
        Ok(results)
    }
}

/// The executable formats that headers select: an ELF header with class
/// byte 1 is ELF32, with class byte 2 ELF64; `"MZ"` is PE; `CF FA ED FE`
/// 32-bit Mach-O, `CE FA ED FE` 64-bit Mach-O, `CA FE BA BE` a universal
/// Mach-O; data shorter than four bytes has no format.
pub proof fn lemma_binary_signatures(d: Seq<u8>)
    ensures
        d.len() < 4 ==> binary_format(d) is None,
        d.len() > 4 && is_elf(d) && d[4] == 1 ==> binary_format(d) == Some("ELF32"@),
        d.len() > 4 && is_elf(d) && d[4] == 2 ==> binary_format(d) == Some("ELF64"@),
        d.len() >= 4 && !is_elf(d) && d[0] == 0x4D && d[1] == 0x5A ==> binary_format(d) == Some("PE"@),
        d.len() >= 4 && d[0] == 0xCF && d[1] == 0xFA && d[2] == 0xED && d[3] == 0xFE ==> binary_format(d) == Some(
            "Mach-O (32-bit)"@,
        ),
        d.len() >= 4 && d[0] == 0xCE && d[1] == 0xFA && d[2] == 0xED && d[3] == 0xFE ==> binary_format(d) == Some(
            "Mach-O (64-bit)"@,
        ),
        d.len() >= 4 && d[0] == 0xCA && d[1] == 0xFE && d[2] == 0xBA && d[3] == 0xBE ==> binary_format(d) == Some(
            "Mach-O Universal"@,
        ),
{
}

} // verus!
