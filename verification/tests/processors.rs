use std::collections::HashMap;
use tordex::observation::ProcessedObservation;
use tordex::processors::ast::AstProcessor;
use tordex::processors::binary::BinaryProcessor;
use tordex::processors::category_theory::CategoryTheoryProcessor;
use tordex::processors::containers::ContainerProcessor;
use tordex::processors::decompiler::DecompilerProcessor;
use tordex::processors::html::{collapse_whitespace, sanitize_key, HtmlProcessor};
use tordex::processors::images::{parse_image_dimensions, ImageProcessor};
use tordex::processors::markdown::MarkdownProcessor;
use tordex::processors::network::NetworkProcessor;
use tordex::processors::ocr::OcrProcessor;
use tordex::processors::office::OfficeProcessor;
use tordex::processors::pdf::PdfProcessor;
use tordex::processors::repositories::RepositoryProcessor;
use tordex::processors::set_theory::SetTheoryProcessor;
use tordex::processors::video::VideoProcessor;

fn of_kind<'a>(results: &'a [ProcessedObservation], kind: &str) -> Vec<&'a ProcessedObservation> {
    results.iter().filter(|o| o.kind == kind).collect()
}

fn with_metric<'a>(results: &'a [ProcessedObservation], metric: &str) -> Vec<&'a ProcessedObservation> {
    results.iter().filter(|o| o.metadata_value("metric").map(|s| s.as_str()) == Some(metric)).collect()
}

fn text(o: &ProcessedObservation) -> &str {
    std::str::from_utf8(&o.data).unwrap()
}

// ── binary ──────────────────────────────────────────────────────────────

#[test]
fn detect_elf() {
    let proc = BinaryProcessor::new();
    let data = vec![0x7F, b'E', b'L', b'F', 2, 1, 1, 0, 0, 0, 0, 0, 0, 0, 0, 0, 0, 0, 0, 0];
    let results = proc.process("b1", &data, Some("application/octet-stream"), HashMap::new()).unwrap();
    let types = of_kind(&results, "binary.file_type");
    assert!(!types.is_empty());
    assert_eq!(text(types[0]), "ELF");
    let archs = of_kind(&results, "binary.architecture");
    assert!(!archs.is_empty());
    assert!(text(archs[0]).contains("64-bit"));
}

#[test]
fn extract_strings() {
    let proc = BinaryProcessor::new();
    let data = b"AAAA\x00hello world\x00BBBB\x00some_text_here\x00CCCC";
    let results = proc.process("b2", data, Some("application/octet-stream"), HashMap::new()).unwrap();
    let strings_obs = of_kind(&results, "binary.strings");
    assert!(!strings_obs.is_empty());
    assert!(text(strings_obs[0]).contains("hello world"));
}

#[test]
fn detect_pdf() {
    let proc = BinaryProcessor::new();
    let data = b"%PDF-1.4\n1 0 obj\n<< /Type /Catalog >>\nendobj";
    let results = proc.process("b3", data, Some("application/octet-stream"), HashMap::new()).unwrap();
    let types = of_kind(&results, "binary.file_type");
    assert_eq!(text(types[0]), "PDF");
}

#[test]
fn binary_unknown_format_still_produces_size() {
    let proc = BinaryProcessor::new();
    let data = b"\x00\x01\x02\x03 some text here";
    let results = proc.process("b4", data, Some("application/octet-stream"), HashMap::new()).unwrap();
    let sizes = of_kind(&results, "binary.metadata");
    assert!(!sizes.is_empty());
}

#[test]
fn binary_strings_are_exact_and_sized() {
    let proc = BinaryProcessor::new();
    let data = b"AAAA\x00hi\x00hello world\x00";
    let results = proc.process("b5", data, None, HashMap::new()).unwrap();
    let strings = of_kind(&results, "binary.strings");
    assert_eq!(text(strings[0]), "[\"AAAA\",\"hello world\"]");
    assert_eq!(strings[0].metadata_value("string_count").unwrap(), "2");
    let size = of_kind(&results, "binary.metadata");
    assert_eq!(text(size[0]), "20");
    assert_eq!(size[0].id, "b5_size");
}

// ── images ──────────────────────────────────────────────────────────────

#[test]
fn detect_png_format() {
    let proc = ImageProcessor::new();
    let png_header = vec![0x89, b'P', b'N', b'G', 0x0D, 0x0A, 0x1A, 0x0A];
    let results = proc.process("i1", &png_header, Some("image/png"), HashMap::new()).unwrap();
    let formats = with_metric(&results, "format");
    assert!(!formats.is_empty());
    assert_eq!(text(formats[0]), "PNG");
}

#[test]
fn detect_jpeg_format() {
    let proc = ImageProcessor::new();
    let jpeg_header = vec![0xFF, 0xD8, 0xFF, 0xE0, 0x00, 0x10, 0x4A, 0x46];
    let results = proc.process("i2", &jpeg_header, Some("image/jpeg"), HashMap::new()).unwrap();
    let formats = with_metric(&results, "format");
    assert!(!formats.is_empty());
}

#[test]
fn parse_png_dimensions() {
    let mut data = vec![0x89, b'P', b'N', b'G', 0x0D, 0x0A, 0x1A, 0x0A];
    data.extend_from_slice(b"\x00\x00\x00\x0dIHDR");
    data.extend_from_slice(&100u32.to_be_bytes());
    data.extend_from_slice(&50u32.to_be_bytes());
    data.extend_from_slice(b"\x08\x02\x00\x00\x00");
    data.extend_from_slice(b"\x00\x00\x00\x00");

    let dims = parse_image_dimensions(&data);
    assert_eq!(dims, Some((100, 50)));
}

#[test]
fn images_unknown_format_still_produces_size() {
    let proc = ImageProcessor::new();
    let data = b"\x00\x01\x02\x03 some random data here";
    let results = proc.process("i3", data, Some("image/unknown"), HashMap::new()).unwrap();
    let sizes = with_metric(&results, "byte_size");
    assert!(!sizes.is_empty());
}

#[test]
fn gif_and_bmp_dimensions() {
    let mut gif = vec![b'G', b'I', b'F', b'8', b'9', b'a', 0x40, 0x01, 0xF0, 0x00];
    gif.resize(16, 0);
    assert_eq!(parse_image_dimensions(&gif), Some((320, 240)));
    // Fewer than sixteen bytes name no dimensions, whatever the format.
    assert_eq!(parse_image_dimensions(&gif[..12]), None);
    let mut bmp = vec![b'B', b'M'];
    bmp.resize(26, 0);
    assert_eq!(parse_image_dimensions(&bmp), None);
    let mut jpeg = vec![0xFF, 0xD8, 0xFF, 0xE0, 0, 0, 0xFF, 0xC0, 0, 0, 8, 0, 0x20, 0, 0x10, 0, 0];
    jpeg.resize(20, 0);
    assert_eq!(parse_image_dimensions(&jpeg), Some((16, 32)));
}

// ── video ───────────────────────────────────────────────────────────────

#[test]
fn detect_mp4() {
    let proc = VideoProcessor::new();
    let mut data = vec![0x00, 0x00, 0x00, 0x18];
    data.extend_from_slice(b"ftyp");
    data.extend_from_slice(b"mp42");
    data.extend_from_slice(b"\x00\x00\x00\x00mp42mp41");
    let results = proc.process("v1", &data, Some("video/mp4"), HashMap::new()).unwrap();
    let containers = of_kind(&results, "video.container");
    assert!(!containers.is_empty());
    assert_eq!(text(containers[0]), "MP4");
}

#[test]
fn detect_webm() {
    let proc = VideoProcessor::new();
    let data = vec![0x1A, 0x45, 0xDF, 0xA3, 0x01, 0x00, 0x00, 0x00];
    let results = proc.process("v2", &data, Some("video/webm"), HashMap::new()).unwrap();
    let containers = of_kind(&results, "video.container");
    assert_eq!(text(containers[0]), "WebM/Matroska");
}

#[test]
fn unknown_format_still_has_metadata() {
    let proc = VideoProcessor::new();
    let data = b"\x00\x01\x02\x03\x04\x05\x06\x07";
    let results = proc.process("v3", data, Some("video/unknown"), HashMap::new()).unwrap();
    let sizes = of_kind(&results, "video.metadata");
    assert!(!sizes.is_empty());
}

// ── decompiler ──────────────────────────────────────────────────────────

#[test]
fn detect_elf64() {
    let proc = DecompilerProcessor::new();
    let mut data = vec![0x7F, b'E', b'L', b'F', 2, 1, 1, 0];
    data.resize(32, 0);
    data[24..32].copy_from_slice(&0x401000u64.to_le_bytes());
    let results = proc.process("d1", &data, Some("application/x-elf"), HashMap::new()).unwrap();
    let formats = of_kind(&results, "decompiler.format");
    assert_eq!(text(formats[0]), "ELF64");
}

#[test]
fn detect_pe() {
    let proc = DecompilerProcessor::new();
    let data = vec![0x4D, 0x5A, 0x90, 0x00, 0x03, 0x00, 0x00, 0x00];
    let results = proc.process("d2", &data, Some("application/x-pe"), HashMap::new()).unwrap();
    let formats = of_kind(&results, "decompiler.format");
    assert_eq!(text(formats[0]), "PE");
}

#[test]
fn unknown_format_still_produces_metadata() {
    let proc = DecompilerProcessor::new();
    let data = b"some random data here";
    let results = proc.process("d3", data, Some("application/octet-stream"), HashMap::new()).unwrap();
    let statuses = of_kind(&results, "decompiler.status");
    assert!(!statuses.is_empty());
    assert!(results.len() >= 2);
}

// ── ocr, office, pdf ────────────────────────────────────────────────────

#[test]
fn detect_ocr_input_format() {
    let proc = OcrProcessor::new();
    let data = vec![0x89, b'P', b'N', b'G', 0x0D, 0x0A, 0x1A, 0x0A];
    let results = proc.process("ocr1", &data, Some("image/png"), HashMap::new()).unwrap();
    let formats = of_kind(&results, "ocr.metadata");
    assert!(!formats.is_empty());
}

#[test]
fn detect_office_format() {
    let proc = OfficeProcessor::new();
    let data = vec![0xD0, 0xCF, 0x11, 0xE0, 0xA1, 0xB1, 0x1A, 0xE1];
    let results = proc.process("o1", &data, Some("application/msword"), HashMap::new()).unwrap();
    let types = of_kind(&results, "office.metadata");
    assert!(!types.is_empty());
}

#[test]
fn detect_pdf_version() {
    let proc = PdfProcessor::new();
    let data = b"%PDF-1.4\n1 0 obj\n<< /Type /Catalog >>\nendobj";
    let results = proc.process("p1", data, Some("application/pdf"), HashMap::new()).unwrap();
    let versions = with_metric(&results, "pdf_version");
    assert!(!versions.is_empty());
}

// ── network ─────────────────────────────────────────────────────────────

fn make_pcap() -> Vec<u8> {
    let mut data = Vec::new();
    data.extend_from_slice(&0xA1B2C3D4u32.to_le_bytes());
    data.extend_from_slice(&2u16.to_le_bytes());
    data.extend_from_slice(&4u16.to_le_bytes());
    data.extend_from_slice(&0i32.to_le_bytes());
    data.extend_from_slice(&0u32.to_le_bytes());
    data.extend_from_slice(&65535u32.to_le_bytes());
    data.extend_from_slice(&1u32.to_le_bytes());
    data.extend_from_slice(&1000000u32.to_le_bytes());
    data.extend_from_slice(&0u32.to_le_bytes());
    data.extend_from_slice(&4u32.to_le_bytes());
    data.extend_from_slice(&4u32.to_le_bytes());
    data.extend_from_slice(b"\x00\x01\x02\x03");
    data
}

#[test]
fn detect_pcap_format() {
    let proc = NetworkProcessor::new();
    let pcap = make_pcap();
    let results = proc.process("n1", &pcap, Some("application/vnd.tcpdump.pcap"), HashMap::new()).unwrap();
    let link_types = of_kind(&results, "network.link_type");
    assert!(!link_types.is_empty());
    assert_eq!(text(link_types[0]), "Ethernet");
}

#[test]
fn count_packets() {
    let proc = NetworkProcessor::new();
    let pcap = make_pcap();
    let results = proc.process("n2", &pcap, Some("application/vnd.tcpdump.pcap"), HashMap::new()).unwrap();
    let counts = of_kind(&results, "network.packet_count");
    assert!(!counts.is_empty());
    assert_eq!(text(counts[0]), "1");
}

#[test]
fn unknown_format_errors() {
    let proc = NetworkProcessor::new();
    let data = b"\x00\x01\x02\x03";
    let result = proc.process("n3", data, Some("application/octet-stream"), HashMap::new());
    assert!(result.is_err());
}

// ── repositories ────────────────────────────────────────────────────────

#[test]
fn detect_git_head() {
    let proc = RepositoryProcessor::new();
    let data = b"ref: refs/heads/main\n";
    let results = proc.process("r1", data, Some("application/x-git"), HashMap::new()).unwrap();
    let types = of_kind(&results, "repository.type");
    assert!(!types.is_empty());
    let heads = of_kind(&results, "repository.ref");
    assert_eq!(text(heads[0]), "refs/heads/main");
}

#[test]
fn detect_git_config() {
    let proc = RepositoryProcessor::new();
    let data = b"[core]\n\trepositoryformatversion = 0\n[remote \"origin\"]\n\turl = https://github.com/user/repo.git\n";
    let results = proc.process("r2", data, Some("application/x-git"), HashMap::new()).unwrap();
    let remotes = of_kind(&results, "repository.remote");
    assert!(!remotes.is_empty());
    assert_eq!(text(remotes[0]), "https://github.com/user/repo.git");
}

#[test]
fn detect_git_bundle() {
    let proc = RepositoryProcessor::new();
    let data = b"# v2 git bundle\n";
    let results = proc.process("r3", data, Some("application/x-git-bundle"), HashMap::new()).unwrap();
    let types = of_kind(&results, "repository.type");
    assert_eq!(text(types[0]), "git-bundle");
}

#[test]
fn unknown_data_still_produces_type_and_size() {
    let proc = RepositoryProcessor::new();
    let data = b"some random content";
    let results = proc.process("r4", data, Some("application/x-git"), HashMap::new()).unwrap();
    let types = of_kind(&results, "repository.type");
    assert!(!types.is_empty());
}

#[test]
fn git_config_entries_and_detached_head() {
    let proc = RepositoryProcessor::new();
    let entries = proc.parse_git_config_section("[core]\n bare = false\n bare = \"true\"\n[remote \"origin\"]\nurl=x");
    assert_eq!(
        entries,
        vec![
            ("core.bare".to_string(), "true".to_string()),
            ("remote.origin.url".to_string(), "x".to_string()),
        ]
    );
    let head = proc.parse_head(b"0123456789abcdef0123456789abcdef01234567");
    assert_eq!(head.unwrap(), "detached HEAD: 0123456789abcdef0123456789abcdef01234567");
    let results = proc.process("r5", b"PACK\x00\x00\x00\x02\x00\x00\x00\x01\x00", None, HashMap::new()).unwrap();
    assert_eq!(text(of_kind(&results, "repository.type")[0]), "git-packfile");
    let results = proc.process("r6", b"[core]\nx = 1\n", None, HashMap::new()).unwrap();
    let config = of_kind(&results, "repository.config");
    assert_eq!(text(config[0]), "{\"core.x\":\"1\"}");
    assert_eq!(config[0].metadata_value("entry_count").unwrap(), "1");
}

// ── containers ──────────────────────────────────────────────────────────

#[test]
fn detect_dockerfile() {
    let proc = ContainerProcessor::new();
    let df = b"FROM ubuntu:22.04\nRUN apt update\nCOPY . /app\nCMD [\"bash\"]";
    let results = proc.process("c1", df, Some("text/x-dockerfile"), HashMap::new()).unwrap();
    let formats = of_kind(&results, "container.format");
    assert_eq!(text(formats[0]), "Dockerfile");
}

#[test]
fn analyze_dockerfile_base_images() {
    let proc = ContainerProcessor::new();
    let df = b"FROM node:18 AS builder\nFROM nginx:alpine";
    let results = proc.process("c2", df, Some("text/x-dockerfile"), HashMap::new()).unwrap();
    let base = of_kind(&results, "container.base_images");
    assert!(!base.is_empty());
    let json_str = text(base[0]);
    assert!(json_str.contains("node:18"));
    assert!(json_str.contains("nginx:alpine"));
}

#[test]
fn analyze_oci_manifest() {
    let proc = ContainerProcessor::new();
    let manifest = r#"{
            "mediaType": "application/vnd.oci.image.manifest.v1+json",
            "config": {"digest": "sha256:abc123", "size": 1000},
            "layers": [
                {"digest": "sha256:layer1", "size": 500},
                {"digest": "sha256:layer2", "size": 1500}
            ]
        }"#;
    let results = proc
        .process("c3", manifest.as_bytes(), Some("application/vnd.oci.image.manifest.v1+json"), HashMap::new())
        .unwrap();
    let layers = of_kind(&results, "container.oci_layers");
    assert!(!layers.is_empty());
}

#[test]
fn containers_error_on_empty() {
    let proc = ContainerProcessor::new();
    let results = proc.process("c4", b"", Some("application/x-container"), HashMap::new()).unwrap();
    assert!(!results.is_empty());
}

#[test]
fn dockerfile_details_and_manifest_values() {
    let proc = ContainerProcessor::new();
    let results = proc.process("c5", b"FROM a\nRUN  make \nEXPOSE 80\nLABEL x", None, HashMap::new()).unwrap();
    assert_eq!(text(of_kind(&results, "container.stages")[0]), "a");
    let ins = of_kind(&results, "container.instructions");
    assert_eq!(text(ins[0]), "[\"RUN: make\",\"EXPOSE 80\"]");
    assert_eq!(ins[0].id, "_docker_instructions2");
    let manifest = br#"{"mediaType":"m","config":{"digest":"sha256:c"},"layers":[{"size":5},{"size":7},{}]}"#;
    let results = proc.process("c6", manifest, None, HashMap::new()).unwrap();
    let layers = of_kind(&results, "container.oci_layers");
    assert_eq!(text(layers[0]), "3");
    assert_eq!(layers[0].metadata_value("total_size_bytes").unwrap(), "12");
    assert_eq!(text(of_kind(&results, "container.oci_config")[0]), "sha256:c");
    assert_eq!(text(of_kind(&results, "container.media_type")[0]), "m");
    let bad = proc.process("c7", b"FROM \xFF\xFE", None, HashMap::new());
    assert!(bad.is_err());
}

// ── ast ─────────────────────────────────────────────────────────────────

#[test]
fn detect_rust() {
    let proc = AstProcessor::new();
    let source = b"fn main() {\n    let x = 1;\n    println!(\"hello\");\n}";
    let results = proc.process("a1", source, Some("text/x-rust"), HashMap::new()).unwrap();
    let langs = of_kind(&results, "ast.language");
    assert!(!langs.is_empty());
    assert_eq!(text(langs[0]), "rust");
}

#[test]
fn detect_python() {
    let proc = AstProcessor::new();
    let source = b"def hello():\n    print('world')\n\nif __name__ == '__main__':\n    hello()";
    let results = proc.process("a2", source, Some("text/x-python"), HashMap::new()).unwrap();
    let langs = of_kind(&results, "ast.language");
    assert!(!langs.is_empty());
    assert_eq!(text(langs[0]), "python");
}

#[test]
fn extract_rust_imports() {
    let proc = AstProcessor::new();
    let source = b"use std::collections::HashMap;\nuse serde::Serialize;\n\nfn main() {}";
    let results = proc.process("a3", source, Some("text/x-rust"), HashMap::new()).unwrap();
    let imports = of_kind(&results, "ast.imports");
    assert_eq!(imports.len(), 1);
    assert!(text(imports[0]).contains("std::collections::HashMap"));
}

#[test]
fn extract_python_imports() {
    let proc = AstProcessor::new();
    let source = b"import os\nimport sys\nfrom datetime import datetime\n\ndef main(): pass";
    let results = proc.process("a4", source, Some("text/x-python"), HashMap::new()).unwrap();
    let imports = of_kind(&results, "ast.imports");
    assert_eq!(imports.len(), 1);
}

#[test]
fn metadata_always_present() {
    let proc = AstProcessor::new();
    let source = b"some text content\nwith multiple lines\n";
    let results = proc.process("a5", source, Some("text/plain"), HashMap::new()).unwrap();
    let metadatas = of_kind(&results, "ast.metadata");
    assert!(metadatas.len() >= 2);
}

#[test]
fn go_imports_and_function_counts() {
    let proc = AstProcessor::new();
    let go = "package main\nimport (\n\t\"fmt\"\n\t\"os\"\n)\nimport \"net\"\nfunc main() {}\nfunc a() {}";
    assert_eq!(proc.extract_imports(go, "go"), vec!["fmt", "os", "net"]);
    assert_eq!(proc.count_functions(go, "go"), 2);
    assert_eq!(proc.detect_language(go), Some("go"));
    assert_eq!(proc.detect_language("nothing to see"), None);
    let bad = proc.process("a6", b"\xFF", None, HashMap::new());
    assert!(bad.is_err());
}

// ── set theory ──────────────────────────────────────────────────────────

#[test]
fn detects_curly_brace_set() {
    let proc = SetTheoryProcessor::new();
    let data = b"{a,b,c}";
    let results = proc.process("s1", data, Some("application/x-set-theory"), HashMap::new()).unwrap();
    let cards = of_kind(&results, "set.cardinality");
    assert!(!cards.is_empty());
    assert_eq!(text(cards[0]), "3");
}

#[test]
fn detects_line_separated_sets() {
    let proc = SetTheoryProcessor::new();
    let data = b"apple\nbanana\ncherry\n---\ndates\nelderberry";
    let results = proc.process("s2", data, Some("application/x-set-theory"), HashMap::new()).unwrap();
    let ops = of_kind(&results, "set.operation");
    assert!(!ops.is_empty());
}

#[test]
fn raw_bytes_produce_single_set() {
    let proc = SetTheoryProcessor::new();
    let data = b"\x00\x01\x02\x03";
    let results = proc.process("s3", data, Some("application/x-set-theory"), HashMap::new()).unwrap();
    let cards = of_kind(&results, "set.cardinality");
    assert_eq!(cards.len(), 1);
}

#[test]
fn set_theory_empty_data_returns_error() {
    let proc = SetTheoryProcessor::new();
    let result = proc.process("s4", b"", Some("application/x-set-theory"), HashMap::new());
    assert!(result.is_err());
}

#[test]
fn set_operations_are_sorted_and_exact() {
    let proc = SetTheoryProcessor::new();
    let results = proc.process("s5", b"{ \"b\", a, c, a }\n{c, d, b}", None, HashMap::new()).unwrap();
    let elems = of_kind(&results, "set.elements");
    assert_eq!(text(elems[0]), "[\"a\",\"b\",\"c\"]");
    let ops = of_kind(&results, "set.operation");
    assert_eq!(text(ops[0]), "[\"b\",\"c\"]");
    assert_eq!(text(ops[1]), "[\"a\",\"b\",\"c\",\"d\"]");
    assert_eq!(text(ops[2]), "[\"a\"]");
    assert_eq!(ops[2].metadata_value("operation").unwrap(), "set_difference");
    let meta = of_kind(&results, "set.metadata");
    assert_eq!(text(meta[0]), "2 set(s) detected");
    let bytes = SetTheoryProcessor::find_sets(b"\xff\x10\xff");
    assert_eq!(bytes, vec![vec!["0x10".to_string(), "0xff".to_string()]]);
}

// ── category theory ─────────────────────────────────────────────────────

#[test]
fn detects_objects_and_morphisms() {
    let proc = CategoryTheoryProcessor::new();
    let data = b"obj: A\nobj: B\nobj: C\narr: A->B:f\narr: B->C:g";
    let results = proc.process("c1", data, Some("application/x-category-theory"), HashMap::new()).unwrap();
    let summaries = of_kind(&results, "category.summary");
    assert_eq!(summaries.len(), 1);
    assert!(text(summaries[0]).contains("3 objects"));
}

#[test]
fn detects_composition_patterns() {
    let proc = CategoryTheoryProcessor::new();
    let data = b"f -> g => h\ng -> k => l";
    let results = proc.process("c2", data, Some("application/x-category-theory"), HashMap::new()).unwrap();
    let comps = of_kind(&results, "category.composition");
    assert_eq!(comps.len(), 1);
}

#[test]
fn no_structure_returns_error() {
    let proc = CategoryTheoryProcessor::new();
    let data = b"just some random text";
    let result = proc.process("c3", data, Some("application/x-category-theory"), HashMap::new());
    assert!(result.is_ok());
}

#[test]
fn handles_invalid_utf8() {
    let proc = CategoryTheoryProcessor::new();
    let data = b"\xFF\xFE\x00\x01";
    let result = proc.process("c4", data, Some("application/x-category-theory"), HashMap::new());
    assert!(result.is_err());
}

#[test]
fn category_arrows_identities_and_word_objects() {
    let proc = CategoryTheoryProcessor::new();
    let results = proc.process("c5", b"arr: A -> A : id\narr: A->B:f", None, HashMap::new()).unwrap();
    let morphs = of_kind(&results, "category.morphisms");
    assert_eq!(
        text(morphs[0]),
        "[{\"name\":\"id\",\"source\":\"A\",\"target\":\"A\"},{\"name\":\"f\",\"source\":\"A\",\"target\":\"B\"}]"
    );
    assert_eq!(text(morphs[1]), "1");
    let results = proc.process("c6", b"b a a c d", None, HashMap::new()).unwrap();
    let objects = of_kind(&results, "category.objects");
    assert_eq!(text(objects[0]), "[\"a\",\"b\",\"c\"]");
    assert!(proc.process("c7", b"lonely", None, HashMap::new()).is_err());
}

// ── markdown ────────────────────────────────────────────────────────────

#[test]
fn extract_plain_text() {
    let proc = MarkdownProcessor::new();
    let md = b"Hello **world** and *italic*";
    let results = proc.process("m1", md, Some("text/markdown"), HashMap::new()).unwrap();
    let texts = of_kind(&results, "markdown.text");
    assert_eq!(texts.len(), 1);
    let t = text(texts[0]);
    assert!(t.contains("Hello"));
    assert!(t.contains("world"));
}

#[test]
fn markdown_extract_headings() {
    let proc = MarkdownProcessor::new();
    let md = b"# Title\n\n## Subtitle\n\n### Section";
    let results = proc.process("m2", md, Some("text/markdown"), HashMap::new()).unwrap();
    let headings = of_kind(&results, "markdown.heading");
    assert_eq!(headings.len(), 3);
}

#[test]
fn extract_frontmatter() {
    let proc = MarkdownProcessor::new();
    let md = b"---\ntitle: Test\ndate: 2024-01-01\n---\n\n# Content";
    let results = proc.process("m3", md, Some("text/markdown"), HashMap::new()).unwrap();
    let fms = of_kind(&results, "markdown.frontmatter");
    assert_eq!(fms.len(), 1);
    assert!(text(fms[0]).contains("title: Test"));
}

#[test]
fn extract_code_blocks() {
    let proc = MarkdownProcessor::new();
    let md = b"# Code\n\n```rust\nfn main() {}\n```";
    let results = proc.process("m4", md, Some("text/markdown"), HashMap::new()).unwrap();
    let codes = of_kind(&results, "markdown.code_block");
    assert_eq!(codes.len(), 1);
}

#[test]
fn markdown_error_on_empty() {
    let proc = MarkdownProcessor::new();
    let result = proc.process("m5", b"", Some("text/markdown"), HashMap::new());
    assert!(result.is_err());
}

#[test]
fn markdown_details() {
    assert_eq!(tordex::processors::markdown::extract_frontmatter("  ---\na: 1\n---\nrest"), Some("a: 1".to_string()));
    assert_eq!(tordex::processors::markdown::extract_frontmatter("---\n\n---"), None);
    assert_eq!(tordex::processors::markdown::extract_frontmatter("no"), None);
    let proc = MarkdownProcessor::new();
    let results = proc.process("m6", b"# A\n\ntext `code`\n\n    indented", None, HashMap::new()).unwrap();
    let h = of_kind(&results, "markdown.heading");
    assert_eq!(h[0].id, "m6_h1_1");
    assert_eq!(text(h[0]), "A");
    assert_eq!(text(of_kind(&results, "markdown.text")[0]), "text  code");
    let code = of_kind(&results, "markdown.code_block");
    assert_eq!(code[0].id, "m6_code_0");
    assert!(text(code[0]).starts_with("indented"));
    assert!(proc.process("m7", b"\xFF", None, HashMap::new()).is_err());
}

// ── html ────────────────────────────────────────────────────────────────

#[test]
fn extract_title() {
    let proc = HtmlProcessor::new();
    let html = b"<html><head><title>Test Page</title></head><body><p>Hello</p></body></html>";
    let results = proc.process("p1", html, Some("text/html"), HashMap::new()).unwrap();
    let titles = of_kind(&results, "html.title");
    assert_eq!(titles.len(), 1);
    assert_eq!(text(titles[0]), "Test Page");
}

#[test]
fn extract_text() {
    let proc = HtmlProcessor::new();
    let html = b"<html><body><p>Hello world</p><p>Second para</p></body></html>";
    let results = proc.process("p2", html, Some("text/html"), HashMap::new()).unwrap();
    let texts = of_kind(&results, "html.extracted_text");
    assert_eq!(texts.len(), 1);
    let t = text(texts[0]);
    assert!(t.contains("Hello world"));
    assert!(t.contains("Second para"));
}

#[test]
fn extract_links() {
    let proc = HtmlProcessor::new();
    let html = b"<html><body><a href='https://example.com'>Example</a><a href='/relative'>Rel</a></body></html>";
    let results = proc.process("p3", html, Some("text/html"), HashMap::new()).unwrap();
    let links = of_kind(&results, "html.link");
    assert_eq!(links.len(), 2);
}

#[test]
fn html_extract_headings() {
    let proc = HtmlProcessor::new();
    let html = b"<html><body><h1>Main Title</h1><h2>Sub Title</h2></body></html>";
    let results = proc.process("p4", html, Some("text/html"), HashMap::new()).unwrap();
    let headings = of_kind(&results, "html.heading");
    assert_eq!(headings.len(), 2);
}

#[test]
fn error_on_empty_html() {
    let proc = HtmlProcessor::new();
    let result = proc.process("p5", b"<html></html>", Some("text/html"), HashMap::new());
    assert!(result.is_err());
}

#[test]
fn invalid_utf8_returns_error() {
    let proc = HtmlProcessor::new();
    let result = proc.process("p6", &[0xFF, 0xFE], Some("text/html"), HashMap::new());
    assert!(result.is_err());
}

#[test]
fn html_meta_links_and_helpers() {
    assert_eq!(sanitize_key("og:title-x_1"), "og_title_x_1");
    assert_eq!(collapse_whitespace("  a \n\t b  "), " a b ");
    let proc = HtmlProcessor::new();
    let html = b"<html><head><meta property='og:title' content='T'><meta name='x' content=''></head><body><a href='#top'>up</a><a href='/a'> go </a></body></html>";
    let results = proc.process("p7", html, None, HashMap::new()).unwrap();
    let meta = of_kind(&results, "html.metadata");
    assert_eq!(meta.len(), 1);
    assert_eq!(meta[0].id, "p7_meta_og_title");
    assert_eq!(meta[0].metadata_value("meta_name").unwrap(), "og:title");
    let links = of_kind(&results, "html.link");
    assert_eq!(links.len(), 1);
    assert_eq!(links[0].id, "p7_link_1");
    assert_eq!(links[0].metadata_value("url").unwrap(), "/a");
    assert_eq!(links[0].metadata_value("link_text").unwrap(), "go");
}
