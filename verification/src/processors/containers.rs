//! Container processor — analyzes Dockerfiles, OCI image manifests and
//! container configurations.
use std::collections::HashMap;
use vstd::prelude::*;
use vstd::utf8::{decode_utf8, valid_utf8};
use crate::json::{
    JsonValue, as_text, as_u64, get_member, json_parse, json_string_list, member, parse_json,
    text_of, to_json_string_list, u64_of,
};
use crate::observation::{
    ObsModel, ProcessedObservation, ProcessorError, decimal_text, obs, obs_models, push_obs,
    size_obs, size_observation, text_bytes, text_obs, text_observation, utf8, with_meta,
};
use crate::text::{
    append_chars, chars_of, contains, contains_str, decimal, join, join_strings, lines, next_line,
    same_text, starts_with, starts_with_str, str_from_utf8, string_of, texts, trim, trimmed,
};

verus! {

/// Processor for Dockerfiles and OCI images.
pub struct ContainerProcessor;

/// What one trimmed Dockerfile line contributes: a base image, an
/// instruction, or nothing.
pub open spec fn docker_line(l: Seq<char>) -> (Option<Seq<char>>, Option<Seq<char>>) {
    if starts_with(l, "FROM "@) {
        (Some(trim(l.subrange(5, l.len() as int))), None)
    } else if starts_with(l, "RUN "@) {
        (None, Some("RUN: "@ + trim(l.subrange(4, l.len() as int))))
    } else if starts_with(l, "COPY "@) || starts_with(l, "ADD "@) || starts_with(l, "EXPOSE "@)
        || starts_with(l, "ENV "@) || starts_with(l, "CMD "@) || starts_with(l, "ENTRYPOINT "@) {
        (None, Some(l))
    } else {
        (None, None)
    }
}

/// The base images named by `FROM` lines, in order.
pub open spec fn docker_images(ls: Seq<Seq<char>>) -> Seq<Seq<char>>
    decreases ls.len(),
{
    if ls.len() == 0 {
        seq![]
    } else {
        let rest = docker_images(ls.drop_first());
        match docker_line(trim(ls[0])).0 {
            Some(i) => seq![i] + rest,
            None => rest,
        }
    }
}

/// The recorded instructions (`RUN`, `COPY`, `ADD`, `EXPOSE`, `ENV`, `CMD`,
/// `ENTRYPOINT`), in order.
pub open spec fn docker_instructions(ls: Seq<Seq<char>>) -> Seq<Seq<char>>
    decreases ls.len(),
{
    if ls.len() == 0 {
        seq![]
    } else {
        let rest = docker_instructions(ls.drop_first());
        match docker_line(trim(ls[0])).1 {
            Some(i) => seq![i] + rest,
            None => rest,
        }
    }
}

/// The observations of a Dockerfile text: base images, build stages (one per
/// base image) and instructions, each where there are any.
pub open spec fn dockerfile_observations(s: Seq<char>) -> Seq<ObsModel> {
    let images = docker_images(lines(s));
    let instrs = docker_instructions(lines(s));
    let a: Seq<ObsModel> = if images.len() > 0 {
        seq![
            with_meta(
                obs("_docker_base_images"@ + decimal(images.len()), "container.base_images"@, utf8(json_string_list(images)), "application/json"@),
                "count"@,
                decimal(images.len()),
            ),
            with_meta(
                obs("_docker_stages"@ + decimal(images.len()), "container.stages"@, utf8(join(images, ", "@)), "text/plain"@),
                "stage_count"@,
                decimal(images.len()),
            ),
        ]
    } else {
        seq![]
    };
    let b: Seq<ObsModel> = if instrs.len() > 0 {
        seq![with_meta(
            obs("_docker_instructions"@ + decimal(instrs.len()), "container.instructions"@, utf8(json_string_list(instrs)), "application/json"@),
            "instruction_count"@,
            decimal(instrs.len()),
        )]
    } else {
        seq![]
    };
    a + b
}

/// The container format named by the leading bytes or the JSON text.
pub open spec fn container_format(d: Seq<u8>) -> Option<Seq<char>> {
    if d.len() < 4 {
        None
    } else if d[0] == 0x46 && d[1] == 0x52 && d[2] == 0x4F && d[3] == 0x4D {
        Some("Dockerfile"@)
    } else if d[0] == 0x1F && d[1] == 0x8B && d[2] == 0x08 {
        Some("Compressed layer (gzip)"@)
    } else if valid_utf8(d) {
        let s = trim(decode_utf8(d));
        if starts_with(s, "{"@) && contains(s, "\"mediaType\""@) {
            Some("OCI Image Manifest"@)
        } else if starts_with(s, "{"@) && contains(s, "\"config\""@) {
            Some("OCI Image Index"@)
        } else {
            None
        }
    } else {
        None
    }
}

/// The format name reported for `d`.
pub open spec fn format_name(d: Seq<u8>) -> Seq<char> {
    match container_format(d) {
        Some(f) => f,
        None => "unknown"@,
    }
}

/// The `size` of a layer descriptor, or 0 where it has none.
pub open spec fn layer_size(l: JsonValue) -> nat {
    match u64_of(member(l, "size"@)) {
        Some(n) => n as nat,
        None => 0,
    }
}

/// The summed sizes of layer descriptors.
pub open spec fn layers_total(ls: Seq<JsonValue>) -> nat
    decreases ls.len(),
{
    if ls.len() == 0 {
        0
    } else {
        layers_total(ls.drop_last()) + layer_size(ls.last())
    }
}

/// The `layers` array of a manifest, if it has one.
pub open spec fn manifest_layers(m: JsonValue) -> Option<Seq<JsonValue>> {
    match member(m, "layers"@) {
        Some(JsonValue::Array(a)) => Some(a@),
        _ => None,
    }
}

/// Whether the summed layer sizes of a parsed manifest fit in a `u64`.
pub open spec fn manifest_fits(m: Option<JsonValue>) -> bool {
    match m {
        Some(v) => match manifest_layers(v) {
            Some(ls) => layers_total(ls) <= u64::MAX,
            None => true,
        },
        None => true,
    }
}

/// The observations of a parsed OCI manifest: layer count and total size,
/// config digest, and media type, each where the manifest has it; none where
/// the text did not parse.
pub open spec fn oci_observations(m: Option<JsonValue>) -> Seq<ObsModel> {
    match m {
        None => seq![],
        Some(v) => {
            let a: Seq<ObsModel> = match manifest_layers(v) {
                Some(ls) => seq![with_meta(
                    with_meta(obs("_oci_layers"@, "container.oci_layers"@, utf8(decimal(ls.len())), "text/plain"@), "layer_count"@, decimal(ls.len())),
                    "total_size_bytes"@,
                    decimal(layers_total(ls)),
                )],
                None => seq![],
            };
            let b: Seq<ObsModel> = match member(v, "config"@) {
                Some(c) => match text_of(member(c, "digest"@)) {
                    Some(d) => seq![with_meta(obs("_oci_config"@, "container.oci_config"@, utf8(d), "text/plain"@), "digest"@, d)],
                    None => seq![],
                },
                None => seq![],
            };
            let c: Seq<ObsModel> = match text_of(member(v, "mediaType"@)) {
                Some(t) => seq![with_meta(obs("_oci_media_type"@, "container.media_type"@, utf8(t), "text/plain"@), "media_type"@, t)],
                None => seq![],
            };
            a + b + c
        },
    }
}

proof fn lemma_layers_total_prefix(ls: Seq<JsonValue>, j: int)
    requires
        0 <= j <= ls.len(),
    ensures
        layers_total(ls.subrange(0, j)) <= layers_total(ls),
    decreases ls.len(),
{
    if j == ls.len() {
        assert(ls.subrange(0, j) == ls);
    } else {
        lemma_layers_total_prefix(ls.drop_last(), j);
        assert(ls.drop_last().subrange(0, j) == ls.subrange(0, j));
    }
}

/// The summed layer sizes, or `None` where the sum exceeds `u64::MAX`.
fn layers_total_exec(ls: &Vec<JsonValue>) -> (r: Option<u64>)
    ensures
        match r {
            Some(n) => n == layers_total(ls@),
            None => layers_total(ls@) > u64::MAX,
        },
{
    let mut total: u64 = 0;
    let mut i: usize = 0;
    assert(ls@.subrange(0, 0) =~= Seq::<JsonValue>::empty());
    while i < ls.len()
        invariant
            i <= ls@.len(),
            total == layers_total(ls@.subrange(0, i as int)),
        decreases ls@.len() - i,
    {
        assert(ls@.subrange(0, i + 1).drop_last() == ls@.subrange(0, i as int));
        let size = match as_u64(get_member(&ls[i], "size")) {
            Some(n) => n,
            None => 0,
        };
        match total.checked_add(size) {
            Some(t) => {
                total = t;
            },
            None => {
                proof {
                    lemma_layers_total_prefix(ls@, i + 1);
                }
                return None;
            },
        }
        i += 1;
    }
    assert(ls@.subrange(0, ls@.len() as int) == ls@);
    Some(total)
}

/// The observations of container data: its format, the Dockerfile or
/// manifest details where they apply, and its size.
pub open spec fn container_observations(id: Seq<char>, d: Seq<u8>) -> Seq<ObsModel> {
    let f = format_name(d);
    seq![text_obs(id, "_format"@, "container.format"@, f)] + (if f == "Dockerfile"@ {
        dockerfile_observations(decode_utf8(d))
    } else if f == "OCI Image Manifest"@ {
        oci_observations(json_parse(decode_utf8(d)))
    } else {
        seq![]
    }) + seq![size_obs(id, "container.metadata"@, d.len())]
}

impl ContainerProcessor {
    pub fn new() -> (r: Self) {
        ContainerProcessor
    }

    /// Processor name.
    pub fn name(&self) -> (r: &'static str)
        ensures
            r@ == "containers"@,
    {
        "containers"
    }

    /// Processor description.
    pub fn description(&self) -> (r: &'static str)
        ensures
            r@ == "Analyzes Dockerfiles, OCI image manifests, and container configurations"@,
    {
        "Analyzes Dockerfiles, OCI image manifests, and container configurations"
    }

    /// Content types this processor accepts.
    pub fn content_types(&self) -> (r: Vec<&'static str>)
        ensures
            r@.map_values(|s: &'static str| s@) == seq![
                "application/x-container"@,
                "application/vnd.docker.image"@,
                "application/vnd.docker.dockerfile"@,
                "application/vnd.oci.image.manifest.v1+json"@,
                "application/vnd.oci.image.index.v1+json"@,
                "text/x-dockerfile"@,
            ],
    {
        let r = vec![
            "application/x-container",
            "application/vnd.docker.image",
            "application/vnd.docker.dockerfile",
            "application/vnd.oci.image.manifest.v1+json",
            "application/vnd.oci.image.index.v1+json",
            "text/x-dockerfile",
        ];
        assert(r@.map_values(|s: &'static str| s@) =~= seq![
            "application/x-container"@,
            "application/vnd.docker.image"@,
            "application/vnd.docker.dockerfile"@,
            "application/vnd.oci.image.manifest.v1+json"@,
            "application/vnd.oci.image.index.v1+json"@,
            "text/x-dockerfile"@,
        ]);
        r
    }

    /// What one trimmed Dockerfile line contributes.
    fn classify_line(l: &[char]) -> (r: (Option<String>, Option<String>))
        ensures
            (match r.0 {
                Some(s) => Some(s@),
                None => None,
            }) == docker_line(l@).0,
            (match r.1 {
                Some(s) => Some(s@),
                None => None,
            }) == docker_line(l@).1,
    {
        if starts_with_str(l, "FROM ") {
            proof {
                reveal_strlit("FROM ");
            }
            (Some(string_of(trimmed(&l[5..l.len()]))), None)
        } else if starts_with_str(l, "RUN ") {
            proof {
                reveal_strlit("RUN ");
            }
            let mut s = string_of(chars_of("RUN: ").as_slice());
            append_chars(&mut s, trimmed(&l[4..l.len()]));
            (None, Some(s))
        } else if starts_with_str(l, "COPY ") || starts_with_str(l, "ADD ") || starts_with_str(l, "EXPOSE ")
            || starts_with_str(l, "ENV ") || starts_with_str(l, "CMD ") || starts_with_str(l, "ENTRYPOINT ") {
            (None, Some(string_of(l)))
        } else {
            (None, None)
        }
    }

    /// Base images and instructions of a Dockerfile text.
    fn dockerfile_parts(source: &str) -> (r: (Vec<String>, Vec<String>))
        ensures
            texts(r.0@) == docker_images(lines(source@)),
            texts(r.1@) == docker_instructions(lines(source@)),
    {
        let text = chars_of(source);
        let text = text.as_slice();
        let mut images: Vec<String> = Vec::new();
        let mut instructions: Vec<String> = Vec::new();
        let mut pos: usize = 0;
        assert(text@.subrange(0, text@.len() as int) == text@);
        assert(texts(images@) =~= Seq::<Seq<char>>::empty());
        assert(texts(instructions@) =~= Seq::<Seq<char>>::empty());
        while pos < text.len()
            invariant
                pos <= text@.len(),
                text@ == source@,
                texts(images@) + docker_images(lines(text@.subrange(pos as int, text@.len() as int)))
                    == docker_images(lines(source@)),
                texts(instructions@) + docker_instructions(lines(text@.subrange(pos as int, text@.len() as int)))
                    == docker_instructions(lines(source@)),
            decreases text@.len() - pos,
        {
            let (a, b, n) = next_line(text, pos);
            let line = trimmed(&text[a..b]);
            let ghost rest = lines(text@.subrange(pos as int, text@.len() as int));
            let ghost imgs0 = texts(images@);
            let ghost ins0 = texts(instructions@);
            let (img, ins) = Self::classify_line(line);
            assert(rest.drop_first() == lines(text@.subrange(n as int, text@.len() as int)));
            match img {
                Some(i) => {
                    let ghost iv = i@;
                    images.push(i);
                    assert(texts(images@) == imgs0.push(iv));
                    assert(imgs0 + docker_images(rest) == imgs0.push(iv) + docker_images(rest.drop_first()));
                },
                None => {
                    assert(docker_images(rest) == docker_images(rest.drop_first()));
                },
            }
            match ins {
                Some(i) => {
                    let ghost iv = i@;
                    instructions.push(i);
                    assert(texts(instructions@) == ins0.push(iv));
                    assert(ins0 + docker_instructions(rest) == ins0.push(iv) + docker_instructions(rest.drop_first()));
                },
                None => {
                    assert(docker_instructions(rest) == docker_instructions(rest.drop_first()));
                },
            }
            pos = n;
        }
        assert(text@.subrange(pos as int, text@.len() as int).len() == 0);
        assert(texts(images@) + Seq::<Seq<char>>::empty() == texts(images@));
        assert(texts(instructions@) + Seq::<Seq<char>>::empty() == texts(instructions@));
        (images, instructions)
    }

    /// `prefix` followed by the decimal rendering of `n`.
    fn numbered(prefix: &str, n: usize) -> (r: String)
        ensures
            r@ == prefix@ + decimal(n as nat),
    {
        let mut s = string_of(chars_of(prefix).as_slice());
        let d = decimal_text(n);
        append_chars(&mut s, chars_of(d.as_str()).as_slice());
        s
    }

    /// The base-image, stage and instruction observations of a Dockerfile.
    pub fn analyze_dockerfile(&self, source: &str) -> (r: Vec<ProcessedObservation>)
        ensures
            obs_models(r@) == dockerfile_observations(source@),
    {
        let (images, instructions) = Self::dockerfile_parts(source);
        let ghost imgs = docker_images(lines(source@));
        let ghost ins = docker_instructions(lines(source@));
        assert(images@.len() == imgs.len() && instructions@.len() == ins.len()) by {
            assert(texts(images@).len() == images@.len());
            assert(texts(instructions@).len() == instructions@.len());
        }
        let mut results: Vec<ProcessedObservation> = Vec::new();
        assert(obs_models(results@) =~= Seq::<ObsModel>::empty());
        if images.len() > 0 {
            let json = to_json_string_list(&images);
            push_obs(
                &mut results,
                ProcessedObservation::new(
                    Self::numbered("_docker_base_images", images.len()),
                    "container.base_images",
                    text_bytes(json.as_str()),
                    "application/json",
                ).with_metadata("count", decimal_text(images.len()).as_str()),
            );
            let joined = join_strings(&images, ", ");
            push_obs(
                &mut results,
                ProcessedObservation::new(
                    Self::numbered("_docker_stages", images.len()),
                    "container.stages",
                    text_bytes(joined.as_str()),
                    "text/plain",
                ).with_metadata("stage_count", decimal_text(images.len()).as_str()),
            );
        }
        let ghost a = obs_models(results@);
        if instructions.len() > 0 {
            let json = to_json_string_list(&instructions);
            push_obs(
                &mut results,
                ProcessedObservation::new(
                    Self::numbered("_docker_instructions", instructions.len()),
                    "container.instructions",
                    text_bytes(json.as_str()),
                    "application/json",
                ).with_metadata("instruction_count", decimal_text(instructions.len()).as_str()),
            );
        }
        proof {
            if ins.len() == 0 {
                assert(obs_models(results@) =~= a + Seq::<ObsModel>::empty());
            }
        }
        assert(obs_models(results@) =~= dockerfile_observations(source@));
        results
    }

    /// The observations of a parsed OCI manifest.
    pub fn oci_manifest_observations(parsed: &Option<JsonValue>) -> (r: Vec<ProcessedObservation>)
        requires
            manifest_fits(*parsed),
        ensures
            obs_models(r@) == oci_observations(*parsed),
    {
        let mut results: Vec<ProcessedObservation> = Vec::new();
        assert(obs_models(results@) =~= Seq::<ObsModel>::empty());
        let v = match parsed {
            Some(v) => v,
            None => {
                return results;
            },
        };
        if let Some(JsonValue::Array(layers)) = get_member(v, "layers") {
            let total = match layers_total_exec(layers) {
                Some(t) => t,
                None => 0,
            };
            let count = decimal_text(layers.len());
            push_obs(
                &mut results,
                ProcessedObservation::new(string_of(chars_of("_oci_layers").as_slice()), "container.oci_layers", text_bytes(count.as_str()), "text/plain")
                    .with_metadata("layer_count", count.as_str())
                    .with_metadata("total_size_bytes", crate::text::decimal_string_u64(total).as_str()),
            );
        }
        let ghost a = obs_models(results@);
        if let Some(config) = get_member(v, "config") {
            if let Some(digest) = as_text(get_member(config, "digest")) {
                push_obs(
                    &mut results,
                    ProcessedObservation::new(string_of(chars_of("_oci_config").as_slice()), "container.oci_config", text_bytes(digest), "text/plain")
                        .with_metadata("digest", digest),
                );
            }
        }
        let ghost ab = obs_models(results@);
        proof {
            let m = *v;
            if manifest_layers(m) is None {
                assert(a =~= Seq::<ObsModel>::empty());
            }
            match member(m, "config"@) {
                Some(c) => {
                    if text_of(member(c, "digest"@)) is None {
                        assert(ab =~= a);
                    }
                },
                None => {
                    assert(ab =~= a);
                },
            }
        }
        if let Some(media_type) = as_text(get_member(v, "mediaType")) {
            push_obs(
                &mut results,
                ProcessedObservation::new(string_of(chars_of("_oci_media_type").as_slice()), "container.media_type", text_bytes(media_type), "text/plain")
                    .with_metadata("media_type", media_type),
            );
        }
        assert(obs_models(results@) =~= oci_observations(*parsed));
        results
    }

    /// The observations of an OCI manifest text; `None` where the summed
    /// layer sizes exceed `u64::MAX`.
    pub fn analyze_oci_manifest(&self, json_str: &str) -> (r: Option<Vec<ProcessedObservation>>)
        ensures
            r is Some <==> manifest_fits(json_parse(json_str@)),
            r matches Some(v) ==> obs_models(v@) == oci_observations(json_parse(json_str@)),
    {
        let parsed = parse_json(json_str);
        let fits = match &parsed {
            Some(v) => match get_member(v, "layers") {
                Some(JsonValue::Array(layers)) => layers_total_exec(layers).is_some(),
                _ => true,
            },
            None => true,
        };
        if fits {
            Some(Self::oci_manifest_observations(&parsed))
        } else {
            None
        }
    }

    /// The container format named by the data, if any.
    pub fn detect_container_format(&self, data: &[u8]) -> (r: Option<&'static str>)
        ensures
            match container_format(data@) {
                Some(f) => r matches Some(s) && s@ == f,
                None => r is None,
            },
    {
        if data.len() < 4 {
            return None;
        }
        if data[0] == 0x46 && data[1] == 0x52 && data[2] == 0x4F && data[3] == 0x4D {
            Some("Dockerfile")
        } else if data[0] == 0x1F && data[1] == 0x8B && data[2] == 0x08 {
            Some("Compressed layer (gzip)")
        } else {
            match str_from_utf8(data) {
                Ok(s) => {
                    let c = chars_of(s);
                    let t = trimmed(c.as_slice());
                    if starts_with_str(t, "{") && contains_str(t, "\"mediaType\"") {
                        Some("OCI Image Manifest")
                    } else if starts_with_str(t, "{") && contains_str(t, "\"config\"") {
                        Some("OCI Image Index")
                    } else {
                        None
                    }
                },
                Err(_) => None,
            }
        }
    }

    /// The format, Dockerfile or manifest details, and size of container data.
    /// A Dockerfile whose text is not valid UTF-8 is refused as invalid input;
    /// a manifest whose layer sizes sum beyond `u64::MAX` fails.
    pub fn process(
        &self,
        id: &str,
        data: &[u8],
        _content_type: Option<&str>,
        _metadata: HashMap<String, String>,
    ) -> (r: Result<Vec<ProcessedObservation>, ProcessorError>)
        ensures
            format_name(data@) == "Dockerfile"@ && !valid_utf8(data@) <==> r matches Err(
                ProcessorError::InvalidInput(_),
            ),
            format_name(data@) == "OCI Image Manifest"@ && !manifest_fits(json_parse(decode_utf8(data@)))
                <==> r matches Err(ProcessorError::ProcessingFailed(_)),
            !(format_name(data@) == "Dockerfile"@ && !valid_utf8(data@)) && !(format_name(data@)
                == "OCI Image Manifest"@ && !manifest_fits(json_parse(decode_utf8(data@)))) ==> r is Ok,
            r is Ok ==> (r matches Ok(v) && obs_models(v@) == container_observations(id@, data@)),
    {
        proof {
            reveal_strlit("Dockerfile");
            reveal_strlit("OCI Image Manifest");
            assert("Dockerfile"@.len() != "OCI Image Manifest"@.len());
        }
        let fmt = match self.detect_container_format(data) {
            Some(f) => f,
            None => "unknown",
        };
        let mut results: Vec<ProcessedObservation> = Vec::new();
        push_obs(&mut results, text_observation(id, "_format", "container.format", fmt));
        let ghost a = obs_models(results@);
        if same_text(fmt, "Dockerfile") {
            match str_from_utf8(data) {
                Ok(source) => {
                    let mut found = self.analyze_dockerfile(source);
                    let ghost before = obs_models(results@);
                    let ghost f = obs_models(found@);
                    results.append(&mut found);
                    assert(obs_models(results@) =~= before + f);
                },
                Err(e) => {
                    return Err(ProcessorError::InvalidInput(e));
                },
            }
        } else if same_text(fmt, "OCI Image Manifest") {
            proof {
                assert(valid_utf8(data@)) by {
                    reveal_strlit("unknown");
                    assert("unknown"@.len() != "OCI Image Manifest"@.len());
                    reveal_strlit("Compressed layer (gzip)");
                    assert("Compressed layer (gzip)"@.len() != "OCI Image Manifest"@.len());
                }
            }
            match str_from_utf8(data) {
                Ok(source) => match self.analyze_oci_manifest(source) {
                    Some(found) => {
                        let mut found = found;
                        let ghost before = obs_models(results@);
                        let ghost f = obs_models(found@);
                        results.append(&mut found);
                        assert(obs_models(results@) =~= before + f);
                    },
                    None => {
                        return Err(ProcessorError::ProcessingFailed(string_of(chars_of("layer sizes exceed u64::MAX").as_slice())));
                    },
                },
                Err(e) => {
                    return Err(ProcessorError::InvalidInput(e));
                },
            }
        }
        let ghost ab = obs_models(results@);
        push_obs(&mut results, size_observation(id, "container.metadata", data.len()));
        proof {
            if format_name(data@) != "Dockerfile"@ && format_name(data@) != "OCI Image Manifest"@ {
                assert(ab =~= a + Seq::<ObsModel>::empty());
            }
        }
        Ok(results)
    }
}

/// The container formats that leading bytes select: `"FROM"` is a
/// Dockerfile and `1F 8B 08` a gzip-compressed layer; data shorter than
/// four bytes is of unknown format.
pub proof fn lemma_container_format_signatures(d: Seq<u8>)
    ensures
        d.len() < 4 ==> format_name(d) == "unknown"@,
        d.len() >= 4 && d[0] == 0x46 && d[1] == 0x52 && d[2] == 0x4F && d[3] == 0x4D ==> format_name(d) == "Dockerfile"@,
        d.len() >= 4 && d[0] == 0x1F && d[1] == 0x8B && d[2] == 0x08 ==> format_name(d) == "Compressed layer (gzip)"@,
{
}

} // verus!
