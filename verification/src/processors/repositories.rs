//! Repository processor — identifies Git artifacts, HEAD refs and config.
use std::collections::HashMap;
use vstd::prelude::*;
use vstd::utf8::{decode_utf8, valid_utf8};
use crate::json::{json_string_map, to_json_string_map};
use crate::observation::{
    ObsModel, ProcessedObservation, ProcessorError, decimal_text, get_entry, key_index,
    meta_set, meta_texts, obs, obs_models, push_obs, set_entry, size_obs, size_observation,
    suffixed, text_bytes, text_obs, text_observation, utf8, with_meta,
};
use crate::bytes::{starts_with_bytes, starts_with_bytes_exec};
use crate::text::{
    append_chars, char_index, char_index_exec, chars_of, decimal, lemma_char_index,
    lemma_ends_with_char, lemma_starts_with_char, lines, next_line, same_text, starts_with,
    starts_with_str, str_from_utf8, string_of, trim, trim_char, trimmed, trimmed_char,
};

verus! {

/// Processor for Git repository artifacts.
pub struct RepositoryProcessor;

/// The bytes of a text literal.
pub open spec fn lit(s: Seq<char>) -> Seq<u8> {
    utf8(s)
}

/// Whether `d` is a Git bundle: longer than ten bytes and opening with the
/// bundle signature line.
pub open spec fn git_bundle(d: Seq<u8>) -> bool {
    d.len() > 10 && starts_with_bytes(d, lit("# v2 git bundle"@))
}

/// Whether `d` is a version-2 Git pack: longer than twelve bytes, opening with
/// `PACK` and the version word 2.
pub open spec fn git_pack(d: Seq<u8>) -> bool {
    d.len() > 12 && starts_with_bytes(d, lit("PACK"@)) && d.subrange(4, 8) == seq![0u8, 0u8, 0u8, 2u8]
}

/// An ASCII hexadecimal digit.
pub open spec fn hex_digit(c: char) -> bool {
    ('0' <= c && c <= '9') || ('a' <= c && c <= 'f') || ('A' <= c && c <= 'F')
}

/// A 40-byte text of hexadecimal digits (a commit id).
pub open spec fn commit_id(d: Seq<u8>, s: Seq<char>) -> bool {
    d.len() == 40 && forall|i: int| 0 <= i < s.len() ==> hex_digit(#[trigger] s[i])
}

/// The Git artifact type of `d`.
pub open spec fn repo_type(d: Seq<u8>) -> Seq<char> {
    if git_bundle(d) {
        "git-bundle"@
    } else if git_pack(d) {
        "git-packfile"@
    } else if valid_utf8(d) {
        let s = decode_utf8(d);
        if starts_with(s, "[core]"@) || starts_with(s, "[remote"@) {
            "git-config"@
        } else if starts_with(s, "ref: "@) || commit_id(d, s) {
            "git-head"@
        } else if d.len() > 8 && starts_with_bytes(d, lit("DIRC"@)) {
            "git-index"@
        } else if d.len() > 4 && starts_with_bytes(d, lit("OBJ_"@)) {
            "git-object"@
        } else {
            "unknown"@
        }
    } else {
        "unknown"@
    }
}

/// The ref named by a HEAD file.
pub open spec fn head_ref(d: Seq<u8>) -> Option<Seq<char>> {
    if !valid_utf8(d) {
        None
    } else {
        let s = decode_utf8(d);
        if starts_with(s, "ref: "@) {
            Some(trim(s.subrange(5, s.len() as int)))
        } else if commit_id(d, s) {
            Some("detached HEAD: "@ + s)
        } else {
            None
        }
    }
}

/// A trimmed config line that opens a section.
pub open spec fn section_line(l: Seq<char>) -> bool {
    l.len() > 0 && l[0] == '[' && l.last() == ']'
}

/// The dotted name of a section header's inside: `remote "origin"` names
/// `remote.origin`, a header without a subsection names itself.
pub open spec fn section_name(inner: Seq<char>) -> Seq<char> {
    match char_index(inner, ' ') {
        Some(k) => inner.subrange(0, k) + "."@ + trim_char(trim(inner.subrange(k + 1, inner.len() as int)), '"'),
        None => inner,
    }
}

/// The effect of one trimmed config line on (entries, current section).
pub open spec fn config_step(cfg: Seq<(Seq<char>, Seq<char>)>, section: Seq<char>, l: Seq<char>) -> (Seq<(Seq<char>, Seq<char>)>, Seq<char>) {
    if section_line(l) {
        (cfg, section_name(l.subrange(1, l.len() - 1)))
    } else {
        match char_index(l, '=') {
            Some(eq) => (
                meta_set(cfg, section + "."@ + trim(l.subrange(0, eq)), trim_char(trim(l.subrange(eq + 1, l.len() as int)), '"')),
                section,
            ),
            None => (cfg, section),
        }
    }
}

/// Config entries after the lines `ls`.
pub open spec fn config_fold(ls: Seq<Seq<char>>, cfg: Seq<(Seq<char>, Seq<char>)>, section: Seq<char>) -> Seq<(Seq<char>, Seq<char>)>
    decreases ls.len(),
{
    if ls.len() == 0 {
        cfg
    } else {
        let (c2, s2) = config_step(cfg, section, trim(ls[0]));
        config_fold(ls.drop_first(), c2, s2)
    }
}

/// The `section.key = value` entries of a Git config text, each key once,
/// in the order of first appearance, holding its last value.
pub open spec fn git_config(s: Seq<char>) -> Seq<(Seq<char>, Seq<char>)> {
    config_fold(lines(s), seq![], seq![])
}

/// The HEAD-ref observation, when `d` is a HEAD file naming a ref.
pub open spec fn head_part(id: Seq<char>, d: Seq<u8>) -> Seq<ObsModel> {
    if repo_type(d) == "git-head"@ {
        match head_ref(d) {
            Some(r) => seq![with_meta(
                with_meta(obs(id + "_head"@, "repository.ref"@, utf8(r), "text/plain"@), "ref_type"@, "HEAD"@),
                "source_observation"@,
                id,
            )],
            None => seq![],
        }
    } else {
        seq![]
    }
}

/// The origin-URL observation of a config's entries, when it has one.
pub open spec fn remote_part(id: Seq<char>, cfg: Seq<(Seq<char>, Seq<char>)>) -> Seq<ObsModel> {
    match key_index(cfg, "remote.origin.url"@) {
        Some(i) => seq![with_meta(
            with_meta(obs(id + "_remote"@, "repository.remote"@, utf8(cfg[i].1), "text/plain"@), "remote"@, "origin"@),
            "source_observation"@,
            id,
        )],
        None => seq![],
    }
}

/// The observation listing all config entries as JSON, when there are any.
pub open spec fn entries_part(id: Seq<char>, cfg: Seq<(Seq<char>, Seq<char>)>) -> Seq<ObsModel> {
    if cfg.len() > 0 {
        seq![with_meta(
            with_meta(obs(id + "_config"@, "repository.config"@, utf8(json_string_map(cfg)), "application/json"@), "entry_count"@, decimal(cfg.len())),
            "source_observation"@,
            id,
        )]
    } else {
        seq![]
    }
}

/// The config observations, when `d` is a Git config file.
pub open spec fn config_part(id: Seq<char>, d: Seq<u8>) -> Seq<ObsModel> {
    if repo_type(d) == "git-config"@ {
        let cfg = git_config(decode_utf8(d));
        remote_part(id, cfg) + entries_part(id, cfg)
    } else {
        seq![]
    }
}

/// The observations the repository processor derives from `d`: its type,
/// the HEAD ref or config entries where they apply, and its size.
pub open spec fn repository_observations(id: Seq<char>, d: Seq<u8>) -> Seq<ObsModel> {
    seq![text_obs(id, "_type"@, "repository.type"@, repo_type(d))] + head_part(id, d) + config_part(id, d)
        + seq![size_obs(id, "repository.metadata"@, d.len())]
}

proof fn lemma_repo_type_kinds(d: Seq<u8>)
    ensures
        repo_type(d) == "git-config"@ ==> valid_utf8(d),
        repo_type(d) != "git-config"@ || repo_type(d) != "git-head"@,
{
    reveal_strlit("git-bundle");
    reveal_strlit("git-packfile");
    reveal_strlit("git-config");
    reveal_strlit("git-head");
    reveal_strlit("unknown");
    assert("git-config"@.len() == 10);
    assert("git-head"@.len() == 8);
    assert("unknown"@.len() == 7);
    assert("git-bundle"@[4] == 'b');
    assert("git-packfile"@[4] == 'p');
    assert("git-config"@[4] == 'c');
}

/// Whether all characters are ASCII hexadecimal digits.
fn all_hex(s: &[char]) -> (r: bool)
    ensures
        r == forall|i: int| 0 <= i < s@.len() ==> hex_digit(#[trigger] s@[i]),
{
    let mut i: usize = 0;
    while i < s.len()
        invariant
            i <= s@.len(),
            forall|j: int| 0 <= j < i ==> hex_digit(#[trigger] s@[j]),
        decreases s@.len() - i,
    {
        let c = s[i];
        if !(('0' <= c && c <= '9') || ('a' <= c && c <= 'f') || ('A' <= c && c <= 'F')) {
            assert(!hex_digit(s@[i as int]));
            return false;
        }
        i += 1;
    }
    true
}

impl RepositoryProcessor {
    pub fn new() -> (r: Self) {
        RepositoryProcessor
    }

    /// Processor name.
    pub fn name(&self) -> (r: &'static str)
        ensures
            r@ == "repositories"@,
    {
        "repositories"
    }

    /// Processor description.
    pub fn description(&self) -> (r: &'static str)
        ensures
            r@ == "Analyzes Git repositories, extracts refs, config, and version control metadata"@,
    {
        "Analyzes Git repositories, extracts refs, config, and version control metadata"
    }

    /// Content types this processor accepts.
    pub fn content_types(&self) -> (r: Vec<&'static str>)
        ensures
            r@.map_values(|s: &'static str| s@) == seq![
                "application/x-git"@,
                "application/vnd.github"@,
                "application/x-git-bundle"@,
                "application/x-git-pack"@,
            ],
    {
        let r = vec!["application/x-git", "application/vnd.github", "application/x-git-bundle", "application/x-git-pack"];
        assert(r@.map_values(|s: &'static str| s@) =~= seq![
            "application/x-git"@,
            "application/vnd.github"@,
            "application/x-git-bundle"@,
            "application/x-git-pack"@,
        ]);
        r
    }

    fn is_git_bundle(&self, data: &[u8]) -> (r: bool)
        ensures
            r == git_bundle(data@),
    {
        data.len() > 10 && starts_with_bytes_exec(data, text_bytes("# v2 git bundle").as_slice())
    }

    fn is_git_pack(&self, data: &[u8]) -> (r: bool)
        ensures
            r == git_pack(data@),
    {
        let tail = [0u8, 0u8, 0u8, 2u8];
        assert(tail@ == seq![0u8, 0u8, 0u8, 2u8]);
        data.len() > 12 && starts_with_bytes_exec(data, text_bytes("PACK").as_slice())
            && crate::bytes::bytes_eq(&data[4..8], &tail)
    }

    /// The ref named by a HEAD file.
    pub fn parse_head(&self, data: &[u8]) -> (r: Option<String>)
        ensures
            match head_ref(data@) {
                Some(h) => r matches Some(s) && s@ == h,
                None => r is None,
            },
    {
        let s = match str_from_utf8(data) {
            Ok(s) => s,
            Err(_) => return None,
        };
        let c = chars_of(s);
        let c = c.as_slice();
        if starts_with_str(c, "ref: ") {
            proof {
                reveal_strlit("ref: ");
            }
            Some(string_of(trimmed(&c[5..c.len()])))
        } else if data.len() == 40 && all_hex(c) {
            let mut out = string_of(chars_of("detached HEAD: ").as_slice());
            append_chars(&mut out, c);
            Some(out)
        } else {
            None
        }
    }

    /// The dotted name of a section header's inside.
    fn section_name_of(inner: &[char]) -> (r: String)
        ensures
            r@ == section_name(inner@),
    {
        proof {
            lemma_char_index(inner@, ' ');
        }
        match char_index_exec(inner, ' ') {
            Some(k) => {
                let n = inner.len();
                assert(k < n);
                let mut out = string_of(&inner[0..k]);
                append_chars(&mut out, chars_of(".").as_slice());
                append_chars(&mut out, trimmed_char(trimmed(&inner[k + 1..n]), '"'));
                out
            },
            None => string_of(inner),
        }
    }

    /// The `section.key = value` entries of a Git config text.
    pub fn parse_git_config_section(&self, source: &str) -> (r: Vec<(String, String)>)
        ensures
            meta_texts(r@) == git_config(source@),
    {
        let text = chars_of(source);
        let text = text.as_slice();
        let mut config: Vec<(String, String)> = Vec::new();
        let mut current_section = String::new();
        let mut pos: usize = 0;
        assert(text@.subrange(0, text@.len() as int) == text@);
        assert(meta_texts(config@) =~= Seq::<(Seq<char>, Seq<char>)>::empty());
        while pos < text.len()
            invariant
                pos <= text@.len(),
                text@ == source@,
                config_fold(lines(text@.subrange(pos as int, text@.len() as int)), meta_texts(config@), current_section@)
                    == git_config(source@),
            decreases text@.len() - pos,
        {
            let (a, b, n) = next_line(text, pos);
            let line = trimmed(&text[a..b]);
            let ghost rest = lines(text@.subrange(pos as int, text@.len() as int));
            proof {
                lemma_starts_with_char(line@, '[');
                lemma_ends_with_char(line@, ']');
            }
            let ghost before = (meta_texts(config@), current_section@);
            if line.len() > 1 && line[0] == '[' && line[line.len() - 1] == ']' {
                current_section = Self::section_name_of(&line[1..line.len() - 1]);
            } else {
                proof {
                    lemma_char_index(line@, '=');
                }
                if let Some(eq_pos) = char_index_exec(line, '=') {
                    let key = trimmed(&line[0..eq_pos]);
                    let value = trimmed_char(trimmed(&line[eq_pos + 1..line.len()]), '"');
                    let mut full = string_of(chars_of(current_section.as_str()).as_slice());
                    append_chars(&mut full, chars_of(".").as_slice());
                    append_chars(&mut full, key);
                    set_entry(&mut config, full, string_of(value));
                }
            }
            proof {
                assert((meta_texts(config@), current_section@) == config_step(before.0, before.1, line@));
                assert(rest.drop_first() == lines(text@.subrange(n as int, text@.len() as int)));
            }
            pos = n;
        }
        assert(text@.subrange(pos as int, text@.len() as int).len() == 0);
        config
    }

    fn repo_type_of(&self, data: &[u8]) -> (r: &'static str)
        ensures
            r@ == repo_type(data@),
    {
        if self.is_git_bundle(data) {
            "git-bundle"
        } else if self.is_git_pack(data) {
            "git-packfile"
        } else {
            match str_from_utf8(data) {
                Ok(s) => {
                    let c = chars_of(s);
                    let c = c.as_slice();
                    if starts_with_str(c, "[core]") || starts_with_str(c, "[remote") {
                        "git-config"
                    } else if starts_with_str(c, "ref: ") || (data.len() == 40 && all_hex(c)) {
                        "git-head"
                    } else if data.len() > 8 && starts_with_bytes_exec(data, text_bytes("DIRC").as_slice()) {
                        "git-index"
                    } else if data.len() > 4 && starts_with_bytes_exec(data, text_bytes("OBJ_").as_slice()) {
                        "git-object"
                    } else {
                        "unknown"
                    }
                },
                Err(_) => "unknown",
            }
        }
    }

    /// The observations of a parsed config: the origin URL and all entries.
    fn config_observations(id: &str, config: &Vec<(String, String)>, results: &mut Vec<ProcessedObservation>)
        ensures
            obs_models(final(results)@) == obs_models(old(results)@) + remote_part(id@, meta_texts(config@))
                + entries_part(id@, meta_texts(config@)),
    {
        let ghost cfg = meta_texts(config@);
        let ghost start = obs_models(results@);
        if let Some(remote) = get_entry(config, "remote.origin.url") {
            push_obs(
                results,
                ProcessedObservation::new(suffixed(id, "_remote"), "repository.remote", text_bytes(remote.as_str()), "text/plain")
                    .with_metadata("remote", "origin")
                    .with_metadata("source_observation", id),
            );
        }
        assert(obs_models(results@) =~= start + remote_part(id@, cfg));
        let ghost mid = obs_models(results@);
        if config.len() > 0 {
            let json = to_json_string_map(config);
            push_obs(
                results,
                ProcessedObservation::new(suffixed(id, "_config"), "repository.config", text_bytes(json.as_str()), "application/json")
                    .with_metadata("entry_count", decimal_text(config.len()).as_str())
                    .with_metadata("source_observation", id),
            );
        }
        assert(obs_models(results@) =~= mid + entries_part(id@, cfg));
        assert(start + remote_part(id@, cfg) + entries_part(id@, cfg) =~= mid + entries_part(id@, cfg));
    }

    /// The artifact type, HEAD ref, config entries and size of Git data.
    pub fn process(
        &self,
        id: &str,
        data: &[u8],
        _content_type: Option<&str>,
        _metadata: HashMap<String, String>,
    ) -> (r: Result<Vec<ProcessedObservation>, ProcessorError>)
        ensures
            r matches Ok(v) && obs_models(v@) == repository_observations(id@, data@),
    {
        proof {
            lemma_repo_type_kinds(data@);
        }
        let mut results: Vec<ProcessedObservation> = Vec::new();
        let kind = self.repo_type_of(data);
        push_obs(&mut results, text_observation(id, "_type", "repository.type", kind));
        let ghost a = obs_models(results@);
        if same_text(kind, "git-head") {
            if let Some(head_ref) = self.parse_head(data) {
                push_obs(
                    &mut results,
                    ProcessedObservation::new(suffixed(id, "_head"), "repository.ref", text_bytes(head_ref.as_str()), "text/plain")
                        .with_metadata("ref_type", "HEAD")
                        .with_metadata("source_observation", id),
                );
            }
        }
        assert(obs_models(results@) =~= a + head_part(id@, data@));
        let ghost ab = obs_models(results@);
        if same_text(kind, "git-config") {
            if let Ok(s) = str_from_utf8(data) {
                let config = self.parse_git_config_section(s);
                Self::config_observations(id, &config, &mut results);
            }
        }
        assert(obs_models(results@) =~= ab + config_part(id@, data@));
        let ghost abc = obs_models(results@);
        push_obs(&mut results, size_observation(id, "repository.metadata", data.len()));
        assert(obs_models(results@) =~= repository_observations(id@, data@));
        Ok(results)
    }
}

} // verus!
