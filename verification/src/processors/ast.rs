//! AST processor — detects programming languages, extracts imports,
//! functions and structural metadata from source code.
use std::collections::HashMap;
use vstd::prelude::*;
use vstd::utf8::{decode_utf8, valid_utf8};
use crate::json::{json_string_list, to_json_string_list};
use crate::observation::{
    ObsModel, ProcessedObservation, ProcessorError, decimal_text, obs, obs_models, push_obs,
    size_obs, size_observation, suffixed, text_bytes, utf8, with_meta,
};
use crate::parser::count_lines;
use crate::text::{
    chars_of, contains, contains_char, contains_char_exec, contains_str, decimal, ends_with,
    ends_with_str, lines, next_line, same_text, starts_with, starts_with_str, str_from_utf8,
    string_of, texts, trim, trim_char, trimmed, trimmed_char,
};

verus! {

/// Number of languages told apart by keywords.
pub const LANGUAGE_COUNT: usize = 20;

/// Processor for source code.
pub struct AstProcessor;

/// The languages told apart by keywords, in the order they are tried.
pub open spec fn language_at(i: int) -> Seq<char> {
    if i == 0 {
        "rust"@
    } else if i == 1 {
        "python"@
    } else if i == 2 {
        "javascript"@
    } else if i == 3 {
        "typescript"@
    } else if i == 4 {
        "go"@
    } else if i == 5 {
        "java"@
    } else if i == 6 {
        "c"@
    } else if i == 7 {
        "cpp"@
    } else if i == 8 {
        "ruby"@
    } else if i == 9 {
        "php"@
    } else if i == 10 {
        "swift"@
    } else if i == 11 {
        "kotlin"@
    } else if i == 12 {
        "scala"@
    } else if i == 13 {
        "haskell"@
    } else if i == 14 {
        "lua"@
    } else if i == 15 {
        "shell"@
    } else if i == 16 {
        "sql"@
    } else if i == 17 {
        "yaml"@
    } else if i == 18 {
        "toml"@
    } else {
        "dockerfile"@
    }
}

/// The keywords that mark language `i`.
pub open spec fn keywords_at(i: int) -> Seq<Seq<char>> {
    if i == 0 {
        seq!["fn "@, "let mut "@, "use "@, "impl "@, "struct "@, "enum "@, "pub "@, "crate::"@]
    } else if i == 1 {
        seq!["def "@, "import "@, "class "@, "async def"@, "if __name__"@, "self"@, "None"@]
    } else if i == 2 {
        seq!["function"@, "const "@, "let "@, "var "@, "import "@, "export "@, "=>"@]
    } else if i == 3 {
        seq![": string"@, ": number"@, ": boolean"@, "interface "@, "type "@, "<T>"@]
    } else if i == 4 {
        seq!["func "@, "package "@, "import ("@, "defer "@, "go "@, "chan "@]
    } else if i == 5 {
        seq!["public class"@, "private "@, "protected "@, "import java."@, "@Override"@, "void "@]
    } else if i == 6 {
        seq!["#include"@, "int main("@, "void "@, "printf("@, "malloc("@, "struct "@]
    } else if i == 7 {
        seq!["#include"@, "int main("@, "std::"@, "template<"@, "class "@, "virtual "@]
    } else if i == 8 {
        seq!["def "@, "class "@, "end"@, "require "@, "attr_"@, "gem "@]
    } else if i == 9 {
        seq!["<?php"@, "function "@, "echo "@, "$"@, "namespace "@]
    } else if i == 10 {
        seq!["func "@, "import "@, "class "@, "struct "@, "var "@, "let "@]
    } else if i == 11 {
        seq!["fun "@, "val "@, "var "@, "class "@, "import "@, "package "@]
    } else if i == 12 {
        seq!["def "@, "val "@, "var "@, "object "@, "class "@, "import "@]
    } else if i == 13 {
        seq!["main ="@, "::"@, "->"@, "where"@, "data "@, "module "@]
    } else if i == 14 {
        seq!["function "@, "local "@, "end"@, "require "@, "::"@]
    } else if i == 15 {
        seq!["#!/bin"@, "#!/usr"@, "#!/bash"@, "export "@, "echo \""@, "if ["@, "then"@, "fi"@, "done"@]
    } else if i == 16 {
        seq!["SELECT"@, "FROM "@, "WHERE"@, "INSERT"@, "CREATE TABLE"@, "ALTER TABLE"@]
    } else if i == 17 {
        seq!["---"@, ":"@, "  - "@]
    } else if i == 18 {
        seq!["[package]"@, "[dependencies]"@, "edition ="@]
    } else {
        seq!["FROM "@, "RUN "@, "CMD "@, "COPY "@, "WORKDIR "@, "EXPOSE "@]
    }
}


/// How many of the keywords `ks` occur in `s`.
pub open spec fn keyword_hits(s: Seq<char>, ks: Seq<Seq<char>>) -> nat
    decreases ks.len(),
{
    if ks.len() == 0 {
        0
    } else {
        keyword_hits(s, ks.drop_last()) + if contains(s, ks.last()) {
            1nat
        } else {
            0nat
        }
    }
}

/// The best of the first `n` languages: the first one with the most keyword
/// hits, with its hit count, where any language has a hit.
pub open spec fn best_upto(s: Seq<char>, n: int) -> Option<(int, nat)>
    decreases n,
{
    if n <= 0 {
        None
    } else {
        let prev = best_upto(s, n - 1);
        let c = keyword_hits(s, keywords_at(n - 1));
        if c > 0 && (match prev {
            Some(p) => c > p.1,
            None => true,
        }) {
            Some((n - 1, c))
        } else {
            prev
        }
    }
}

/// The language of a source text, by keyword hits.
pub open spec fn detected_language(s: Seq<char>) -> Option<Seq<char>> {
    match best_upto(s, LANGUAGE_COUNT as int) {
        Some(p) => Some(language_at(p.0)),
        None => None,
    }
}

/// What one trimmed line contributes to the imports of `lang`, and whether a
/// Go import block is open after it.
pub open spec fn import_step(lang: Seq<char>, l: Seq<char>, in_block: bool) -> (Option<Seq<char>>, bool) {
    if lang == "rust"@ {
        (if starts_with(l, "use "@) && ends_with(l, ";"@) {
            Some(l.subrange(4, l.len() - 1))
        } else {
            None
        }, in_block)
    } else if lang == "python"@ {
        (if starts_with(l, "import "@) {
            Some(l.subrange(7, l.len() as int))
        } else if starts_with(l, "from "@) && contains(l, " import "@) {
            Some(l)
        } else {
            None
        }, in_block)
    } else if lang == "javascript"@ || lang == "typescript"@ {
        (if starts_with(l, "import "@) || (starts_with(l, "const "@) && contains(l, "require("@)) {
            Some(l)
        } else {
            None
        }, in_block)
    } else if lang == "go"@ {
        if starts_with(l, "import ("@) {
            (None, true)
        } else if in_block && l == ")"@ {
            (None, false)
        } else if in_block {
            (Some(trim_char(l, '"')), true)
        } else if starts_with(l, "import "@) && !contains_char(l, '(') {
            (Some(trim_char(l.subrange(7, l.len() as int), '"')), false)
        } else {
            (None, false)
        }
    } else {
        (None, in_block)
    }
}

/// The imports of `lang` in the lines `ls`.
pub open spec fn imports_fold(lang: Seq<char>, ls: Seq<Seq<char>>, in_block: bool) -> Seq<Seq<char>>
    decreases ls.len(),
{
    if ls.len() == 0 {
        seq![]
    } else {
        let (item, next) = import_step(lang, trim(ls[0]), in_block);
        let rest = imports_fold(lang, ls.drop_first(), next);
        match item {
            Some(x) => seq![x] + rest,
            None => rest,
        }
    }
}

/// The imports of a source text in language `lang`.
pub open spec fn source_imports(s: Seq<char>, lang: Seq<char>) -> Seq<Seq<char>> {
    imports_fold(lang, lines(s), false)
}

/// Whether a trimmed line opens a function in language `lang`.
pub open spec fn function_line(lang: Seq<char>, l: Seq<char>) -> bool {
    if lang == "rust"@ || lang == "swift"@ || lang == "kotlin"@ || lang == "scala"@ {
        starts_with(l, "fn "@) || starts_with(l, "func "@) || starts_with(l, "fun "@)
    } else if lang == "python"@ || lang == "ruby"@ {
        starts_with(l, "def "@)
    } else if lang == "javascript"@ || lang == "typescript"@ {
        starts_with(l, "function "@)
    } else if lang == "go"@ {
        starts_with(l, "func "@)
    } else if lang == "java"@ {
        starts_with(l, "public "@) || starts_with(l, "private "@) || starts_with(l, "protected "@)
    } else {
        false
    }
}

/// How many of the lines `ls` open a function in `lang`.
pub open spec fn function_lines(lang: Seq<char>, ls: Seq<Seq<char>>) -> nat
    decreases ls.len(),
{
    if ls.len() == 0 {
        0
    } else {
        (if function_line(lang, trim(ls[0])) {
            1nat
        } else {
            0nat
        }) + function_lines(lang, ls.drop_first())
    }
}

/// The function count of a source text in language `lang`.
pub open spec fn function_count(s: Seq<char>, lang: Seq<char>) -> nat {
    function_lines(lang, lines(s))
}

/// The observations of a source text of `n` bytes: language, line count and
/// size; for a detected language also its imports and function count, where
/// there are any.
pub open spec fn ast_observations(id: Seq<char>, s: Seq<char>, n: nat) -> Seq<ObsModel> {
    let lang = detected_language(s);
    let name = match lang {
        Some(l) => l,
        None => "unknown"@,
    };
    let count = lines(s).len();
    let a = seq![
        with_meta(
            with_meta(obs(id + "_language"@, "ast.language"@, utf8(name), "text/plain"@), "language"@, name),
            "source_observation"@,
            id,
        ),
        with_meta(
            with_meta(
                with_meta(obs(id + "_lines"@, "ast.metadata"@, utf8(decimal(count)), "text/plain"@), "metric"@, "line_count"@),
                "value"@,
                decimal(count),
            ),
            "source_observation"@,
            id,
        ),
        size_obs(id, "ast.metadata"@, n),
    ];
    let b: Seq<ObsModel> = match lang {
        Some(l) => {
            let imps = source_imports(s, l);
            let fc = function_count(s, l);
            (if imps.len() > 0 {
                seq![with_meta(
                    with_meta(
                        with_meta(obs(id + "_imports"@, "ast.imports"@, utf8(json_string_list(imps)), "application/json"@), "language"@, l),
                        "import_count"@,
                        decimal(imps.len()),
                    ),
                    "source_observation"@,
                    id,
                )]
            } else {
                seq![]
            }) + (if fc > 0 {
                seq![with_meta(
                    with_meta(
                        with_meta(
                            with_meta(obs(id + "_functions"@, "ast.metadata"@, utf8(decimal(fc)), "text/plain"@), "metric"@, "function_count"@),
                            "value"@,
                            decimal(fc),
                        ),
                        "language"@,
                        l,
                    ),
                    "source_observation"@,
                    id,
                )]
            } else {
                seq![]
            })
        },
        None => seq![],
    };
    a + b
}

/// Language `i` and its keywords.
fn language_keywords(i: usize) -> (r: (&'static str, Vec<&'static str>))
    requires
        i < LANGUAGE_COUNT,
    ensures
        r.0@ == language_at(i as int),
        r.1@.map_values(|k: &'static str| k@) == keywords_at(i as int),
{
    if i == 0 {
        let v = vec!["fn ", "let mut ", "use ", "impl ", "struct ", "enum ", "pub ", "crate::"];
        assert(v@.map_values(|k: &'static str| k@) =~= seq!["fn "@, "let mut "@, "use "@, "impl "@, "struct "@, "enum "@, "pub "@, "crate::"@]);
        ("rust", v)
    } else if i == 1 {
        let v = vec!["def ", "import ", "class ", "async def", "if __name__", "self", "None"];
        assert(v@.map_values(|k: &'static str| k@) =~= seq!["def "@, "import "@, "class "@, "async def"@, "if __name__"@, "self"@, "None"@]);
        ("python", v)
    } else if i == 2 {
        let v = vec!["function", "const ", "let ", "var ", "import ", "export ", "=>"];
        assert(v@.map_values(|k: &'static str| k@) =~= seq!["function"@, "const "@, "let "@, "var "@, "import "@, "export "@, "=>"@]);
        ("javascript", v)
    } else if i == 3 {
        let v = vec![": string", ": number", ": boolean", "interface ", "type ", "<T>"];
        assert(v@.map_values(|k: &'static str| k@) =~= seq![": string"@, ": number"@, ": boolean"@, "interface "@, "type "@, "<T>"@]);
        ("typescript", v)
    } else if i == 4 {
        let v = vec!["func ", "package ", "import (", "defer ", "go ", "chan "];
        assert(v@.map_values(|k: &'static str| k@) =~= seq!["func "@, "package "@, "import ("@, "defer "@, "go "@, "chan "@]);
        ("go", v)
    } else if i == 5 {
        let v = vec!["public class", "private ", "protected ", "import java.", "@Override", "void "];
        assert(v@.map_values(|k: &'static str| k@) =~= seq!["public class"@, "private "@, "protected "@, "import java."@, "@Override"@, "void "@]);
        ("java", v)
    } else if i == 6 {
        let v = vec!["#include", "int main(", "void ", "printf(", "malloc(", "struct "];
        assert(v@.map_values(|k: &'static str| k@) =~= seq!["#include"@, "int main("@, "void "@, "printf("@, "malloc("@, "struct "@]);
        ("c", v)
    } else if i == 7 {
        let v = vec!["#include", "int main(", "std::", "template<", "class ", "virtual "];
        assert(v@.map_values(|k: &'static str| k@) =~= seq!["#include"@, "int main("@, "std::"@, "template<"@, "class "@, "virtual "@]);
        ("cpp", v)
    } else if i == 8 {
        let v = vec!["def ", "class ", "end", "require ", "attr_", "gem "];
        assert(v@.map_values(|k: &'static str| k@) =~= seq!["def "@, "class "@, "end"@, "require "@, "attr_"@, "gem "@]);
        ("ruby", v)
    } else if i == 9 {
        let v = vec!["<?php", "function ", "echo ", "$", "namespace "];
        assert(v@.map_values(|k: &'static str| k@) =~= seq!["<?php"@, "function "@, "echo "@, "$"@, "namespace "@]);
        ("php", v)
    } else if i == 10 {
        let v = vec!["func ", "import ", "class ", "struct ", "var ", "let "];
        assert(v@.map_values(|k: &'static str| k@) =~= seq!["func "@, "import "@, "class "@, "struct "@, "var "@, "let "@]);
        ("swift", v)
    } else if i == 11 {
        let v = vec!["fun ", "val ", "var ", "class ", "import ", "package "];
        assert(v@.map_values(|k: &'static str| k@) =~= seq!["fun "@, "val "@, "var "@, "class "@, "import "@, "package "@]);
        ("kotlin", v)
    } else if i == 12 {
        let v = vec!["def ", "val ", "var ", "object ", "class ", "import "];
        assert(v@.map_values(|k: &'static str| k@) =~= seq!["def "@, "val "@, "var "@, "object "@, "class "@, "import "@]);
        ("scala", v)
    } else if i == 13 {
        let v = vec!["main =", "::", "->", "where", "data ", "module "];
        assert(v@.map_values(|k: &'static str| k@) =~= seq!["main ="@, "::"@, "->"@, "where"@, "data "@, "module "@]);
        ("haskell", v)
    } else if i == 14 {
        let v = vec!["function ", "local ", "end", "require ", "::"];
        assert(v@.map_values(|k: &'static str| k@) =~= seq!["function "@, "local "@, "end"@, "require "@, "::"@]);
        ("lua", v)
    } else if i == 15 {
        let v = vec!["#!/bin", "#!/usr", "#!/bash", "export ", "echo \"", "if [", "then", "fi", "done"];
        assert(v@.map_values(|k: &'static str| k@) =~= seq!["#!/bin"@, "#!/usr"@, "#!/bash"@, "export "@, "echo \""@, "if ["@, "then"@, "fi"@, "done"@]);
        ("shell", v)
    } else if i == 16 {
        let v = vec!["SELECT", "FROM ", "WHERE", "INSERT", "CREATE TABLE", "ALTER TABLE"];
        assert(v@.map_values(|k: &'static str| k@) =~= seq!["SELECT"@, "FROM "@, "WHERE"@, "INSERT"@, "CREATE TABLE"@, "ALTER TABLE"@]);
        ("sql", v)
    } else if i == 17 {
        let v = vec!["---", ":", "  - "];
        assert(v@.map_values(|k: &'static str| k@) =~= seq!["---"@, ":"@, "  - "@]);
        ("yaml", v)
    } else if i == 18 {
        let v = vec!["[package]", "[dependencies]", "edition ="];
        assert(v@.map_values(|k: &'static str| k@) =~= seq!["[package]"@, "[dependencies]"@, "edition ="@]);
        ("toml", v)
    } else {
        let v = vec!["FROM ", "RUN ", "CMD ", "COPY ", "WORKDIR ", "EXPOSE "];
        assert(v@.map_values(|k: &'static str| k@) =~= seq!["FROM "@, "RUN "@, "CMD "@, "COPY "@, "WORKDIR "@, "EXPOSE "@]);
        ("dockerfile", v)
    }
}

/// How many of the keywords occur in `s`.
fn keyword_count(s: &[char], ks: &Vec<&'static str>) -> (r: usize)
    ensures
        r == keyword_hits(s@, ks@.map_values(|k: &'static str| k@)),
{
    let ghost kv = ks@.map_values(|k: &'static str| k@);
    let mut n: usize = 0;
    let mut i: usize = 0;
    assert(kv.subrange(0, 0) =~= Seq::<Seq<char>>::empty());
    while i < ks.len()
        invariant
            i <= ks@.len(),
            kv == ks@.map_values(|k: &'static str| k@),
            n == keyword_hits(s@, kv.subrange(0, i as int)),
            n <= i,
        decreases ks@.len() - i,
    {
        assert(kv.subrange(0, i + 1).drop_last() == kv.subrange(0, i as int));
        if contains_str(s, ks[i]) {
            n += 1;
        }
        i += 1;
    }
    assert(kv.subrange(0, ks@.len() as int) == kv);
    n
}

/// What one trimmed line contributes to the imports of `lang`.
fn import_line(lang: &str, l: &[char], in_block: bool) -> (r: (Option<String>, bool))
    ensures
        (match r.0 {
            Some(s) => Some(s@),
            None => None,
        }) == import_step(lang@, l@, in_block).0,
        r.1 == import_step(lang@, l@, in_block).1,
{
    if same_text(lang, "rust") {
        if starts_with_str(l, "use ") && ends_with_str(l, ";") {
            proof {
                reveal_strlit("use ");
                reveal_strlit(";");
                crate::text::lemma_ends_with_char(l@, ';');
                assert(";"@ == seq![';']);
                assert(l@.subrange(0, 4)[3] == ' ');
            }
            (Some(string_of(&l[4..l.len() - 1])), in_block)
        } else {
            (None, in_block)
        }
    } else if same_text(lang, "python") {
        if starts_with_str(l, "import ") {
            proof {
                reveal_strlit("import ");
            }
            (Some(string_of(&l[7..l.len()])), in_block)
        } else if starts_with_str(l, "from ") && contains_str(l, " import ") {
            (Some(string_of(l)), in_block)
        } else {
            (None, in_block)
        }
    } else if same_text(lang, "javascript") || same_text(lang, "typescript") {
        if starts_with_str(l, "import ") || (starts_with_str(l, "const ") && contains_str(l, "require(")) {
            (Some(string_of(l)), in_block)
        } else {
            (None, in_block)
        }
    } else if same_text(lang, "go") {
        if starts_with_str(l, "import (") {
            (None, true)
        } else if in_block && crate::text::same_chars(l, chars_of(")").as_slice()) {
            (None, false)
        } else if in_block {
            (Some(string_of(trimmed_char(l, '"'))), true)
        } else if starts_with_str(l, "import ") && !contains_char_exec(l, '(') {
            proof {
                reveal_strlit("import ");
            }
            (Some(string_of(trimmed_char(&l[7..l.len()], '"'))), false)
        } else {
            (None, false)
        }
    } else {
        (None, in_block)
    }
}

/// Whether a trimmed line opens a function in `lang`.
fn is_function_line(lang: &str, l: &[char]) -> (r: bool)
    ensures
        r == function_line(lang@, l@),
{
    if same_text(lang, "rust") || same_text(lang, "swift") || same_text(lang, "kotlin") || same_text(lang, "scala") {
        starts_with_str(l, "fn ") || starts_with_str(l, "func ") || starts_with_str(l, "fun ")
    } else if same_text(lang, "python") || same_text(lang, "ruby") {
        starts_with_str(l, "def ")
    } else if same_text(lang, "javascript") || same_text(lang, "typescript") {
        starts_with_str(l, "function ")
    } else if same_text(lang, "go") {
        starts_with_str(l, "func ")
    } else if same_text(lang, "java") {
        starts_with_str(l, "public ") || starts_with_str(l, "private ") || starts_with_str(l, "protected ")
    } else {
        false
    }
}

impl AstProcessor {
    pub fn new() -> (r: Self) {
        AstProcessor
    }

    /// Processor name.
    pub fn name(&self) -> (r: &'static str)
        ensures
            r@ == "ast"@,
    {
        "ast"
    }

    /// Processor description.
    pub fn description(&self) -> (r: &'static str)
        ensures
            r@ == "Detects programming languages, extracts imports, symbols, and structural metadata"@,
    {
        "Detects programming languages, extracts imports, symbols, and structural metadata"
    }

    /// Content types this processor accepts.
    pub fn content_types(&self) -> (r: Vec<&'static str>)
        ensures
            r@.map_values(|s: &'static str| s@) == seq![
                "text/x-rust"@, "text/x-python"@, "text/javascript"@, "text/typescript"@,
                "text/x-go"@, "text/x-java"@, "text/x-c"@, "text/x-cpp"@, "text/x-ruby"@,
                "text/x-php"@, "text/x-swift"@, "text/x-kotlin"@, "text/x-scala"@,
                "text/x-haskell"@, "text/x-lua"@, "text/x-sh"@, "text/x-sql"@,
                "text/x-yaml"@, "text/x-toml"@, "text/x-dockerfile"@,
                "application/x-rust"@, "application/x-python"@,
                "text/plain"@,
            ],
    {
        let r = vec![
            "text/x-rust", "text/x-python", "text/javascript", "text/typescript",
            "text/x-go", "text/x-java", "text/x-c", "text/x-cpp", "text/x-ruby",
            "text/x-php", "text/x-swift", "text/x-kotlin", "text/x-scala",
            "text/x-haskell", "text/x-lua", "text/x-sh", "text/x-sql",
            "text/x-yaml", "text/x-toml", "text/x-dockerfile",
            "application/x-rust", "application/x-python",
            "text/plain",
        ];
        assert(r@.map_values(|s: &'static str| s@) =~= seq![
            "text/x-rust"@, "text/x-python"@, "text/javascript"@, "text/typescript"@,
            "text/x-go"@, "text/x-java"@, "text/x-c"@, "text/x-cpp"@, "text/x-ruby"@,
            "text/x-php"@, "text/x-swift"@, "text/x-kotlin"@, "text/x-scala"@,
            "text/x-haskell"@, "text/x-lua"@, "text/x-sh"@, "text/x-sql"@,
            "text/x-yaml"@, "text/x-toml"@, "text/x-dockerfile"@,
            "application/x-rust"@, "application/x-python"@,
            "text/plain"@,
        ]);
        r
    }

    /// The language of a source text: the first of the known languages with
    /// the most keyword hits, where any has a hit.
    pub fn detect_language(&self, source: &str) -> (r: Option<&'static str>)
        ensures
            match detected_language(source@) {
                Some(l) => r matches Some(s) && s@ == l,
                None => r is None,
            },
    {
        let c = chars_of(source);
        let c = c.as_slice();
        let mut best: Option<(&'static str, usize)> = None;
        let mut i: usize = 0;
        while i < LANGUAGE_COUNT
            invariant
                i <= LANGUAGE_COUNT,
                c@ == source@,
                match best_upto(source@, i as int) {
                    Some(p) => best matches Some(b) && b.0@ == language_at(p.0) && b.1 == p.1,
                    None => best is None,
                },
            decreases LANGUAGE_COUNT - i,
        {
            let (lang, keywords) = language_keywords(i);
            let count = keyword_count(c, &keywords);
            let better = match best {
                Some(b) => count > b.1,
                None => true,
            };
            if count > 0 && better {
                best = Some((lang, count));
            }
            i += 1;
        }
        match best {
            Some(b) => Some(b.0),
            None => None,
        }
    }

    /// The imports of a source text in language `lang`.
    pub fn extract_imports(&self, source: &str, lang: &str) -> (r: Vec<String>)
        ensures
            texts(r@) == source_imports(source@, lang@),
    {
        let text = chars_of(source);
        let text = text.as_slice();
        let mut imports: Vec<String> = Vec::new();
        let mut in_block = false;
        let mut pos: usize = 0;
        assert(text@.subrange(0, text@.len() as int) == text@);
        assert(texts(imports@) =~= Seq::<Seq<char>>::empty());
        while pos < text.len()
            invariant
                pos <= text@.len(),
                text@ == source@,
                texts(imports@) + imports_fold(lang@, lines(text@.subrange(pos as int, text@.len() as int)), in_block)
                    == source_imports(source@, lang@),
            decreases text@.len() - pos,
        {
            let (a, b, n) = next_line(text, pos);
            let line = trimmed(&text[a..b]);
            let ghost rest = lines(text@.subrange(pos as int, text@.len() as int));
            let ghost before = texts(imports@);
            let ghost was = in_block;
            let (item, next) = import_line(lang, line, in_block);
            assert(rest.drop_first() == lines(text@.subrange(n as int, text@.len() as int)));
            match item {
                Some(x) => {
                    let ghost xv = x@;
                    imports.push(x);
                    assert(texts(imports@) == before.push(xv));
                    assert(before + imports_fold(lang@, rest, was) == before.push(xv) + imports_fold(lang@, rest.drop_first(), next));
                },
                None => {},
            }
            in_block = next;
            pos = n;
        }
        assert(text@.subrange(pos as int, text@.len() as int).len() == 0);
        assert(texts(imports@) + Seq::<Seq<char>>::empty() == texts(imports@));
        imports
    }

    /// How many lines of a source text open a function in language `lang`.
    pub fn count_functions(&self, source: &str, lang: &str) -> (r: usize)
        ensures
            r == function_count(source@, lang@),
    {
        let text = chars_of(source);
        let text = text.as_slice();
        let mut n: usize = 0;
        let mut pos: usize = 0;
        assert(text@.subrange(0, text@.len() as int) == text@);
        while pos < text.len()
            invariant
                pos <= text@.len(),
                text@ == source@,
                n <= pos,
                n + function_lines(lang@, lines(text@.subrange(pos as int, text@.len() as int))) == function_count(source@, lang@),
            decreases text@.len() - pos,
        {
            let (a, b, next) = next_line(text, pos);
            let line = trimmed(&text[a..b]);
            let ghost rest = lines(text@.subrange(pos as int, text@.len() as int));
            assert(rest.drop_first() == lines(text@.subrange(next as int, text@.len() as int)));
            if is_function_line(lang, line) {
                n += 1;
            }
            pos = next;
        }
        assert(text@.subrange(pos as int, text@.len() as int).len() == 0);
        n
    }

    /// Language, line count, size, imports and function count of source code;
    /// text that is not valid UTF-8 is refused.
    pub fn process(
        &self,
        id: &str,
        data: &[u8],
        _content_type: Option<&str>,
        _metadata: HashMap<String, String>,
    ) -> (r: Result<Vec<ProcessedObservation>, ProcessorError>)
        ensures
            r is Ok <==> valid_utf8(data@),
            r matches Err(e) ==> e is InvalidInput,
            r matches Ok(v) ==> obs_models(v@) == ast_observations(id@, decode_utf8(data@), data@.len()),
    {
        let source = match str_from_utf8(data) {
            Ok(s) => s,
            Err(e) => {
                return Err(ProcessorError::InvalidInput(e));
            },
        };
        let lang = self.detect_language(source);
        let lang_name = match lang {
            Some(l) => l,
            None => "unknown",
        };
        let mut results: Vec<ProcessedObservation> = Vec::new();
        push_obs(
            &mut results,
            ProcessedObservation::new(suffixed(id, "_language"), "ast.language", text_bytes(lang_name), "text/plain")
                .with_metadata("language", lang_name)
                .with_metadata("source_observation", id),
        );
        let chars = chars_of(source);
        let line_count = count_lines(chars.as_slice());
        let count_text = decimal_text(line_count);
        push_obs(
            &mut results,
            ProcessedObservation::new(suffixed(id, "_lines"), "ast.metadata", text_bytes(count_text.as_str()), "text/plain")
                .with_metadata("metric", "line_count")
                .with_metadata("value", count_text.as_str())
                .with_metadata("source_observation", id),
        );
        push_obs(&mut results, size_observation(id, "ast.metadata", data.len()));
        let ghost a = obs_models(results@);
        if let Some(lang_name) = lang {
            let imports = self.extract_imports(source, lang_name);
            assert(imports@.len() == source_imports(source@, lang_name@).len()) by {
                assert(texts(imports@).len() == imports@.len());
            }
            if imports.len() > 0 {
                let json = to_json_string_list(&imports);
                push_obs(
                    &mut results,
                    ProcessedObservation::new(suffixed(id, "_imports"), "ast.imports", text_bytes(json.as_str()), "application/json")
                        .with_metadata("language", lang_name)
                        .with_metadata("import_count", decimal_text(imports.len()).as_str())
                        .with_metadata("source_observation", id),
                );
            }
            let ghost ab = obs_models(results@);
            let func_count = self.count_functions(source, lang_name);
            if func_count > 0 {
                let fc = decimal_text(func_count);
                push_obs(
                    &mut results,
                    ProcessedObservation::new(suffixed(id, "_functions"), "ast.metadata", text_bytes(fc.as_str()), "text/plain")
                        .with_metadata("metric", "function_count")
                        .with_metadata("value", fc.as_str())
                        .with_metadata("language", lang_name)
                        .with_metadata("source_observation", id),
                );
            }
            proof {
                let imps = source_imports(source@, lang_name@);
                if imps.len() == 0 {
                    assert(ab =~= a);
                }
                if func_count == 0 {
                    assert(obs_models(results@) =~= ab);
                }
            }
        }
        assert(obs_models(results@) =~= ast_observations(id@, source@, data@.len()));
        Ok(results)
    }
}

} // verus!
