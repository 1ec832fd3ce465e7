//! Programming languages known to the repository analyzer, and their
//! detection from file names and from source text.
use vstd::prelude::*;
use crate::text::{
    chars_of, contains, contains_str, ends_with, ends_with_str, first_line, lines, next_line,
    starts_with, starts_with_str,
};

verus! {

/// Supported programming languages for repository intelligence.
#[derive(Debug, Clone, Copy, PartialEq, Eq, Hash, Structural)]
pub enum Language {
    Rust,
    Python,
    Go,
    Java,
    C,
    Cpp,
    CSharp,
    JavaScript,
    TypeScript,
    PHP,
    Kotlin,
    Swift,
    Zig,
    Lua,
    Wasm,
}

/// What `str::to_lowercase` returns for a text.
pub uninterp spec fn lowercase(s: Seq<char>) -> Seq<char>;

/// Whether every character of a text is ASCII.
pub open spec fn is_ascii_text(s: Seq<char>) -> bool {
    forall|i: int| 0 <= i < s.len() ==> (#[trigger] s[i] as u32) < 128
}

/// An ASCII upper-case letter mapped to its lower-case form; any other
/// character unchanged.
pub open spec fn ascii_lower_char(c: char) -> char {
    if 65 <= (c as u32) && (c as u32) <= 90 {
        ((c as u32) + 32) as char
    } else {
        c
    }
}

/// A text with its ASCII upper-case letters lower-cased.
pub open spec fn ascii_lower(s: Seq<char>) -> Seq<char> {
    s.map_values(|c: char| ascii_lower_char(c))
}

/// The lower-cased form of a text as `str::to_lowercase` gives it: for an
/// all-ASCII text its ASCII lower-casing, otherwise the named result.
pub open spec fn lower_text(s: Seq<char>) -> Seq<char> {
    if is_ascii_text(s) {
        ascii_lower(s)
    } else {
        lowercase(s)
    }
}

/// Calls `str::to_lowercase` (std). Its result is named `lowercase`: Unicode
/// lower-casing of every character. Of an all-ASCII text it states what the
/// documentation gives: each ASCII letter becomes its lower-case form and
/// every other character stays. Of other texts nothing more is stated.
#[verifier::external_body]
pub(crate) fn to_lowercase(s: &str) -> (r: String)
    ensures
        r@ == lowercase(s@),
        is_ascii_text(s@) ==> r@ == ascii_lower(s@),
        r@ == lower_text(s@),
{
    s.to_lowercase()
}

/// The language that a lower-cased file name selects by its suffix.
pub open spec fn lang_from_lower(p: Seq<char>) -> Option<Language> {
    if ends_with(p, ".rs"@) {
        Some(Language::Rust)
    } else if ends_with(p, ".py"@) || ends_with(p, ".pyw"@) {
        Some(Language::Python)
    } else if ends_with(p, ".go"@) {
        Some(Language::Go)
    } else if ends_with(p, ".java"@) {
        Some(Language::Java)
    } else if ends_with(p, ".c"@) || ends_with(p, ".h"@) {
        Some(Language::C)
    } else if ends_with(p, ".cpp"@) || ends_with(p, ".cxx"@) || ends_with(p, ".cc"@) || ends_with(
        p,
        ".hpp"@,
    ) || ends_with(p, ".hxx"@) {
        Some(Language::Cpp)
    } else if ends_with(p, ".cs"@) {
        Some(Language::CSharp)
    } else if ends_with(p, ".js"@) || ends_with(p, ".mjs"@) {
        Some(Language::JavaScript)
    } else if ends_with(p, ".ts"@) || ends_with(p, ".tsx"@) {
        Some(Language::TypeScript)
    } else if ends_with(p, ".php"@) {
        Some(Language::PHP)
    } else if ends_with(p, ".kt"@) || ends_with(p, ".kts"@) {
        Some(Language::Kotlin)
    } else if ends_with(p, ".swift"@) {
        Some(Language::Swift)
    } else if ends_with(p, ".zig"@) {
        Some(Language::Zig)
    } else if ends_with(p, ".lua"@) {
        Some(Language::Lua)
    } else if ends_with(p, ".wasm"@) {
        Some(Language::Wasm)
    } else {
        None
    }
}

/// The language that the keyword heuristic selects for a source text.
pub open spec fn lang_from_content(c: Seq<char>) -> Option<Language> {
    let sb = first_line(c);
    if starts_with(sb, "#!/usr/bin/env python"@) || starts_with(sb, "#!/usr/bin/python"@)
        || contains(sb, "python"@) {
        Some(Language::Python)
    } else if starts_with(sb, "#!/usr/bin/env node"@) || contains(sb, "node"@) {
        Some(Language::JavaScript)
    } else if starts_with(sb, "#!/usr/bin/env lua"@) || contains(sb, "lua"@) {
        Some(Language::Lua)
    } else if contains(c, "fn main("@) || contains(c, "let mut "@) {
        Some(Language::Rust)
    } else if contains(c, "package main"@) && contains(c, "func main("@) {
        Some(Language::Go)
    } else if contains(c, "def "@) || contains(c, "import "@) {
        Some(Language::Python)
    } else if contains(c, "public class "@) || contains(c, "public static void main"@) {
        Some(Language::Java)
    } else if contains(c, "function "@) && contains(c, "end"@) {
        Some(Language::Lua)
    } else if (contains(c, ": string"@) || contains(c, ": number"@) || contains(c, "interface "@))
        && (contains(c, "const "@) || contains(c, "let "@)) {
        Some(Language::TypeScript)
    } else {
        None
    }
}

/// The human-readable name of a language.
pub open spec fn lang_name(l: Language) -> Seq<char> {
    match l {
        Language::Rust => "Rust"@,
        Language::Python => "Python"@,
        Language::Go => "Go"@,
        Language::Java => "Java"@,
        Language::C => "C"@,
        Language::Cpp => "C++"@,
        Language::CSharp => "C#"@,
        Language::JavaScript => "JavaScript"@,
        Language::TypeScript => "TypeScript"@,
        Language::PHP => "PHP"@,
        Language::Kotlin => "Kotlin"@,
        Language::Swift => "Swift"@,
        Language::Zig => "Zig"@,
        Language::Lua => "Lua"@,
        Language::Wasm => "WASM"@,
    }
}

/// The file extensions of a language.
pub open spec fn lang_extensions(l: Language) -> Seq<Seq<char>> {
    match l {
        Language::Rust => seq![seq!['r', 's']],
        Language::Python => seq![seq!['p', 'y'], seq!['p', 'y', 'w']],
        Language::Go => seq![seq!['g', 'o']],
        Language::Java => seq![seq!['j', 'a', 'v', 'a']],
        Language::C => seq![seq!['c'], seq!['h']],
        Language::Cpp => seq![seq!['c', 'p', 'p'], seq!['c', 'x', 'x'], seq!['c', 'c'], seq!['h', 'p', 'p'], seq!['h', 'x', 'x']],
        Language::CSharp => seq![seq!['c', 's']],
        Language::JavaScript => seq![seq!['j', 's'], seq!['m', 'j', 's']],
        Language::TypeScript => seq![seq!['t', 's'], seq!['t', 's', 'x']],
        Language::PHP => seq![seq!['p', 'h', 'p']],
        Language::Kotlin => seq![seq!['k', 't'], seq!['k', 't', 's']],
        Language::Swift => seq![seq!['s', 'w', 'i', 'f', 't']],
        Language::Zig => seq![seq!['z', 'i', 'g']],
        Language::Lua => seq![seq!['l', 'u', 'a']],
        Language::Wasm => seq![seq!['w', 'a', 's', 'm']],
    }
}

impl Language {
    /// Detect language from a filename/path: the path is lower-cased, then
    /// matched by suffix.
    pub fn from_filename(path: &str) -> (r: Option<Self>)
        ensures
            r == lang_from_lower(lower_text(path@)),
    {
        let lower = to_lowercase(path);
        Self::from_lowercase_name(lower.as_str())
    }

    /// Detect language from an already lower-cased filename, by suffix.
    pub fn from_lowercase_name(lower: &str) -> (r: Option<Self>)
        ensures
            r == lang_from_lower(lower@),
    {
        let p = chars_of(lower);
        let p = p.as_slice();
        if ends_with_str(p, ".rs") {
            return Some(Self::Rust);
        }
        if ends_with_str(p, ".py") || ends_with_str(p, ".pyw") {
            return Some(Self::Python);
        }
        if ends_with_str(p, ".go") {
            return Some(Self::Go);
        }
        if ends_with_str(p, ".java") {
            return Some(Self::Java);
        }
        if ends_with_str(p, ".c") || ends_with_str(p, ".h") {
            return Some(Self::C);
        }
        if ends_with_str(p, ".cpp") || ends_with_str(p, ".cxx") || ends_with_str(p, ".cc")
            || ends_with_str(p, ".hpp") || ends_with_str(p, ".hxx") {
            return Some(Self::Cpp);
        }
        if ends_with_str(p, ".cs") {
            return Some(Self::CSharp);
        }
        if ends_with_str(p, ".js") || ends_with_str(p, ".mjs") {
            return Some(Self::JavaScript);
        }
        if ends_with_str(p, ".ts") || ends_with_str(p, ".tsx") {
            return Some(Self::TypeScript);
        }
        if ends_with_str(p, ".php") {
            return Some(Self::PHP);
        }
        if ends_with_str(p, ".kt") || ends_with_str(p, ".kts") {
            return Some(Self::Kotlin);
        }
        if ends_with_str(p, ".swift") {
            return Some(Self::Swift);
        }
        if ends_with_str(p, ".zig") {
            return Some(Self::Zig);
        }
        if ends_with_str(p, ".lua") {
            return Some(Self::Lua);
        }
        if ends_with_str(p, ".wasm") {
            return Some(Self::Wasm);
        }
        None
    }

    /// Detect language from source content (keyword-based heuristic).
    pub fn from_content(content: &str) -> (r: Option<Self>)
        ensures
            r == lang_from_content(content@),
    {
        let c = chars_of(content);
        let c = c.as_slice();
        let shebang = first_line_exec(c);
        if starts_with_str(shebang, "#!/usr/bin/env python") || starts_with_str(
            shebang,
            "#!/usr/bin/python",
        ) || contains_str(shebang, "python") {
            return Some(Self::Python);
        }
        if starts_with_str(shebang, "#!/usr/bin/env node") || contains_str(shebang, "node") {
            return Some(Self::JavaScript);
        }
        if starts_with_str(shebang, "#!/usr/bin/env lua") || contains_str(shebang, "lua") {
            return Some(Self::Lua);
        }
        if contains_str(c, "fn main(") || contains_str(c, "let mut ") {
            return Some(Self::Rust);
        }
        if contains_str(c, "package main") && contains_str(c, "func main(") {
            return Some(Self::Go);
        }
        if contains_str(c, "def ") || contains_str(c, "import ") {
            return Some(Self::Python);
        }
        if contains_str(c, "public class ") || contains_str(c, "public static void main") {
            return Some(Self::Java);
        }
        if contains_str(c, "function ") && contains_str(c, "end") {
            return Some(Self::Lua);
        }
        if (contains_str(c, ": string") || contains_str(c, ": number") || contains_str(
            c,
            "interface ",
        )) && (contains_str(c, "const ") || contains_str(c, "let ")) {
            return Some(Self::TypeScript);
        }
        None
    }

    /// Human-readable name.
    pub fn name(&self) -> (r: &'static str)
        ensures
            r@ == lang_name(*self),
    {
        match self {
            Self::Rust => "Rust",
            Self::Python => "Python",
            Self::Go => "Go",
            Self::Java => "Java",
            Self::C => "C",
            Self::Cpp => "C++",
            Self::CSharp => "C#",
            Self::JavaScript => "JavaScript",
            Self::TypeScript => "TypeScript",
            Self::PHP => "PHP",
            Self::Kotlin => "Kotlin",
            Self::Swift => "Swift",
            Self::Zig => "Zig",
            Self::Lua => "Lua",
            Self::Wasm => "WASM",
        }
    }

    /// Extensions associated with this language.
    pub fn extensions(&self) -> (r: &'static [&'static str])
        ensures
            r@.map_values(|e: &'static str| e@) == lang_extensions(*self),
    {
        let r: &'static [&'static str] = match self {
            Self::Rust => &["rs"],
            Self::Python => &["py", "pyw"],
            Self::Go => &["go"],
            Self::Java => &["java"],
            Self::C => &["c", "h"],
            Self::Cpp => &["cpp", "cxx", "cc", "hpp", "hxx"],
            Self::CSharp => &["cs"],
            Self::JavaScript => &["js", "mjs"],
            Self::TypeScript => &["ts", "tsx"],
            Self::PHP => &["php"],
            Self::Kotlin => &["kt", "kts"],
            Self::Swift => &["swift"],
            Self::Zig => &["zig"],
            Self::Lua => &["lua"],
            Self::Wasm => &["wasm"],
        };
        proof {
            reveal_strlit("rs");
            reveal_strlit("py");
            reveal_strlit("pyw");
            reveal_strlit("go");
            reveal_strlit("java");
            reveal_strlit("c");
            reveal_strlit("h");
            reveal_strlit("cpp");
            reveal_strlit("cxx");
            reveal_strlit("cc");
            reveal_strlit("hpp");
            reveal_strlit("hxx");
            reveal_strlit("cs");
            reveal_strlit("js");
            reveal_strlit("mjs");
            reveal_strlit("ts");
            reveal_strlit("tsx");
            reveal_strlit("php");
            reveal_strlit("kt");
            reveal_strlit("kts");
            reveal_strlit("swift");
            reveal_strlit("zig");
            reveal_strlit("lua");
            reveal_strlit("wasm");
            assert(r@.map_values(|e: &'static str| e@) =~~= lang_extensions(*self));
        }
        r
    }
}

/// `s.lines().next().unwrap_or("")` on characters.
pub fn first_line_exec(s: &[char]) -> (r: &[char])
    ensures
        r@ == first_line(s@),
{
    if s.len() == 0 {
        assert(lines(s@) == Seq::<Seq<char>>::empty());
        return s;
    }
    let (a, b, _n) = next_line(s, 0);
    assert(s@.subrange(0, s@.len() as int) == s@);
    &s[a..b]
}


/// No extension belongs to two languages.
pub proof fn lemma_extension_tables_disjoint(l1: Language, l2: Language, i: int, j: int)
    requires
        l1 != l2,
        0 <= i < lang_extensions(l1).len(),
        0 <= j < lang_extensions(l2).len(),
    ensures
        lang_extensions(l1)[i] != lang_extensions(l2)[j],
{
    let a = lang_extensions(l1)[i];
    let b = lang_extensions(l2)[j];
    if a == b {
        assert(a.len() == b.len());
        assert(a[0] == b[0]);
        if a.len() > 1 {
            assert(a[1] == b[1]);
        }
        if a.len() > 2 {
            assert(a[2] == b[2]);
        }
    }
}

proof fn lemma_ends_with_concat(p: Seq<char>, t: Seq<char>, q: Seq<char>)
    ensures
        q.len() <= t.len() ==> (ends_with(p + t, q) <==> ends_with(t, q)),
        q.len() > t.len() && ends_with(p + t, q) ==> ends_with(q, t),
{
    let s = p + t;
    if q.len() <= t.len() {
        assert(s.subrange(s.len() - q.len(), s.len() as int) =~= t.subrange(t.len() - q.len(), t.len() as int));
    } else if ends_with(s, q) {
        assert forall|k: int| 0 <= k < t.len() implies q.subrange(q.len() - t.len(), q.len() as int)[k] == t[k] by {
            assert(s.subrange(s.len() - q.len(), s.len() as int)[q.len() - t.len() + k] == s[s.len() - t.len() + k]);
        }
        assert(q.subrange(q.len() - t.len(), q.len() as int) =~= t);
    }
}

proof fn lemma_ends_with_chars(s: Seq<char>, q: Seq<char>)
    ensures
        ends_with(s, q) ==> forall|j: int| 0 <= j < q.len() ==> s[s.len() - q.len() + j] == #[trigger] q[j],
{
    if ends_with(s, q) {
        assert forall|j: int| 0 <= j < q.len() implies s[s.len() - q.len() + j] == #[trigger] q[j] by {
            assert(s.subrange(s.len() - q.len(), s.len() as int)[j] == q[j]);
        }
    }
}

proof fn lemma_suffix_facts(p: Seq<char>, t: Seq<char>)
    ensures
        forall|q: Seq<char>| #![trigger ends_with(p + t, q)]
            (q.len() <= t.len() ==> (ends_with(p + t, q) <==> ends_with(t, q))) && (q.len() > t.len() && ends_with(
                p + t,
                q,
            ) ==> ends_with(q, t)),
        forall|q: Seq<char>| #![trigger ends_with(t, q)]
            ends_with(t, q) ==> forall|j: int| 0 <= j < q.len() ==> t[t.len() - q.len() + j] == #[trigger] q[j],
        forall|q: Seq<char>| #![trigger ends_with(q, t)]
            ends_with(q, t) ==> forall|j: int| 0 <= j < t.len() ==> q[q.len() - t.len() + j] == #[trigger] t[j],
{
    assert forall|q: Seq<char>| #![trigger ends_with(p + t, q)]
        (q.len() <= t.len() ==> (ends_with(p + t, q) <==> ends_with(t, q))) && (q.len() > t.len() && ends_with(p + t, q)
            ==> ends_with(q, t)) by {
        lemma_ends_with_concat(p, t, q);
    }
    assert forall|q: Seq<char>| #![trigger ends_with(t, q)]
        ends_with(t, q) implies forall|j: int| 0 <= j < q.len() ==> t[t.len() - q.len() + j] == #[trigger] q[j] by {
        lemma_ends_with_chars(t, q);
    }
    assert forall|q: Seq<char>| #![trigger ends_with(q, t)]
        ends_with(q, t) implies forall|j: int| 0 <= j < t.len() ==> q[q.len() - t.len() + j] == #[trigger] t[j] by {
        lemma_ends_with_chars(q, t);
    }
}

/// The suffixes that name languages, character by character.
proof fn lemma_suffix_literals()
    ensures
        ".rs"@ == seq!['.', 'r', 's'],
        ".py"@ == seq!['.', 'p', 'y'],
        ".pyw"@ == seq!['.', 'p', 'y', 'w'],
        ".go"@ == seq!['.', 'g', 'o'],
        ".java"@ == seq!['.', 'j', 'a', 'v', 'a'],
        ".c"@ == seq!['.', 'c'],
        ".h"@ == seq!['.', 'h'],
        ".cpp"@ == seq!['.', 'c', 'p', 'p'],
        ".cxx"@ == seq!['.', 'c', 'x', 'x'],
        ".cc"@ == seq!['.', 'c', 'c'],
        ".hpp"@ == seq!['.', 'h', 'p', 'p'],
        ".hxx"@ == seq!['.', 'h', 'x', 'x'],
        ".cs"@ == seq!['.', 'c', 's'],
        ".js"@ == seq!['.', 'j', 's'],
        ".mjs"@ == seq!['.', 'm', 'j', 's'],
        ".ts"@ == seq!['.', 't', 's'],
        ".tsx"@ == seq!['.', 't', 's', 'x'],
        ".php"@ == seq!['.', 'p', 'h', 'p'],
        ".kt"@ == seq!['.', 'k', 't'],
        ".kts"@ == seq!['.', 'k', 't', 's'],
        ".swift"@ == seq!['.', 's', 'w', 'i', 'f', 't'],
        ".zig"@ == seq!['.', 'z', 'i', 'g'],
        ".lua"@ == seq!['.', 'l', 'u', 'a'],
        ".wasm"@ == seq!['.', 'w', 'a', 's', 'm'],
{
    reveal_strlit(".rs");
    reveal_strlit(".py");
    reveal_strlit(".pyw");
    reveal_strlit(".go");
    reveal_strlit(".java");
    reveal_strlit(".c");
    reveal_strlit(".h");
    reveal_strlit(".cpp");
    reveal_strlit(".cxx");
    reveal_strlit(".cc");
    reveal_strlit(".hpp");
    reveal_strlit(".hxx");
    reveal_strlit(".cs");
    reveal_strlit(".js");
    reveal_strlit(".mjs");
    reveal_strlit(".ts");
    reveal_strlit(".tsx");
    reveal_strlit(".php");
    reveal_strlit(".kt");
    reveal_strlit(".kts");
    reveal_strlit(".swift");
    reveal_strlit(".zig");
    reveal_strlit(".lua");
    reveal_strlit(".wasm");
    assert(".rs"@ =~= seq!['.', 'r', 's']);
    assert(".py"@ =~= seq!['.', 'p', 'y']);
    assert(".pyw"@ =~= seq!['.', 'p', 'y', 'w']);
    assert(".go"@ =~= seq!['.', 'g', 'o']);
    assert(".java"@ =~= seq!['.', 'j', 'a', 'v', 'a']);
    assert(".c"@ =~= seq!['.', 'c']);
    assert(".h"@ =~= seq!['.', 'h']);
    assert(".cpp"@ =~= seq!['.', 'c', 'p', 'p']);
    assert(".cxx"@ =~= seq!['.', 'c', 'x', 'x']);
    assert(".cc"@ =~= seq!['.', 'c', 'c']);
    assert(".hpp"@ =~= seq!['.', 'h', 'p', 'p']);
    assert(".hxx"@ =~= seq!['.', 'h', 'x', 'x']);
    assert(".cs"@ =~= seq!['.', 'c', 's']);
    assert(".js"@ =~= seq!['.', 'j', 's']);
    assert(".mjs"@ =~= seq!['.', 'm', 'j', 's']);
    assert(".ts"@ =~= seq!['.', 't', 's']);
    assert(".tsx"@ =~= seq!['.', 't', 's', 'x']);
    assert(".php"@ =~= seq!['.', 'p', 'h', 'p']);
    assert(".kt"@ =~= seq!['.', 'k', 't']);
    assert(".kts"@ =~= seq!['.', 'k', 't', 's']);
    assert(".swift"@ =~= seq!['.', 's', 'w', 'i', 'f', 't']);
    assert(".zig"@ =~= seq!['.', 'z', 'i', 'g']);
    assert(".lua"@ =~= seq!['.', 'l', 'u', 'a']);
    assert(".wasm"@ =~= seq!['.', 'w', 'a', 's', 'm']);
}

#[verifier::spinoff_prover]
proof fn lemma_selects_rs(p: Seq<char>)
    ensures
        lang_from_lower(p + seq!['.', 'r', 's']) == Some(Language::Rust),
{
    lemma_suffix_literals();
    lemma_suffix_facts(p, seq!['.', 'r', 's']);
    assert(seq!['.', 'r', 's'].subrange(0, 3) =~= ".rs"@);
}

#[verifier::spinoff_prover]
proof fn lemma_selects_py(p: Seq<char>)
    ensures
        lang_from_lower(p + seq!['.', 'p', 'y']) == Some(Language::Python),
{
    lemma_suffix_literals();
    lemma_suffix_facts(p, seq!['.', 'p', 'y']);
    assert(seq!['.', 'p', 'y'].subrange(0, 3) =~= ".py"@);
}

#[verifier::spinoff_prover]
proof fn lemma_selects_pyw(p: Seq<char>)
    ensures
        lang_from_lower(p + seq!['.', 'p', 'y', 'w']) == Some(Language::Python),
{
    lemma_suffix_literals();
    lemma_suffix_facts(p, seq!['.', 'p', 'y', 'w']);
    assert(seq!['.', 'p', 'y', 'w'].subrange(0, 4) =~= ".pyw"@);
}

#[verifier::spinoff_prover]
proof fn lemma_selects_go(p: Seq<char>)
    ensures
        lang_from_lower(p + seq!['.', 'g', 'o']) == Some(Language::Go),
{
    lemma_suffix_literals();
    lemma_suffix_facts(p, seq!['.', 'g', 'o']);
    assert(seq!['.', 'g', 'o'].subrange(0, 3) =~= ".go"@);
}

#[verifier::spinoff_prover]
proof fn lemma_selects_java(p: Seq<char>)
    ensures
        lang_from_lower(p + seq!['.', 'j', 'a', 'v', 'a']) == Some(Language::Java),
{
    lemma_suffix_literals();
    lemma_suffix_facts(p, seq!['.', 'j', 'a', 'v', 'a']);
    assert(seq!['.', 'j', 'a', 'v', 'a'].subrange(0, 5) =~= ".java"@);
}

#[verifier::spinoff_prover]
proof fn lemma_selects_c(p: Seq<char>)
    ensures
        lang_from_lower(p + seq!['.', 'c']) == Some(Language::C),
{
    lemma_suffix_literals();
    lemma_suffix_facts(p, seq!['.', 'c']);
    assert(seq!['.', 'c'].subrange(0, 2) =~= ".c"@);
}

#[verifier::spinoff_prover]
proof fn lemma_selects_h(p: Seq<char>)
    ensures
        lang_from_lower(p + seq!['.', 'h']) == Some(Language::C),
{
    lemma_suffix_literals();
    lemma_suffix_facts(p, seq!['.', 'h']);
    assert(seq!['.', 'h'].subrange(0, 2) =~= ".h"@);
}

#[verifier::spinoff_prover]
proof fn lemma_selects_cpp(p: Seq<char>)
    ensures
        lang_from_lower(p + seq!['.', 'c', 'p', 'p']) == Some(Language::Cpp),
{
    lemma_suffix_literals();
    lemma_suffix_facts(p, seq!['.', 'c', 'p', 'p']);
    assert(seq!['.', 'c', 'p', 'p'].subrange(0, 4) =~= ".cpp"@);
}

#[verifier::spinoff_prover]
proof fn lemma_selects_cxx(p: Seq<char>)
    ensures
        lang_from_lower(p + seq!['.', 'c', 'x', 'x']) == Some(Language::Cpp),
{
    lemma_suffix_literals();
    lemma_suffix_facts(p, seq!['.', 'c', 'x', 'x']);
    assert(seq!['.', 'c', 'x', 'x'].subrange(0, 4) =~= ".cxx"@);
}

#[verifier::spinoff_prover]
proof fn lemma_selects_cc(p: Seq<char>)
    ensures
        lang_from_lower(p + seq!['.', 'c', 'c']) == Some(Language::Cpp),
{
    lemma_suffix_literals();
    lemma_suffix_facts(p, seq!['.', 'c', 'c']);
    assert(seq!['.', 'c', 'c'].subrange(0, 3) =~= ".cc"@);
}

#[verifier::spinoff_prover]
proof fn lemma_selects_hpp(p: Seq<char>)
    ensures
        lang_from_lower(p + seq!['.', 'h', 'p', 'p']) == Some(Language::Cpp),
{
    lemma_suffix_literals();
    lemma_suffix_facts(p, seq!['.', 'h', 'p', 'p']);
    assert(seq!['.', 'h', 'p', 'p'].subrange(0, 4) =~= ".hpp"@);
}

#[verifier::spinoff_prover]
proof fn lemma_selects_hxx(p: Seq<char>)
    ensures
        lang_from_lower(p + seq!['.', 'h', 'x', 'x']) == Some(Language::Cpp),
{
    lemma_suffix_literals();
    lemma_suffix_facts(p, seq!['.', 'h', 'x', 'x']);
    assert(seq!['.', 'h', 'x', 'x'].subrange(0, 4) =~= ".hxx"@);
}

#[verifier::spinoff_prover]
proof fn lemma_selects_cs(p: Seq<char>)
    ensures
        lang_from_lower(p + seq!['.', 'c', 's']) == Some(Language::CSharp),
{
    lemma_suffix_literals();
    lemma_suffix_facts(p, seq!['.', 'c', 's']);
    assert(seq!['.', 'c', 's'].subrange(0, 3) =~= ".cs"@);
}

#[verifier::spinoff_prover]
proof fn lemma_selects_js(p: Seq<char>)
    ensures
        lang_from_lower(p + seq!['.', 'j', 's']) == Some(Language::JavaScript),
{
    lemma_suffix_literals();
    lemma_suffix_facts(p, seq!['.', 'j', 's']);
    assert(seq!['.', 'j', 's'].subrange(0, 3) =~= ".js"@);
}

#[verifier::spinoff_prover]
proof fn lemma_selects_mjs(p: Seq<char>)
    ensures
        lang_from_lower(p + seq!['.', 'm', 'j', 's']) == Some(Language::JavaScript),
{
    lemma_suffix_literals();
    lemma_suffix_facts(p, seq!['.', 'm', 'j', 's']);
    assert(seq!['.', 'm', 'j', 's'].subrange(0, 4) =~= ".mjs"@);
}

#[verifier::spinoff_prover]
proof fn lemma_selects_ts(p: Seq<char>)
    ensures
        lang_from_lower(p + seq!['.', 't', 's']) == Some(Language::TypeScript),
{
    lemma_suffix_literals();
    lemma_suffix_facts(p, seq!['.', 't', 's']);
    assert(seq!['.', 't', 's'].subrange(0, 3) =~= ".ts"@);
}

#[verifier::spinoff_prover]
proof fn lemma_selects_tsx(p: Seq<char>)
    ensures
        lang_from_lower(p + seq!['.', 't', 's', 'x']) == Some(Language::TypeScript),
{
    lemma_suffix_literals();
    lemma_suffix_facts(p, seq!['.', 't', 's', 'x']);
    assert(seq!['.', 't', 's', 'x'].subrange(0, 4) =~= ".tsx"@);
}

#[verifier::spinoff_prover]
proof fn lemma_selects_php(p: Seq<char>)
    ensures
        lang_from_lower(p + seq!['.', 'p', 'h', 'p']) == Some(Language::PHP),
{
    lemma_suffix_literals();
    lemma_suffix_facts(p, seq!['.', 'p', 'h', 'p']);
    assert(seq!['.', 'p', 'h', 'p'].subrange(0, 4) =~= ".php"@);
}

#[verifier::spinoff_prover]
proof fn lemma_selects_kt(p: Seq<char>)
    ensures
        lang_from_lower(p + seq!['.', 'k', 't']) == Some(Language::Kotlin),
{
    lemma_suffix_literals();
    lemma_suffix_facts(p, seq!['.', 'k', 't']);
    assert(seq!['.', 'k', 't'].subrange(0, 3) =~= ".kt"@);
}

#[verifier::spinoff_prover]
proof fn lemma_selects_kts(p: Seq<char>)
    ensures
        lang_from_lower(p + seq!['.', 'k', 't', 's']) == Some(Language::Kotlin),
{
    lemma_suffix_literals();
    lemma_suffix_facts(p, seq!['.', 'k', 't', 's']);
    assert(seq!['.', 'k', 't', 's'].subrange(0, 4) =~= ".kts"@);
}

#[verifier::spinoff_prover]
proof fn lemma_selects_swift(p: Seq<char>)
    ensures
        lang_from_lower(p + seq!['.', 's', 'w', 'i', 'f', 't']) == Some(Language::Swift),
{
    lemma_suffix_literals();
    lemma_suffix_facts(p, seq!['.', 's', 'w', 'i', 'f', 't']);
    assert(seq!['.', 's', 'w', 'i', 'f', 't'].subrange(0, 6) =~= ".swift"@);
}

#[verifier::spinoff_prover]
proof fn lemma_selects_zig(p: Seq<char>)
    ensures
        lang_from_lower(p + seq!['.', 'z', 'i', 'g']) == Some(Language::Zig),
{
    lemma_suffix_literals();
    lemma_suffix_facts(p, seq!['.', 'z', 'i', 'g']);
    assert(seq!['.', 'z', 'i', 'g'].subrange(0, 4) =~= ".zig"@);
}

#[verifier::spinoff_prover]
proof fn lemma_selects_lua(p: Seq<char>)
    ensures
        lang_from_lower(p + seq!['.', 'l', 'u', 'a']) == Some(Language::Lua),
{
    lemma_suffix_literals();
    lemma_suffix_facts(p, seq!['.', 'l', 'u', 'a']);
    assert(seq!['.', 'l', 'u', 'a'].subrange(0, 4) =~= ".lua"@);
}

#[verifier::spinoff_prover]
proof fn lemma_selects_wasm(p: Seq<char>)
    ensures
        lang_from_lower(p + seq!['.', 'w', 'a', 's', 'm']) == Some(Language::Wasm),
{
    lemma_suffix_literals();
    lemma_suffix_facts(p, seq!['.', 'w', 'a', 's', 'm']);
    assert(seq!['.', 'w', 'a', 's', 'm'].subrange(0, 5) =~= ".wasm"@);
}

/// A file name that ends in a dot and one of a language's extensions
/// selects that language, whatever comes before.
pub proof fn lemma_extension_selects(l: Language, k: int, p: Seq<char>)
    requires
        0 <= k < lang_extensions(l).len(),
    ensures
        lang_from_lower(p + seq!['.'] + lang_extensions(l)[k]) == Some(l),
{
    assert(p + seq!['.'] + lang_extensions(l)[k] =~= p + (seq!['.'] + lang_extensions(l)[k]));
    match l {
        Language::Rust => {
            if k == 0 {
                lemma_selects_rs(p);
                assert(seq!['.'] + lang_extensions(l)[k] =~= seq!['.', 'r', 's']);
            }
        },
        Language::Python => {
            if k == 0 {
                lemma_selects_py(p);
                assert(seq!['.'] + lang_extensions(l)[k] =~= seq!['.', 'p', 'y']);
            }
            if k == 1 {
                lemma_selects_pyw(p);
                assert(seq!['.'] + lang_extensions(l)[k] =~= seq!['.', 'p', 'y', 'w']);
            }
        },
        Language::Go => {
            if k == 0 {
                lemma_selects_go(p);
                assert(seq!['.'] + lang_extensions(l)[k] =~= seq!['.', 'g', 'o']);
            }
        },
        Language::Java => {
            if k == 0 {
                lemma_selects_java(p);
                assert(seq!['.'] + lang_extensions(l)[k] =~= seq!['.', 'j', 'a', 'v', 'a']);
            }
        },
        Language::C => {
            if k == 0 {
                lemma_selects_c(p);
                assert(seq!['.'] + lang_extensions(l)[k] =~= seq!['.', 'c']);
            }
            if k == 1 {
                lemma_selects_h(p);
                assert(seq!['.'] + lang_extensions(l)[k] =~= seq!['.', 'h']);
            }
        },
        Language::Cpp => {
            if k == 0 {
                lemma_selects_cpp(p);
                assert(seq!['.'] + lang_extensions(l)[k] =~= seq!['.', 'c', 'p', 'p']);
            }
            if k == 1 {
                lemma_selects_cxx(p);
                assert(seq!['.'] + lang_extensions(l)[k] =~= seq!['.', 'c', 'x', 'x']);
            }
            if k == 2 {
                lemma_selects_cc(p);
                assert(seq!['.'] + lang_extensions(l)[k] =~= seq!['.', 'c', 'c']);
            }
            if k == 3 {
                lemma_selects_hpp(p);
                assert(seq!['.'] + lang_extensions(l)[k] =~= seq!['.', 'h', 'p', 'p']);
            }
            if k == 4 {
                lemma_selects_hxx(p);
                assert(seq!['.'] + lang_extensions(l)[k] =~= seq!['.', 'h', 'x', 'x']);
            }
        },
        Language::CSharp => {
            if k == 0 {
                lemma_selects_cs(p);
                assert(seq!['.'] + lang_extensions(l)[k] =~= seq!['.', 'c', 's']);
            }
        },
        Language::JavaScript => {
            if k == 0 {
                lemma_selects_js(p);
                assert(seq!['.'] + lang_extensions(l)[k] =~= seq!['.', 'j', 's']);
            }
            if k == 1 {
                lemma_selects_mjs(p);
                assert(seq!['.'] + lang_extensions(l)[k] =~= seq!['.', 'm', 'j', 's']);
            }
        },
        Language::TypeScript => {
            if k == 0 {
                lemma_selects_ts(p);
                assert(seq!['.'] + lang_extensions(l)[k] =~= seq!['.', 't', 's']);
            }
            if k == 1 {
                lemma_selects_tsx(p);
                assert(seq!['.'] + lang_extensions(l)[k] =~= seq!['.', 't', 's', 'x']);
            }
        },
        Language::PHP => {
            if k == 0 {
                lemma_selects_php(p);
                assert(seq!['.'] + lang_extensions(l)[k] =~= seq!['.', 'p', 'h', 'p']);
            }
        },
        Language::Kotlin => {
            if k == 0 {
                lemma_selects_kt(p);
                assert(seq!['.'] + lang_extensions(l)[k] =~= seq!['.', 'k', 't']);
            }
            if k == 1 {
                lemma_selects_kts(p);
                assert(seq!['.'] + lang_extensions(l)[k] =~= seq!['.', 'k', 't', 's']);
            }
        },
        Language::Swift => {
            if k == 0 {
                lemma_selects_swift(p);
                assert(seq!['.'] + lang_extensions(l)[k] =~= seq!['.', 's', 'w', 'i', 'f', 't']);
            }
        },
        Language::Zig => {
            if k == 0 {
                lemma_selects_zig(p);
                assert(seq!['.'] + lang_extensions(l)[k] =~= seq!['.', 'z', 'i', 'g']);
            }
        },
        Language::Lua => {
            if k == 0 {
                lemma_selects_lua(p);
                assert(seq!['.'] + lang_extensions(l)[k] =~= seq!['.', 'l', 'u', 'a']);
            }
        },
        Language::Wasm => {
            if k == 0 {
                lemma_selects_wasm(p);
                assert(seq!['.'] + lang_extensions(l)[k] =~= seq!['.', 'w', 'a', 's', 'm']);
            }
        },
    }
}

/// Detection ignores case: a path of ASCII characters that ends in a dot
/// and one of a language's extensions, each letter in either case, selects
/// that language (the path is lower-cased first, as `from_filename` does).
pub proof fn lemma_extension_selects_any_case(l: Language, k: int, p: Seq<char>, u: Seq<char>)
    requires
        0 <= k < lang_extensions(l).len(),
        is_ascii_text(p),
        is_ascii_text(u),
        ascii_lower(u) == seq!['.'] + lang_extensions(l)[k],
    ensures
        lang_from_lower(lower_text(p + u)) == Some(l),
{
    assert(is_ascii_text(p + u)) by {
        assert forall|i: int| 0 <= i < (p + u).len() implies ((#[trigger] (p + u)[i]) as u32) < 128 by {
            if i < p.len() {
                assert((p + u)[i] == p[i]);
            } else {
                assert((p + u)[i] == u[i - p.len()]);
            }
        }
    }
    assert(ascii_lower(p + u) =~= ascii_lower(p) + ascii_lower(u));
    assert(lower_text(p + u) == ascii_lower(p + u));
    assert(ascii_lower(p) + ascii_lower(u) =~= ascii_lower(p) + seq!['.'] + lang_extensions(l)[k]);
    lemma_extension_selects(l, k, ascii_lower(p));
}

/// A lower-case ASCII letter or a digit.
pub open spec fn lower_alnum(c: char) -> bool {
    ('a' <= c && c <= 'z') || ('0' <= c && c <= '9')
}

/// Every language has at least one extension, and each is a non-empty
/// run of lower-case ASCII letters and digits (so without a leading dot).
pub proof fn lemma_extension_form(l: Language)
    ensures
        lang_extensions(l).len() > 0,
        forall|k: int| 0 <= k < lang_extensions(l).len() ==> (#[trigger] lang_extensions(l)[k]).len() > 0,
        forall|k: int, j: int|
            0 <= k < lang_extensions(l).len() && 0 <= j < lang_extensions(l)[k].len() ==> lower_alnum(
                #[trigger] lang_extensions(l)[k][j],
            ),
{
}

} // verus!
