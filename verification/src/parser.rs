//! Line-oriented symbol and import extraction for the supported languages.
//!
//! Every analyzer reads a file line by line; each line is trimmed and then
//! matched against the language's declaration forms. The spec functions
//! `*_line_symbols` / `*_line_imports` state, per line, what is extracted;
//! `symbols_from` / `imports_from` fold them over the lines of a file.
use vstd::prelude::*;
use crate::language::{Language, lang_from_content, lang_from_lower, lower_text};
use crate::text::{
    after_last_char, after_last_char_exec, after_last_str, after_last_str_exec, before_any,
    before_any_exec, before_char, before_char_exec, char_index, char_index_exec, chars_of,
    contains, contains_char, contains_char_exec, contains_str, ends_with, split_once, split_once_str, lemma_char_index, lines, next_line, same_chars, split_char,
    starts_with, starts_with_str, strip_prefix_str, string_of, trim, trim_char, trim_end_char,
    trim_start, trim_start_char, trimmed, trimmed_char, trimmed_end_char, trimmed_start,
    trimmed_start_char, texts,
};

verus! {

/// A source code location.
#[derive(Debug)]
pub struct CodeLocation {
    pub file: String,
    pub line: usize,
    pub column: usize,
}

/// Visibility of a symbol.
#[derive(Debug, Clone, Copy, PartialEq, Eq, Structural)]
pub enum Visibility {
    Public,
    Private,
    Protected,
    Internal,
}

/// Kinds of code symbols.
#[derive(Debug, Clone, Copy, PartialEq, Eq, Hash, Structural)]
pub enum SymbolKind {
    Function,
    Method,
    Class,
    Struct,
    Interface,
    Trait,
    Enum,
    Module,
    Namespace,
    Variable,
    Constant,
    Macro,
    Type,
}

/// A named symbol extracted from source code.
#[derive(Debug)]
pub struct CodeSymbol {
    pub name: String,
    pub kind: SymbolKind,
    pub location: CodeLocation,
    pub visibility: Visibility,
    pub signature: String,
}

/// An import statement extracted from source code.
#[derive(Debug)]
pub struct Import {
    pub source: String,
    pub names: Vec<String>,
    pub location: CodeLocation,
}

/// A parsed source module.
#[derive(Debug)]
pub struct Module {
    pub path: String,
    pub language: Language,
    pub symbols: Vec<CodeSymbol>,
    pub imports: Vec<Import>,
    pub line_count: usize,
}

/// A package (group of related modules).
#[derive(Debug)]
pub struct Package {
    pub name: String,
    pub language: Language,
    pub modules: Vec<Module>,
    pub total_lines: usize,
}

/// A workspace (group of packages).
#[derive(Debug)]
pub struct Workspace {
    pub root: String,
    pub packages: Vec<Package>,
}

/// A source code analyzer that extracts symbols and structure
/// from source files across all supported languages.
#[derive(Debug)]
pub struct SourceAnalyzer;

// ───────────────────────────── models ─────────────────────────────

/// Abstract value of a [`CodeLocation`].
pub struct LocationModel {
    pub file: Seq<char>,
    pub line: int,
    pub column: int,
}

/// Abstract value of a [`CodeSymbol`].
pub struct SymbolModel {
    pub name: Seq<char>,
    pub kind: SymbolKind,
    pub location: LocationModel,
    pub visibility: Visibility,
    pub signature: Seq<char>,
}

/// Abstract value of an [`Import`].
pub struct ImportModel {
    pub source: Seq<char>,
    pub names: Seq<Seq<char>>,
    pub location: LocationModel,
}

/// Abstract value of a [`Module`].
pub struct ModuleModel {
    pub path: Seq<char>,
    pub language: Language,
    pub symbols: Seq<SymbolModel>,
    pub imports: Seq<ImportModel>,
    pub line_count: int,
}

/// Abstract value of a [`Package`].
pub struct PackageModel {
    pub name: Seq<char>,
    pub language: Language,
    pub modules: Seq<ModuleModel>,
    pub total_lines: int,
}

/// Abstract value of a [`Workspace`].
pub struct WorkspaceModel {
    pub root: Seq<char>,
    pub packages: Seq<PackageModel>,
}

impl View for CodeLocation {
    type V = LocationModel;

    open spec fn view(&self) -> LocationModel {
        LocationModel { file: self.file@, line: self.line as int, column: self.column as int }
    }
}

impl View for CodeSymbol {
    type V = SymbolModel;

    open spec fn view(&self) -> SymbolModel {
        SymbolModel {
            name: self.name@,
            kind: self.kind,
            location: self.location@,
            visibility: self.visibility,
            signature: self.signature@,
        }
    }
}

impl View for Import {
    type V = ImportModel;

    open spec fn view(&self) -> ImportModel {
        ImportModel { source: self.source@, names: texts(self.names@), location: self.location@ }
    }
}

/// The models of a list of symbols.
pub open spec fn symbol_models(v: Seq<CodeSymbol>) -> Seq<SymbolModel> {
    v.map_values(|s: CodeSymbol| s@)
}

/// The models of a list of imports.
pub open spec fn import_models(v: Seq<Import>) -> Seq<ImportModel> {
    v.map_values(|s: Import| s@)
}

impl View for Module {
    type V = ModuleModel;

    open spec fn view(&self) -> ModuleModel {
        ModuleModel {
            path: self.path@,
            language: self.language,
            symbols: symbol_models(self.symbols@),
            imports: import_models(self.imports@),
            line_count: self.line_count as int,
        }
    }
}

/// The models of a list of modules.
pub open spec fn module_models(v: Seq<Module>) -> Seq<ModuleModel> {
    v.map_values(|m: Module| m@)
}

impl View for Package {
    type V = PackageModel;

    open spec fn view(&self) -> PackageModel {
        PackageModel {
            name: self.name@,
            language: self.language,
            modules: module_models(self.modules@),
            total_lines: self.total_lines as int,
        }
    }
}

/// The models of a list of packages.
pub open spec fn package_models(v: Seq<Package>) -> Seq<PackageModel> {
    v.map_values(|p: Package| p@)
}

impl View for Workspace {
    type V = WorkspaceModel;

    open spec fn view(&self) -> WorkspaceModel {
        WorkspaceModel { root: self.root@, packages: package_models(self.packages@) }
    }
}

impl Clone for CodeLocation {
    fn clone(&self) -> (r: Self)
        ensures
            r == *self,
    {
        CodeLocation { file: self.file.clone(), line: self.line, column: self.column }
    }
}

impl Clone for CodeSymbol {
    fn clone(&self) -> (r: Self)
        ensures
            r == *self,
    {
        CodeSymbol {
            name: self.name.clone(),
            kind: self.kind,
            location: self.location.clone(),
            visibility: self.visibility,
            signature: self.signature.clone(),
        }
    }
}

impl Clone for Import {
    fn clone(&self) -> (r: Self)
        ensures
            r@ == self@,
    {
        let names = self.names.clone();
        assert(texts(names@) =~= texts(self.names@));
        Import { source: self.source.clone(), names, location: self.location.clone() }
    }
}

impl Clone for Module {
    fn clone(&self) -> (r: Self)
        ensures
            r@ == self@,
    {
        let symbols = self.symbols.clone();
        let imports = self.imports.clone();
        assert(symbol_models(symbols@) =~= symbol_models(self.symbols@));
        assert(import_models(imports@) =~= import_models(self.imports@));
        Module {
            path: self.path.clone(),
            language: self.language,
            symbols,
            imports,
            line_count: self.line_count,
        }
    }
}

impl Clone for Package {
    fn clone(&self) -> (r: Self)
        ensures
            r@ == self@,
    {
        let modules = self.modules.clone();
        assert(module_models(modules@) =~= module_models(self.modules@));
        Package {
            name: self.name.clone(),
            language: self.language,
            modules,
            total_lines: self.total_lines,
        }
    }
}

impl Clone for Workspace {
    fn clone(&self) -> (r: Self)
        ensures
            r@ == self@,
    {
        let packages = self.packages.clone();
        assert(package_models(packages@) =~= package_models(self.packages@));
        Workspace { root: self.root.clone(), packages }
    }
}

// ───────────────────────────── per-line specifications ─────────────────────────────

/// A symbol found on line `ln` of `file`; `line` is the trimmed line.
pub open spec fn sym(
    name: Seq<char>,
    kind: SymbolKind,
    vis: Visibility,
    line: Seq<char>,
    ln: int,
    file: Seq<char>,
) -> SymbolModel {
    SymbolModel {
        name,
        kind,
        location: LocationModel { file, line: ln, column: 0 },
        visibility: vis,
        signature: line,
    }
}

/// An import found on line `ln` of `file`.
pub open spec fn imp(source: Seq<char>, names: Seq<Seq<char>>, ln: int, file: Seq<char>) -> ImportModel {
    ImportModel { source, names, location: LocationModel { file, line: ln, column: 0 } }
}

/// The text after prefix `p` (meaningful when `s` starts with `p`).
pub open spec fn rest(s: Seq<char>, p: Seq<char>) -> Seq<char> {
    s.subrange(p.len() as int, s.len() as int)
}

/// `s.strip_prefix(p).unwrap_or(s)`.
pub open spec fn strip_or(s: Seq<char>, p: Seq<char>) -> Seq<char> {
    if starts_with(s, p) {
        rest(s, p)
    } else {
        s
    }
}

/// A function name: the trimmed text before the first `(`.
pub open spec fn call_name(s: Seq<char>) -> Seq<char> {
    trim(before_char(s, '('))
}

/// Text before the first `x`, then before the first `y`, trimmed.
pub open spec fn name_upto2(s: Seq<char>, x: char, y: char) -> Seq<char> {
    trim(before_char(before_char(s, x), y))
}

/// A quoted module name: trimmed, then stripped of `"` and `'`.
pub open spec fn unquote(s: Seq<char>) -> Seq<char> {
    trim_char(trim_char(trim(s), '"'), '\'')
}

/// Rust declarations on a trimmed line.
pub open spec fn rust_line_symbols(line: Seq<char>, ln: int, file: Seq<char>) -> Seq<SymbolModel> {
    if starts_with(line, "pub fn "@) {
        seq![sym(call_name(rest(line, "pub fn "@)), SymbolKind::Function, Visibility::Public, line, ln, file)]
    } else if starts_with(line, "fn "@) {
        let name = call_name(rest(line, "fn "@));
        if !starts_with(name, "fn "@) {
            seq![sym(name, SymbolKind::Function, Visibility::Private, line, ln, file)]
        } else {
            seq![]
        }
    } else if starts_with(line, "pub struct "@) {
        seq![sym(trim(before_any(rest(line, "pub struct "@), seq!['<', '{', ' ', '\t'])), SymbolKind::Struct, Visibility::Public, line, ln, file)]
    } else if starts_with(line, "pub enum "@) {
        seq![sym(trim(before_any(rest(line, "pub enum "@), seq!['<', '{', ' ', '\t'])), SymbolKind::Enum, Visibility::Public, line, ln, file)]
    } else if starts_with(line, "pub trait "@) {
        seq![sym(trim(before_any(rest(line, "pub trait "@), seq!['<', '{', ' ', '\t'])), SymbolKind::Trait, Visibility::Public, line, ln, file)]
    } else if starts_with(line, "pub type "@) {
        seq![sym(trim(before_char(rest(line, "pub type "@), '=')), SymbolKind::Type, Visibility::Public, line, ln, file)]
    } else {
        seq![]
    }
}

/// The Rust declaration prefixes, character by character.
proof fn lemma_rust_prefixes()
    ensures
        "pub fn "@ == seq!['p', 'u', 'b', ' ', 'f', 'n', ' '],
        "fn "@ == seq!['f', 'n', ' '],
        "pub struct "@ == seq!['p', 'u', 'b', ' ', 's', 't', 'r', 'u', 'c', 't', ' '],
        "pub enum "@ == seq!['p', 'u', 'b', ' ', 'e', 'n', 'u', 'm', ' '],
        "pub trait "@ == seq!['p', 'u', 'b', ' ', 't', 'r', 'a', 'i', 't', ' '],
        "pub type "@ == seq!['p', 'u', 'b', ' ', 't', 'y', 'p', 'e', ' '],
{
    reveal_strlit("pub fn ");
    reveal_strlit("fn ");
    reveal_strlit("pub struct ");
    reveal_strlit("pub enum ");
    reveal_strlit("pub trait ");
    reveal_strlit("pub type ");
    assert("pub fn "@ =~= seq!['p', 'u', 'b', ' ', 'f', 'n', ' ']);
    assert("fn "@ =~= seq!['f', 'n', ' ']);
    assert("pub struct "@ =~= seq!['p', 'u', 'b', ' ', 's', 't', 'r', 'u', 'c', 't', ' ']);
    assert("pub enum "@ =~= seq!['p', 'u', 'b', ' ', 'e', 'n', 'u', 'm', ' ']);
    assert("pub trait "@ =~= seq!['p', 'u', 'b', ' ', 't', 'r', 'a', 'i', 't', ' ']);
    assert("pub type "@ =~= seq!['p', 'u', 'b', ' ', 't', 'y', 'p', 'e', ' ']);
}

proof fn lemma_starts_with_chars(s: Seq<char>, p: Seq<char>)
    ensures
        starts_with(s, p) ==> forall|j: int| 0 <= j < p.len() ==> s[j] == #[trigger] p[j],
{
    if starts_with(s, p) {
        assert forall|j: int| 0 <= j < p.len() implies s[j] == #[trigger] p[j] by {
            assert(s.subrange(0, p.len() as int)[j] == s[j]);
        }
    }
}

/// The kind and visibility of a Rust declaration follow from the keyword
/// that starts its line: `pub fn` gives one public function, `fn` private
/// functions only, `pub struct` one public struct, `pub enum` one public
/// enum, `pub trait` one public trait, `pub type` one public type alias.
/// Conversely a trait, struct, enum or type alias comes only from a line
/// that starts with its own keyword.
pub proof fn lemma_rust_declaration_kinds(line: Seq<char>, ln: int, file: Seq<char>)
    ensures
        ({
            let syms = rust_line_symbols(line, ln, file);
            &&& starts_with(line, "pub fn "@) ==> syms.len() == 1 && syms[0].kind == SymbolKind::Function
                && syms[0].visibility == Visibility::Public
            &&& starts_with(line, "fn "@) ==> forall|k: int| 0 <= k < syms.len() ==> (#[trigger] syms[k]).kind
                == SymbolKind::Function && syms[k].visibility == Visibility::Private
            &&& starts_with(line, "pub struct "@) ==> syms.len() == 1 && syms[0].kind == SymbolKind::Struct
                && syms[0].visibility == Visibility::Public
            &&& starts_with(line, "pub enum "@) ==> syms.len() == 1 && syms[0].kind == SymbolKind::Enum
                && syms[0].visibility == Visibility::Public
            &&& starts_with(line, "pub trait "@) ==> syms.len() == 1 && syms[0].kind == SymbolKind::Trait
                && syms[0].visibility == Visibility::Public
            &&& starts_with(line, "pub type "@) ==> syms.len() == 1 && syms[0].kind == SymbolKind::Type
                && syms[0].visibility == Visibility::Public
            &&& forall|k: int| 0 <= k < syms.len() ==> ((#[trigger] syms[k]).kind == SymbolKind::Trait ==> starts_with(
                line,
                "pub trait "@,
            )) && (syms[k].kind == SymbolKind::Struct ==> starts_with(line, "pub struct "@)) && (syms[k].kind
                == SymbolKind::Enum ==> starts_with(line, "pub enum "@)) && (syms[k].kind == SymbolKind::Type
                ==> starts_with(line, "pub type "@))
        }),
{
    lemma_rust_prefixes();
    lemma_starts_with_chars(line, "pub fn "@);
    lemma_starts_with_chars(line, "fn "@);
    lemma_starts_with_chars(line, "pub struct "@);
    lemma_starts_with_chars(line, "pub enum "@);
    lemma_starts_with_chars(line, "pub trait "@);
    lemma_starts_with_chars(line, "pub type "@);
}

/// The Python, JavaScript and Java declaration prefixes, character by
/// character.
proof fn lemma_other_prefixes()
    ensures
        "def "@ == seq!['d', 'e', 'f', ' '],
        "class "@ == seq!['c', 'l', 'a', 's', 's', ' '],
        "function "@ == seq!['f', 'u', 'n', 'c', 't', 'i', 'o', 'n', ' '],
        "export function "@ == seq!['e', 'x', 'p', 'o', 'r', 't', ' ', 'f', 'u', 'n', 'c', 't', 'i', 'o', 'n', ' '],
        "interface "@ == seq!['i', 'n', 't', 'e', 'r', 'f', 'a', 'c', 'e', ' '],
        "const "@ == seq!['c', 'o', 'n', 's', 't', ' '],
        "public class "@ == seq!['p', 'u', 'b', 'l', 'i', 'c', ' ', 'c', 'l', 'a', 's', 's', ' '],
        "public interface "@ == seq!['p', 'u', 'b', 'l', 'i', 'c', ' ', 'i', 'n', 't', 'e', 'r', 'f', 'a', 'c', 'e', ' '],
        "public enum "@ == seq!['p', 'u', 'b', 'l', 'i', 'c', ' ', 'e', 'n', 'u', 'm', ' '],
{
    reveal_strlit("def ");
    reveal_strlit("class ");
    reveal_strlit("function ");
    reveal_strlit("export function ");
    reveal_strlit("interface ");
    reveal_strlit("const ");
    reveal_strlit("public class ");
    reveal_strlit("public interface ");
    reveal_strlit("public enum ");
    assert("def "@ =~= seq!['d', 'e', 'f', ' ']);
    assert("class "@ =~= seq!['c', 'l', 'a', 's', 's', ' ']);
    assert("function "@ =~= seq!['f', 'u', 'n', 'c', 't', 'i', 'o', 'n', ' ']);
    assert("export function "@ =~= seq!['e', 'x', 'p', 'o', 'r', 't', ' ', 'f', 'u', 'n', 'c', 't', 'i', 'o', 'n', ' ']);
    assert("interface "@ =~= seq!['i', 'n', 't', 'e', 'r', 'f', 'a', 'c', 'e', ' ']);
    assert("const "@ =~= seq!['c', 'o', 'n', 's', 't', ' ']);
    assert("public class "@ =~= seq!['p', 'u', 'b', 'l', 'i', 'c', ' ', 'c', 'l', 'a', 's', 's', ' ']);
    assert("public interface "@ =~= seq!['p', 'u', 'b', 'l', 'i', 'c', ' ', 'i', 'n', 't', 'e', 'r', 'f', 'a', 'c', 'e', ' ']);
    assert("public enum "@ =~= seq!['p', 'u', 'b', 'l', 'i', 'c', ' ', 'e', 'n', 'u', 'm', ' ']);
}

/// Declaration kinds by leading keyword in Python, JavaScript and Java:
/// Python `def` gives a function and `class` a class; JavaScript
/// `function` and `export function` a public function, `class` a class,
/// `interface` an interface; a Java line starting `public class`,
/// `public interface` or `public enum` first declares a public class,
/// interface or enum.
pub proof fn lemma_declaration_kinds(line: Seq<char>, ln: int, file: Seq<char>)
    ensures
        starts_with(line, "def "@) ==> python_line_symbols(line, ln, file).len() == 1 && python_line_symbols(
            line,
            ln,
            file,
        )[0].kind == SymbolKind::Function,
        starts_with(line, "class "@) ==> python_line_symbols(line, ln, file).len() == 1 && python_line_symbols(
            line,
            ln,
            file,
        )[0].kind == SymbolKind::Class,
        (starts_with(line, "function "@) || starts_with(line, "export function "@)) ==> js_line_symbols(line, ln, file).len()
            == 1 && js_line_symbols(line, ln, file)[0].kind == SymbolKind::Function && js_line_symbols(line, ln, file)[0].visibility
            == Visibility::Public,
        starts_with(line, "class "@) ==> js_line_symbols(line, ln, file).len() == 1 && js_line_symbols(line, ln, file)[0].kind
            == SymbolKind::Class,
        starts_with(line, "interface "@) ==> js_line_symbols(line, ln, file).len() == 1 && js_line_symbols(line, ln, file)[0].kind
            == SymbolKind::Interface,
        starts_with(line, "public class "@) ==> java_line_symbols(line, ln, file).len() >= 1 && java_line_symbols(
            line,
            ln,
            file,
        )[0].kind == SymbolKind::Class && java_line_symbols(line, ln, file)[0].visibility == Visibility::Public,
        starts_with(line, "public interface "@) ==> java_line_symbols(line, ln, file).len() >= 1 && java_line_symbols(
            line,
            ln,
            file,
        )[0].kind == SymbolKind::Interface,
        starts_with(line, "public enum "@) ==> java_line_symbols(line, ln, file).len() >= 1 && java_line_symbols(
            line,
            ln,
            file,
        )[0].kind == SymbolKind::Enum,
{
    lemma_other_prefixes();
    lemma_starts_with_chars(line, "def "@);
    lemma_starts_with_chars(line, "class "@);
    lemma_starts_with_chars(line, "function "@);
    lemma_starts_with_chars(line, "export function "@);
    lemma_starts_with_chars(line, "interface "@);
    lemma_starts_with_chars(line, "const "@);
    lemma_starts_with_chars(line, "public class "@);
    lemma_starts_with_chars(line, "public interface "@);
    lemma_starts_with_chars(line, "public enum "@);
}

/// Rust `use` declarations outside the crate on a trimmed line.
pub open spec fn rust_line_imports(line: Seq<char>, ln: int, file: Seq<char>) -> Seq<ImportModel> {
    if starts_with(line, "use "@) {
        let path = trim(trim_end_char(rest(line, "use "@), ';'));
        if !starts_with(path, "crate::"@) && !starts_with(path, "self::"@) && !starts_with(path, "super::"@) {
            seq![imp(path, seq![after_last_str(path, "::"@)], ln, file)]
        } else {
            seq![]
        }
    } else {
        seq![]
    }
}

/// Python `def` / `class` on a trimmed line.
pub open spec fn python_line_symbols(line: Seq<char>, ln: int, file: Seq<char>) -> Seq<SymbolModel> {
    if starts_with(line, "def "@) {
        seq![sym(call_name(rest(line, "def "@)), SymbolKind::Function, Visibility::Public, line, ln, file)]
    } else if starts_with(line, "class "@) {
        seq![sym(name_upto2(rest(line, "class "@), ':', '('), SymbolKind::Class, Visibility::Public, line, ln, file)]
    } else {
        seq![]
    }
}

/// The pieces of a comma-separated list, each trimmed.
pub open spec fn trimmed_pieces(s: Seq<char>) -> Seq<Seq<char>> {
    split_char(s, ',').map_values(|p: Seq<char>| trim(p))
}

/// Python `import` / `from ... import` on a trimmed line.
pub open spec fn python_line_imports(line: Seq<char>, ln: int, file: Seq<char>) -> Seq<ImportModel> {
    if starts_with(line, "import "@) {
        trimmed_pieces(rest(line, "import "@)).map_values(|n: Seq<char>| imp(n, seq![], ln, file))
    } else if starts_with(line, "from "@) {
        let fp = rest(line, "from "@);
        match split_once(fp, " import "@) {
            Some((a, b)) => seq![imp(trim(a), trimmed_pieces(b), ln, file)],
            None => seq![],
        }
    } else {
        seq![]
    }
}

/// Whether a name starts with an ASCII capital letter.
pub open spec fn starts_upper(s: Seq<char>) -> bool {
    s.len() > 0 && 'A' <= s[0] && s[0] <= 'Z'
}

/// Go `func` / `type` on a trimmed line.
pub open spec fn go_line_symbols(line: Seq<char>, ln: int, file: Seq<char>) -> Seq<SymbolModel> {
    if starts_with(line, "func "@) {
        let name = call_name(rest(line, "func "@));
        seq![sym(
            name,
            if contains_char(name, ')') { SymbolKind::Method } else { SymbolKind::Function },
            if starts_upper(name) { Visibility::Public } else { Visibility::Private },
            line,
            ln,
            file,
        )]
    } else if starts_with(line, "type "@) {
        let r = rest(line, "type "@);
        if contains(r, "struct"@) || contains(r, "interface"@) {
            seq![sym(trim(before_char(r, ' ')), SymbolKind::Struct, Visibility::Public, line, ln, file)]
        } else {
            seq![]
        }
    } else {
        seq![]
    }
}

/// Go imports on a trimmed line, given whether an `import (` block is open;
/// also returns whether the block is open after the line.
pub open spec fn go_line_imports(line: Seq<char>, ln: int, file: Seq<char>, in_block: bool) -> (Seq<ImportModel>, bool) {
    if line == "import ("@ {
        (seq![], true)
    } else if in_block && line == ")"@ {
        (seq![], false)
    } else {
        let p = trim_char(line, '"');
        let a: Seq<ImportModel> = if in_block && p.len() > 0 { seq![imp(p, seq![], ln, file)] } else { seq![] };
        let b: Seq<ImportModel> = if starts_with(line, "import "@) {
            seq![imp(trim_char(rest(line, "import "@), '"'), seq![], ln, file)]
        } else {
            seq![]
        };
        (a + b, in_block)
    }
}

/// A Java type name after its keyword.
pub open spec fn java_type_name(r: Seq<char>) -> Seq<char> {
    name_upto2(r, '<', ' ')
}

/// The word just before the first `(` of a line.
pub open spec fn word_before_paren(line: Seq<char>) -> Seq<char> {
    after_last_char(before_char(line, '('), ' ')
}

/// Java types and methods on a trimmed line.
pub open spec fn java_line_symbols(line: Seq<char>, ln: int, file: Seq<char>) -> Seq<SymbolModel> {
    let first: Seq<SymbolModel> = if starts_with(line, "public class "@) {
        seq![sym(java_type_name(rest(line, "public class "@)), SymbolKind::Class, Visibility::Public, line, ln, file)]
    } else if starts_with(line, "class "@) {
        seq![sym(java_type_name(rest(line, "class "@)), SymbolKind::Class, Visibility::Public, line, ln, file)]
    } else if starts_with(line, "public interface "@) {
        seq![sym(java_type_name(rest(line, "public interface "@)), SymbolKind::Interface, Visibility::Public, line, ln, file)]
    } else if starts_with(line, "public enum "@) {
        seq![sym(java_type_name(rest(line, "public enum "@)), SymbolKind::Enum, Visibility::Public, line, ln, file)]
    } else {
        seq![]
    };
    let second: Seq<SymbolModel> = if contains_char(line, '(') && contains_char(line, ')') && !contains_char(line, ';')
        && (starts_with(line, "public "@) || starts_with(line, "private "@) || starts_with(line, "protected "@)) {
        let name = word_before_paren(line);
        if name.len() > 0 && name != "class"@ && name != "interface"@ {
            seq![sym(
                name,
                SymbolKind::Method,
                if starts_with(line, "public"@) {
                    Visibility::Public
                } else if starts_with(line, "private"@) {
                    Visibility::Private
                } else {
                    Visibility::Protected
                },
                line,
                ln,
                file,
            )]
        } else {
            seq![]
        }
    } else {
        seq![]
    };
    first + second
}

/// Java `import` outside `java.` / `javax.` on a trimmed line.
pub open spec fn java_line_imports(line: Seq<char>, ln: int, file: Seq<char>) -> Seq<ImportModel> {
    if starts_with(line, "import "@) {
        let path = trim(trim_end_char(rest(line, "import "@), ';'));
        if !starts_with(path, "java."@) && !starts_with(path, "javax."@) {
            seq![imp(path, seq![after_last_char(path, '.')], ln, file)]
        } else {
            seq![]
        }
    } else {
        seq![]
    }
}

/// JavaScript / TypeScript declarations on a trimmed line.
pub open spec fn js_line_symbols(line: Seq<char>, ln: int, file: Seq<char>) -> Seq<SymbolModel> {
    if starts_with(line, "function "@) {
        seq![sym(call_name(rest(line, "function "@)), SymbolKind::Function, Visibility::Public, line, ln, file)]
    } else if starts_with(line, "export function "@) {
        seq![sym(call_name(rest(line, "export function "@)), SymbolKind::Function, Visibility::Public, line, ln, file)]
    } else if starts_with(line, "class "@) {
        seq![sym(name_upto2(rest(line, "class "@), '{', ' '), SymbolKind::Class, Visibility::Public, line, ln, file)]
    } else if starts_with(line, "interface "@) {
        seq![sym(name_upto2(rest(line, "interface "@), '{', ' '), SymbolKind::Interface, Visibility::Public, line, ln, file)]
    } else if starts_with(line, "const "@) {
        let name = trim(strip_or(before_char(line, '='), "const "@));
        if !starts_with(name, seq!['{']) {
            seq![sym(name, SymbolKind::Variable, Visibility::Private, line, ln, file)]
        } else {
            seq![]
        }
    } else {
        seq![]
    }
}

/// JavaScript / TypeScript `import` and `require(` on a trimmed line.
pub open spec fn js_line_imports(line: Seq<char>, ln: int, file: Seq<char>) -> Seq<ImportModel> {
    let a: Seq<ImportModel> = if starts_with(line, "import "@) {
        let t = trim_end_char(rest(line, "import "@), ';');
        match split_once(t, " from "@) {
            Some((_h, f)) => seq![imp(unquote(f), seq![], ln, file)],
            None => if unquote(t).len() > 0 {
                seq![imp(unquote(t), seq![], ln, file)]
            } else {
                seq![]
            },
        }
    } else {
        seq![]
    };
    let b: Seq<ImportModel> = match split_once(line, "require("@) {
        Some((_h, r)) => {
            match char_index(r, ')') {
                Some(e) => seq![imp(unquote(r.subrange(0, e)), seq![], ln, file)],
                None => seq![],
            }
        },
        None => seq![],
    };
    a + b
}

/// C / C++ functions and structs on a trimmed line.
pub open spec fn c_line_symbols(line: Seq<char>, ln: int, file: Seq<char>) -> Seq<SymbolModel> {
    let a: Seq<SymbolModel> = if ends_with(line, seq!['{']) && !starts_with(line, "if "@)
        && !starts_with(line, "while "@) && !starts_with(line, "for "@) && !starts_with(line, "switch "@)
        && !starts_with(line, "struct "@) {
        let name = trim(word_before_paren(line));
        if name.len() > 0 && !starts_with(name, seq!['*']) && !contains(name, "if"@) && !contains(name, "return"@) {
            seq![sym(name, SymbolKind::Function, Visibility::Public, line, ln, file)]
        } else {
            seq![]
        }
    } else {
        seq![]
    };
    let b: Seq<SymbolModel> = if starts_with(line, "struct "@) && contains_char(line, '{') {
        seq![sym(trim(before_char(rest(line, "struct "@), '{')), SymbolKind::Struct, Visibility::Public, line, ln, file)]
    } else {
        seq![]
    };
    a + b
}

/// C / C++ `#include` on a trimmed line.
pub open spec fn c_line_imports(line: Seq<char>, ln: int, file: Seq<char>) -> Seq<ImportModel> {
    if starts_with(line, "#include "@) {
        seq![imp(trim_char(trim_char(trim_char(trim(rest(line, "#include "@)), '"'), '<'), '>'), seq![], ln, file)]
    } else {
        seq![]
    }
}

/// Whether a C# line starts like a method declaration.
pub open spec fn csharp_method_start(line: Seq<char>) -> bool {
    starts_with(line, "public "@) || starts_with(line, "private "@) || starts_with(line, "protected "@)
        || starts_with(line, "void "@) || starts_with(line, "int "@) || starts_with(line, "string "@)
        || starts_with(line, "bool "@) || starts_with(line, "Task<"@) || starts_with(line, "async "@)
}

/// C# types and methods on a trimmed line.
pub open spec fn csharp_line_symbols(line: Seq<char>, ln: int, file: Seq<char>) -> Seq<SymbolModel> {
    let a: Seq<SymbolModel> = if starts_with(line, "public class "@) {
        seq![sym(name_upto2(rest(line, "public class "@), ':', '{'), SymbolKind::Class, Visibility::Public, line, ln, file)]
    } else if starts_with(line, "class "@) {
        seq![sym(name_upto2(rest(line, "class "@), ':', '{'), SymbolKind::Class, Visibility::Public, line, ln, file)]
    } else if starts_with(line, "public interface "@) {
        seq![sym(name_upto2(rest(line, "public interface "@), ':', '{'), SymbolKind::Interface, Visibility::Public, line, ln, file)]
    } else if starts_with(line, "interface "@) {
        seq![sym(name_upto2(rest(line, "interface "@), ':', '{'), SymbolKind::Interface, Visibility::Public, line, ln, file)]
    } else {
        seq![]
    };
    let b: Seq<SymbolModel> = if contains_char(line, '(') && contains_char(line, ')') && csharp_method_start(line) {
        let name = word_before_paren(line);
        if name.len() > 0 && name != "class"@ && name != "interface"@ {
            seq![sym(name, SymbolKind::Method, Visibility::Public, line, ln, file)]
        } else {
            seq![]
        }
    } else {
        seq![]
    };
    a + b
}

/// An import whose source is the rest of the line after `kw`, without a
/// trailing `;`, trimmed (C# `using`, PHP `use`).
pub open spec fn keyword_line_import(kw: Seq<char>, line: Seq<char>, ln: int, file: Seq<char>) -> Seq<ImportModel> {
    if starts_with(line, kw) {
        seq![imp(trim(trim_end_char(rest(line, kw), ';')), seq![], ln, file)]
    } else {
        seq![]
    }
}

/// PHP functions, classes and interfaces on a trimmed line.
pub open spec fn php_line_symbols(line: Seq<char>, ln: int, file: Seq<char>) -> Seq<SymbolModel> {
    if starts_with(line, "function "@) {
        seq![sym(call_name(rest(line, "function "@)), SymbolKind::Function, Visibility::Public, line, ln, file)]
    } else if starts_with(line, "class "@) {
        seq![sym(name_upto2(rest(line, "class "@), '{', ' '), SymbolKind::Class, Visibility::Public, line, ln, file)]
    } else if starts_with(line, "interface "@) {
        seq![sym(name_upto2(rest(line, "interface "@), '{', ' '), SymbolKind::Interface, Visibility::Public, line, ln, file)]
    } else {
        seq![]
    }
}

/// Kotlin functions, classes and interfaces on a trimmed line.
pub open spec fn kotlin_line_symbols(line: Seq<char>, ln: int, file: Seq<char>) -> Seq<SymbolModel> {
    if starts_with(line, "fun "@) {
        seq![sym(call_name(rest(line, "fun "@)), SymbolKind::Function, Visibility::Public, line, ln, file)]
    } else if starts_with(line, "class "@) {
        seq![sym(name_upto2(rest(line, "class "@), '(', ':'), SymbolKind::Class, Visibility::Public, line, ln, file)]
    } else if starts_with(line, "interface "@) {
        seq![sym(trim(before_char(rest(line, "interface "@), ':')), SymbolKind::Interface, Visibility::Public, line, ln, file)]
    } else {
        seq![]
    }
}

/// Kotlin `import` on a trimmed line (the source is kept as written).
pub open spec fn kotlin_line_imports(line: Seq<char>, ln: int, file: Seq<char>) -> Seq<ImportModel> {
    if starts_with(line, "import "@) {
        seq![imp(rest(line, "import "@), seq![], ln, file)]
    } else {
        seq![]
    }
}

/// Swift declarations on a trimmed line.
pub open spec fn swift_line_symbols(line: Seq<char>, ln: int, file: Seq<char>) -> Seq<SymbolModel> {
    if starts_with(line, "func "@) {
        seq![sym(
            call_name(rest(line, "func "@)),
            SymbolKind::Function,
            if starts_with(line, "public "@) {
                Visibility::Public
            } else if starts_with(line, "private "@) {
                Visibility::Private
            } else {
                Visibility::Internal
            },
            line,
            ln,
            file,
        )]
    } else if starts_with(line, "class "@) {
        seq![sym(name_upto2(rest(line, "class "@), ':', '{'), SymbolKind::Class, Visibility::Public, line, ln, file)]
    } else if starts_with(line, "struct "@) {
        seq![sym(name_upto2(rest(line, "struct "@), ':', '{'), SymbolKind::Struct, Visibility::Public, line, ln, file)]
    } else if starts_with(line, "enum "@) {
        seq![sym(name_upto2(rest(line, "enum "@), ':', '{'), SymbolKind::Enum, Visibility::Public, line, ln, file)]
    } else if starts_with(line, "protocol "@) {
        seq![sym(name_upto2(rest(line, "protocol "@), ':', '{'), SymbolKind::Interface, Visibility::Public, line, ln, file)]
    } else {
        seq![]
    }
}

/// Swift `import` on a trimmed line.
pub open spec fn swift_line_imports(line: Seq<char>, ln: int, file: Seq<char>) -> Seq<ImportModel> {
    if starts_with(line, "import "@) {
        seq![imp(trim(rest(line, "import "@)), seq![], ln, file)]
    } else {
        seq![]
    }
}

/// Zig functions and constants on a trimmed line.
pub open spec fn zig_line_symbols(line: Seq<char>, ln: int, file: Seq<char>) -> Seq<SymbolModel> {
    if starts_with(line, "fn "@) {
        seq![sym(call_name(rest(line, "fn "@)), SymbolKind::Function, Visibility::Public, line, ln, file)]
    } else if starts_with(line, "const "@) {
        let r = rest(line, "const "@);
        match split_once(r, " = "@) {
            Some((n, _t)) => seq![sym(trim(n), SymbolKind::Variable, Visibility::Public, line, ln, file)],
            None => seq![],
        }
    } else {
        seq![]
    }
}

/// Zig `@import("...")` constants on a trimmed line.
pub open spec fn zig_line_imports(line: Seq<char>, ln: int, file: Seq<char>) -> Seq<ImportModel> {
    if starts_with(line, "const "@) {
        let r = rest(line, "const "@);
        match split_once(r, "@import(\""@) {
            Some((_h, after)) => {
                match char_index(after, '"') {
                    Some(e) => seq![imp(after.subrange(0, e), seq![], ln, file)],
                    None => seq![],
                }
            },
            None => seq![],
        }
    } else {
        seq![]
    }
}

/// Lua functions on a trimmed line.
pub open spec fn lua_line_symbols(line: Seq<char>, ln: int, file: Seq<char>) -> Seq<SymbolModel> {
    if starts_with(line, "function "@) {
        seq![sym(call_name(rest(line, "function "@)), SymbolKind::Function, Visibility::Public, line, ln, file)]
    } else if starts_with(line, "local function "@) {
        seq![sym(call_name(rest(line, "local function "@)), SymbolKind::Function, Visibility::Private, line, ln, file)]
    } else {
        seq![]
    }
}

/// Lua `require` on a trimmed line.
pub open spec fn lua_line_imports(line: Seq<char>, ln: int, file: Seq<char>) -> Seq<ImportModel> {
    if starts_with(line, "require \""@) {
        let r = rest(line, "require \""@);
        match char_index(r, '"') {
            Some(e) => seq![imp(r.subrange(0, e), seq![], ln, file)],
            None => seq![],
        }
    } else if starts_with(line, "require("@) {
        let after = trim_start_char(trim_start_char(trim_start(rest(line, "require("@)), '"'), '\'');
        let source = trim(before_char(before_char(after, '"'), '\''));
        if source.len() > 0 {
            seq![imp(source, seq![], ln, file)]
        } else {
            seq![]
        }
    } else {
        seq![]
    }
}

/// The symbols that a trimmed line declares in a language.
pub open spec fn line_symbols(lang: Language, line: Seq<char>, ln: int, file: Seq<char>) -> Seq<SymbolModel> {
    match lang {
        Language::Rust => rust_line_symbols(line, ln, file),
        Language::Python => python_line_symbols(line, ln, file),
        Language::Go => go_line_symbols(line, ln, file),
        Language::Java => java_line_symbols(line, ln, file),
        Language::JavaScript | Language::TypeScript => js_line_symbols(line, ln, file),
        Language::C | Language::Cpp => c_line_symbols(line, ln, file),
        Language::CSharp => csharp_line_symbols(line, ln, file),
        Language::PHP => php_line_symbols(line, ln, file),
        Language::Kotlin => kotlin_line_symbols(line, ln, file),
        Language::Swift => swift_line_symbols(line, ln, file),
        Language::Zig => zig_line_symbols(line, ln, file),
        Language::Lua => lua_line_symbols(line, ln, file),
        Language::Wasm => seq![],
    }
}

/// The imports that a trimmed line declares in a language, with the
/// import-block state (used by Go only) before and after the line.
pub open spec fn line_imports(lang: Language, line: Seq<char>, ln: int, file: Seq<char>, in_block: bool) -> (Seq<ImportModel>, bool) {
    match lang {
        Language::Rust => (rust_line_imports(line, ln, file), in_block),
        Language::Python => (python_line_imports(line, ln, file), in_block),
        Language::Go => go_line_imports(line, ln, file, in_block),
        Language::Java => (java_line_imports(line, ln, file), in_block),
        Language::JavaScript | Language::TypeScript => (js_line_imports(line, ln, file), in_block),
        Language::C | Language::Cpp => (c_line_imports(line, ln, file), in_block),
        Language::CSharp => (keyword_line_import("using "@, line, ln, file), in_block),
        Language::PHP => (keyword_line_import("use "@, line, ln, file), in_block),
        Language::Kotlin => (kotlin_line_imports(line, ln, file), in_block),
        Language::Swift => (swift_line_imports(line, ln, file), in_block),
        Language::Zig => (zig_line_imports(line, ln, file), in_block),
        Language::Lua => (lua_line_imports(line, ln, file), in_block),
        Language::Wasm => (seq![], in_block),
    }
}

/// The symbols of consecutive lines `ls`, the first being line number `ln`.
pub open spec fn symbols_from(lang: Language, ls: Seq<Seq<char>>, ln: int, file: Seq<char>) -> Seq<SymbolModel>
    decreases ls.len(),
{
    if ls.len() == 0 {
        seq![]
    } else {
        line_symbols(lang, trim(ls[0]), ln, file) + symbols_from(lang, ls.drop_first(), ln + 1, file)
    }
}

/// The imports of consecutive lines `ls`, the first being line number `ln`.
pub open spec fn imports_from(lang: Language, ls: Seq<Seq<char>>, ln: int, file: Seq<char>, in_block: bool) -> Seq<ImportModel>
    decreases ls.len(),
{
    if ls.len() == 0 {
        seq![]
    } else {
        let (found, next) = line_imports(lang, trim(ls[0]), ln, file, in_block);
        found + imports_from(lang, ls.drop_first(), ln + 1, file, next)
    }
}

/// The symbols of a file's text.
pub open spec fn file_symbols(lang: Language, content: Seq<char>, file: Seq<char>) -> Seq<SymbolModel> {
    symbols_from(lang, lines(content), 1, file)
}

/// The imports of a file's text.
pub open spec fn file_imports(lang: Language, content: Seq<char>, file: Seq<char>) -> Seq<ImportModel> {
    imports_from(lang, lines(content), 1, file, false)
}

/// The language a file is analyzed as: by its name, else by its text.
pub open spec fn detected_language(path: Seq<char>, content: Seq<char>) -> Option<Language> {
    match lang_from_lower(lower_text(path)) {
        Some(l) => Some(l),
        None => lang_from_content(content),
    }
}

/// The module that analysis of `path` with text `content` in `lang` yields.
pub open spec fn module_model(path: Seq<char>, lang: Language, content: Seq<char>) -> ModuleModel {
    ModuleModel {
        path,
        language: lang,
        symbols: file_symbols(lang, content, path),
        imports: file_imports(lang, content, path),
        line_count: lines(content).len() as int,
    }
}

proof fn lemma_symbol_models_append(a: Seq<CodeSymbol>, b: Seq<CodeSymbol>)
    ensures
        symbol_models(a + b) == symbol_models(a) + symbol_models(b),
{
    assert(symbol_models(a + b) =~= symbol_models(a) + symbol_models(b));
}

proof fn lemma_import_models_append(a: Seq<Import>, b: Seq<Import>)
    ensures
        import_models(a + b) == import_models(a) + import_models(b),
{
    assert(import_models(a + b) =~= import_models(a) + import_models(b));
}

// ───────────────────────────── executable analyzers ─────────────────────────────

impl SourceAnalyzer {
    /// Analyze a single source file, extracting symbols and imports. The
    /// language comes from the file name, else from the text; `None` when
    /// neither names one.
    pub fn analyze_file(path: &str, content: &str) -> (r: Option<Module>)
        ensures
            match detected_language(path@, content@) {
                Some(l) => r matches Some(m) && m@ == module_model(path@, l, content@),
                None => r is None,
            },
    {
        let language = match Language::from_filename(path) {
            Some(l) => l,
            None => match Language::from_content(content) {
                Some(l) => l,
                None => return None,
            },
        };
        Some(Self::analyze_as(path, content, language))
    }

    /// Analyze a source file as a given language.
    pub fn analyze_as(path: &str, content: &str, language: Language) -> (m: Module)
        ensures
            m@ == module_model(path@, language, content@),
    {
        let c = chars_of(content);
        let c = c.as_slice();
        let line_count = count_lines(c);
        let symbols = Self::extract_symbols(c, &language, path);
        let imports = Self::extract_imports(c, &language, path);
        Module { path: string_of(chars_of(path).as_slice()), language, symbols, imports, line_count }
    }

    /// Extract symbols from source code for a given language.
    fn extract_symbols(content: &[char], language: &Language, file: &str) -> (r: Vec<CodeSymbol>)
        ensures
            symbol_models(r@) == file_symbols(*language, content@, file@),
    {
        let mut out: Vec<CodeSymbol> = Vec::new();
        let mut pos: usize = 0;
        let mut done: usize = 0;
        assert(content@.subrange(0, content@.len() as int) == content@);
        while pos < content.len()
            invariant
                pos <= content@.len(),
                done <= pos,
                symbol_models(out@) + symbols_from(*language, lines(content@.subrange(pos as int, content@.len() as int)), done + 1, file@)
                    == file_symbols(*language, content@, file@),
            decreases content@.len() - pos,
        {
            let (a, b, n) = next_line(content, pos);
            let line = trimmed(&content[a..b]);
            let ln = done + 1;
            let mut found = Self::line_symbols(line, *language, ln, file);
            let ghost before = out@;
            let ghost found_v = found@;
            out.append(&mut found);
            proof {
                lemma_symbol_models_append(before, found_v);
                let ls = lines(content@.subrange(pos as int, content@.len() as int));
                assert(ls.drop_first() == lines(content@.subrange(n as int, content@.len() as int)));
            }
            pos = n;
            done = ln;
        }
        proof {
            assert(content@.subrange(pos as int, content@.len() as int).len() == 0);
        }
        out
    }

    /// The symbols one trimmed line declares.
    fn line_symbols(line: &[char], language: Language, ln: usize, file: &str) -> (r: Vec<CodeSymbol>)
        ensures
            symbol_models(r@) == line_symbols(language, line@, ln as int, file@),
    {
        match language {
            Language::Rust => Self::parse_rust_symbols(line, ln, file),
            Language::Python => Self::parse_python_symbols(line, ln, file),
            Language::Go => Self::parse_go_symbols(line, ln, file),
            Language::Java => Self::parse_java_symbols(line, ln, file),
            Language::JavaScript | Language::TypeScript => Self::parse_js_symbols(line, ln, file),
            Language::C | Language::Cpp => Self::parse_c_cpp_symbols(line, ln, file),
            Language::CSharp => Self::parse_csharp_symbols(line, ln, file),
            Language::PHP => Self::parse_php_symbols(line, ln, file),
            Language::Kotlin => Self::parse_kotlin_symbols(line, ln, file),
            Language::Swift => Self::parse_swift_symbols(line, ln, file),
            Language::Zig => Self::parse_zig_symbols(line, ln, file),
            Language::Lua => Self::parse_lua_symbols(line, ln, file),
            Language::Wasm => {
                let v: Vec<CodeSymbol> = Vec::new();
                assert(symbol_models(v@) =~= seq![]);
                v
            },
        }
    }

    /// Extract import/use/include statements.
    fn extract_imports(content: &[char], language: &Language, file: &str) -> (r: Vec<Import>)
        ensures
            import_models(r@) == file_imports(*language, content@, file@),
    {
        let mut out: Vec<Import> = Vec::new();
        let mut pos: usize = 0;
        let mut done: usize = 0;
        let mut in_block = false;
        assert(content@.subrange(0, content@.len() as int) == content@);
        while pos < content.len()
            invariant
                pos <= content@.len(),
                done <= pos,
                import_models(out@) + imports_from(*language, lines(content@.subrange(pos as int, content@.len() as int)), done + 1, file@, in_block)
                    == file_imports(*language, content@, file@),
            decreases content@.len() - pos,
        {
            let (a, b, n) = next_line(content, pos);
            let line = trimmed(&content[a..b]);
            let ln = done + 1;
            let (mut found, next) = Self::line_imports(line, *language, ln, file, in_block);
            let ghost before = out@;
            let ghost found_v = found@;
            out.append(&mut found);
            proof {
                lemma_import_models_append(before, found_v);
                let ls = lines(content@.subrange(pos as int, content@.len() as int));
                assert(ls.drop_first() == lines(content@.subrange(n as int, content@.len() as int)));
            }
            pos = n;
            done = ln;
            in_block = next;
        }
        proof {
            assert(content@.subrange(pos as int, content@.len() as int).len() == 0);
        }
        out
    }

    /// The imports one trimmed line declares, and the Go import-block state after it.
    fn line_imports(line: &[char], language: Language, ln: usize, file: &str, in_block: bool) -> (r: (Vec<Import>, bool))
        ensures
            (import_models(r.0@), r.1) == line_imports(language, line@, ln as int, file@, in_block),
    {
        match language {
            Language::Rust => (Self::parse_rust_imports(line, ln, file), in_block),
            Language::Python => (Self::parse_python_imports(line, ln, file), in_block),
            Language::Go => Self::parse_go_imports(line, ln, file, in_block),
            Language::Java => (Self::parse_java_imports(line, ln, file), in_block),
            Language::JavaScript | Language::TypeScript => (Self::parse_js_imports(line, ln, file), in_block),
            Language::C | Language::Cpp => (Self::parse_c_imports(line, ln, file), in_block),
            Language::CSharp => (Self::parse_csharp_imports(line, ln, file), in_block),
            Language::PHP => (Self::parse_php_imports(line, ln, file), in_block),
            Language::Kotlin => (Self::parse_kotlin_imports(line, ln, file), in_block),
            Language::Swift => (Self::parse_swift_imports(line, ln, file), in_block),
            Language::Zig => (Self::parse_zig_imports(line, ln, file), in_block),
            Language::Lua => (Self::parse_lua_imports(line, ln, file), in_block),
            Language::Wasm => {
                let v: Vec<Import> = Vec::new();
                assert(import_models(v@) =~= seq![]);
                (v, in_block)
            },
        }
    }

    fn loc(line: usize, file: &str) -> (r: CodeLocation)
        ensures
            r@ == (LocationModel { file: file@, line: line as int, column: 0 }),
    {
        CodeLocation { file: string_of(chars_of(file).as_slice()), line, column: 0 }
    }

    fn one_symbol(name: &[char], kind: SymbolKind, vis: Visibility, line: &[char], ln: usize, file: &str) -> (r: Vec<CodeSymbol>)
        ensures
            symbol_models(r@) == seq![sym(name@, kind, vis, line@, ln as int, file@)],
    {
        let s = CodeSymbol {
            name: string_of(name),
            kind,
            location: Self::loc(ln, file),
            visibility: vis,
            signature: string_of(line),
        };
        let mut v: Vec<CodeSymbol> = Vec::new();
        v.push(s);
        assert(symbol_models(v@) =~= seq![sym(name@, kind, vis, line@, ln as int, file@)]);
        v
    }

    fn no_symbols() -> (r: Vec<CodeSymbol>)
        ensures
            symbol_models(r@) == Seq::<SymbolModel>::empty(),
    {
        let v: Vec<CodeSymbol> = Vec::new();
        assert(symbol_models(v@) =~= Seq::<SymbolModel>::empty());
        v
    }

    fn one_import(source: &[char], names: Vec<String>, ln: usize, file: &str) -> (r: Vec<Import>)
        ensures
            import_models(r@) == seq![imp(source@, texts(names@), ln as int, file@)],
    {
        let i = Import { source: string_of(source), names, location: Self::loc(ln, file) };
        let mut v: Vec<Import> = Vec::new();
        v.push(i);
        assert(import_models(v@) =~= seq![imp(source@, texts(names@), ln as int, file@)]);
        v
    }

    fn no_imports() -> (r: Vec<Import>)
        ensures
            import_models(r@) == Seq::<ImportModel>::empty(),
    {
        let v: Vec<Import> = Vec::new();
        assert(import_models(v@) =~= Seq::<ImportModel>::empty());
        v
    }

    fn no_names() -> (r: Vec<String>)
        ensures
            texts(r@) == Seq::<Seq<char>>::empty(),
    {
        let v: Vec<String> = Vec::new();
        assert(texts(v@) =~= Seq::<Seq<char>>::empty());
        v
    }

    fn one_name(n: &[char]) -> (r: Vec<String>)
        ensures
            texts(r@) == seq![n@],
    {
        let mut v: Vec<String> = Vec::new();
        v.push(string_of(n));
        assert(texts(v@) =~= seq![n@]);
        v
    }

    fn join_symbols(mut a: Vec<CodeSymbol>, mut b: Vec<CodeSymbol>) -> (r: Vec<CodeSymbol>)
        ensures
            symbol_models(r@) == symbol_models(a@) + symbol_models(b@),
    {
        let ghost av = a@;
        let ghost bv = b@;
        a.append(&mut b);
        proof {
            lemma_symbol_models_append(av, bv);
        }
        a
    }

    fn join_imports(mut a: Vec<Import>, mut b: Vec<Import>) -> (r: Vec<Import>)
        ensures
            import_models(r@) == import_models(a@) + import_models(b@),
    {
        let ghost av = a@;
        let ghost bv = b@;
        a.append(&mut b);
        proof {
            lemma_import_models_append(av, bv);
        }
        a
    }

    // ── Rust ────────────────────────────────────────────────────────────

    fn parse_rust_symbols(line: &[char], ln: usize, file: &str) -> (r: Vec<CodeSymbol>)
        ensures
            symbol_models(r@) == rust_line_symbols(line@, ln as int, file@),
    {
        let set = ['<', '{', ' ', '\t'];
        assert(set@ == seq!['<', '{', ' ', '\t']);
        if let Some(rest) = strip_prefix_str(line, "pub fn ") {
            let name = trimmed(before_char_exec(rest, '('));
            Self::one_symbol(name, SymbolKind::Function, Visibility::Public, line, ln, file)
        } else if let Some(rest) = strip_prefix_str(line, "fn ") {
            let name = trimmed(before_char_exec(rest, '('));
            if !starts_with_str(name, "fn ") {
                Self::one_symbol(name, SymbolKind::Function, Visibility::Private, line, ln, file)
            } else {
                Self::no_symbols()
            }
        } else if let Some(rest) = strip_prefix_str(line, "pub struct ") {
            let name = trimmed(before_any_exec(rest, &set));
            Self::one_symbol(name, SymbolKind::Struct, Visibility::Public, line, ln, file)
        } else if let Some(rest) = strip_prefix_str(line, "pub enum ") {
            let name = trimmed(before_any_exec(rest, &set));
            Self::one_symbol(name, SymbolKind::Enum, Visibility::Public, line, ln, file)
        } else if let Some(rest) = strip_prefix_str(line, "pub trait ") {
            let name = trimmed(before_any_exec(rest, &set));
            Self::one_symbol(name, SymbolKind::Trait, Visibility::Public, line, ln, file)
        } else if let Some(rest) = strip_prefix_str(line, "pub type ") {
            let name = trimmed(before_char_exec(rest, '='));
            Self::one_symbol(name, SymbolKind::Type, Visibility::Public, line, ln, file)
        } else {
            Self::no_symbols()
        }
    }

    fn parse_rust_imports(line: &[char], ln: usize, file: &str) -> (r: Vec<Import>)
        ensures
            import_models(r@) == rust_line_imports(line@, ln as int, file@),
    {
        if let Some(use_path) = strip_prefix_str(line, "use ") {
            let path = trimmed(trimmed_end_char(use_path, ';'));
            if !starts_with_str(path, "crate::") && !starts_with_str(path, "self::") && !starts_with_str(path, "super::") {
                let names = Self::one_name(after_last_str_exec(path, "::"));
                Self::one_import(path, names, ln, file)
            } else {
                Self::no_imports()
            }
        } else {
            Self::no_imports()
        }
    }

    // ── Python ──────────────────────────────────────────────────────────

    fn parse_python_symbols(line: &[char], ln: usize, file: &str) -> (r: Vec<CodeSymbol>)
        ensures
            symbol_models(r@) == python_line_symbols(line@, ln as int, file@),
    {
        if let Some(rest) = strip_prefix_str(line, "def ") {
            let name = trimmed(before_char_exec(rest, '('));
            Self::one_symbol(name, SymbolKind::Function, Visibility::Public, line, ln, file)
        } else if let Some(rest) = strip_prefix_str(line, "class ") {
            let name = trimmed(before_char_exec(before_char_exec(rest, ':'), '('));
            Self::one_symbol(name, SymbolKind::Class, Visibility::Public, line, ln, file)
        } else {
            Self::no_symbols()
        }
    }

    /// The comma-separated pieces of `s`, each trimmed.
    fn split_trimmed(s: &[char]) -> (r: Vec<String>)
        ensures
            texts(r@) == trimmed_pieces(s@),
    {
        let mut out: Vec<String> = Vec::new();
        let mut pos: usize = 0;
        assert(s@.subrange(0, s@.len() as int) == s@);
        loop
            invariant
                pos <= s@.len(),
                texts(out@) + trimmed_pieces(s@.subrange(pos as int, s@.len() as int)) == trimmed_pieces(s@),
            decreases s@.len() - pos,
        {
            let t = &s[pos..s.len()];
            let ghost tv = t@;
            proof {
                lemma_char_index(tv, ',');
            }
            match char_index_exec(t, ',') {
                Some(i) => {
                    let piece = string_of(trimmed(&t[0..i]));
                    let ghost old_out = out@;
                    out.push(piece);
                    proof {
                        assert(split_char(tv, ',') == seq![tv.subrange(0, i as int)] + split_char(tv.subrange(i + 1, tv.len() as int), ','));
                        assert(tv.subrange(i + 1, tv.len() as int) == s@.subrange(pos + i + 1, s@.len() as int));
                        assert(texts(out@) =~= texts(old_out) + seq![trim(tv.subrange(0, i as int))]);
                        assert(trimmed_pieces(tv) =~= seq![trim(tv.subrange(0, i as int))] + trimmed_pieces(tv.subrange(i + 1, tv.len() as int)));
                    }
                    pos = pos + i + 1;
                },
                None => {
                    let piece = string_of(trimmed(t));
                    let ghost old_out = out@;
                    out.push(piece);
                    proof {
                        assert(split_char(tv, ',') == seq![tv]);
                        assert(texts(out@) =~= texts(old_out) + seq![trim(tv)]);
                        assert(trimmed_pieces(tv) =~= seq![trim(tv)]);
                    }
                    return out;
                },
            }
        }
    }

    fn parse_python_imports(line: &[char], ln: usize, file: &str) -> (r: Vec<Import>)
        ensures
            import_models(r@) == python_line_imports(line@, ln as int, file@),
    {
        if let Some(module) = strip_prefix_str(line, "import ") {
            let names = Self::split_trimmed(module);
            let mut out: Vec<Import> = Vec::new();
            let mut k: usize = 0;
            while k < names.len()
                invariant
                    k <= names@.len(),
                    import_models(out@) == texts(names@).subrange(0, k as int).map_values(
                        |n: Seq<char>| imp(n, seq![], ln as int, file@),
                    ),
                decreases names@.len() - k,
            {
                let src = chars_of(names[k].as_str());
                let mut one = Self::one_import(src.as_slice(), Self::no_names(), ln, file);
                let ghost before = out@;
                let ghost one_v = one@;
                out.append(&mut one);
                proof {
                    lemma_import_models_append(before, one_v);
                    assert(texts(names@).subrange(0, k + 1).map_values(|n: Seq<char>| imp(n, seq![], ln as int, file@))
                        =~= texts(names@).subrange(0, k as int).map_values(|n: Seq<char>| imp(n, seq![], ln as int, file@))
                        + seq![imp(texts(names@)[k as int], seq![], ln as int, file@)]);
                }
                k += 1;
            }
            proof {
                assert(texts(names@).subrange(0, names@.len() as int) == texts(names@));
            }
            out
        } else if let Some(from_part) = strip_prefix_str(line, "from ") {
            match split_once_str(from_part, " import ") {
                Some((head, tail)) => {
                    let source = trimmed(head);
                    let names = Self::split_trimmed(tail);
                    Self::one_import(source, names, ln, file)
                },
                None => Self::no_imports(),
            }
        } else {
            Self::no_imports()
        }
    }

    // ── Go ──────────────────────────────────────────────────────────────

    fn parse_go_symbols(line: &[char], ln: usize, file: &str) -> (r: Vec<CodeSymbol>)
        ensures
            symbol_models(r@) == go_line_symbols(line@, ln as int, file@),
    {
        if let Some(rest) = strip_prefix_str(line, "func ") {
            let name = trimmed(before_char_exec(rest, '('));
            let kind = if contains_char_exec(name, ')') { SymbolKind::Method } else { SymbolKind::Function };
            let vis = if name.len() > 0 && 'A' <= name[0] && name[0] <= 'Z' {
                Visibility::Public
            } else {
                Visibility::Private
            };
            Self::one_symbol(name, kind, vis, line, ln, file)
        } else if let Some(rest) = strip_prefix_str(line, "type ") {
            if contains_str(rest, "struct") || contains_str(rest, "interface") {
                let name = trimmed(before_char_exec(rest, ' '));
                Self::one_symbol(name, SymbolKind::Struct, Visibility::Public, line, ln, file)
            } else {
                Self::no_symbols()
            }
        } else {
            Self::no_symbols()
        }
    }

    fn parse_go_imports(line: &[char], ln: usize, file: &str, in_block: bool) -> (r: (Vec<Import>, bool))
        ensures
            (import_models(r.0@), r.1) == go_line_imports(line@, ln as int, file@, in_block),
    {
        let open = chars_of("import (");
        if same_chars(line, open.as_slice()) {
            return (Self::no_imports(), true);
        }
        let close = chars_of(")");
        if in_block && same_chars(line, close.as_slice()) {
            return (Self::no_imports(), false);
        }
        let p = trimmed_char(line, '"');
        let a = if in_block && p.len() > 0 {
            Self::one_import(p, Self::no_names(), ln, file)
        } else {
            Self::no_imports()
        };
        let b = if let Some(rest) = strip_prefix_str(line, "import ") {
            Self::one_import(trimmed_char(rest, '"'), Self::no_names(), ln, file)
        } else {
            Self::no_imports()
        };
        (Self::join_imports(a, b), in_block)
    }

    // ── Java ────────────────────────────────────────────────────────────

    fn java_type(rest: &[char], kind: SymbolKind, line: &[char], ln: usize, file: &str) -> (r: Vec<CodeSymbol>)
        ensures
            symbol_models(r@) == seq![sym(java_type_name(rest@), kind, Visibility::Public, line@, ln as int, file@)],
    {
        let name = trimmed(before_char_exec(before_char_exec(rest, '<'), ' '));
        Self::one_symbol(name, kind, Visibility::Public, line, ln, file)
    }

    /// `line.split('(').next()` then `.split(' ').last()`.
    fn word_before_paren(line: &[char]) -> (r: &[char])
        ensures
            r@ == word_before_paren(line@),
    {
        after_last_char_exec(before_char_exec(line, '('), ' ')
    }

    fn is_type_keyword(name: &[char]) -> (r: bool)
        ensures
            r == (name@ == "class"@ || name@ == "interface"@),
    {
        let c = chars_of("class");
        let i = chars_of("interface");
        same_chars(name, c.as_slice()) || same_chars(name, i.as_slice())
    }

    fn parse_java_symbols(line: &[char], ln: usize, file: &str) -> (r: Vec<CodeSymbol>)
        ensures
            symbol_models(r@) == java_line_symbols(line@, ln as int, file@),
    {
        let first = if let Some(rest) = strip_prefix_str(line, "public class ") {
            Self::java_type(rest, SymbolKind::Class, line, ln, file)
        } else if let Some(rest) = strip_prefix_str(line, "class ") {
            Self::java_type(rest, SymbolKind::Class, line, ln, file)
        } else if let Some(rest) = strip_prefix_str(line, "public interface ") {
            Self::java_type(rest, SymbolKind::Interface, line, ln, file)
        } else if let Some(rest) = strip_prefix_str(line, "public enum ") {
            Self::java_type(rest, SymbolKind::Enum, line, ln, file)
        } else {
            Self::no_symbols()
        };
        let second = if contains_char_exec(line, '(') && contains_char_exec(line, ')') && !contains_char_exec(line, ';')
            && (starts_with_str(line, "public ") || starts_with_str(line, "private ") || starts_with_str(line, "protected ")) {
            let name = Self::word_before_paren(line);
            if name.len() > 0 && !Self::is_type_keyword(name) {
                let vis = if starts_with_str(line, "public") {
                    Visibility::Public
                } else if starts_with_str(line, "private") {
                    Visibility::Private
                } else {
                    Visibility::Protected
                };
                Self::one_symbol(name, SymbolKind::Method, vis, line, ln, file)
            } else {
                Self::no_symbols()
            }
        } else {
            Self::no_symbols()
        };
        Self::join_symbols(first, second)
    }

    fn parse_java_imports(line: &[char], ln: usize, file: &str) -> (r: Vec<Import>)
        ensures
            import_models(r@) == java_line_imports(line@, ln as int, file@),
    {
        if let Some(rest) = strip_prefix_str(line, "import ") {
            let path = trimmed(trimmed_end_char(rest, ';'));
            if !starts_with_str(path, "java.") && !starts_with_str(path, "javax.") {
                let names = Self::one_name(after_last_char_exec(path, '.'));
                Self::one_import(path, names, ln, file)
            } else {
                Self::no_imports()
            }
        } else {
            Self::no_imports()
        }
    }

    // ── JavaScript / TypeScript ─────────────────────────────────────────

    fn parse_js_symbols(line: &[char], ln: usize, file: &str) -> (r: Vec<CodeSymbol>)
        ensures
            symbol_models(r@) == js_line_symbols(line@, ln as int, file@),
    {
        if let Some(rest) = strip_prefix_str(line, "function ") {
            let name = trimmed(before_char_exec(rest, '('));
            Self::one_symbol(name, SymbolKind::Function, Visibility::Public, line, ln, file)
        } else if let Some(rest) = strip_prefix_str(line, "export function ") {
            let name = trimmed(before_char_exec(rest, '('));
            Self::one_symbol(name, SymbolKind::Function, Visibility::Public, line, ln, file)
        } else if let Some(rest) = strip_prefix_str(line, "class ") {
            let name = trimmed(before_char_exec(before_char_exec(rest, '{'), ' '));
            Self::one_symbol(name, SymbolKind::Class, Visibility::Public, line, ln, file)
        } else if let Some(rest) = strip_prefix_str(line, "interface ") {
            let name = trimmed(before_char_exec(before_char_exec(rest, '{'), ' '));
            Self::one_symbol(name, SymbolKind::Interface, Visibility::Public, line, ln, file)
        } else if starts_with_str(line, "const ") {
            let head = before_char_exec(line, '=');
            let stripped = match strip_prefix_str(head, "const ") {
                Some(t) => t,
                None => head,
            };
            let name = trimmed(stripped);
            if !(name.len() > 0 && name[0] == '{') {
                proof {
                    crate::text::lemma_starts_with_char(name@, '{');
                }
                Self::one_symbol(name, SymbolKind::Variable, Visibility::Private, line, ln, file)
            } else {
                proof {
                    crate::text::lemma_starts_with_char(name@, '{');
                }
                Self::no_symbols()
            }
        } else {
            Self::no_symbols()
        }
    }

    /// `trim`, then strip `"` and `'` from both ends.
    fn unquote(s: &[char]) -> (r: &[char])
        ensures
            r@ == unquote(s@),
    {
        trimmed_char(trimmed_char(trimmed(s), '"'), '\'')
    }

    fn parse_js_imports(line: &[char], ln: usize, file: &str) -> (r: Vec<Import>)
        ensures
            import_models(r@) == js_line_imports(line@, ln as int, file@),
    {
        let a = if let Some(rest) = strip_prefix_str(line, "import ") {
            let t = trimmed_end_char(rest, ';');
            match split_once_str(t, " from ") {
                Some((_head, tail)) => {
                    let source = Self::unquote(tail);
                    Self::one_import(source, Self::no_names(), ln, file)
                },
                None => {
                    let source = Self::unquote(t);
                    if source.len() > 0 {
                        Self::one_import(source, Self::no_names(), ln, file)
                    } else {
                        Self::no_imports()
                    }
                },
            }
        } else {
            Self::no_imports()
        };
        let b = match split_once_str(line, "require(") {
            Some((_head, r)) => {
                proof {
                    lemma_char_index(r@, ')');
                }
                match char_index_exec(r, ')') {
                    Some(e) => Self::one_import(Self::unquote(&r[0..e]), Self::no_names(), ln, file),
                    None => Self::no_imports(),
                }
            },
            None => Self::no_imports(),
        };
        Self::join_imports(a, b)
    }

    // ── C / C++ ─────────────────────────────────────────────────────────

    fn parse_c_cpp_symbols(line: &[char], ln: usize, file: &str) -> (r: Vec<CodeSymbol>)
        ensures
            symbol_models(r@) == c_line_symbols(line@, ln as int, file@),
    {
        let ends_brace = line.len() > 0 && line[line.len() - 1] == '{';
        proof {
            crate::text::lemma_ends_with_char(line@, '{');
        }
        let a = if ends_brace && !starts_with_str(line, "if ") && !starts_with_str(line, "while ")
            && !starts_with_str(line, "for ") && !starts_with_str(line, "switch ")
            && !starts_with_str(line, "struct ") {
            let name = trimmed(Self::word_before_paren(line));
            let star = name.len() > 0 && name[0] == '*';
            proof {
                crate::text::lemma_starts_with_char(name@, '*');
            }
            if name.len() > 0 && !star && !contains_str(name, "if") && !contains_str(name, "return") {
                Self::one_symbol(name, SymbolKind::Function, Visibility::Public, line, ln, file)
            } else {
                Self::no_symbols()
            }
        } else {
            Self::no_symbols()
        };
        let b = if starts_with_str(line, "struct ") && contains_char_exec(line, '{') {
            let rest = match strip_prefix_str(line, "struct ") {
                Some(t) => t,
                None => &line[0..0],
            };
            let name = trimmed(before_char_exec(rest, '{'));
            Self::one_symbol(name, SymbolKind::Struct, Visibility::Public, line, ln, file)
        } else {
            Self::no_symbols()
        };
        Self::join_symbols(a, b)
    }

    fn parse_c_imports(line: &[char], ln: usize, file: &str) -> (r: Vec<Import>)
        ensures
            import_models(r@) == c_line_imports(line@, ln as int, file@),
    {
        if let Some(header) = strip_prefix_str(line, "#include ") {
            let h = trimmed_char(trimmed_char(trimmed_char(trimmed(header), '"'), '<'), '>');
            Self::one_import(h, Self::no_names(), ln, file)
        } else {
            Self::no_imports()
        }
    }

    // ── C# ──────────────────────────────────────────────────────────────

    fn csharp_type(rest: &[char], kind: SymbolKind, line: &[char], ln: usize, file: &str) -> (r: Vec<CodeSymbol>)
        ensures
            symbol_models(r@) == seq![sym(name_upto2(rest@, ':', '{'), kind, Visibility::Public, line@, ln as int, file@)],
    {
        let name = trimmed(before_char_exec(before_char_exec(rest, ':'), '{'));
        Self::one_symbol(name, kind, Visibility::Public, line, ln, file)
    }

    fn parse_csharp_symbols(line: &[char], ln: usize, file: &str) -> (r: Vec<CodeSymbol>)
        ensures
            symbol_models(r@) == csharp_line_symbols(line@, ln as int, file@),
    {
        let a = if let Some(rest) = strip_prefix_str(line, "public class ") {
            Self::csharp_type(rest, SymbolKind::Class, line, ln, file)
        } else if let Some(rest) = strip_prefix_str(line, "class ") {
            Self::csharp_type(rest, SymbolKind::Class, line, ln, file)
        } else if let Some(rest) = strip_prefix_str(line, "public interface ") {
            Self::csharp_type(rest, SymbolKind::Interface, line, ln, file)
        } else if let Some(rest) = strip_prefix_str(line, "interface ") {
            Self::csharp_type(rest, SymbolKind::Interface, line, ln, file)
        } else {
            Self::no_symbols()
        };
        let b = if contains_char_exec(line, '(') && contains_char_exec(line, ')') {
            let is_public = starts_with_str(line, "public ") || starts_with_str(line, "private ")
                || starts_with_str(line, "protected ");
            if is_public || starts_with_str(line, "void ") || starts_with_str(line, "int ")
                || starts_with_str(line, "string ") || starts_with_str(line, "bool ")
                || starts_with_str(line, "Task<") || starts_with_str(line, "async ") {
                let name = Self::word_before_paren(line);
                if name.len() > 0 && !Self::is_type_keyword(name) {
                    Self::one_symbol(name, SymbolKind::Method, Visibility::Public, line, ln, file)
                } else {
                    Self::no_symbols()
                }
            } else {
                Self::no_symbols()
            }
        } else {
            Self::no_symbols()
        };
        Self::join_symbols(a, b)
    }

    fn keyword_import(kw: &str, line: &[char], ln: usize, file: &str) -> (r: Vec<Import>)
        ensures
            import_models(r@) == keyword_line_import(kw@, line@, ln as int, file@),
    {
        if let Some(ns) = strip_prefix_str(line, kw) {
            let ns = trimmed(trimmed_end_char(ns, ';'));
            Self::one_import(ns, Self::no_names(), ln, file)
        } else {
            Self::no_imports()
        }
    }

    fn parse_csharp_imports(line: &[char], ln: usize, file: &str) -> (r: Vec<Import>)
        ensures
            import_models(r@) == keyword_line_import("using "@, line@, ln as int, file@),
    {
        Self::keyword_import("using ", line, ln, file)
    }

    // ── PHP ─────────────────────────────────────────────────────────────

    fn parse_php_symbols(line: &[char], ln: usize, file: &str) -> (r: Vec<CodeSymbol>)
        ensures
            symbol_models(r@) == php_line_symbols(line@, ln as int, file@),
    {
        if let Some(rest) = strip_prefix_str(line, "function ") {
            let name = trimmed(before_char_exec(rest, '('));
            Self::one_symbol(name, SymbolKind::Function, Visibility::Public, line, ln, file)
        } else if let Some(rest) = strip_prefix_str(line, "class ") {
            let name = trimmed(before_char_exec(before_char_exec(rest, '{'), ' '));
            Self::one_symbol(name, SymbolKind::Class, Visibility::Public, line, ln, file)
        } else if let Some(rest) = strip_prefix_str(line, "interface ") {
            let name = trimmed(before_char_exec(before_char_exec(rest, '{'), ' '));
            Self::one_symbol(name, SymbolKind::Interface, Visibility::Public, line, ln, file)
        } else {
            Self::no_symbols()
        }
    }

    fn parse_php_imports(line: &[char], ln: usize, file: &str) -> (r: Vec<Import>)
        ensures
            import_models(r@) == keyword_line_import("use "@, line@, ln as int, file@),
    {
        Self::keyword_import("use ", line, ln, file)
    }

    // ── Kotlin ──────────────────────────────────────────────────────────

    fn parse_kotlin_symbols(line: &[char], ln: usize, file: &str) -> (r: Vec<CodeSymbol>)
        ensures
            symbol_models(r@) == kotlin_line_symbols(line@, ln as int, file@),
    {
        if let Some(rest) = strip_prefix_str(line, "fun ") {
            let name = trimmed(before_char_exec(rest, '('));
            Self::one_symbol(name, SymbolKind::Function, Visibility::Public, line, ln, file)
        } else if let Some(rest) = strip_prefix_str(line, "class ") {
            let name = trimmed(before_char_exec(before_char_exec(rest, '('), ':'));
            Self::one_symbol(name, SymbolKind::Class, Visibility::Public, line, ln, file)
        } else if let Some(rest) = strip_prefix_str(line, "interface ") {
            let name = trimmed(before_char_exec(rest, ':'));
            Self::one_symbol(name, SymbolKind::Interface, Visibility::Public, line, ln, file)
        } else {
            Self::no_symbols()
        }
    }

    fn parse_kotlin_imports(line: &[char], ln: usize, file: &str) -> (r: Vec<Import>)
        ensures
            import_models(r@) == kotlin_line_imports(line@, ln as int, file@),
    {
        if let Some(path) = strip_prefix_str(line, "import ") {
            Self::one_import(path, Self::no_names(), ln, file)
        } else {
            Self::no_imports()
        }
    }

    // ── Swift ───────────────────────────────────────────────────────────

    fn parse_swift_symbols(line: &[char], ln: usize, file: &str) -> (r: Vec<CodeSymbol>)
        ensures
            symbol_models(r@) == swift_line_symbols(line@, ln as int, file@),
    {
        if let Some(rest) = strip_prefix_str(line, "func ") {
            let name = trimmed(before_char_exec(rest, '('));
            let vis = if starts_with_str(line, "public ") {
                Visibility::Public
            } else if starts_with_str(line, "private ") {
                Visibility::Private
            } else {
                Visibility::Internal
            };
            Self::one_symbol(name, SymbolKind::Function, vis, line, ln, file)
        } else if let Some(rest) = strip_prefix_str(line, "class ") {
            Self::csharp_type(rest, SymbolKind::Class, line, ln, file)
        } else if let Some(rest) = strip_prefix_str(line, "struct ") {
            Self::csharp_type(rest, SymbolKind::Struct, line, ln, file)
        } else if let Some(rest) = strip_prefix_str(line, "enum ") {
            Self::csharp_type(rest, SymbolKind::Enum, line, ln, file)
        } else if let Some(rest) = strip_prefix_str(line, "protocol ") {
            Self::csharp_type(rest, SymbolKind::Interface, line, ln, file)
        } else {
            Self::no_symbols()
        }
    }

    fn parse_swift_imports(line: &[char], ln: usize, file: &str) -> (r: Vec<Import>)
        ensures
            import_models(r@) == swift_line_imports(line@, ln as int, file@),
    {
        if let Some(module) = strip_prefix_str(line, "import ") {
            Self::one_import(trimmed(module), Self::no_names(), ln, file)
        } else {
            Self::no_imports()
        }
    }

    // ── Zig ─────────────────────────────────────────────────────────────

    fn parse_zig_symbols(line: &[char], ln: usize, file: &str) -> (r: Vec<CodeSymbol>)
        ensures
            symbol_models(r@) == zig_line_symbols(line@, ln as int, file@),
    {
        if let Some(rest) = strip_prefix_str(line, "fn ") {
            let name = trimmed(before_char_exec(rest, '('));
            Self::one_symbol(name, SymbolKind::Function, Visibility::Public, line, ln, file)
        } else if let Some(rest) = strip_prefix_str(line, "const ") {
            match split_once_str(rest, " = ") {
                Some((head, _tail)) => {
                    let name = trimmed(head);
                    Self::one_symbol(name, SymbolKind::Variable, Visibility::Public, line, ln, file)
                },
                None => Self::no_symbols(),
            }
        } else {
            Self::no_symbols()
        }
    }

    fn parse_zig_imports(line: &[char], ln: usize, file: &str) -> (r: Vec<Import>)
        ensures
            import_models(r@) == zig_line_imports(line@, ln as int, file@),
    {
        if let Some(rest) = strip_prefix_str(line, "const ") {
            match split_once_str(rest, "@import(\"") {
                Some((_head, after)) => {
                    proof {
                        lemma_char_index(after@, '"');
                    }
                    match char_index_exec(after, '"') {
                        Some(e) => Self::one_import(&after[0..e], Self::no_names(), ln, file),
                        None => Self::no_imports(),
                    }
                },
                None => Self::no_imports(),
            }
        } else {
            Self::no_imports()
        }
    }

    // ── Lua ─────────────────────────────────────────────────────────────

    fn parse_lua_symbols(line: &[char], ln: usize, file: &str) -> (r: Vec<CodeSymbol>)
        ensures
            symbol_models(r@) == lua_line_symbols(line@, ln as int, file@),
    {
        if let Some(rest) = strip_prefix_str(line, "function ") {
            let name = trimmed(before_char_exec(rest, '('));
            Self::one_symbol(name, SymbolKind::Function, Visibility::Public, line, ln, file)
        } else if let Some(rest) = strip_prefix_str(line, "local function ") {
            let name = trimmed(before_char_exec(rest, '('));
            Self::one_symbol(name, SymbolKind::Function, Visibility::Private, line, ln, file)
        } else {
            Self::no_symbols()
        }
    }

    fn parse_lua_imports(line: &[char], ln: usize, file: &str) -> (r: Vec<Import>)
        ensures
            import_models(r@) == lua_line_imports(line@, ln as int, file@),
    {
        if let Some(rest) = strip_prefix_str(line, "require \"") {
            proof {
                lemma_char_index(rest@, '"');
            }
            match char_index_exec(rest, '"') {
                Some(e) => Self::one_import(&rest[0..e], Self::no_names(), ln, file),
                None => Self::no_imports(),
            }
        } else if let Some(rest) = strip_prefix_str(line, "require(") {
            let after = trimmed_start_char(trimmed_start_char(trimmed_start(rest), '"'), '\'');
            let source = trimmed(before_char_exec(before_char_exec(after, '"'), '\''));
            if source.len() > 0 {
                Self::one_import(source, Self::no_names(), ln, file)
            } else {
                Self::no_imports()
            }
        } else {
            Self::no_imports()
        }
    }
}

/// `s.lines().count()` on characters.
pub fn count_lines(s: &[char]) -> (n: usize)
    ensures
        n == lines(s@).len(),
{
    let mut pos: usize = 0;
    let mut n: usize = 0;
    assert(s@.subrange(0, s@.len() as int) == s@);
    while pos < s.len()
        invariant
            pos <= s@.len(),
            n <= pos,
            n + lines(s@.subrange(pos as int, s@.len() as int)).len() == lines(s@).len(),
        decreases s@.len() - pos,
    {
        let (_a, _b, next) = next_line(s, pos);
        pos = next;
        n += 1;
    }
    assert(s@.subrange(pos as int, s@.len() as int).len() == 0);
    n
}

} // verus!
