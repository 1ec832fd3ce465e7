use tordex::analysis::{CallGraph, ControlFlowGraph};
use tordex::language::Language;
use tordex::parser::{CodeLocation, CodeSymbol, Module, SourceAnalyzer, SymbolKind, Visibility};
use tordex::repo_intel::RepoIntel;

// ── language ────────────────────────────────────────────────────────────

#[test]
fn detect_rs() {
    assert_eq!(Language::from_filename("main.rs"), Some(Language::Rust));
    assert_eq!(Language::from_filename("lib.rs"), Some(Language::Rust));
}

#[test]
fn detect_py() {
    assert_eq!(Language::from_filename("script.py"), Some(Language::Python));
    assert_eq!(Language::from_filename("script.pyw"), Some(Language::Python));
}

#[test]
fn detect_other_languages() {
    assert_eq!(Language::from_filename("main.go"), Some(Language::Go));
    assert_eq!(Language::from_filename("App.java"), Some(Language::Java));
    assert_eq!(Language::from_filename("main.c"), Some(Language::C));
    assert_eq!(Language::from_filename("main.cpp"), Some(Language::Cpp));
    assert_eq!(Language::from_filename("program.cs"), Some(Language::CSharp));
    assert_eq!(Language::from_filename("app.js"), Some(Language::JavaScript));
    assert_eq!(Language::from_filename("app.ts"), Some(Language::TypeScript));
    assert_eq!(Language::from_filename("index.php"), Some(Language::PHP));
    assert_eq!(Language::from_filename("main.kt"), Some(Language::Kotlin));
    assert_eq!(Language::from_filename("main.swift"), Some(Language::Swift));
    assert_eq!(Language::from_filename("main.zig"), Some(Language::Zig));
    assert_eq!(Language::from_filename("script.lua"), Some(Language::Lua));
    assert_eq!(Language::from_filename("module.wasm"), Some(Language::Wasm));
}

#[test]
fn detect_from_content_rust() {
    let code = "fn main() {\n    let mut x = 1;\n}";
    assert_eq!(Language::from_content(code), Some(Language::Rust));
}

#[test]
fn detect_from_content_python() {
    let code = "def hello():\n    print('hi')\n";
    assert_eq!(Language::from_content(code), Some(Language::Python));
}

#[test]
fn detect_from_content_go() {
    let code = "package main\nfunc main() {\n}";
    assert_eq!(Language::from_content(code), Some(Language::Go));
}

#[test]
fn unknown_extension() {
    assert!(Language::from_filename("file.txt").is_none());
}

#[test]
fn name_is_human_readable() {
    assert_eq!(Language::Cpp.name(), "C++");
    assert_eq!(Language::CSharp.name(), "C#");
    assert_eq!(Language::JavaScript.name(), "JavaScript");
}

#[test]
fn uppercase_file_names_are_lowered_first() {
    assert_eq!(Language::from_filename("MAIN.RS"), Some(Language::Rust));
    assert_eq!(Language::from_lowercase_name("main.rs"), Some(Language::Rust));
    assert_eq!(Language::from_lowercase_name("MAIN.RS"), None);
}

#[test]
fn cc_suffix_is_read_as_c() {
    // ".cc" does not end with ".c": the C++ suffix list takes it.
    assert_eq!(Language::from_filename("util.cc"), Some(Language::Cpp));
    assert_eq!(Language::from_filename("UTIL.C"), Some(Language::C));
    assert_eq!(Language::from_filename("util.hpp"), Some(Language::Cpp));
}

#[test]
fn extensions_are_detected_back() {
    let all = [
        Language::Rust, Language::Python, Language::Go, Language::Java, Language::C,
        Language::Cpp, Language::CSharp, Language::JavaScript, Language::TypeScript,
        Language::PHP, Language::Kotlin, Language::Swift, Language::Zig, Language::Lua,
        Language::Wasm,
    ];
    for l in all {
        for e in l.extensions() {
            if *e == "cc" {
                continue;
            }
            let name = format!("file.{e}");
            assert_eq!(Language::from_lowercase_name(&name), Some(l));
        }
    }
    assert_eq!(Language::Cpp.extensions(), &["cpp", "cxx", "cc", "hpp", "hxx"]);
}

#[test]
fn shebang_selects_language() {
    assert_eq!(Language::from_content("#!/usr/bin/env node\nconsole.log(1)"), Some(Language::JavaScript));
    assert_eq!(Language::from_content("#!/usr/bin/env lua\nprint(1)"), Some(Language::Lua));
    assert_eq!(Language::from_content("public class A {}"), Some(Language::Java));
    assert_eq!(Language::from_content("const x: string = 'a';"), Some(Language::TypeScript));
    assert_eq!(Language::from_content("plain words"), None);
    assert_eq!(Language::from_content(""), None);
}

// ── parser ──────────────────────────────────────────────────────────────

#[test]
fn analyze_rust_file() {
    let code = r#"
use std::collections::HashMap;

pub fn hello(name: &str) -> String {
    format!("Hello, {}!", name)
}

fn internal() {}
"#;
    let module = SourceAnalyzer::analyze_file("main.rs", code).unwrap();
    assert_eq!(module.language, Language::Rust);
    assert_eq!(module.symbols.len(), 2);
    assert_eq!(module.symbols[0].name, "hello");
    assert_eq!(module.symbols[0].visibility, Visibility::Public);
    assert_eq!(module.imports.len(), 1);
}

#[test]
fn analyze_python_file() {
    let code = r#"
import os
import sys
from datetime import datetime

def greet(name):
    print(f"Hello, {name}")

class Person:
    pass
"#;
    let module = SourceAnalyzer::analyze_file("main.py", code).unwrap();
    assert_eq!(module.symbols.len(), 2);
    assert_eq!(module.imports.len(), 3);
}

#[test]
fn analyze_go_file() {
    let code = r#"
package main

import (
    "fmt"
    "os"
)

func main() {
    fmt.Println("hello")
}

func helper() string {
    return "x"
}
"#;
    let module = SourceAnalyzer::analyze_file("main.go", code).unwrap();
    assert_eq!(module.symbols.len(), 2);
    assert_eq!(module.imports.len(), 2);
}

#[test]
fn analyze_js_file() {
    let code = r#"
import { something } from "./module";
const express = require("express");

function handler(req, res) {
    return "ok";
}

class Service {
    run() {}
}
"#;
    let module = SourceAnalyzer::analyze_file("app.js", code).unwrap();
    assert_eq!(module.symbols.len(), 3); // function + class + const variable
    assert_eq!(module.imports.len(), 2);
}

#[test]
fn analyze_java_file() {
    let code = r#"
package com.example;
import com.example.model.User;

public class HelloService {
    public String greet(String name) {
        return "Hello";
    }
    private void helper() {}
}
"#;
    let module = SourceAnalyzer::analyze_file("HelloService.java", code).unwrap();
    assert_eq!(module.language, Language::Java);
    assert_eq!(module.symbols.len(), 3); // class + 2 methods
}

#[test]
fn unknown_file_returns_none() {
    let result = SourceAnalyzer::analyze_file("readme.txt", "some text");
    assert!(result.is_none());
}

#[test]
fn rust_pub_struct_detected() {
    let code = "pub struct Config {\n    pub name: String,\n}";
    let module = SourceAnalyzer::analyze_file("lib.rs", code).unwrap();
    assert_eq!(module.symbols.len(), 1);
    assert_eq!(module.symbols[0].name, "Config");
    assert_eq!(module.symbols[0].kind, SymbolKind::Struct);
}

#[test]
fn c_functions_detected() {
    let code = r#"
#include <stdio.h>
#include "helper.h"

int main(int argc, char **argv) {
    return 0;
}

void helper() {}
"#;
    let module = SourceAnalyzer::analyze_file("main.c", code).unwrap();
    assert!(module.symbols.len() >= 1);
    assert_eq!(module.imports.len(), 2);
}

#[test]
fn swift_symbols_detected() {
    let code = r#"
import Foundation

class UserManager {
    func login() {}
}

struct Config {
    let version: String
}
"#;
    let module = SourceAnalyzer::analyze_file("app.swift", code).unwrap();
    assert_eq!(module.symbols.len(), 3); // class + method + struct
}

#[test]
fn wasm_returns_empty_symbols() {
    let code = "\0asm\x01\x00\x00\x00";
    let module = SourceAnalyzer::analyze_file("module.wasm", code).unwrap();
    assert_eq!(module.language, Language::Wasm);
    assert!(module.symbols.is_empty());
}

#[test]
fn symbol_details_are_exact() {
    let code = "use crate::x;\nuse serde::Serialize;\r\n  pub enum Kind<T> {\n";
    let module = SourceAnalyzer::analyze_file("src/lib.rs", code).unwrap();
    assert_eq!(module.line_count, 3);
    assert_eq!(module.imports.len(), 1);
    assert_eq!(module.imports[0].source, "serde::Serialize");
    assert_eq!(module.imports[0].names, vec!["Serialize".to_string()]);
    assert_eq!(module.imports[0].location.line, 2);
    assert_eq!(module.symbols.len(), 1);
    assert_eq!(module.symbols[0].name, "Kind");
    assert_eq!(module.symbols[0].kind, SymbolKind::Enum);
    assert_eq!(module.symbols[0].signature, "pub enum Kind<T> {");
    assert_eq!(module.symbols[0].location.line, 3);
    assert_eq!(module.symbols[0].location.file, "src/lib.rs");
}

#[test]
fn python_from_import_lists_names() {
    let module = SourceAnalyzer::analyze_file("a.py", "from x.y import a, b ,c\nimport p, q").unwrap();
    assert_eq!(module.imports.len(), 3);
    assert_eq!(module.imports[0].source, "x.y");
    assert_eq!(module.imports[0].names, vec!["a".to_string(), "b".to_string(), "c".to_string()]);
    assert_eq!(module.imports[1].source, "p");
    assert_eq!(module.imports[2].source, "q");
}

#[test]
fn go_method_and_visibility() {
    let module = SourceAnalyzer::analyze_file("m.go", "func Public() {}\nfunc private() {}\ntype T struct {").unwrap();
    assert_eq!(module.symbols.len(), 3);
    assert_eq!(module.symbols[0].visibility, Visibility::Public);
    assert_eq!(module.symbols[1].visibility, Visibility::Private);
    assert_eq!(module.symbols[2].kind, SymbolKind::Struct);
    assert_eq!(module.symbols[2].name, "T");
}

#[test]
fn lua_zig_kotlin_csharp_php() {
    let lua = SourceAnalyzer::analyze_file("a.lua", "local function f(x)\nrequire(\"mod\")\nrequire \"other\"").unwrap();
    assert_eq!(lua.symbols[0].visibility, Visibility::Private);
    assert_eq!(lua.imports.len(), 2);
    assert_eq!(lua.imports[0].source, "mod");
    assert_eq!(lua.imports[1].source, "other");
    let zig = SourceAnalyzer::analyze_file("a.zig", "const std = @import(\"std\");\nfn main() void {").unwrap();
    assert_eq!(zig.imports[0].source, "std");
    assert_eq!(zig.symbols.len(), 2);
    let kt = SourceAnalyzer::analyze_file("a.kt", "import foo.Bar\nclass A(val x: Int) : B").unwrap();
    assert_eq!(kt.imports[0].source, "foo.Bar");
    assert_eq!(kt.symbols[0].name, "A");
    let cs = SourceAnalyzer::analyze_file("a.cs", "using System;\npublic class A : B {\npublic void Run() {").unwrap();
    assert_eq!(cs.imports[0].source, "System");
    assert_eq!(cs.symbols.len(), 2);
    assert_eq!(cs.symbols[1].name, "Run");
    let php = SourceAnalyzer::analyze_file("a.php", "use App\\Models;\nfunction go() {").unwrap();
    assert_eq!(php.imports[0].source, "App\\Models");
    assert_eq!(php.symbols[0].name, "go");
}

#[test]
fn analyze_as_uses_given_language() {
    let m = SourceAnalyzer::analyze_as("notes.txt", "def f():", Language::Python);
    assert_eq!(m.symbols.len(), 1);
    assert_eq!(m.symbols[0].name, "f");
}

// ── analysis ────────────────────────────────────────────────────────────

fn sample_module() -> Module {
    Module {
        path: "lib.rs".to_string(),
        language: Language::Rust,
        symbols: vec![CodeSymbol {
            name: "main".to_string(),
            kind: SymbolKind::Function,
            location: CodeLocation { file: "lib.rs".to_string(), line: 1, column: 0 },
            visibility: Visibility::Public,
            signature: "fn main()".to_string(),
        }],
        imports: vec![],
        line_count: 10,
    }
}

#[test]
fn call_graph_builds_from_modules() {
    let module = sample_module();
    let cg = CallGraph::build(&[module]);
    assert_eq!(cg.node_count(), 1);
    assert_eq!(cg.edge_count(), 0);
}

#[test]
fn call_graph_add_edge() {
    let module = sample_module();
    let mut cg = CallGraph::build(&[module]);
    cg.add_call("main", "helper");
    // helper doesn't exist yet, so edge is not added
    assert_eq!(cg.edge_count(), 0);
}

#[test]
fn call_graph_edges_are_added_once() {
    let m = SourceAnalyzer::analyze_file("a.rs", "fn main() {}\nfn helper() {}\nfn main() {}").unwrap();
    let mut cg = CallGraph::build(&[m]);
    assert_eq!(cg.node_count(), 3);
    cg.add_call("main", "helper");
    cg.add_call("main", "helper");
    assert_eq!(cg.edges, vec![(0, 1)]);
    let callers = cg.callers_of("helper");
    assert_eq!(callers.len(), 1);
    assert_eq!(callers[0].line, 1);
    let callees = cg.callees_of("main");
    assert_eq!(callees.len(), 1);
    assert_eq!(callees[0].name, "helper");
    assert!(cg.callers_of("main").is_empty());
}

#[test]
fn cfg_builds_simple_function() {
    let body = r#"
if x > 0 {
    do_something();
}
return;
"#;
    let cfg = ControlFlowGraph::build("test_fn", body, 1);
    assert!(cfg.block_count() >= 4); // entry, if, then, exit
    assert!(cfg.jump_count() >= 3);
}

#[test]
fn cfg_cyclomatic_complexity() {
    let body = r#"
if a {
    x();
}
if b {
    y();
}
return;
"#;
    let cfg = ControlFlowGraph::build("test", body, 1);
    let cc = cfg.cyclomatic_complexity();
    assert!(cc >= 1);
}

#[test]
fn cfg_builds_loop() {
    let body = r#"
for i in 0..10 {
    process(i);
}
return;
"#;
    let cfg = ControlFlowGraph::build("loop_fn", body, 1);
    assert!(cfg.block_count() >= 4);
}

#[test]
fn empty_body_has_entry_and_exit() {
    let cfg = ControlFlowGraph::build("empty", "", 1);
    assert_eq!(cfg.block_count(), 2); // entry + exit
    assert_eq!(cfg.jump_count(), 1); // entry -> exit
}

#[test]
fn cfg_exact_blocks_and_complexity() {
    // "} else {" starts with a brace, so it opens no block; "else {" does.
    let body = "if a {\n} else {\nwhile x {\n}\nreturn y;";
    let cfg = ControlFlowGraph::build("f", body, 10);
    let labels: Vec<&str> = cfg.blocks.iter().map(|b| b.label.as_str()).collect();
    assert_eq!(labels, vec!["entry", "if_1", "then_2", "loop_3", "exit_4", "exit"]);
    assert_eq!(cfg.jumps, vec![(0, 1), (1, 2), (2, 3), (3, 3), (3, 4), (4, 5)]);
    assert_eq!(cfg.blocks[5].start_line, 15);
    assert_eq!(cfg.blocks[3].start_line, 12);
    let with_else = ControlFlowGraph::build("g", "if a {\n}\nelse {\n}", 1);
    let labels: Vec<&str> = with_else.blocks.iter().map(|b| b.label.as_str()).collect();
    assert_eq!(labels, vec!["entry", "if_1", "then_2", "else_3", "exit"]);
    assert_eq!(with_else.jumps, vec![(0, 1), (1, 2), (2, 3), (3, 4)]);
    // one loop line: complexity 2
    assert_eq!(cfg.cyclomatic_complexity(), 2);
    for (k, b) in cfg.blocks.iter().enumerate() {
        assert_eq!(b.id, k);
    }
}

// ── engine ──────────────────────────────────────────────────────────────

#[test]
fn lib_analyze_single_file() {
    let mut intel = RepoIntel::new();
    let result = intel.analyze_file(
        "hello.rs",
        "pub fn greet(name: &str) -> String {\n    format!(\"Hello, {}\", name)\n}\n",
    );
    assert!(result.is_some());
    let fa = result.unwrap();
    assert_eq!(fa.module.language, Language::Rust);
    assert_eq!(fa.module.symbols.len(), 1);
    assert_eq!(fa.module.symbols[0].name, "greet");
}

#[test]
fn analyze_package_multi_language() {
    let mut intel = RepoIntel::new();
    let files = vec![
        ("main.rs".to_string(), "fn hello() {}".to_string()),
        ("main.py".to_string(), "def hello(): pass".to_string()),
        ("main.go".to_string(), "package main\nfunc main() {}".to_string()),
    ];
    intel.analyze_package(files);
    let report = intel.report();
    assert_eq!(report.file_count, 3);
    assert!(report.total_lines > 0);
}

#[test]
fn report_produces_summary() {
    let mut intel = RepoIntel::new();
    intel.analyze_file("lib.rs", "pub fn a() {}\npub fn b() {}\n").unwrap();
    intel.analyze_file("utils.rs", "pub fn helper() {}\n").unwrap();
    let report = intel.report();
    assert_eq!(report.file_count, 2);
}

#[test]
fn empty_engine_produces_empty_report() {
    let intel = RepoIntel::new();
    let report = intel.report();
    assert_eq!(report.file_count, 0);
    assert_eq!(report.total_lines, 0);
}

#[test]
fn unknown_file_ignored() {
    let mut intel = RepoIntel::new();
    let result = intel.analyze_file("readme.txt", "some text");
    assert!(result.is_none());
}

#[test]
fn multi_language_workspace() {
    let mut intel = RepoIntel::new();
    let files = vec![
        ("mod.rs".to_string(), "pub struct Config;".to_string()),
        ("app.ts".to_string(), "interface User {\n  name: string;\n}".to_string()),
    ];
    intel.analyze_package(files);
    let report = intel.report();
    assert_eq!(report.workspace.packages.len(), 2);
}

#[test]
fn call_graph_available_in_report() {
    let mut intel = RepoIntel::new();
    intel.analyze_file("main.rs", "fn main() {}\nfn helper() {}\n").unwrap();
    let report = intel.report();
    assert_eq!(report.call_graph.node_count(), 2);
}

#[test]
fn packages_group_by_language_in_first_appearance_order() {
    let mut intel = RepoIntel::new();
    intel.analyze_package(vec![
        ("a.py".to_string(), "def a():\n  pass".to_string()),
        ("b.rs".to_string(), "fn b() {}".to_string()),
        ("readme.txt".to_string(), "nothing".to_string()),
        ("c.py".to_string(), "def c():".to_string()),
    ]);
    let report = intel.report();
    assert_eq!(report.workspace.root, "workspace");
    assert_eq!(report.workspace.packages.len(), 2);
    assert_eq!(report.workspace.packages[0].name, "python-package");
    assert_eq!(report.workspace.packages[0].modules.len(), 2);
    assert_eq!(report.workspace.packages[0].total_lines, 3);
    assert_eq!(report.workspace.packages[1].name, "rust-package");
    assert_eq!(report.file_count, 3);
    assert_eq!(report.total_lines, 4);
    assert_eq!(report.call_graph.node_count(), 3);
}

#[test]
fn single_file_package_is_named_after_file() {
    let mut intel = RepoIntel::new();
    intel.analyze_file("src/deep/util.rs", "fn x() {}").unwrap();
    let report = intel.report();
    assert_eq!(report.workspace.packages[0].name, "util.rs");
    assert_eq!(report.workspace.packages[0].total_lines, 1);
}

#[test]
fn every_extension_selects_its_language_in_any_case() {
    let all = [
        Language::Rust, Language::Python, Language::Go, Language::Java, Language::C, Language::Cpp,
        Language::CSharp, Language::JavaScript, Language::TypeScript, Language::PHP, Language::Kotlin,
        Language::Swift, Language::Zig, Language::Lua, Language::Wasm,
    ];
    for l in all {
        for e in l.extensions() {
            for m in all {
                if m != l {
                    assert!(!m.extensions().contains(e));
                }
            }
            assert_eq!(Language::from_filename(&format!("src/x.{e}")), Some(l));
            assert_eq!(Language::from_filename(&format!("X.{}", e.to_uppercase())), Some(l));
        }
    }
}

#[test]
fn analysing_a_file_adds_one_file_and_its_lines_to_the_report() {
    let mut r = RepoIntel::new();
    r.analyze_file("lib.rs", "pub fn a() {}\npub fn b() {}\n");
    let before = r.report();
    r.analyze_file("utils.rs", "pub fn helper() {}\n");
    let after = r.report();
    assert_eq!(after.file_count, before.file_count + 1);
    assert_eq!(after.total_lines, before.total_lines + 1);
}

#[test]
fn extensions_are_lowercase_alphanumeric_without_a_dot() {
    let all = [
        Language::Rust, Language::Python, Language::Go, Language::Java, Language::C, Language::Cpp,
        Language::CSharp, Language::JavaScript, Language::TypeScript, Language::PHP, Language::Kotlin,
        Language::Swift, Language::Zig, Language::Lua, Language::Wasm,
    ];
    for l in all {
        assert!(!l.extensions().is_empty());
        for e in l.extensions() {
            assert!(!e.is_empty());
            assert!(e.chars().all(|c| c.is_ascii_lowercase() || c.is_ascii_digit()));
        }
    }
}
