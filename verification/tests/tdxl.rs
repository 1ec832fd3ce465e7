use tordex::tdxl::float_text::{float_debug_text, float_display_text};
use tordex::tdxl::codegen::{codegen_kir, compile, Instr};
use tordex::tdxl::ast::{Order, Stmt, Value};
use tordex::tdxl::compiler::{compile_to_kir, lower_ast, lower_stmt};
use tordex::tdxl::error::Error;
use tordex::tdxl::kir::{KirOp, KirProgram};
use tordex::tdxl::lexer::Lexer;
use tordex::tdxl::optimizer::{eliminate_dead_code, eliminate_redundant_strings, optimize};
use tordex::tdxl::parser::Parser;
use tordex::tdxl::token::Token;

fn make_test_prog() -> KirProgram {
    let mut prog = KirProgram::new();
    let c0 = prog.alloc_id();
    let _c1 = prog.alloc_id();
    let _c2 = prog.alloc_id();
    prog.push(KirOp::ConstStr { output: c0, value: "OnionServices".into() });
    let _c1 = prog.alloc_id();
    prog.push(KirOp::ConstStr { output: _c1, value: "unused".into() });
    let _c2 = prog.alloc_id();
    prog.push(KirOp::ConstStr { output: _c2, value: "LINKS_TO".into() });
    let e0 = prog.alloc_id();
    prog.push(KirOp::Collect { output: e0, source_id: c0 });
    prog.push(KirOp::Store { value_id: _c2, name_id: c0 });
    prog.output = Some(_c2);
    prog
}

#[test]
fn test_dead_code_elimination() {
    let prog = make_test_prog();
    let optimized = eliminate_dead_code(prog);
    assert!(!optimized.ops.iter().any(|op| matches!(op, KirOp::ConstStr { value, .. } if value == "unused")));
    let const_count = optimized.ops.iter().filter(|op| matches!(op, KirOp::ConstStr { .. })).count();
    assert_eq!(const_count, 2);
}

#[test]
fn test_redundant_string_elimination() {
    let mut prog = KirProgram::new();
    let c0 = prog.alloc_id();
    let c1 = prog.alloc_id();
    prog.push(KirOp::ConstStr { output: c0, value: "OnionServices".into() });
    prog.push(KirOp::ConstStr { output: c1, value: "OnionServices".into() });
    let out = prog.alloc_id();
    prog.push(KirOp::Collect { output: out, source_id: c1 });
    prog.output = Some(out);

    let optimized = eliminate_redundant_strings(prog);
    let strs: Vec<_> = optimized
        .ops
        .iter()
        .filter_map(|op| if let KirOp::ConstStr { value, .. } = op { Some(value.as_str()) } else { None })
        .collect();
    assert_eq!(strs, vec!["OnionServices"]);
}

#[test]
fn optimizer_test_full_pipeline() {
    let prog = make_test_prog();
    let optimized = optimize(prog);
    assert!(!optimized.ops.iter().any(|op| matches!(op, KirOp::ConstStr { value, .. } if value == "unused")));
}

#[test]
fn redundant_strings_rewrite_consumers_to_first_occurrence() {
    let mut prog = KirProgram::new();
    prog.push(KirOp::ConstStr { output: 0, value: "a".into() });
    prog.push(KirOp::ConstStr { output: 1, value: "a".into() });
    prog.push(KirOp::Collect { output: 2, source_id: 1 });
    prog.output = Some(1);
    let optimized = eliminate_redundant_strings(prog);
    assert_eq!(optimized.ops.len(), 2);
    assert!(matches!(optimized.ops[1], KirOp::Collect { output: 2, source_id: 0 }));
    assert_eq!(optimized.output, Some(0));
}

#[test]
fn dead_code_keeps_effects_and_output() {
    let mut prog = KirProgram::new();
    prog.push(KirOp::ConstStr { output: 0, value: "x".into() });
    prog.push(KirOp::Collect { output: 1, source_id: 0 });
    prog.push(KirOp::Observe { output: 2, input: 1 });
    prog.push(KirOp::Export { value_id: 1, format_id: 0 });
    let optimized = eliminate_dead_code(prog);
    // The Observe result is consumed by nothing and is not the output.
    assert_eq!(optimized.ops.len(), 3);
    assert!(!optimized.ops.iter().any(|op| matches!(op, KirOp::Observe { .. })));
}

#[test]
fn lexer_reads_keywords_strings_and_positions() {
    let mut lexer = Lexer::new("FROM \"OnionServices\"\nlimit 5");
    let tokens = lexer.tokenize().unwrap();
    assert_eq!(tokens.len(), 6);
    assert!(matches!(tokens[0], (Token::From, 1, 1)));
    assert!(matches!(&tokens[1], (Token::Str(s), 1, 6) if s == "OnionServices"));
    assert!(matches!(tokens[2], (Token::Newline, 1, 21)));
    assert!(matches!(tokens[3], (Token::Limit, 2, 1)));
    assert!(matches!(tokens[4], (Token::Integer(5), 2, 7)));
    assert!(matches!(tokens[5], (Token::EOF, 2, 8)));
}

#[test]
fn lexer_operators_numbers_and_comments() {
    let mut lexer = Lexer::new("a >= 3.5 # note\nb != 'raw\\n' == <");
    let tokens = lexer.tokenize().unwrap();
    let kinds: Vec<&Token> = tokens.iter().map(|(t, _, _)| t).collect();
    assert!(matches!(kinds[0], Token::Ident(s) if s == "a"));
    assert!(matches!(kinds[1], Token::Ge));
    assert!(matches!(kinds[2], Token::Float(s) if s == "3.5"));
    assert!(matches!(kinds[3], Token::Newline));
    assert!(matches!(kinds[4], Token::Ident(s) if s == "b"));
    assert!(matches!(kinds[5], Token::Neq));
    assert!(matches!(kinds[6], Token::Str(s) if s == "raw\\n"));
    assert!(matches!(kinds[7], Token::Eq));
    assert!(matches!(kinds[8], Token::Lt));
    assert!(matches!(kinds[9], Token::EOF));
}

#[test]
fn lexer_escapes_in_double_quoted_strings() {
    let mut lexer = Lexer::new("\"a\\tb\\\"c\"");
    let tokens = lexer.tokenize().unwrap();
    assert!(matches!(&tokens[0].0, Token::Str(s) if s == "a\tb\"c"));
}

#[test]
fn lexer_rejects_bang_alone() {
    let mut lexer = Lexer::new("x !y");
    let err = lexer.tokenize().unwrap_err();
    assert!(matches!(err, Error::Lex { line: 1, col: 3, .. }));
}

#[test]
fn lexer_rejects_unterminated_string() {
    let mut lexer = Lexer::new("FROM \"abc");
    assert!(matches!(lexer.tokenize(), Err(Error::Lex { .. })));
}

#[test]
fn parser_builds_statements() {
    let mut lexer = Lexer::new("FROM \"OnionServices\"\nSORT BY name DESC\nLIMIT 10\nSUMMARIZE");
    let tokens = lexer.tokenize().unwrap();
    let mut parser = Parser::new(tokens);
    let program = parser.parse().unwrap();
    assert_eq!(program.statements.len(), 4);
    assert!(matches!(&program.statements[0], Stmt::From(Value::String(s)) if s == "OnionServices"));
    assert!(matches!(&program.statements[1], Stmt::Sort { field: Value::Ident(f), order: Order::Desc } if f == "name"));
    assert!(matches!(program.statements[2], Stmt::Limit(10)));
    assert!(matches!(program.statements[3], Stmt::Summarize));
}

#[test]
fn parser_rejects_statement_starting_with_operator() {
    let mut lexer = Lexer::new("== 3");
    let tokens = lexer.tokenize().unwrap();
    let mut parser = Parser::new(tokens);
    assert!(matches!(parser.parse(), Err(Error::Parse { line: 1, col: 1, .. })));
}

#[test]
fn lowering_builds_a_pipeline_ending_in_return() {
    let stmts = vec![Stmt::From(Value::String("OnionServices".into())), Stmt::Summarize];
    let prog = lower_ast(&stmts);
    assert!(matches!(&prog.ops[0], KirOp::ConstStr { output: 0, value } if value == "OnionServices"));
    assert!(matches!(prog.ops[1], KirOp::Collect { output: 1, source_id: 0 }));
    assert!(matches!(prog.ops.last().unwrap(), KirOp::Return { .. }));
    assert!(prog.output.is_some());
}

#[test]
fn compile_simple_query() {
    let prog = compile_to_kir("FROM \"OnionServices\"").unwrap();
    assert_eq!(prog.ops.len(), 3);
    assert!(matches!(&prog.ops[0], KirOp::ConstStr { output: 0, value } if value == "OnionServices"));
    assert!(matches!(prog.ops[1], KirOp::Collect { output: 1, source_id: 0 }));
    assert!(matches!(prog.ops[2], KirOp::Return { value_id: 1 }));
    assert_eq!(prog.output, Some(1));
}

#[test]
fn compile_merges_repeated_strings() {
    let prog = compile_to_kir("FROM \"a\"\nTRAVERSE \"a\"").unwrap();
    let strs = prog.ops.iter().filter(|op| matches!(op, KirOp::ConstStr { .. })).count();
    assert_eq!(strs, 1);
    assert!(prog.ops.iter().any(|op| matches!(op, KirOp::Traverse { relation_id: 0, .. })));
}

#[test]
fn compile_reports_lex_and_parse_errors() {
    assert!(matches!(compile_to_kir("FROM ?"), Err(Error::Lex { .. })));
    assert!(matches!(compile_to_kir("LIMIT"), Err(Error::Parse { .. })));
}

#[test]
fn error_text_names_the_phase() {
    let e = Error::Parse { line: 2, col: 7, message: "expected value".into() };
    assert_eq!(e.to_text(), "parse error at 2:7: expected value");
    let c = Error::Compile { message: "too many statements".into() };
    assert_eq!(c.to_text(), "compile error: too many statements");
}

fn parse_text(src: &str) -> Result<tordex::tdxl::ast::Program, Error> {
    let mut lexer = Lexer::new(src);
    let tokens = lexer.tokenize().unwrap();
    let mut parser = Parser::new(tokens);
    parser.parse()
}

#[test]
fn parse_error_messages_name_the_offending_token() {
    match parse_text("LIMIT x") {
        Err(Error::Parse { line, col, message }) => {
            assert_eq!((line, col), (1, 7));
            assert_eq!(message, "LIMIT requires an integer, got Ident(\"x\")");
        }
        other => panic!("expected a parse error, got {:?}", other),
    }
    match parse_text("FROM") {
        Err(Error::Parse { message, .. }) => assert_eq!(message, "expected value, got EOF"),
        other => panic!("expected a parse error, got {:?}", other),
    }
    match parse_text("= 3") {
        Err(Error::Parse { message, .. }) => {
            assert_eq!(message, "unexpected token Assign, expected statement keyword")
        }
        other => panic!("expected a parse error, got {:?}", other),
    }
}

#[test]
fn lowered_programs_give_each_value_one_operation() {
    let p = compile_to_kir("FROM OnionServices\nTRAVERSE LINKS_TO DEPTH 2\nLIMIT 10").unwrap();
    let outs: Vec<_> = p.ops.iter().filter_map(|o| o.output_id()).collect();
    for (i, a) in outs.iter().enumerate() {
        for b in &outs[i + 1..] {
            assert_ne!(a, b);
        }
    }
}

#[test]
fn compile_generates_loads_then_the_pipeline_then_halt() {
    let b = compile("FROM OnionServices").unwrap();
    assert_eq!(b.name, "tdxl_program");
    assert_eq!(b.constants, vec!["OnionServices".to_string()]);
    assert_eq!(
        b.instructions,
        vec![Instr::LoadStr { dst: 1, index: 0 }, Instr::LoadEntity { dst: 0, src: 1 }, Instr::Halt]
    );
}

#[test]
fn codegen_reuses_pool_entries_and_rotates_temporaries() {
    let mut prog = KirProgram::new();
    let a = prog.alloc_id();
    prog.push(KirOp::ConstStr { output: a, value: "x".into() });
    let b = prog.alloc_id();
    prog.push(KirOp::ConstStr { output: b, value: "x".into() });
    let c = prog.alloc_id();
    prog.push(KirOp::ConstStr { output: c, value: "y".into() });
    let d = prog.alloc_id();
    prog.push(KirOp::ConstStr { output: d, value: "z".into() });
    let bc = codegen_kir(&prog);
    assert_eq!(bc.constants, vec!["x".to_string(), "y".to_string(), "z".to_string()]);
    assert_eq!(
        bc.instructions,
        vec![
            Instr::LoadStr { dst: 1, index: 0 },
            Instr::LoadStr { dst: 2, index: 0 },
            Instr::LoadStr { dst: 3, index: 1 },
            Instr::LoadStr { dst: 1, index: 2 },
            Instr::Halt,
        ]
    );
}

#[test]
fn decimal_literals_render_as_the_numbers_they_stand_for() {
    assert_eq!(float_display_text("3.0"), "3");
    assert_eq!(float_display_text("1.50"), "1.5");
    assert_eq!(float_display_text("1.2.3"), "0");
    assert_eq!(float_display_text("007.250"), "7.25");
    assert_eq!(float_display_text("0.00001"), "0.00001");
    assert_eq!(float_display_text("100000000000000000.0"), "100000000000000000");
    assert_eq!(float_display_text("0.0"), "0");
    assert_eq!(float_debug_text("3.0"), "3.0");
    assert_eq!(float_debug_text("3.5"), "3.5");
    assert_eq!(float_debug_text("0.00001"), "1e-5");
    assert_eq!(float_debug_text("0.0001"), "0.0001");
    assert_eq!(float_debug_text("10000000000000000.0"), "1e16");
    assert_eq!(float_debug_text("1234500000000000000.0"), "1.2345e18");
    assert_eq!(float_debug_text("1.2.3"), "0.0");
    for s in ["3.0", "1.50", "007.250", "0.00001", "0.0001", "10000000000000000.0", "1234500000000000000.0", "0.125"] {
        let v: f64 = s.parse().unwrap();
        assert_eq!(float_display_text(s), v.to_string());
        assert_eq!(float_debug_text(s), format!("{:?}", v));
    }
}

#[test]
fn filters_and_limits_see_the_number_not_the_literal() {
    assert_eq!(Value::Float("3.0".into()).as_string(), "3");
    match parse_text("LIMIT 3.5") {
        Err(Error::Parse { message, .. }) => assert_eq!(message, "LIMIT requires an integer, got Float(3.5)"),
        other => panic!("expected a parse error, got {:?}", other),
    }
    let p = compile_to_kir("FROM x\nMATCH score > 3.0").unwrap();
    assert!(p.ops.iter().any(|o| matches!(o, KirOp::Filter { filter, .. } if filter.value == "3")));
}

#[test]
fn lowering_reads_only_its_input_or_new_values() {
    let mut prog = KirProgram::new();
    let given = prog.alloc_id();
    prog.push(KirOp::ConstStr { output: given, value: "seed".into() });
    let start_ops = prog.ops.len();
    let start_id = prog.next_id;
    let stmt = Stmt::Traverse { relation: Value::Ident("LINKS_TO".into()), depth: Some(2) };
    let out = lower_stmt(&stmt, &mut prog, Some(given));
    assert!(out.is_some());
    for op in &prog.ops[start_ops..] {
        for id in op.input_ids() {
            assert!(id == given || (start_id <= id && id < prog.next_id));
        }
    }
}

#[test]
fn constant_pool_holds_each_string_once() {
    let b = compile("FROM a\nCORRELATE WITH a\nCORRELATE WITH b\nCORRELATE WITH b").unwrap();
    for (i, x) in b.constants.iter().enumerate() {
        assert!(!b.constants[i + 1..].contains(x));
    }
}
