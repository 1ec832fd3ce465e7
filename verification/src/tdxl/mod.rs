//! TDXL, the query language: tokens, lexer, syntax tree, parser, the
//! knowledge IR and its lowering and optimisation.
pub mod ast;
pub mod codegen;
pub mod compiler;
pub mod error;
pub mod float_text;
pub mod kir;
pub mod lexer;
pub mod optimizer;
pub mod parser;
pub mod token;
pub mod query_optimizer;
