//! Errors of the TDXL pipeline.
use vstd::prelude::*;
use crate::text::{append_chars, chars_of, decimal, decimal_string, string_of};

verus! {

/// What stopped lexing, parsing or compiling, with where it happened.
#[derive(Debug)]
pub enum Error {
    Lex { line: usize, col: usize, message: String },
    Parse { line: usize, col: usize, message: String },
    Compile { message: String },
}

/// The text of an error: `lex error at L:C: …`, `parse error at L:C: …`, or
/// `compile error: …`.
pub open spec fn error_text(e: Error) -> Seq<char> {
    match e {
        Error::Lex { line, col, message } => "lex error at "@ + decimal(line as nat) + ":"@ + decimal(col as nat) + ": "@ + message@,
        Error::Parse { line, col, message } => "parse error at "@ + decimal(line as nat) + ":"@ + decimal(col as nat) + ": "@ + message@,
        Error::Compile { message } => "compile error: "@ + message@,
    }
}

impl Error {
    /// The text of the error (what its `Display` shows).
    pub fn to_text(&self) -> (r: String)
        ensures
            r@ == error_text(*self),
    {
        match self {
            Error::Lex { line, col, message } => {
                let mut s = string_of(chars_of("lex error at ").as_slice());
                append_chars(&mut s, chars_of(decimal_string(*line).as_str()).as_slice());
                append_chars(&mut s, chars_of(":").as_slice());
                append_chars(&mut s, chars_of(decimal_string(*col).as_str()).as_slice());
                append_chars(&mut s, chars_of(": ").as_slice());
                append_chars(&mut s, chars_of(message.as_str()).as_slice());
                s
            },
            Error::Parse { line, col, message } => {
                let mut s = string_of(chars_of("parse error at ").as_slice());
                append_chars(&mut s, chars_of(decimal_string(*line).as_str()).as_slice());
                append_chars(&mut s, chars_of(":").as_slice());
                append_chars(&mut s, chars_of(decimal_string(*col).as_str()).as_slice());
                append_chars(&mut s, chars_of(": ").as_slice());
                append_chars(&mut s, chars_of(message.as_str()).as_slice());
                s
            },
            Error::Compile { message } => {
                let mut s = string_of(chars_of("compile error: ").as_slice());
                append_chars(&mut s, chars_of(message.as_str()).as_slice());
                s
            },
        }
    }
}

} // verus!
