//! The TDXL parser: tokens to statements.
use vstd::prelude::*;
use crate::tdxl::ast::{
    BinExpr, BinExprModel, Order, Program, Stmt, StmtModel, Value, ValueModel, bin_expr_model,
    i64_text, signed_decimal, stmt_model, stmts_model, value_text,
};
use crate::sources::descriptor::{debug_str, debug_text};
use crate::tdxl::float_text::{float_debug, float_debug_text};
use crate::tdxl::error::Error;
use crate::tdxl::lexer::tokens_model;
use crate::tdxl::token::{BinOp, Token, TokenModel, same_kind, same_kind_exec};
use crate::text::{append_chars, chars_of, string_of};

verus! {

/// A token with its line and column.
pub type Tok = (TokenModel, int, int);

/// Where parsing failed and why: line, column and message.
pub type ParseError = (int, int, Seq<char>);

/// The token at `i`, `EOF` past the end.
pub open spec fn tok_at(ts: Seq<Tok>, i: int) -> TokenModel {
    if 0 <= i < ts.len() {
        ts[i].0
    } else {
        TokenModel::EOF
    }
}

/// The line and column of the token at `i`, `(0, 0)` past the end.
pub open spec fn loc_at(ts: Seq<Tok>, i: int) -> (int, int) {
    if 0 <= i < ts.len() {
        (ts[i].1, ts[i].2)
    } else {
        (0, 0)
    }
}

/// The value a token stands for, if it is a literal or a name.
pub open spec fn token_value(t: TokenModel) -> Option<ValueModel> {
    match t {
        TokenModel::Integer(v) => Some(ValueModel::Integer(v)),
        TokenModel::Float(s) => Some(ValueModel::Float(s)),
        TokenModel::Str(s) => Some(ValueModel::String(s)),
        TokenModel::Bool(b) => Some(ValueModel::Bool(b)),
        TokenModel::Null => Some(ValueModel::Null),
        TokenModel::Ident(s) => Some(ValueModel::Ident(s)),
        _ => None,
    }
}

/// An error at the token at `i`.
pub open spec fn error_at(ts: Seq<Tok>, i: int, message: Seq<char>) -> ParseError {
    (loc_at(ts, i).0, loc_at(ts, i).1, message)
}

/// A value at `i` and the position after it; otherwise an error at the
/// token found.
pub open spec fn p_value(ts: Seq<Tok>, i: int) -> Result<(ValueModel, int), ParseError> {
    match token_value(tok_at(ts, i)) {
        Some(v) => Ok((v, i + 1)),
        None => Err(error_at(ts, i, "expected value, got "@ + token_debug_text(tok_at(ts, i)))),
    }
}

/// Whether a token is a binary operator.
pub open spec fn is_bin_op(t: TokenModel) -> bool {
    t is Eq || t is Neq || t is Ge || t is Le || t is Gt || t is Lt || t is And || t is Or
}

/// The operator a token stands for.
pub open spec fn bin_op_of(t: TokenModel) -> BinOp {
    match t {
        TokenModel::Eq => BinOp::Eq,
        TokenModel::Neq => BinOp::Neq,
        TokenModel::Ge => BinOp::Ge,
        TokenModel::Le => BinOp::Le,
        TokenModel::Gt => BinOp::Gt,
        TokenModel::Lt => BinOp::Lt,
        TokenModel::And => BinOp::And,
        _ => BinOp::Or,
    }
}

/// A condition at `i`: `value op value`, read as a field compared with a
/// value, or a bare value.
pub open spec fn p_bin_expr(ts: Seq<Tok>, i: int) -> Result<(BinExprModel, int), ParseError> {
    match p_value(ts, i) {
        Err(e) => Err(e),
        Ok((lhs, j)) => if is_bin_op(tok_at(ts, j)) {
            match p_value(ts, j + 1) {
                Err(e) => Err(e),
                Ok((rhs, k)) => Ok((BinExprModel::Field { field: value_text(lhs), op: bin_op_of(tok_at(ts, j)), value: rhs }, k)),
            }
        } else {
            Ok((BinExprModel::Value(lhs), j))
        },
    }
}

/// `i`, or the position after it where the token there is of kind `k` (an
/// optional keyword such as `WITH`, `TO`, `AS`, `BY`).
pub open spec fn skip_kind(ts: Seq<Tok>, i: int, k: TokenModel) -> int {
    if same_kind(tok_at(ts, i), k) {
        i + 1
    } else {
        i
    }
}

/// An optional `keyword value` at `i`.
pub open spec fn p_optional(ts: Seq<Tok>, i: int, k: TokenModel) -> Result<(Option<ValueModel>, int), ParseError> {
    if same_kind(tok_at(ts, i), k) {
        match p_value(ts, i + 1) {
            Ok((v, j)) => Ok((Some(v), j)),
            Err(e) => Err(e),
        }
    } else {
        Ok((None, i))
    }
}

/// A value at `i`, wrapped into a statement.
pub open spec fn p_value_stmt(ts: Seq<Tok>, i: int, f: spec_fn(ValueModel) -> StmtModel) -> Result<(StmtModel, int), ParseError> {
    match p_value(ts, i) {
        Ok((v, j)) => Ok((f(v), j)),
        Err(e) => Err(e),
    }
}

/// A condition at `i`, wrapped into a statement.
pub open spec fn p_expr_stmt(ts: Seq<Tok>, i: int, f: spec_fn(BinExprModel) -> StmtModel) -> Result<(StmtModel, int), ParseError> {
    match p_bin_expr(ts, i) {
        Ok((e, j)) => Ok((f(e), j)),
        Err(e) => Err(e),
    }
}

/// The statement at `i` and the position after it.
pub open spec fn p_statement(ts: Seq<Tok>, i: int) -> Result<(StmtModel, int), ParseError> {
    match tok_at(ts, i) {
        TokenModel::From => p_value_stmt(ts, i + 1, |v: ValueModel| StmtModel::From(v)),
        TokenModel::Match => p_expr_stmt(ts, i + 1, |e: BinExprModel| StmtModel::Match(e)),
        TokenModel::Where => p_expr_stmt(ts, i + 1, |e: BinExprModel| StmtModel::Where(e)),
        TokenModel::Traverse => match p_value(ts, i + 1) {
            Err(e) => Err(e),
            Ok((rel, j)) => if tok_at(ts, j) is Depth {
                match p_value(ts, j + 1) {
                    Err(e) => Err(e),
                    Ok((d, k)) => Ok((
                        StmtModel::Traverse {
                            relation: rel,
                            depth: Some(
                                match d {
                                    ValueModel::Integer(n) => n as usize,
                                    _ => 1,
                                },
                            ),
                        },
                        k,
                    )),
                }
            } else {
                Ok((StmtModel::Traverse { relation: rel, depth: None }, j))
            },
        },
        TokenModel::Summarize => Ok((StmtModel::Summarize, i + 1)),
        TokenModel::Infer => p_value_stmt(ts, i + 1, |v: ValueModel| StmtModel::Infer(v)),
        TokenModel::Correlate => p_value_stmt(ts, skip_kind(ts, i + 1, TokenModel::With), |v: ValueModel| StmtModel::Correlate { target: v }),
        TokenModel::Similar => p_value_stmt(ts, skip_kind(ts, i + 1, TokenModel::To), |v: ValueModel| StmtModel::Similar { target: v }),
        TokenModel::Classify => p_value_stmt(ts, skip_kind(ts, i + 1, TokenModel::As), |v: ValueModel| StmtModel::Classify { class: v }),
        TokenModel::Timeline => match p_optional(ts, i + 1, TokenModel::From) {
            Err(e) => Err(e),
            Ok((from, j)) => match p_optional(ts, j, TokenModel::To) {
                Err(e) => Err(e),
                Ok((to, k)) => Ok((StmtModel::Timeline { from, to }, k)),
            },
        },
        TokenModel::Sort => match p_value(ts, skip_kind(ts, i + 1, TokenModel::By)) {
            Err(e) => Err(e),
            Ok((field, j)) => if tok_at(ts, j) is Asc {
                Ok((StmtModel::Sort { field, order: Order::Asc }, j + 1))
            } else if tok_at(ts, j) is Desc {
                Ok((StmtModel::Sort { field, order: Order::Desc }, j + 1))
            } else {
                Ok((StmtModel::Sort { field, order: Order::Asc }, j))
            },
        },
        TokenModel::Limit => match p_value(ts, i + 1) {
            Err(e) => Err(e),
            Ok((v, j)) => match v {
                ValueModel::Integer(n) => Ok((StmtModel::Limit(n as usize), j)),
                _ => Err(error_at(ts, j - 1, "LIMIT requires an integer, got "@ + value_debug_text(v))),
            },
        },
        TokenModel::Store => p_value_stmt(ts, skip_kind(ts, i + 1, TokenModel::As), |v: ValueModel| StmtModel::Store(v)),
        TokenModel::Export => p_value_stmt(ts, i + 1, |v: ValueModel| StmtModel::Export(v)),
        TokenModel::Load => p_value_stmt(ts, i + 1, |v: ValueModel| StmtModel::Load(v)),
        TokenModel::Filter => p_expr_stmt(ts, i + 1, |e: BinExprModel| StmtModel::Filter(e)),
        TokenModel::Ident(_) => p_value_stmt(ts, i, |v: ValueModel| StmtModel::Load(v)),
        t => Err(error_at(ts, i, "unexpected token "@ + token_debug_text(t) + ", expected statement keyword"@)),
    }
}

/// A sort statement is descending exactly when it ends with `DESC`; with
/// `ASC`, or with no direction after the field, it is ascending.
pub proof fn lemma_sort_direction(ts: Seq<Tok>, i: int)
    requires
        tok_at(ts, i) is Sort,
    ensures
        p_statement(ts, i) matches Ok((StmtModel::Sort { order, .. }, j)) ==> ((order == Order::Desc) == (tok_at(ts, j - 1) is Desc)),
{
}

/// The position of the first token at or after `i` that is not a newline.
pub open spec fn skip_newlines(ts: Seq<Tok>, i: int) -> int
    decreases ts.len() - i,
{
    if 0 <= i < ts.len() && ts[i].0 is Newline {
        skip_newlines(ts, i + 1)
    } else {
        i
    }
}

/// The statements from `i` up to the end of input, newlines between them
/// skipped; or where parsing failed.
pub open spec fn p_program(ts: Seq<Tok>, i: int) -> Result<Seq<StmtModel>, ParseError>
    decreases ts.len() - i,
{
    let j = skip_newlines(ts, i);
    if tok_at(ts, j) is EOF {
        Ok(seq![])
    } else {
        match p_statement(ts, j) {
            Err(e) => Err(e),
            Ok((s, k)) => if i < k <= ts.len() {
                match p_program(ts, k) {
                    Ok(rest) => Ok(seq![s] + rest),
                    Err(e) => Err(e),
                }
            } else {
                Ok(seq![s])
            },
        }
    }
}

/// The statements of a token list.
pub open spec fn parse_tokens(ts: Seq<Tok>) -> Result<Seq<StmtModel>, ParseError> {
    p_program(ts, 0)
}

/// Whether an error is the parse error `e`.
pub open spec fn is_parse_error(r: Error, e: ParseError) -> bool {
    r matches Error::Parse { line, col, message } && line == e.0 && col == e.1 && message@ == e.2
}

/// How the derived `Debug` shows a token: a variant's name, with its
/// payload in brackets (texts quoted as `Debug` quotes them).
pub open spec fn token_debug_text(t: TokenModel) -> Seq<char> {
    match t {
        TokenModel::From => "From"@,
        TokenModel::Match => "Match"@,
        TokenModel::Where => "Where"@,
        TokenModel::Traverse => "Traverse"@,
        TokenModel::Depth => "Depth"@,
        TokenModel::Summarize => "Summarize"@,
        TokenModel::Infer => "Infer"@,
        TokenModel::Correlate => "Correlate"@,
        TokenModel::With => "With"@,
        TokenModel::Similar => "Similar"@,
        TokenModel::To => "To"@,
        TokenModel::Classify => "Classify"@,
        TokenModel::As => "As"@,
        TokenModel::Timeline => "Timeline"@,
        TokenModel::Sort => "Sort"@,
        TokenModel::By => "By"@,
        TokenModel::Asc => "Asc"@,
        TokenModel::Desc => "Desc"@,
        TokenModel::Limit => "Limit"@,
        TokenModel::Store => "Store"@,
        TokenModel::Export => "Export"@,
        TokenModel::Load => "Load"@,
        TokenModel::Filter => "Filter"@,
        TokenModel::And => "And"@,
        TokenModel::Or => "Or"@,
        TokenModel::Not => "Not"@,
        TokenModel::Null => "Null"@,
        TokenModel::Eq => "Eq"@,
        TokenModel::Neq => "Neq"@,
        TokenModel::Ge => "Ge"@,
        TokenModel::Le => "Le"@,
        TokenModel::Gt => "Gt"@,
        TokenModel::Lt => "Lt"@,
        TokenModel::Assign => "Assign"@,
        TokenModel::LParen => "LParen"@,
        TokenModel::RParen => "RParen"@,
        TokenModel::LBracket => "LBracket"@,
        TokenModel::RBracket => "RBracket"@,
        TokenModel::LBrace => "LBrace"@,
        TokenModel::RBrace => "RBrace"@,
        TokenModel::Comma => "Comma"@,
        TokenModel::Dot => "Dot"@,
        TokenModel::Colon => "Colon"@,
        TokenModel::Newline => "Newline"@,
        TokenModel::EOF => "EOF"@,
        TokenModel::Integer(v) => wrapped_text("Integer"@, signed_decimal(v as int)),
        TokenModel::Float(s) => wrapped_text("Float"@, float_debug(s)),
        TokenModel::Str(s) => wrapped_text("Str"@, debug_str(s)),
        TokenModel::Bool(b) => wrapped_text("Bool"@, bool_text(b)),
        TokenModel::Ident(s) => wrapped_text("Ident"@, debug_str(s)),
    }
}

/// How the derived `Debug` shows a value.
pub open spec fn value_debug_text(v: ValueModel) -> Seq<char> {
    match v {
        ValueModel::Integer(n) => wrapped_text("Integer"@, signed_decimal(n as int)),
        ValueModel::Float(s) => wrapped_text("Float"@, float_debug(s)),
        ValueModel::String(s) => wrapped_text("String"@, debug_str(s)),
        ValueModel::Bool(b) => wrapped_text("Bool"@, bool_text(b)),
        ValueModel::Null => "Null"@,
        ValueModel::Ident(s) => wrapped_text("Ident"@, debug_str(s)),
    }
}

/// `name(inner)`.
pub open spec fn wrapped_text(name: Seq<char>, inner: Seq<char>) -> Seq<char> {
    name + "("@ + inner + ")"@
}

/// `true` or `false`.
pub open spec fn bool_text(b: bool) -> Seq<char> {
    if b {
        "true"@
    } else {
        "false"@
    }
}

/// `name(inner)`.
fn wrapped(name: &str, inner: &str) -> (r: String)
    ensures
        r@ == wrapped_text(name@, inner@),
{
    let mut s = string_of(chars_of(name).as_slice());
    append_chars(&mut s, chars_of("(").as_slice());
    append_chars(&mut s, chars_of(inner).as_slice());
    append_chars(&mut s, chars_of(")").as_slice());
    s
}

/// `true` or `false`.
fn bool_string(b: bool) -> (r: &'static str)
    ensures
        r@ == bool_text(b),
{
    if b {
        "true"
    } else {
        "false"
    }
}

/// A token as its derived `Debug` shows it, for error messages.
fn token_debug(t: &Token) -> (r: String)
    ensures
        r@ == token_debug_text(t@),
{
    match t {
        Token::From => string_of(chars_of("From").as_slice()),
        Token::Match => string_of(chars_of("Match").as_slice()),
        Token::Where => string_of(chars_of("Where").as_slice()),
        Token::Traverse => string_of(chars_of("Traverse").as_slice()),
        Token::Depth => string_of(chars_of("Depth").as_slice()),
        Token::Summarize => string_of(chars_of("Summarize").as_slice()),
        Token::Infer => string_of(chars_of("Infer").as_slice()),
        Token::Correlate => string_of(chars_of("Correlate").as_slice()),
        Token::With => string_of(chars_of("With").as_slice()),
        Token::Similar => string_of(chars_of("Similar").as_slice()),
        Token::To => string_of(chars_of("To").as_slice()),
        Token::Classify => string_of(chars_of("Classify").as_slice()),
        Token::As => string_of(chars_of("As").as_slice()),
        Token::Timeline => string_of(chars_of("Timeline").as_slice()),
        Token::Sort => string_of(chars_of("Sort").as_slice()),
        Token::By => string_of(chars_of("By").as_slice()),
        Token::Asc => string_of(chars_of("Asc").as_slice()),
        Token::Desc => string_of(chars_of("Desc").as_slice()),
        Token::Limit => string_of(chars_of("Limit").as_slice()),
        Token::Store => string_of(chars_of("Store").as_slice()),
        Token::Export => string_of(chars_of("Export").as_slice()),
        Token::Load => string_of(chars_of("Load").as_slice()),
        Token::Filter => string_of(chars_of("Filter").as_slice()),
        Token::And => string_of(chars_of("And").as_slice()),
        Token::Or => string_of(chars_of("Or").as_slice()),
        Token::Not => string_of(chars_of("Not").as_slice()),
        Token::Null => string_of(chars_of("Null").as_slice()),
        Token::Eq => string_of(chars_of("Eq").as_slice()),
        Token::Neq => string_of(chars_of("Neq").as_slice()),
        Token::Ge => string_of(chars_of("Ge").as_slice()),
        Token::Le => string_of(chars_of("Le").as_slice()),
        Token::Gt => string_of(chars_of("Gt").as_slice()),
        Token::Lt => string_of(chars_of("Lt").as_slice()),
        Token::Assign => string_of(chars_of("Assign").as_slice()),
        Token::LParen => string_of(chars_of("LParen").as_slice()),
        Token::RParen => string_of(chars_of("RParen").as_slice()),
        Token::LBracket => string_of(chars_of("LBracket").as_slice()),
        Token::RBracket => string_of(chars_of("RBracket").as_slice()),
        Token::LBrace => string_of(chars_of("LBrace").as_slice()),
        Token::RBrace => string_of(chars_of("RBrace").as_slice()),
        Token::Comma => string_of(chars_of("Comma").as_slice()),
        Token::Dot => string_of(chars_of("Dot").as_slice()),
        Token::Colon => string_of(chars_of("Colon").as_slice()),
        Token::Newline => string_of(chars_of("Newline").as_slice()),
        Token::EOF => string_of(chars_of("EOF").as_slice()),
        Token::Integer(v) => wrapped("Integer", i64_text(*v).as_str()),
        Token::Float(s) => wrapped("Float", float_debug_text(s.as_str()).as_str()),
        Token::Str(s) => wrapped("Str", debug_text(s.as_str()).as_str()),
        Token::Bool(b) => wrapped("Bool", bool_string(*b)),
        Token::Ident(s) => wrapped("Ident", debug_text(s.as_str()).as_str()),
    }
}

/// A value as its derived `Debug` shows it, for error messages.
fn value_debug(v: &Value) -> (r: String)
    ensures
        r@ == value_debug_text(v@),
{
    match v {
        Value::Integer(n) => wrapped("Integer", i64_text(*n).as_str()),
        Value::Float(s) => wrapped("Float", float_debug_text(s.as_str()).as_str()),
        Value::String(s) => wrapped("String", debug_text(s.as_str()).as_str()),
        Value::Bool(b) => wrapped("Bool", bool_string(*b)),
        Value::Null => string_of(chars_of("Null").as_slice()),
        Value::Ident(s) => wrapped("Ident", debug_text(s.as_str()).as_str()),
    }
}

/// `prefix`, then `rest`, then `suffix`.
fn message(prefix: &str, rest: String, suffix: &str) -> (m: String)
    ensures
        m@ == prefix@ + rest@ + suffix@,
{
    let mut m = string_of(chars_of(prefix).as_slice());
    append_chars(&mut m, chars_of(rest.as_str()).as_slice());
    append_chars(&mut m, chars_of(suffix).as_slice());
    m
}

/// The TDXL parser over a token list.
pub struct Parser {
    tokens: Vec<(Token, usize, usize)>,
    pos: usize,
}

impl Parser {
    /// The tokens being parsed.
    pub closed spec fn toks(&self) -> Seq<Tok> {
        tokens_model(self.tokens@)
    }

    /// Where the parser stands.
    pub closed spec fn at(&self) -> int {
        self.pos as int
    }

    /// The tokens end with `EOF` and the parser stands before it or on it.
    pub closed spec fn wf(&self) -> bool {
        &&& self.tokens@.len() > 0
        &&& self.tokens@.last().0 is EOF
        &&& self.pos < self.tokens@.len()
        &&& self.tokens@.len() <= usize::MAX
    }

    /// A parser at the start of `tokens`.
    pub fn new(tokens: Vec<(Token, usize, usize)>) -> (r: Self)
        ensures
            r.toks() == tokens_model(tokens@),
            r.at() == 0,
    {
        Parser { tokens, pos: 0 }
    }

    proof fn lemma_toks(&self, i: int)
        requires
            0 <= i < self.tokens@.len(),
        ensures
            tok_at(self.toks(), i) == self.tokens@[i].0@,
            loc_at(self.toks(), i) == (self.tokens@[i].1 as int, self.tokens@[i].2 as int),
            self.toks().len() == self.tokens@.len(),
    {
    }

    /// Whether the current token is of the kind of `expected`.
    fn check(&self, expected: &Token) -> (r: bool)
        requires
            self.wf(),
        ensures
            r == same_kind(tok_at(self.toks(), self.at()), expected@),
    {
        proof {
            self.lemma_toks(self.pos as int);
        }
        same_kind_exec(&self.tokens[self.pos].0, expected)
    }

    fn skip_newlines(&mut self)
        requires
            old(self).wf(),
        ensures
            final(self).wf(),
            final(self).toks() == old(self).toks(),
            final(self).tokens@ == old(self).tokens@,
            final(self).at() == skip_newlines(old(self).toks(), old(self).at()),
            final(self).at() >= old(self).at(),
    {
        let ghost ts = self.toks();
        let ghost target = skip_newlines(ts, self.at());
        while self.check(&Token::Newline)
            invariant
                self.wf(),
                self.tokens@ == old(self).tokens@,
                self.toks() == ts,
                self.pos >= old(self).pos,
                skip_newlines(ts, self.at()) == target,
            decreases self.tokens@.len() - self.pos,
        {
            proof {
                self.lemma_toks(self.pos as int);
                self.lemma_toks(self.tokens@.len() - 1);
            }
            self.pos += 1;
        }
        proof {
            self.lemma_toks(self.pos as int);
        }
    }

    /// Steps over the current token where it is of the kind of `expected`.
    fn skip_if(&mut self, expected: &Token)
        requires
            old(self).wf(),
            !(expected@ is EOF),
        ensures
            final(self).wf(),
            final(self).tokens@ == old(self).tokens@,
            final(self).toks() == old(self).toks(),
            final(self).at() == skip_kind(old(self).toks(), old(self).at(), expected@),
    {
        if self.check(expected) {
            proof {
                self.lemma_toks(self.pos as int);
                self.lemma_toks(self.tokens@.len() - 1);
            }
            self.pos += 1;
        }
    }

    fn parse_value(&mut self) -> (r: Result<Value, Error>)
        requires
            old(self).wf(),
        ensures
            final(self).tokens@ == old(self).tokens@,
            final(self).toks() == old(self).toks(),
            match p_value(old(self).toks(), old(self).at()) {
                Ok((v, j)) => r matches Ok(x) && x@ == v && final(self).at() == j && final(self).wf(),
                Err(e) => r matches Err(x) && is_parse_error(x, e),
            },
    {
        let i = self.pos;
        proof {
            self.lemma_toks(i as int);
            self.lemma_toks(self.tokens@.len() - 1);
        }
        self.pos = i + 1;
        let t = &self.tokens[i];
        match &t.0 {
            Token::Integer(v) => Ok(Value::Integer(*v)),
            Token::Float(s) => Ok(Value::Float(s.clone())),
            Token::Str(s) => Ok(Value::String(s.clone())),
            Token::Bool(b) => Ok(Value::Bool(*b)),
            Token::Null => Ok(Value::Null),
            Token::Ident(s) => Ok(Value::Ident(s.clone())),
            _ => {
                proof {
                    reveal_strlit("");
                }
                Err(Error::Parse { line: t.1, col: t.2, message: message("expected value, got ", token_debug(&t.0), "") })
            },
        }
    }

    fn is_bin_op_exec(&self) -> (r: Option<BinOp>)
        requires
            self.wf(),
        ensures
            is_bin_op(tok_at(self.toks(), self.at())) <==> r is Some,
            r matches Some(op) ==> op == bin_op_of(tok_at(self.toks(), self.at())),
    {
        proof {
            self.lemma_toks(self.pos as int);
        }
        match &self.tokens[self.pos].0 {
            Token::Eq => Some(BinOp::Eq),
            Token::Neq => Some(BinOp::Neq),
            Token::Ge => Some(BinOp::Ge),
            Token::Le => Some(BinOp::Le),
            Token::Gt => Some(BinOp::Gt),
            Token::Lt => Some(BinOp::Lt),
            Token::And => Some(BinOp::And),
            Token::Or => Some(BinOp::Or),
            _ => None,
        }
    }

    fn parse_bin_expr(&mut self) -> (r: Result<BinExpr, Error>)
        requires
            old(self).wf(),
        ensures
            final(self).tokens@ == old(self).tokens@,
            final(self).toks() == old(self).toks(),
            match p_bin_expr(old(self).toks(), old(self).at()) {
                Ok((e, j)) => r matches Ok(x) && bin_expr_model(x) == e && final(self).at() == j && final(self).wf(),
                Err(e) => r matches Err(x) && is_parse_error(x, e),
            },
    {
        let lhs = self.parse_value()?;
        match self.is_bin_op_exec() {
            Some(op) => {
                proof {
                    self.lemma_toks(self.pos as int);
                    self.lemma_toks(self.tokens@.len() - 1);
                }
                self.pos += 1;
                let rhs = self.parse_value()?;
                let field = lhs.as_string();
                Ok(BinExpr::Field { field, op, value: rhs })
            },
            None => Ok(BinExpr::Value(lhs)),
        }
    }

    /// The statement at the current token.
    #[verifier::rlimit(60)]
    fn parse_statement(&mut self) -> (r: Result<Stmt, Error>)
        requires
            old(self).wf(),
        ensures
            final(self).tokens@ == old(self).tokens@,
            final(self).toks() == old(self).toks(),
            match p_statement(old(self).toks(), old(self).at()) {
                Ok((s, j)) => r matches Ok(x) && stmt_model(x) == s && final(self).at() == j && final(self).wf()
                    && old(self).at() < j,
                Err(e) => r matches Err(x) && is_parse_error(x, e),
            },
    {
        let ghost ts = self.toks();
        let ghost i = self.at();
        proof {
            self.lemma_toks(self.pos as int);
            self.lemma_toks(self.tokens@.len() - 1);
        }
        let (line, col) = (self.tokens[self.pos].1, self.tokens[self.pos].2);
        match &self.tokens[self.pos].0 {
            Token::From => {
                self.pos += 1;
                let v = self.parse_value()?;
                Ok(Stmt::From(v))
            },
            Token::Match => {
                self.pos += 1;
                let e = self.parse_bin_expr()?;
                Ok(Stmt::Match(e))
            },
            Token::Where => {
                self.pos += 1;
                let e = self.parse_bin_expr()?;
                Ok(Stmt::Where(e))
            },
            Token::Traverse => {
                self.pos += 1;
                let relation = self.parse_value()?;
                let depth = if self.check(&Token::Depth) {
                    proof {
                        self.lemma_toks(self.pos as int);
                        self.lemma_toks(self.tokens@.len() - 1);
                    }
                    self.pos += 1;
                    let d = self.parse_value()?;
                    match d {
                        Value::Integer(n) => Some(n as usize),
                        _ => Some(1),
                    }
                } else {
                    None
                };
                Ok(Stmt::Traverse { relation, depth })
            },
            Token::Summarize => {
                self.pos += 1;
                Ok(Stmt::Summarize)
            },
            Token::Infer => {
                self.pos += 1;
                let v = self.parse_value()?;
                Ok(Stmt::Infer(v))
            },
            Token::Correlate => {
                self.pos += 1;
                self.skip_if(&Token::With);
                let target = self.parse_value()?;
                Ok(Stmt::Correlate { target })
            },
            Token::Similar => {
                self.pos += 1;
                self.skip_if(&Token::To);
                let target = self.parse_value()?;
                Ok(Stmt::Similar { target })
            },
            Token::Classify => {
                self.pos += 1;
                self.skip_if(&Token::As);
                let class = self.parse_value()?;
                Ok(Stmt::Classify { class })
            },
            Token::Timeline => {
                self.pos += 1;
                let from = if self.check(&Token::From) {
                    proof {
                        self.lemma_toks(self.pos as int);
                        self.lemma_toks(self.tokens@.len() - 1);
                    }
                    self.pos += 1;
                    Some(self.parse_value()?)
                } else {
                    None
                };
                let to = if self.check(&Token::To) {
                    proof {
                        self.lemma_toks(self.pos as int);
                        self.lemma_toks(self.tokens@.len() - 1);
                    }
                    self.pos += 1;
                    Some(self.parse_value()?)
                } else {
                    None
                };
                Ok(Stmt::Timeline { from, to })
            },
            Token::Sort => {
                self.pos += 1;
                self.skip_if(&Token::By);
                let field = self.parse_value()?;
                let order = if self.check(&Token::Asc) {
                    proof {
                        self.lemma_toks(self.pos as int);
                        self.lemma_toks(self.tokens@.len() - 1);
                    }
                    self.pos += 1;
                    Order::Asc
                } else if self.check(&Token::Desc) {
                    proof {
                        self.lemma_toks(self.pos as int);
                        self.lemma_toks(self.tokens@.len() - 1);
                    }
                    self.pos += 1;
                    Order::Desc
                } else {
                    Order::Asc
                };
                Ok(Stmt::Sort { field, order })
            },
            Token::Limit => {
                self.pos += 1;
                let v = self.parse_value()?;
                match v {
                    Value::Integer(n) => Ok(Stmt::Limit(n as usize)),
                    _ => {
                        proof {
                            self.lemma_toks(self.pos - 1);
                            reveal_strlit("");
                        }
                        let prev = &self.tokens[self.pos - 1];
                        Err(Error::Parse {
                            line: prev.1,
                            col: prev.2,
                            message: message("LIMIT requires an integer, got ", value_debug(&v), ""),
                        })
                    },
                }
            },
            Token::Store => {
                self.pos += 1;
                self.skip_if(&Token::As);
                let v = self.parse_value()?;
                Ok(Stmt::Store(v))
            },
            Token::Export => {
                self.pos += 1;
                let v = self.parse_value()?;
                Ok(Stmt::Export(v))
            },
            Token::Load => {
                self.pos += 1;
                let v = self.parse_value()?;
                Ok(Stmt::Load(v))
            },
            Token::Filter => {
                self.pos += 1;
                let e = self.parse_bin_expr()?;
                Ok(Stmt::Filter(e))
            },
            Token::Ident(_) => {
                let v = self.parse_value()?;
                Ok(Stmt::Load(v))
            },
            other => Err(Error::Parse {
                line,
                col,
                message: message("unexpected token ", token_debug(other), ", expected statement keyword"),
            }),
        }
    }

    /// The statements of the tokens, newlines between them skipped; the
    /// tokens end with `EOF` (as the lexer leaves them).
    pub fn parse(&mut self) -> (r: Result<Program, Error>)
        requires
            old(self).toks().len() > 0,
            old(self).toks().last().0 is EOF,
            old(self).at() == 0,
        ensures
            match parse_tokens(old(self).toks()) {
                Ok(ss) => r matches Ok(p) && stmts_model(p.statements@) == ss,
                Err(e) => r matches Err(x) && is_parse_error(x, e),
            },
    {
        let ghost ts = self.toks();
        let n = self.tokens.len();
        proof {
            assert(self.tokens@.len() == ts.len());
            assert(self.tokens@.last().0@ == ts.last().0);
            assert(ts.last() == ts[ts.len() - 1]);
        }
        let mut statements: Vec<Stmt> = Vec::new();
        assert(stmts_model(statements@) =~= Seq::<StmtModel>::empty());
        loop
            invariant_except_break
                self.wf(),
                self.toks() == ts,
                ts == old(self).toks(),
                match p_program(ts, self.at()) {
                    Ok(rest) => parse_tokens(ts) == Ok::<Seq<StmtModel>, ParseError>(stmts_model(statements@) + rest),
                    Err(e) => parse_tokens(ts) == Err::<Seq<StmtModel>, ParseError>(e),
                },
            ensures
                parse_tokens(ts) == Ok::<Seq<StmtModel>, ParseError>(stmts_model(statements@)),
            decreases ts.len() - self.at(),
        {
            let ghost here = self.at();
            self.skip_newlines();
            if self.check(&Token::EOF) {
                assert(stmts_model(statements@) + Seq::<StmtModel>::empty() =~= stmts_model(statements@));
                break;
            }
            let ghost before = stmts_model(statements@);
            let stmt = self.parse_statement()?;
            let ghost sm = stmt_model(stmt);
            statements.push(stmt);
            proof {
                assert(stmts_model(statements@) =~= before.push(sm));
                assert(here < self.at() <= ts.len());
                match p_program(ts, self.at()) {
                    Ok(rest) => {
                        assert(before + (seq![sm] + rest) =~= before.push(sm) + rest);
                    },
                    Err(e) => {},
                }
            }
        }
        Ok(Program { statements })
    }
}

} // verus!
