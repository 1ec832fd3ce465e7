//! Tokens of the TDXL query language.
use vstd::prelude::*;

verus! {

/// A TDXL token. A decimal number with a point is kept as the text it is
/// written with.
#[derive(Debug)]
pub enum Token {
    From,
    Match,
    Where,
    Traverse,
    Depth,
    Summarize,
    Infer,
    Correlate,
    With,
    Similar,
    To,
    Classify,
    As,
    Timeline,
    Sort,
    By,
    Asc,
    Desc,
    Limit,
    Store,
    Export,
    Load,
    Filter,
    And,
    Or,
    Not,
    Integer(i64),
    Float(String),
    Str(String),
    Bool(bool),
    Null,
    Ident(String),
    Eq,
    Neq,
    Ge,
    Le,
    Gt,
    Lt,
    Assign,
    LParen,
    RParen,
    LBracket,
    RBracket,
    LBrace,
    RBrace,
    Comma,
    Dot,
    Colon,
    Newline,
    EOF,
}

/// The abstract value of a [`Token`]: texts as character sequences.
pub enum TokenModel {
    From,
    Match,
    Where,
    Traverse,
    Depth,
    Summarize,
    Infer,
    Correlate,
    With,
    Similar,
    To,
    Classify,
    As,
    Timeline,
    Sort,
    By,
    Asc,
    Desc,
    Limit,
    Store,
    Export,
    Load,
    Filter,
    And,
    Or,
    Not,
    Integer(i64),
    Float(Seq<char>),
    Str(Seq<char>),
    Bool(bool),
    Null,
    Ident(Seq<char>),
    Eq,
    Neq,
    Ge,
    Le,
    Gt,
    Lt,
    Assign,
    LParen,
    RParen,
    LBracket,
    RBracket,
    LBrace,
    RBrace,
    Comma,
    Dot,
    Colon,
    Newline,
    EOF,
}

impl View for Token {
    type V = TokenModel;

    open spec fn view(&self) -> TokenModel {
        match self {
            Token::From => TokenModel::From,
            Token::Match => TokenModel::Match,
            Token::Where => TokenModel::Where,
            Token::Traverse => TokenModel::Traverse,
            Token::Depth => TokenModel::Depth,
            Token::Summarize => TokenModel::Summarize,
            Token::Infer => TokenModel::Infer,
            Token::Correlate => TokenModel::Correlate,
            Token::With => TokenModel::With,
            Token::Similar => TokenModel::Similar,
            Token::To => TokenModel::To,
            Token::Classify => TokenModel::Classify,
            Token::As => TokenModel::As,
            Token::Timeline => TokenModel::Timeline,
            Token::Sort => TokenModel::Sort,
            Token::By => TokenModel::By,
            Token::Asc => TokenModel::Asc,
            Token::Desc => TokenModel::Desc,
            Token::Limit => TokenModel::Limit,
            Token::Store => TokenModel::Store,
            Token::Export => TokenModel::Export,
            Token::Load => TokenModel::Load,
            Token::Filter => TokenModel::Filter,
            Token::And => TokenModel::And,
            Token::Or => TokenModel::Or,
            Token::Not => TokenModel::Not,
            Token::Null => TokenModel::Null,
            Token::Eq => TokenModel::Eq,
            Token::Neq => TokenModel::Neq,
            Token::Ge => TokenModel::Ge,
            Token::Le => TokenModel::Le,
            Token::Gt => TokenModel::Gt,
            Token::Lt => TokenModel::Lt,
            Token::Assign => TokenModel::Assign,
            Token::LParen => TokenModel::LParen,
            Token::RParen => TokenModel::RParen,
            Token::LBracket => TokenModel::LBracket,
            Token::RBracket => TokenModel::RBracket,
            Token::LBrace => TokenModel::LBrace,
            Token::RBrace => TokenModel::RBrace,
            Token::Comma => TokenModel::Comma,
            Token::Dot => TokenModel::Dot,
            Token::Colon => TokenModel::Colon,
            Token::Newline => TokenModel::Newline,
            Token::EOF => TokenModel::EOF,
            Token::Integer(v) => TokenModel::Integer(*v),
            Token::Float(s) => TokenModel::Float(s@),
            Token::Str(s) => TokenModel::Str(s@),
            Token::Bool(v) => TokenModel::Bool(*v),
            Token::Ident(s) => TokenModel::Ident(s@),
        }
    }
}

/// A binary operator of a condition.
#[derive(Debug, Clone, Copy, PartialEq, Eq, Structural)]
pub enum BinOp {
    Eq,
    Neq,
    Ge,
    Le,
    Gt,
    Lt,
    And,
    Or,
}

/// Whether two tokens are of the same kind, whatever they hold
/// (`std::mem::discriminant` equality).
pub open spec fn same_kind(a: TokenModel, b: TokenModel) -> bool {
    match (a, b) {
        (TokenModel::From, TokenModel::From) => true,
        (TokenModel::Match, TokenModel::Match) => true,
        (TokenModel::Where, TokenModel::Where) => true,
        (TokenModel::Traverse, TokenModel::Traverse) => true,
        (TokenModel::Depth, TokenModel::Depth) => true,
        (TokenModel::Summarize, TokenModel::Summarize) => true,
        (TokenModel::Infer, TokenModel::Infer) => true,
        (TokenModel::Correlate, TokenModel::Correlate) => true,
        (TokenModel::With, TokenModel::With) => true,
        (TokenModel::Similar, TokenModel::Similar) => true,
        (TokenModel::To, TokenModel::To) => true,
        (TokenModel::Classify, TokenModel::Classify) => true,
        (TokenModel::As, TokenModel::As) => true,
        (TokenModel::Timeline, TokenModel::Timeline) => true,
        (TokenModel::Sort, TokenModel::Sort) => true,
        (TokenModel::By, TokenModel::By) => true,
        (TokenModel::Asc, TokenModel::Asc) => true,
        (TokenModel::Desc, TokenModel::Desc) => true,
        (TokenModel::Limit, TokenModel::Limit) => true,
        (TokenModel::Store, TokenModel::Store) => true,
        (TokenModel::Export, TokenModel::Export) => true,
        (TokenModel::Load, TokenModel::Load) => true,
        (TokenModel::Filter, TokenModel::Filter) => true,
        (TokenModel::And, TokenModel::And) => true,
        (TokenModel::Or, TokenModel::Or) => true,
        (TokenModel::Not, TokenModel::Not) => true,
        (TokenModel::Null, TokenModel::Null) => true,
        (TokenModel::Eq, TokenModel::Eq) => true,
        (TokenModel::Neq, TokenModel::Neq) => true,
        (TokenModel::Ge, TokenModel::Ge) => true,
        (TokenModel::Le, TokenModel::Le) => true,
        (TokenModel::Gt, TokenModel::Gt) => true,
        (TokenModel::Lt, TokenModel::Lt) => true,
        (TokenModel::Assign, TokenModel::Assign) => true,
        (TokenModel::LParen, TokenModel::LParen) => true,
        (TokenModel::RParen, TokenModel::RParen) => true,
        (TokenModel::LBracket, TokenModel::LBracket) => true,
        (TokenModel::RBracket, TokenModel::RBracket) => true,
        (TokenModel::LBrace, TokenModel::LBrace) => true,
        (TokenModel::RBrace, TokenModel::RBrace) => true,
        (TokenModel::Comma, TokenModel::Comma) => true,
        (TokenModel::Dot, TokenModel::Dot) => true,
        (TokenModel::Colon, TokenModel::Colon) => true,
        (TokenModel::Newline, TokenModel::Newline) => true,
        (TokenModel::EOF, TokenModel::EOF) => true,
        (TokenModel::Integer(_), TokenModel::Integer(_)) => true,
        (TokenModel::Float(_), TokenModel::Float(_)) => true,
        (TokenModel::Str(_), TokenModel::Str(_)) => true,
        (TokenModel::Bool(_), TokenModel::Bool(_)) => true,
        (TokenModel::Ident(_), TokenModel::Ident(_)) => true,
        _ => false,
    }
}

/// Whether two tokens are of the same kind.
pub fn same_kind_exec(a: &Token, b: &Token) -> (r: bool)
    ensures
        r == same_kind(a@, b@),
{
    match (a, b) {
        (Token::From, Token::From) => true,
        (Token::Match, Token::Match) => true,
        (Token::Where, Token::Where) => true,
        (Token::Traverse, Token::Traverse) => true,
        (Token::Depth, Token::Depth) => true,
        (Token::Summarize, Token::Summarize) => true,
        (Token::Infer, Token::Infer) => true,
        (Token::Correlate, Token::Correlate) => true,
        (Token::With, Token::With) => true,
        (Token::Similar, Token::Similar) => true,
        (Token::To, Token::To) => true,
        (Token::Classify, Token::Classify) => true,
        (Token::As, Token::As) => true,
        (Token::Timeline, Token::Timeline) => true,
        (Token::Sort, Token::Sort) => true,
        (Token::By, Token::By) => true,
        (Token::Asc, Token::Asc) => true,
        (Token::Desc, Token::Desc) => true,
        (Token::Limit, Token::Limit) => true,
        (Token::Store, Token::Store) => true,
        (Token::Export, Token::Export) => true,
        (Token::Load, Token::Load) => true,
        (Token::Filter, Token::Filter) => true,
        (Token::And, Token::And) => true,
        (Token::Or, Token::Or) => true,
        (Token::Not, Token::Not) => true,
        (Token::Null, Token::Null) => true,
        (Token::Eq, Token::Eq) => true,
        (Token::Neq, Token::Neq) => true,
        (Token::Ge, Token::Ge) => true,
        (Token::Le, Token::Le) => true,
        (Token::Gt, Token::Gt) => true,
        (Token::Lt, Token::Lt) => true,
        (Token::Assign, Token::Assign) => true,
        (Token::LParen, Token::LParen) => true,
        (Token::RParen, Token::RParen) => true,
        (Token::LBracket, Token::LBracket) => true,
        (Token::RBracket, Token::RBracket) => true,
        (Token::LBrace, Token::LBrace) => true,
        (Token::RBrace, Token::RBrace) => true,
        (Token::Comma, Token::Comma) => true,
        (Token::Dot, Token::Dot) => true,
        (Token::Colon, Token::Colon) => true,
        (Token::Newline, Token::Newline) => true,
        (Token::EOF, Token::EOF) => true,
        (Token::Integer(_), Token::Integer(_)) => true,
        (Token::Float(_), Token::Float(_)) => true,
        (Token::Str(_), Token::Str(_)) => true,
        (Token::Bool(_), Token::Bool(_)) => true,
        (Token::Ident(_), Token::Ident(_)) => true,
        _ => false,
    }
}

} // verus!
