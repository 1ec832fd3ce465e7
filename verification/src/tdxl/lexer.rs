//! The TDXL lexer: characters to tokens with their line and column.
use vstd::prelude::*;
use crate::tdxl::error::Error;
use crate::tdxl::token::{Token, TokenModel};
use crate::text::{alphanumeric, chars_of, contains_char, is_alphanumeric, lemma_char_index, same_text, string_of};

verus! {

/// Where the lexer stands: index, line and column (both from 1).
pub struct LexPos {
    pub i: int,
    pub line: int,
    pub col: int,
}

/// The position after reading the character at `p` (none at the end).
pub open spec fn step(cs: Seq<char>, p: LexPos) -> LexPos {
    if 0 <= p.i < cs.len() {
        if cs[p.i] == '\n' {
            LexPos { i: p.i + 1, line: p.line + 1, col: 1 }
        } else {
            LexPos { i: p.i + 1, line: p.line, col: p.col + 1 }
        }
    } else {
        p
    }
}

/// Skips spaces, tabs, carriage returns and `#` comments (up to, not over,
/// the line end); `in_comment` tells whether a comment is open.
pub open spec fn skip_blank(cs: Seq<char>, p: LexPos, in_comment: bool) -> LexPos
    decreases cs.len() - p.i, (if in_comment { 1int } else { 0int }),
{
    if p.i < 0 || p.i >= cs.len() {
        p
    } else if in_comment {
        if cs[p.i] == '\n' {
            skip_blank(cs, p, false)
        } else {
            skip_blank(cs, step(cs, p), true)
        }
    } else if cs[p.i] == ' ' || cs[p.i] == '\t' || cs[p.i] == '\r' {
        skip_blank(cs, step(cs, p), false)
    } else if cs[p.i] == '#' {
        skip_blank(cs, step(cs, p), true)
    } else {
        p
    }
}

/// An ASCII digit.
pub open spec fn ascii_digit(c: char) -> bool {
    '0' <= c && c <= '9'
}

/// An ASCII letter.
pub open spec fn ascii_alpha(c: char) -> bool {
    ('a' <= c && c <= 'z') || ('A' <= c && c <= 'Z')
}

/// The end of a numeral (digits and points) that starts at `p`.
pub open spec fn scan_number(cs: Seq<char>, p: LexPos) -> LexPos
    decreases cs.len() - p.i,
{
    if 0 <= p.i < cs.len() && (ascii_digit(cs[p.i]) || cs[p.i] == '.') {
        scan_number(cs, step(cs, p))
    } else {
        p
    }
}

/// The end of a word (alphanumeric characters and `_`) that starts at `p`.
pub open spec fn scan_word(cs: Seq<char>, p: LexPos) -> LexPos
    decreases cs.len() - p.i,
{
    if 0 <= p.i < cs.len() && (alphanumeric(cs[p.i]) || cs[p.i] == '_') {
        scan_word(cs, step(cs, p))
    } else {
        p
    }
}

/// The value of a string of ASCII digits.
pub open spec fn digits_value(s: Seq<char>) -> nat
    decreases s.len(),
{
    if s.len() == 0 {
        0
    } else {
        10 * digits_value(s.drop_last()) + ((s.last() as int) - ('0' as int)) as nat
    }
}

/// A numeral without a point read as an `i64`, 0 where it does not fit
/// (`str::parse::<i64>().unwrap_or(0)`).
pub open spec fn integer_value(s: Seq<char>) -> i64 {
    if digits_value(s) <= i64::MAX {
        digits_value(s) as i64
    } else {
        0
    }
}

/// The character an escape `\e` stands for inside a string.
pub open spec fn unescape(e: char) -> char {
    if e == 'n' {
        '\n'
    } else if e == 't' {
        '\t'
    } else if e == 'r' {
        '\r'
    } else {
        e
    }
}

/// The rest of a double-quoted string from `p` (after the opening quote),
/// with `acc` read so far: the text and the position after the closing
/// quote, or where it ran out and whether inside an escape.
pub open spec fn read_str(cs: Seq<char>, p: LexPos, acc: Seq<char>) -> Result<(Seq<char>, LexPos), (LexPos, bool)>
    decreases cs.len() - p.i,
{
    if p.i < 0 || p.i >= cs.len() {
        Err((p, false))
    } else {
        let c = cs[p.i];
        let q = step(cs, p);
        if c == '"' {
            Ok((acc, q))
        } else if c == '\\' {
            if q.i >= cs.len() {
                Err((q, true))
            } else {
                read_str(cs, step(cs, q), acc.push(unescape(cs[q.i])))
            }
        } else {
            read_str(cs, q, acc.push(c))
        }
    }
}

/// The rest of a single-quoted (raw) string from `p`.
pub open spec fn read_raw(cs: Seq<char>, p: LexPos, acc: Seq<char>) -> Result<(Seq<char>, LexPos), LexPos>
    decreases cs.len() - p.i,
{
    if p.i < 0 || p.i >= cs.len() {
        Err(p)
    } else if cs[p.i] == '\'' {
        Ok((acc, step(cs, p)))
    } else {
        read_raw(cs, step(cs, p), acc.push(cs[p.i]))
    }
}

/// The token a word reads as: a keyword (in upper, lower or capitalised
/// case), a boolean, `null`, or an identifier.
pub open spec fn word_token(w: Seq<char>) -> TokenModel {
    if w == "FROM"@ || w == "from"@ || w == "From"@ {
        TokenModel::From
    } else if w == "MATCH"@ || w == "match"@ || w == "Match"@ {
        TokenModel::Match
    } else if w == "WHERE"@ || w == "where"@ || w == "Where"@ {
        TokenModel::Where
    } else if w == "TRAVERSE"@ || w == "traverse"@ || w == "Traverse"@ {
        TokenModel::Traverse
    } else if w == "DEPTH"@ || w == "depth"@ || w == "Depth"@ {
        TokenModel::Depth
    } else if w == "SUMMARIZE"@ || w == "summarize"@ || w == "Summarize"@ {
        TokenModel::Summarize
    } else if w == "INFER"@ || w == "infer"@ || w == "Infer"@ {
        TokenModel::Infer
    } else if w == "CORRELATE"@ || w == "correlate"@ || w == "Correlate"@ {
        TokenModel::Correlate
    } else if w == "WITH"@ || w == "with"@ || w == "With"@ {
        TokenModel::With
    } else if w == "SIMILAR"@ || w == "similar"@ || w == "Similar"@ {
        TokenModel::Similar
    } else if w == "TO"@ || w == "to"@ || w == "To"@ {
        TokenModel::To
    } else if w == "CLASSIFY"@ || w == "classify"@ || w == "Classify"@ {
        TokenModel::Classify
    } else if w == "AS"@ || w == "as"@ || w == "As"@ {
        TokenModel::As
    } else if w == "TIMELINE"@ || w == "timeline"@ || w == "Timeline"@ {
        TokenModel::Timeline
    } else if w == "SORT"@ || w == "sort"@ || w == "Sort"@ {
        TokenModel::Sort
    } else if w == "BY"@ || w == "by"@ || w == "By"@ {
        TokenModel::By
    } else if w == "ASC"@ || w == "asc"@ || w == "Asc"@ {
        TokenModel::Asc
    } else if w == "DESC"@ || w == "desc"@ || w == "Desc"@ {
        TokenModel::Desc
    } else if w == "LIMIT"@ || w == "limit"@ || w == "Limit"@ {
        TokenModel::Limit
    } else if w == "STORE"@ || w == "store"@ || w == "Store"@ {
        TokenModel::Store
    } else if w == "EXPORT"@ || w == "export"@ || w == "Export"@ {
        TokenModel::Export
    } else if w == "LOAD"@ || w == "load"@ || w == "Load"@ {
        TokenModel::Load
    } else if w == "FILTER"@ || w == "filter"@ || w == "Filter"@ {
        TokenModel::Filter
    } else if w == "AND"@ || w == "and"@ || w == "And"@ {
        TokenModel::And
    } else if w == "OR"@ || w == "or"@ || w == "Or"@ {
        TokenModel::Or
    } else if w == "NOT"@ || w == "not"@ || w == "Not"@ {
        TokenModel::Not
    } else if w == "true"@ || w == "True"@ || w == "TRUE"@ {
        TokenModel::Bool(true)
    } else if w == "false"@ || w == "False"@ || w == "FALSE"@ {
        TokenModel::Bool(false)
    } else if w == "null"@ || w == "Null"@ || w == "NULL"@ {
        TokenModel::Null
    } else {
        TokenModel::Ident(w)
    }
}


/// A lexing error: line, column and message.
pub type LexError = (int, int, Seq<char>);

/// A one- or two-character operator at `p`: `first` alone, or `second`
/// where an `=` follows.
pub open spec fn operator(cs: Seq<char>, p: LexPos, first: TokenModel, second: TokenModel) -> (TokenModel, LexPos) {
    if p.i + 1 < cs.len() && cs[p.i + 1] == '=' {
        (second, step(cs, step(cs, p)))
    } else {
        (first, step(cs, p))
    }
}

/// The next token from `p`: the token, the line and column it starts at,
/// and the position after it; or the error that stops the lexer.
pub open spec fn lex_next(cs: Seq<char>, p: LexPos) -> Result<(TokenModel, int, int, LexPos), LexError> {
    let s = skip_blank(cs, p, false);
    let line = s.line;
    let col = s.col;
    if s.i < 0 || s.i >= cs.len() {
        Ok((TokenModel::EOF, line, col, s))
    } else {
        let c = cs[s.i];
        if c == '\n' {
            Ok((TokenModel::Newline, line, col, step(cs, s)))
        } else if ascii_digit(c) {
            let e = scan_number(cs, s);
            let text = cs.subrange(s.i, e.i);
            if contains_char(text, '.') {
                Ok((TokenModel::Float(text), line, col, e))
            } else {
                Ok((TokenModel::Integer(integer_value(text)), line, col, e))
            }
        } else if c == '"' {
            match read_str(cs, step(cs, s), seq![]) {
                Ok((v, q)) => Ok((TokenModel::Str(v), line, col, q)),
                Err((q, esc)) => Err((q.line, q.col, if esc {
                    "unterminated string escape"@
                } else {
                    "unterminated string"@
                })),
            }
        } else if c == '\'' {
            match read_raw(cs, step(cs, s), seq![]) {
                Ok((v, q)) => Ok((TokenModel::Str(v), line, col, q)),
                Err(q) => Err((q.line, q.col, "unterminated raw string"@)),
            }
        } else if c == '_' || ascii_alpha(c) {
            let e = scan_word(cs, s);
            Ok((word_token(cs.subrange(s.i, e.i)), line, col, e))
        } else if c == '(' {
            Ok((TokenModel::LParen, line, col, step(cs, s)))
        } else if c == ')' {
            Ok((TokenModel::RParen, line, col, step(cs, s)))
        } else if c == '[' {
            Ok((TokenModel::LBracket, line, col, step(cs, s)))
        } else if c == ']' {
            Ok((TokenModel::RBracket, line, col, step(cs, s)))
        } else if c == '{' {
            Ok((TokenModel::LBrace, line, col, step(cs, s)))
        } else if c == '}' {
            Ok((TokenModel::RBrace, line, col, step(cs, s)))
        } else if c == ',' {
            Ok((TokenModel::Comma, line, col, step(cs, s)))
        } else if c == '.' {
            Ok((TokenModel::Dot, line, col, step(cs, s)))
        } else if c == ':' {
            Ok((TokenModel::Colon, line, col, step(cs, s)))
        } else if c == '=' {
            let (t, q) = operator(cs, s, TokenModel::Assign, TokenModel::Eq);
            Ok((t, line, col, q))
        } else if c == '!' {
            if s.i + 1 < cs.len() && cs[s.i + 1] == '=' {
                Ok((TokenModel::Neq, line, col, step(cs, step(cs, s))))
            } else {
                Err((line, col, "unexpected '!'"@))
            }
        } else if c == '>' {
            let (t, q) = operator(cs, s, TokenModel::Gt, TokenModel::Ge);
            Ok((t, line, col, q))
        } else if c == '<' {
            let (t, q) = operator(cs, s, TokenModel::Lt, TokenModel::Le);
            Ok((t, line, col, q))
        } else {
            Err((line, col, "unexpected character: '"@ + seq![c] + "'"@))
        }
    }
}

/// All tokens from `p` on, each with its line and column, ending with
/// `EOF`; or the first lexing error.
pub open spec fn lex_all(cs: Seq<char>, p: LexPos) -> Result<Seq<(TokenModel, int, int)>, LexError>
    decreases cs.len() - p.i,
{
    match lex_next(cs, p) {
        Err(e) => Err(e),
        Ok((t, l, c, q)) => if t is EOF || !(p.i < q.i <= cs.len()) {
            Ok(seq![(t, l, c)])
        } else {
            match lex_all(cs, q) {
                Ok(rest) => Ok(seq![(t, l, c)] + rest),
                Err(e) => Err(e),
            }
        },
    }
}

/// The tokens of a text.
pub open spec fn lex(s: Seq<char>) -> Result<Seq<(TokenModel, int, int)>, LexError> {
    lex_all(s, LexPos { i: 0, line: 1, col: 1 })
}

/// The models of lexed tokens.
pub open spec fn tokens_model(v: Seq<(Token, usize, usize)>) -> Seq<(TokenModel, int, int)> {
    v.map_values(|t: (Token, usize, usize)| (t.0@, t.1 as int, t.2 as int))
}

/// Whether an error is the lexing error `e`.
pub open spec fn is_lex_error(r: Error, e: LexError) -> bool {
    r matches Error::Lex { line, col, message } && line == e.0 && col == e.1 && message@ == e.2
}

proof fn lemma_digits_value_prefix(s: Seq<char>, k: int)
    requires
        0 <= k <= s.len(),
    ensures
        digits_value(s.subrange(0, k)) <= digits_value(s),
    decreases s.len() - k,
{
    if k < s.len() {
        lemma_digits_value_prefix(s, k + 1);
        let a = s.subrange(0, k + 1);
        assert(a.drop_last() == s.subrange(0, k));
    } else {
        assert(s.subrange(0, k) == s);
    }
}

/// A numeral of ASCII digits read as an `i64`, 0 where it does not fit.
fn parse_integer(s: &[char]) -> (r: i64)
    requires
        forall|i: int| 0 <= i < s@.len() ==> ascii_digit(#[trigger] s@[i]),
    ensures
        r == integer_value(s@),
{
    let mut v: i64 = 0;
    let mut i: usize = 0;
    assert(s@.subrange(0, 0) =~= Seq::<char>::empty());
    while i < s.len()
        invariant
            i <= s@.len(),
            forall|k: int| 0 <= k < s@.len() ==> ascii_digit(#[trigger] s@[k]),
            v == digits_value(s@.subrange(0, i as int)),
        decreases s@.len() - i,
    {
        let ghost pre = s@.subrange(0, i + 1);
        assert(pre.drop_last() == s@.subrange(0, i as int));
        let d = (s[i] as u32 - '0' as u32) as i64;
        assert(ascii_digit(s@[i as int]));
        let next = match v.checked_mul(10) {
            Some(m) => m.checked_add(d),
            None => None,
        };
        match next {
            Some(n) => {
                v = n;
            },
            None => {
                proof {
                    lemma_digits_value_prefix(s@, i + 1);
                }
                return 0;
            },
        }
        i += 1;
    }
    assert(s@.subrange(0, s@.len() as int) == s@);
    v
}

/// The token a word reads as.
fn word_token_exec(w: String) -> (r: Token)
    ensures
        r@ == word_token(w@),
{
    let s = w.as_str();
    if same_text(s, "FROM") || same_text(s, "from") || same_text(s, "From") {
        Token::From
    } else if same_text(s, "MATCH") || same_text(s, "match") || same_text(s, "Match") {
        Token::Match
    } else if same_text(s, "WHERE") || same_text(s, "where") || same_text(s, "Where") {
        Token::Where
    } else if same_text(s, "TRAVERSE") || same_text(s, "traverse") || same_text(s, "Traverse") {
        Token::Traverse
    } else if same_text(s, "DEPTH") || same_text(s, "depth") || same_text(s, "Depth") {
        Token::Depth
    } else if same_text(s, "SUMMARIZE") || same_text(s, "summarize") || same_text(s, "Summarize") {
        Token::Summarize
    } else if same_text(s, "INFER") || same_text(s, "infer") || same_text(s, "Infer") {
        Token::Infer
    } else if same_text(s, "CORRELATE") || same_text(s, "correlate") || same_text(s, "Correlate") {
        Token::Correlate
    } else if same_text(s, "WITH") || same_text(s, "with") || same_text(s, "With") {
        Token::With
    } else if same_text(s, "SIMILAR") || same_text(s, "similar") || same_text(s, "Similar") {
        Token::Similar
    } else if same_text(s, "TO") || same_text(s, "to") || same_text(s, "To") {
        Token::To
    } else if same_text(s, "CLASSIFY") || same_text(s, "classify") || same_text(s, "Classify") {
        Token::Classify
    } else if same_text(s, "AS") || same_text(s, "as") || same_text(s, "As") {
        Token::As
    } else if same_text(s, "TIMELINE") || same_text(s, "timeline") || same_text(s, "Timeline") {
        Token::Timeline
    } else if same_text(s, "SORT") || same_text(s, "sort") || same_text(s, "Sort") {
        Token::Sort
    } else if same_text(s, "BY") || same_text(s, "by") || same_text(s, "By") {
        Token::By
    } else if same_text(s, "ASC") || same_text(s, "asc") || same_text(s, "Asc") {
        Token::Asc
    } else if same_text(s, "DESC") || same_text(s, "desc") || same_text(s, "Desc") {
        Token::Desc
    } else if same_text(s, "LIMIT") || same_text(s, "limit") || same_text(s, "Limit") {
        Token::Limit
    } else if same_text(s, "STORE") || same_text(s, "store") || same_text(s, "Store") {
        Token::Store
    } else if same_text(s, "EXPORT") || same_text(s, "export") || same_text(s, "Export") {
        Token::Export
    } else if same_text(s, "LOAD") || same_text(s, "load") || same_text(s, "Load") {
        Token::Load
    } else if same_text(s, "FILTER") || same_text(s, "filter") || same_text(s, "Filter") {
        Token::Filter
    } else if same_text(s, "AND") || same_text(s, "and") || same_text(s, "And") {
        Token::And
    } else if same_text(s, "OR") || same_text(s, "or") || same_text(s, "Or") {
        Token::Or
    } else if same_text(s, "NOT") || same_text(s, "not") || same_text(s, "Not") {
        Token::Not
    } else if same_text(s, "true") || same_text(s, "True") || same_text(s, "TRUE") {
        Token::Bool(true)
    } else if same_text(s, "false") || same_text(s, "False") || same_text(s, "FALSE") {
        Token::Bool(false)
    } else if same_text(s, "null") || same_text(s, "Null") || same_text(s, "NULL") {
        Token::Null
    } else {
        Token::Ident(w)
    }
}


/// The TDXL lexer over the characters of a source text.
pub struct Lexer {
    chars: Vec<char>,
    pos: usize,
    line: usize,
    col: usize,
}

impl Lexer {
    /// The characters being read.
    pub closed spec fn text(&self) -> Seq<char> {
        self.chars@
    }

    /// Where the lexer stands.
    pub closed spec fn at(&self) -> LexPos {
        LexPos { i: self.pos as int, line: self.line as int, col: self.col as int }
    }

    /// Line and column start at 1 and grow with the characters read; the
    /// text leaves room to count them.
    pub closed spec fn wf(&self) -> bool {
        &&& 1 <= self.line
        &&& 1 <= self.col
        &&& self.line + self.col <= self.pos + 2
        &&& self.pos <= self.chars@.len()
        &&& self.chars@.len() + 2 <= usize::MAX
    }

    /// A lexer at the start of `input`.
    pub fn new(input: &str) -> (r: Self)
        requires
            input@.len() + 2 <= usize::MAX,
        ensures
            r.wf(),
            r.text() == input@,
            r.at() == (LexPos { i: 0, line: 1, col: 1 }),
    {
        Lexer { chars: chars_of(input), pos: 0, line: 1, col: 1 }
    }

    fn peek(&self) -> (r: Option<char>)
        ensures
            r == (if self.pos < self.chars@.len() {
                Some(self.chars@[self.pos as int])
            } else {
                None
            }),
    {
        if self.pos < self.chars.len() {
            Some(self.chars[self.pos])
        } else {
            None
        }
    }

    fn peek_next(&self) -> (r: Option<char>)
        requires
            self.wf(),
        ensures
            r == (if self.pos + 1 < self.chars@.len() {
                Some(self.chars@[self.pos + 1])
            } else {
                None
            }),
    {
        if self.pos + 1 < self.chars.len() {
            Some(self.chars[self.pos + 1])
        } else {
            None
        }
    }

    fn next_is_eq(&self) -> (r: bool)
        requires
            self.wf(),
        ensures
            r == (self.pos + 1 < self.chars@.len() && self.chars@[self.pos + 1] == '='),
    {
        match self.peek_next() {
            Some(d) => d == '=',
            None => false,
        }
    }

    fn advance(&mut self) -> (r: Option<char>)
        requires
            old(self).wf(),
        ensures
            final(self).wf(),
            final(self).chars@ == old(self).chars@,
            final(self).at() == step(old(self).chars@, old(self).at()),
            r == (if old(self).pos < old(self).chars@.len() {
                Some(old(self).chars@[old(self).pos as int])
            } else {
                None
            }),
    {
        if self.pos >= self.chars.len() {
            return None;
        }
        let c = self.chars[self.pos];
        self.pos += 1;
        if c == '\n' {
            self.line += 1;
            self.col = 1;
        } else {
            self.col += 1;
        }
        Some(c)
    }

    fn skip_whitespace(&mut self)
        requires
            old(self).wf(),
        ensures
            final(self).wf(),
            final(self).chars@ == old(self).chars@,
            final(self).at() == skip_blank(old(self).chars@, old(self).at(), false),
            final(self).pos >= old(self).pos,
    {
        let ghost cs = self.chars@;
        let ghost target = skip_blank(cs, self.at(), false);
        let ghost start = self.pos;
        loop
            invariant_except_break
                self.wf(),
                self.chars@ == cs,
                self.pos >= start,
                skip_blank(cs, self.at(), false) == target,
            ensures
                self.wf(),
                self.chars@ == cs,
                self.pos >= start,
                self.at() == target,
            decreases cs.len() - self.pos,
        {
            let ghost it = self.pos;
            match self.peek() {
                Some(c) => {
                    if c == ' ' || c == '\t' || c == '\r' {
                        self.advance();
                    } else if c == '#' {
                        self.advance();
                        loop
                            invariant_except_break
                                self.wf(),
                                self.chars@ == cs,
                                self.pos >= it + 1,
                                skip_blank(cs, self.at(), true) == target,
                            ensures
                                self.wf(),
                                self.chars@ == cs,
                                self.pos >= it + 1,
                                skip_blank(cs, self.at(), false) == target,
                            decreases cs.len() - self.pos,
                        {
                            match self.peek() {
                                Some(d) => {
                                    if d == '\n' {
                                        break;
                                    }
                                    self.advance();
                                },
                                None => {
                                    break;
                                },
                            }
                        }
                    } else {
                        break;
                    }
                },
                None => {
                    break;
                },
            }
        }
    }

    fn read_number(&mut self) -> (r: Token)
        requires
            old(self).wf(),
            old(self).pos < old(self).chars@.len(),
            ascii_digit(old(self).chars@[old(self).pos as int]),
        ensures
            final(self).wf(),
            old(self).pos < final(self).pos,
            final(self).chars@ == old(self).chars@,
            final(self).at() == scan_number(old(self).chars@, old(self).at()),
            ({
                let text = old(self).chars@.subrange(old(self).pos as int, final(self).pos as int);
                r@ == if contains_char(text, '.') {
                    TokenModel::Float(text)
                } else {
                    TokenModel::Integer(integer_value(text))
                }
            }),
    {
        let ghost cs = self.chars@;
        let ghost target = scan_number(cs, self.at());
        let start = self.pos;
        while self.pos < self.chars.len() && (('0' <= self.chars[self.pos] && self.chars[self.pos] <= '9') || self.chars[self.pos] == '.')
            invariant
                self.wf(),
                self.chars@ == cs,
                start <= self.pos,
                scan_number(cs, self.at()) == target,
                forall|k: int| start <= k < self.pos ==> ascii_digit(#[trigger] cs[k]) || cs[k] == '.',
            decreases cs.len() - self.pos,
        {
            self.advance();
        }
        assert(self.pos > start) by {
            if self.pos == start {
                assert(ascii_digit(cs[start as int]));
            }
        }
        let digits = &self.chars[start..self.pos];
        let s = string_of(digits);
        proof {
            lemma_char_index(digits@, '.');
        }
        if crate::text::contains_char_exec(digits, '.') {
            Token::Float(s)
        } else {
            assert forall|i: int| 0 <= i < digits@.len() implies ascii_digit(#[trigger] digits@[i]) by {
                assert(digits@[i] == cs[start + i]);
            }
            Token::Integer(parse_integer(digits))
        }
    }

    fn read_string(&mut self) -> (r: Result<Token, Error>)
        requires
            old(self).wf(),
            old(self).pos < old(self).chars@.len(),
        ensures
            final(self).wf(),
            r is Ok ==> old(self).pos < final(self).pos,
            final(self).chars@ == old(self).chars@,
            match read_str(old(self).chars@, step(old(self).chars@, old(self).at()), seq![]) {
                Ok((v, q)) => r matches Ok(t) && t@ == TokenModel::Str(v) && final(self).at() == q,
                Err((q, esc)) => r matches Err(e) && is_lex_error(e, (q.line, q.col, if esc {
                    "unterminated string escape"@
                } else {
                    "unterminated string"@
                })),
            },
    {
        let ghost cs = self.chars@;
        self.advance();
        let ghost target = read_str(cs, self.at(), seq![]);
        let mut s = String::new();
        loop
            invariant_except_break
                self.wf(),
                self.chars@ == cs,
                cs == old(self).chars@,
                self.pos > old(self).pos,
                target == read_str(old(self).chars@, step(old(self).chars@, old(self).at()), seq![]),
                read_str(cs, self.at(), s@) == target,
            ensures
                self.wf(),
                self.chars@ == cs,
                self.pos > old(self).pos,
                target matches Ok((v, q)) && s@ == v && self.at() == q,
            decreases cs.len() - self.pos,
        {
            let ghost here = self.at();
            let ghost acc = s@;
            match self.advance() {
                Some(c) => {
                    if c == '"' {
                        break;
                    } else if c == '\\' {
                        let ghost mid = self.at();
                        match self.advance() {
                            Some(e) => {
                                let u = if e == 'n' {
                                    '\n'
                                } else if e == 't' {
                                    '\t'
                                } else if e == 'r' {
                                    '\r'
                                } else {
                                    e
                                };
                                let one = [u];
                                assert(one@ == seq![u]);
                                crate::text::append_chars(&mut s, &one);
                                assert(s@ == acc.push(unescape(cs[mid.i])));
                                assert(read_str(cs, here, acc) == read_str(cs, self.at(), s@));
                            },
                            None => {
                                return Err(Error::Lex {
                                    line: self.line,
                                    col: self.col,
                                    message: string_of(chars_of("unterminated string escape").as_slice()),
                                });
                            },
                        }
                    } else {
                        let one = [c];
                        assert(one@ == seq![c]);
                        crate::text::append_chars(&mut s, &one);
                        assert(s@ == acc.push(c));
                    }
                },
                None => {
                    return Err(Error::Lex {
                        line: self.line,
                        col: self.col,
                        message: string_of(chars_of("unterminated string").as_slice()),
                    });
                },
            }
        }
        Ok(Token::Str(s))
    }

    fn read_raw_string(&mut self) -> (r: Result<Token, Error>)
        requires
            old(self).wf(),
            old(self).pos < old(self).chars@.len(),
        ensures
            final(self).wf(),
            r is Ok ==> old(self).pos < final(self).pos,
            final(self).chars@ == old(self).chars@,
            match read_raw(old(self).chars@, step(old(self).chars@, old(self).at()), seq![]) {
                Ok((v, q)) => r matches Ok(t) && t@ == TokenModel::Str(v) && final(self).at() == q,
                Err(q) => r matches Err(e) && is_lex_error(e, (q.line, q.col, "unterminated raw string"@)),
            },
    {
        let ghost cs = self.chars@;
        self.advance();
        let ghost target = read_raw(cs, self.at(), seq![]);
        let mut s = String::new();
        loop
            invariant_except_break
                self.wf(),
                self.chars@ == cs,
                cs == old(self).chars@,
                self.pos > old(self).pos,
                target == read_raw(old(self).chars@, step(old(self).chars@, old(self).at()), seq![]),
                read_raw(cs, self.at(), s@) == target,
            ensures
                self.wf(),
                self.chars@ == cs,
                self.pos > old(self).pos,
                target matches Ok((v, q)) && s@ == v && self.at() == q,
            decreases cs.len() - self.pos,
        {
            let ghost acc = s@;
            match self.advance() {
                Some(c) => {
                    if c == '\'' {
                        break;
                    }
                    let one = [c];
                    assert(one@ == seq![c]);
                    crate::text::append_chars(&mut s, &one);
                    assert(s@ == acc.push(c));
                },
                None => {
                    return Err(Error::Lex {
                        line: self.line,
                        col: self.col,
                        message: string_of(chars_of("unterminated raw string").as_slice()),
                    });
                },
            }
        }
        Ok(Token::Str(s))
    }

    fn read_ident_or_keyword(&mut self) -> (r: Token)
        requires
            old(self).wf(),
            old(self).pos < old(self).chars@.len(),
            old(self).chars@[old(self).pos as int] == '_' || ascii_alpha(old(self).chars@[old(self).pos as int]),
        ensures
            final(self).wf(),
            old(self).pos < final(self).pos,
            final(self).chars@ == old(self).chars@,
            final(self).at() == scan_word(old(self).chars@, old(self).at()),
            r@ == word_token(old(self).chars@.subrange(old(self).pos as int, final(self).pos as int)),
    {
        let ghost cs = self.chars@;
        let ghost target = scan_word(cs, self.at());
        let start = self.pos;
        while self.pos < self.chars.len() && (is_alphanumeric(self.chars[self.pos]) || self.chars[self.pos] == '_')
            invariant
                self.wf(),
                self.chars@ == cs,
                start <= self.pos,
                scan_word(cs, self.at()) == target,
            decreases cs.len() - self.pos,
        {
            self.advance();
        }
        assert(self.pos > start) by {
            if self.pos == start {
                assert(cs[start as int] == '_' || ascii_alpha(cs[start as int]));
            }
        }
        word_token_exec(string_of(&self.chars[start..self.pos]))
    }

    /// The next token with its line and column.
    fn next_token(&mut self) -> (r: Result<(Token, usize, usize), Error>)
        requires
            old(self).wf(),
        ensures
            final(self).wf(),
            final(self).chars@ == old(self).chars@,
            match lex_next(old(self).chars@, old(self).at()) {
                Ok((t, l, c, q)) => r matches Ok(v) && v.0@ == t && v.1 == l && v.2 == c && final(self).at() == q
                    && (!(t is EOF) ==> old(self).pos < final(self).pos),
                Err(e) => r matches Err(x) && is_lex_error(x, e),
            },
    {
        let ghost cs = self.chars@;
        let ghost p0 = self.at();
        self.skip_whitespace();
        let line = self.line;
        let col = self.col;
        let c = match self.peek() {
            Some(c) => c,
            None => {
                return Ok((Token::EOF, line, col));
            },
        };
        if c == '\n' {
            self.advance();
            return Ok((Token::Newline, line, col));
        }
        if '0' <= c && c <= '9' {
            let t = self.read_number();
            return Ok((t, line, col));
        }
        if c == '"' {
            return match self.read_string() {
                Ok(t) => Ok((t, line, col)),
                Err(e) => Err(e),
            };
        }
        if c == '\'' {
            return match self.read_raw_string() {
                Ok(t) => Ok((t, line, col)),
                Err(e) => Err(e),
            };
        }
        if c == '_' || ('a' <= c && c <= 'z') || ('A' <= c && c <= 'Z') {
            let t = self.read_ident_or_keyword();
            return Ok((t, line, col));
        }
        if c == '(' {
            self.advance();
            Ok((Token::LParen, line, col))
        } else if c == ')' {
            self.advance();
            Ok((Token::RParen, line, col))
        } else if c == '[' {
            self.advance();
            Ok((Token::LBracket, line, col))
        } else if c == ']' {
            self.advance();
            Ok((Token::RBracket, line, col))
        } else if c == '{' {
            self.advance();
            Ok((Token::LBrace, line, col))
        } else if c == '}' {
            self.advance();
            Ok((Token::RBrace, line, col))
        } else if c == ',' {
            self.advance();
            Ok((Token::Comma, line, col))
        } else if c == '.' {
            self.advance();
            Ok((Token::Dot, line, col))
        } else if c == ':' {
            self.advance();
            Ok((Token::Colon, line, col))
        } else if c == '=' {
            if self.next_is_eq() {
                self.advance();
                self.advance();
                Ok((Token::Eq, line, col))
            } else {
                self.advance();
                Ok((Token::Assign, line, col))
            }
        } else if c == '!' {
            if self.next_is_eq() {
                self.advance();
                self.advance();
                Ok((Token::Neq, line, col))
            } else {
                Err(Error::Lex { line, col, message: string_of(chars_of("unexpected '!'").as_slice()) })
            }
        } else if c == '>' {
            if self.next_is_eq() {
                self.advance();
                self.advance();
                Ok((Token::Ge, line, col))
            } else {
                self.advance();
                Ok((Token::Gt, line, col))
            }
        } else if c == '<' {
            if self.next_is_eq() {
                self.advance();
                self.advance();
                Ok((Token::Le, line, col))
            } else {
                self.advance();
                Ok((Token::Lt, line, col))
            }
        } else {
            let mut m = string_of(chars_of("unexpected character: '").as_slice());
            let one = [c];
            assert(one@ == seq![c]);
            crate::text::append_chars(&mut m, &one);
            crate::text::append_chars(&mut m, chars_of("'").as_slice());
            Err(Error::Lex { line, col, message: m })
        }
    }

    /// All tokens of the text, each with its line and column, ending with
    /// `EOF`; or the first lexing error.
    pub fn tokenize(&mut self) -> (r: Result<Vec<(Token, usize, usize)>, Error>)
        requires
            old(self).wf(),
        ensures
            final(self).wf(),
            final(self).text() == old(self).text(),
            match lex_all(old(self).text(), old(self).at()) {
                Ok(ts) => r matches Ok(v) && tokens_model(v@) == ts,
                Err(e) => r matches Err(x) && is_lex_error(x, e),
            },
            r matches Ok(v) ==> v@.len() > 0 && v@.last().0 is EOF,
    {
        let ghost cs = self.chars@;
        let ghost target = lex_all(cs, self.at());
        let mut tokens: Vec<(Token, usize, usize)> = Vec::new();
        assert(tokens_model(tokens@) =~= Seq::<(TokenModel, int, int)>::empty());
        loop
            invariant_except_break
                self.wf(),
                self.chars@ == cs,
                cs == old(self).chars@,
                target == lex_all(old(self).chars@, old(self).at()),
                match lex_all(cs, self.at()) {
                    Ok(rest) => target == Ok::<Seq<(TokenModel, int, int)>, LexError>(tokens_model(tokens@) + rest),
                    Err(e) => target == Err::<Seq<(TokenModel, int, int)>, LexError>(e),
                },
            ensures
                self.wf(),
                self.chars@ == cs,
                target matches Ok(ts) && tokens_model(tokens@) == ts,
                tokens@.len() > 0 && tokens@.last().0 is EOF,
            decreases cs.len() - self.pos,
        {
            let ghost before = tokens_model(tokens@);
            let ghost here = self.at();
            match self.next_token() {
                Ok((tok, line, col)) => {
                    let is_eof = match tok {
                        Token::EOF => true,
                        _ => false,
                    };
                    let ghost tm = (tok@, line as int, col as int);
                    tokens.push((tok, line, col));
                    assert(tokens_model(tokens@) =~= before.push(tm));
                    if is_eof {
                        assert(before.push(tm) =~= before + seq![tm]);
                        break;
                    }
                    proof {
                        assert(here.i < self.at().i <= cs.len());
                        match lex_all(cs, self.at()) {
                            Ok(rest) => {
                                assert(before + (seq![tm] + rest) =~= before.push(tm) + rest);
                            },
                            Err(e) => {},
                        }
                    }
                },
                Err(e) => {
                    return Err(e);
                },
            }
        }
        Ok(tokens)
    }
}

} // verus!
