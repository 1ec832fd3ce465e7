//! The TDXL syntax tree.
use vstd::prelude::*;
use crate::tdxl::float_text::{float_display, float_display_text};
use crate::tdxl::token::BinOp;
use crate::text::{append_chars, chars_of, decimal, decimal_string_u64, string_of};

verus! {

/// A literal or name. A decimal number with a point is kept as written,
/// and rendered as the number it stands for.
#[derive(Debug)]
pub enum Value {
    Integer(i64),
    Float(String),
    String(String),
    Bool(bool),
    Null,
    Ident(String),
}

/// The abstract value of a [`Value`].
pub enum ValueModel {
    Integer(i64),
    Float(Seq<char>),
    String(Seq<char>),
    Bool(bool),
    Null,
    Ident(Seq<char>),
}

impl View for Value {
    type V = ValueModel;

    open spec fn view(&self) -> ValueModel {
        match self {
            Value::Integer(v) => ValueModel::Integer(*v),
            Value::Float(s) => ValueModel::Float(s@),
            Value::String(s) => ValueModel::String(s@),
            Value::Bool(b) => ValueModel::Bool(*b),
            Value::Null => ValueModel::Null,
            Value::Ident(s) => ValueModel::Ident(s@),
        }
    }
}

/// The decimal rendering of a signed integer (`i64::to_string`).
pub open spec fn signed_decimal(v: int) -> Seq<char> {
    if v < 0 {
        "-"@ + decimal((-v) as nat)
    } else {
        decimal(v as nat)
    }
}

/// The text of a value (`Value::as_string`).
pub open spec fn value_text(v: ValueModel) -> Seq<char> {
    match v {
        ValueModel::Integer(n) => signed_decimal(n as int),
        ValueModel::Float(s) => float_display(s),
        ValueModel::String(s) => s,
        ValueModel::Bool(b) => if b {
            "true"@
        } else {
            "false"@
        },
        ValueModel::Null => "null"@,
        ValueModel::Ident(s) => s,
    }
}

/// The decimal rendering of an `i64`.
pub fn i64_text(v: i64) -> (r: String)
    ensures
        r@ == signed_decimal(v as int),
{
    if v < 0 {
        let magnitude: u64 = ((-(v + 1)) as u64) + 1;
        let mut s = string_of(chars_of("-").as_slice());
        append_chars(&mut s, chars_of(decimal_string_u64(magnitude).as_str()).as_slice());
        s
    } else {
        decimal_string_u64(v as u64)
    }
}

impl Value {
    /// The text of the value: a number in decimal (a decimal literal as
    /// the number it stands for prints, so `3.0` is `3`), a string or name
    /// as it is, `true`, `false` or `null`.
    pub fn as_string(&self) -> (r: String)
        ensures
            r@ == value_text(self@),
    {
        match self {
            Value::Integer(v) => i64_text(*v),
            Value::Float(s) => float_display_text(s.as_str()),
            Value::String(s) => s.clone(),
            Value::Bool(b) => if *b {
                string_of(chars_of("true").as_slice())
            } else {
                string_of(chars_of("false").as_slice())
            },
            Value::Null => string_of(chars_of("null").as_slice()),
            Value::Ident(s) => s.clone(),
        }
    }
}

/// A condition: a field compared with a value, a combination of two
/// conditions, or a bare value.
#[derive(Debug)]
pub enum BinExpr {
    Field { field: String, op: BinOp, value: Value },
    Expr { left: Box<BinExpr>, op: BinOp, right: Box<BinExpr> },
    Value(Value),
}

/// The abstract value of a [`BinExpr`].
pub enum BinExprModel {
    Field { field: Seq<char>, op: BinOp, value: ValueModel },
    Expr { left: Box<BinExprModel>, op: BinOp, right: Box<BinExprModel> },
    Value(ValueModel),
}

/// The model of a condition.
pub open spec fn bin_expr_model(e: BinExpr) -> BinExprModel
    decreases e,
{
    match e {
        BinExpr::Field { field, op, value } => BinExprModel::Field { field: field@, op, value: value@ },
        BinExpr::Expr { left, op, right } => BinExprModel::Expr {
            left: Box::new(bin_expr_model(*left)),
            op,
            right: Box::new(bin_expr_model(*right)),
        },
        BinExpr::Value(v) => BinExprModel::Value(v@),
    }
}

/// A sort order.
#[derive(Debug, Clone, Copy, PartialEq, Eq, Structural)]
pub enum Order {
    Asc,
    Desc,
}

/// A TDXL statement.
#[derive(Debug)]
pub enum Stmt {
    From(Value),
    Match(BinExpr),
    Where(BinExpr),
    Traverse { relation: Value, depth: Option<usize> },
    Summarize,
    Infer(Value),
    Correlate { target: Value },
    Similar { target: Value },
    Classify { class: Value },
    Timeline { from: Option<Value>, to: Option<Value> },
    Sort { field: Value, order: Order },
    Limit(usize),
    Store(Value),
    Export(Value),
    Load(Value),
    Filter(BinExpr),
}

/// The abstract value of a [`Stmt`].
pub enum StmtModel {
    From(ValueModel),
    Match(BinExprModel),
    Where(BinExprModel),
    Traverse { relation: ValueModel, depth: Option<usize> },
    Summarize,
    Infer(ValueModel),
    Correlate { target: ValueModel },
    Similar { target: ValueModel },
    Classify { class: ValueModel },
    Timeline { from: Option<ValueModel>, to: Option<ValueModel> },
    Sort { field: ValueModel, order: Order },
    Limit(usize),
    Store(ValueModel),
    Export(ValueModel),
    Load(ValueModel),
    Filter(BinExprModel),
}

/// The model of an optional value.
pub open spec fn opt_value(v: Option<Value>) -> Option<ValueModel> {
    match v {
        Some(x) => Some(x@),
        None => None,
    }
}

/// The model of a statement.
pub open spec fn stmt_model(s: Stmt) -> StmtModel {
    match s {
        Stmt::From(v) => StmtModel::From(v@),
        Stmt::Match(e) => StmtModel::Match(bin_expr_model(e)),
        Stmt::Where(e) => StmtModel::Where(bin_expr_model(e)),
        Stmt::Traverse { relation, depth } => StmtModel::Traverse { relation: relation@, depth },
        Stmt::Summarize => StmtModel::Summarize,
        Stmt::Infer(v) => StmtModel::Infer(v@),
        Stmt::Correlate { target } => StmtModel::Correlate { target: target@ },
        Stmt::Similar { target } => StmtModel::Similar { target: target@ },
        Stmt::Classify { class } => StmtModel::Classify { class: class@ },
        Stmt::Timeline { from, to } => StmtModel::Timeline { from: opt_value(from), to: opt_value(to) },
        Stmt::Sort { field, order } => StmtModel::Sort { field: field@, order },
        Stmt::Limit(n) => StmtModel::Limit(n),
        Stmt::Store(v) => StmtModel::Store(v@),
        Stmt::Export(v) => StmtModel::Export(v@),
        Stmt::Load(v) => StmtModel::Load(v@),
        Stmt::Filter(e) => StmtModel::Filter(bin_expr_model(e)),
    }
}

/// The models of a list of statements.
pub open spec fn stmts_model(v: Seq<Stmt>) -> Seq<StmtModel> {
    v.map_values(|s: Stmt| stmt_model(s))
}

/// A parsed TDXL program.
#[derive(Debug)]
pub struct Program {
    pub statements: Vec<Stmt>,
}

} // verus!
