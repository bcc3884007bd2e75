use vstd::prelude::*;

use crate::span::Span;

verus! {

broadcast use vstd::std_specs::vec::axiom_vec_decreases_to_view, vstd::seq::axiom_seq_index_decreases, vstd::seq::axiom_seq_subrange_decreases;

/// A typed function parameter: its name and its unresolved type hint.
#[derive(Debug, Clone)]
pub struct Param {
    pub name: String,
    pub type_hint: String,
}

/// A node of the abstract syntax tree the parser produces.
///
/// Operators are stored as their source text, unresolved; type hints are
/// unresolved identifiers. Calls keep their callee as a full expression,
/// so repeated argument lists fold left onto the preceding expression.
#[derive(Debug)]
pub enum Expr {
    Int(i64),
    Float(String),
    Boolean(bool),
    Str(String),
    Identifier(String),
    Unary { op: String, rhs: Box<SpannedExpr> },
    Binary { lhs: Box<SpannedExpr>, op: String, rhs: Box<SpannedExpr> },
    Call { name: Box<SpannedExpr>, args: Vec<SpannedExpr> },
    Let { name: String, type_hint: String, value: Box<SpannedExpr> },
    Fun { name: String, type_hint: String, args: Vec<Param>, body: Box<SpannedExpr> },
    Do { body: Vec<SpannedExpr> },
}

/// An expression together with the byte range it covers.
#[derive(Debug)]
pub struct SpannedExpr {
    pub expr: Expr,
    pub span: Span,
}

/// The mathematical image of a parameter.
pub struct ParamS {
    pub name: Seq<char>,
    pub type_hint: Seq<char>,
}

/// The mathematical image of a syntax-tree node.
pub enum ExprS {
    Int(i64),
    Float(Seq<char>),
    Boolean(bool),
    Str(Seq<char>),
    Identifier(Seq<char>),
    Unary { op: Seq<char>, rhs: Box<SpannedExprS> },
    Binary { lhs: Box<SpannedExprS>, op: Seq<char>, rhs: Box<SpannedExprS> },
    Call { name: Box<SpannedExprS>, args: Seq<SpannedExprS> },
    Let { name: Seq<char>, type_hint: Seq<char>, value: Box<SpannedExprS> },
    Fun { name: Seq<char>, type_hint: Seq<char>, args: Seq<ParamS>, body: Box<SpannedExprS> },
    Do { body: Seq<SpannedExprS> },
}

/// The mathematical image of a spanned expression.
pub struct SpannedExprS {
    pub expr: ExprS,
    pub span: Span,
}

pub open spec fn view_param(p: Param) -> ParamS {
    ParamS { name: p.name@, type_hint: p.type_hint@ }
}

pub open spec fn view_params(s: Seq<Param>) -> Seq<ParamS> {
    Seq::new(s.len(), |i: int| view_param(s[i]))
}

pub open spec fn view_expr(e: Expr) -> ExprS
    decreases e,
{
    match e {
        Expr::Int(i) => ExprS::Int(i),
        Expr::Float(s) => ExprS::Float(s@),
        Expr::Boolean(b) => ExprS::Boolean(b),
        Expr::Str(s) => ExprS::Str(s@),
        Expr::Identifier(s) => ExprS::Identifier(s@),
        Expr::Unary { op, rhs } => ExprS::Unary { op: op@, rhs: Box::new(view_spanned(*rhs)) },
        Expr::Binary { lhs, op, rhs } => ExprS::Binary {
            lhs: Box::new(view_spanned(*lhs)),
            op: op@,
            rhs: Box::new(view_spanned(*rhs)),
        },
        Expr::Call { name, args } => ExprS::Call {
            name: Box::new(view_spanned(*name)),
            args: view_spanned_seq(args@),
        },
        Expr::Let { name, type_hint, value } => ExprS::Let {
            name: name@,
            type_hint: type_hint@,
            value: Box::new(view_spanned(*value)),
        },
        Expr::Fun { name, type_hint, args, body } => ExprS::Fun {
            name: name@,
            type_hint: type_hint@,
            args: view_params(args@),
            body: Box::new(view_spanned(*body)),
        },
        Expr::Do { body } => ExprS::Do { body: view_spanned_seq(body@) },
    }
}

pub open spec fn view_spanned_seq(s: Seq<SpannedExpr>) -> Seq<SpannedExprS>
    decreases s,
{
    if s.len() == 0 {
        Seq::empty()
    } else {
        seq![view_spanned(s[0])] + view_spanned_seq(s.drop_first())
    }
}

pub open spec fn view_spanned(e: SpannedExpr) -> SpannedExprS
    decreases e,
{
    SpannedExprS { expr: view_expr(e.expr), span: e.span }
}

/// The image of a sequence of spanned expressions is taken element by element.
pub broadcast proof fn lemma_view_spanned_seq(s: Seq<SpannedExpr>)
    ensures
        #[trigger] view_spanned_seq(s).len() == s.len(),
        forall|i: int| 0 <= i < s.len() ==> view_spanned_seq(s)[i] == view_spanned(s[i]),
    decreases s.len(),
{
    if s.len() > 0 {
        lemma_view_spanned_seq(s.drop_first());
        assert forall|i: int| 0 <= i < s.len() implies view_spanned_seq(s)[i] == view_spanned(
            s[i],
        ) by {
            if i > 0 {
                assert(view_spanned_seq(s.drop_first())[i - 1] == view_spanned(
                    s.drop_first()[i - 1],
                ));
            }
        }
    }
}

} // verus!
