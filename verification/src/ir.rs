use vstd::prelude::*;

use crate::span::Span;

verus! {

broadcast use vstd::std_specs::vec::axiom_vec_decreases_to_view, vstd::seq::axiom_seq_index_decreases, vstd::seq::axiom_seq_subrange_decreases;

/// A resolved literal inside the intermediate representation.
#[derive(Debug, Clone)]
pub enum Value {
    Int(i64),
    Boolean(bool),
    Str(String),
    Ident(String),
}

/// A node of the typed intermediate representation the lowering stage
/// produces and the code generator consumes.
///
/// By the time code generation sees a tree, all type hints are concrete
/// type names and every intrinsic call uses a recognized name; a violation
/// is a defect of lowering, not a user error.
#[derive(Debug)]
pub enum IRKind {
    Define { public: bool, name: String, type_hint: String, value: Box<IRKind>, mutable: bool },
    Call { name: String, args: Vec<IRKind> },
    Intrinsic { name: String, args: Vec<IRKind> },
    Fun {
        public: bool,
        name: String,
        return_type_hint: String,
        args: Vec<(String, String)>,
        body: Box<IRKind>,
    },
    Return { value: Box<IRKind> },
    Do { body: Vec<IRKind> },
    If { cond: Box<IRKind>, body: Box<IRKind>, else_body: Box<IRKind> },
    Case { cond: Box<IRKind>, cases: Vec<(IRKind, IRKind)>, default: Box<IRKind> },
    Unary { op: String, right: Box<IRKind> },
    Binary { left: Box<IRKind>, op: String, right: Box<IRKind> },
    Value { value: Value },
    Vector { values: Vec<IRKind> },
}

/// A top-level intermediate-representation node with its source range.
#[derive(Debug)]
pub struct IR {
    pub kind: IRKind,
    pub span: Span,
}

/// The mathematical image of a resolved literal.
pub enum ValueS {
    Int(i64),
    Boolean(bool),
    Str(Seq<char>),
    Ident(Seq<char>),
}

/// The mathematical image of an intermediate-representation node.
pub enum IRKindS {
    Define { public: bool, name: Seq<char>, type_hint: Seq<char>, value: Box<IRKindS>, mutable: bool },
    Call { name: Seq<char>, args: Seq<IRKindS> },
    Intrinsic { name: Seq<char>, args: Seq<IRKindS> },
    Fun {
        public: bool,
        name: Seq<char>,
        return_type_hint: Seq<char>,
        args: Seq<(Seq<char>, Seq<char>)>,
        body: Box<IRKindS>,
    },
    Return { value: Box<IRKindS> },
    Do { body: Seq<IRKindS> },
    If { cond: Box<IRKindS>, body: Box<IRKindS>, else_body: Box<IRKindS> },
    Case { cond: Box<IRKindS>, cases: Seq<(IRKindS, IRKindS)>, default: Box<IRKindS> },
    Unary { op: Seq<char>, right: Box<IRKindS> },
    Binary { left: Box<IRKindS>, op: Seq<char>, right: Box<IRKindS> },
    Value { value: ValueS },
    Vector { values: Seq<IRKindS> },
}

pub open spec fn view_value(v: Value) -> ValueS {
    match v {
        Value::Int(i) => ValueS::Int(i),
        Value::Boolean(b) => ValueS::Boolean(b),
        Value::Str(s) => ValueS::Str(s@),
        Value::Ident(s) => ValueS::Ident(s@),
    }
}

pub open spec fn view_fargs(s: Seq<(String, String)>) -> Seq<(Seq<char>, Seq<char>)> {
    Seq::new(s.len(), |i: int| (s[i].0@, s[i].1@))
}

pub open spec fn view_ir(k: IRKind) -> IRKindS
    decreases k,
{
    match k {
        IRKind::Define { public, name, type_hint, value, mutable } => IRKindS::Define {
            public,
            name: name@,
            type_hint: type_hint@,
            value: Box::new(view_ir(*value)),
            mutable,
        },
        IRKind::Call { name, args } => IRKindS::Call { name: name@, args: view_ir_seq(args@) },
        IRKind::Intrinsic { name, args } => IRKindS::Intrinsic {
            name: name@,
            args: view_ir_seq(args@),
        },
        IRKind::Fun { public, name, return_type_hint, args, body } => IRKindS::Fun {
            public,
            name: name@,
            return_type_hint: return_type_hint@,
            args: view_fargs(args@),
            body: Box::new(view_ir(*body)),
        },
        IRKind::Return { value } => IRKindS::Return { value: Box::new(view_ir(*value)) },
        IRKind::Do { body } => IRKindS::Do { body: view_ir_seq(body@) },
        IRKind::If { cond, body, else_body } => IRKindS::If {
            cond: Box::new(view_ir(*cond)),
            body: Box::new(view_ir(*body)),
            else_body: Box::new(view_ir(*else_body)),
        },
        IRKind::Case { cond, cases, default } => IRKindS::Case {
            cond: Box::new(view_ir(*cond)),
            cases: view_case_seq(cases@),
            default: Box::new(view_ir(*default)),
        },
        IRKind::Unary { op, right } => IRKindS::Unary {
            op: op@,
            right: Box::new(view_ir(*right)),
        },
        IRKind::Binary { left, op, right } => IRKindS::Binary {
            left: Box::new(view_ir(*left)),
            op: op@,
            right: Box::new(view_ir(*right)),
        },
        IRKind::Value { value } => IRKindS::Value { value: view_value(value) },
        IRKind::Vector { values } => IRKindS::Vector { values: view_ir_seq(values@) },
    }
}

pub open spec fn view_ir_seq(s: Seq<IRKind>) -> Seq<IRKindS>
    decreases s,
{
    if s.len() == 0 {
        Seq::empty()
    } else {
        seq![view_ir(s[0])] + view_ir_seq(s.drop_first())
    }
}

pub open spec fn view_case_seq(s: Seq<(IRKind, IRKind)>) -> Seq<(IRKindS, IRKindS)>
    decreases s,
{
    if s.len() == 0 {
        Seq::empty()
    } else {
        seq![(view_ir(s[0].0), view_ir(s[0].1))] + view_case_seq(s.drop_first())
    }
}

/// The image of a sequence of nodes is taken element by element.
pub broadcast proof fn lemma_view_ir_seq(s: Seq<IRKind>)
    ensures
        #[trigger] view_ir_seq(s).len() == s.len(),
        forall|i: int| 0 <= i < s.len() ==> view_ir_seq(s)[i] == view_ir(s[i]),
    decreases s.len(),
{
    if s.len() > 0 {
        lemma_view_ir_seq(s.drop_first());
        assert forall|i: int| 0 <= i < s.len() implies view_ir_seq(s)[i] == view_ir(s[i]) by {
            if i > 0 {
                assert(view_ir_seq(s.drop_first())[i - 1] == view_ir(s.drop_first()[i - 1]));
            }
        }
    }
}

/// The image of a sequence of case arms is taken element by element.
pub broadcast proof fn lemma_view_case_seq(s: Seq<(IRKind, IRKind)>)
    ensures
        #[trigger] view_case_seq(s).len() == s.len(),
        forall|i: int|
            0 <= i < s.len() ==> view_case_seq(s)[i] == (view_ir(s[i].0), view_ir(s[i].1)),
    decreases s.len(),
{
    if s.len() > 0 {
        lemma_view_case_seq(s.drop_first());
        assert forall|i: int|
            0 <= i < s.len() implies view_case_seq(s)[i] == (view_ir(s[i].0), view_ir(
            s[i].1,
        )) by {
            if i > 0 {
                assert(view_case_seq(s.drop_first())[i - 1] == (view_ir(s.drop_first()[i - 1].0), view_ir(
                    s.drop_first()[i - 1].1,
                )));
            }
        }
    }
}

} // verus!
