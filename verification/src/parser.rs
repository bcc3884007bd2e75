use vstd::prelude::*;

use crate::ast::{Expr, ExprS, Param, ParamS, SpannedExpr, SpannedExprS};
use crate::ast::{view_spanned, view_spanned_seq, lemma_view_spanned_seq};
use crate::span::Span;
use crate::token::{STok, SpannedToken, Token, TokenS, op_text, view_tokens};

verus! {

/// A recoverable diagnostic: what the parser expected, what it found
/// (`None` at the end of the stream), and where.
#[derive(Debug, Clone)]
pub struct ParseError {
    pub expected: String,
    pub found: Option<Token>,
    pub span: Span,
}

/// The mathematical image of a diagnostic.
pub struct ParseErrorS {
    pub expected: Seq<char>,
    pub found: Option<TokenS>,
    pub span: Span,
}

impl View for ParseError {
    type V = ParseErrorS;

    open spec fn view(&self) -> ParseErrorS {
        ParseErrorS {
            expected: self.expected@,
            found: match &self.found {
                Some(t) => Some(t@),
                None => None,
            },
            span: self.span,
        }
    }
}

pub open spec fn view_errors(s: Seq<ParseError>) -> Seq<ParseErrorS> {
    Seq::new(s.len(), |i: int| s[i]@)
}

/// The diagnostic reported when parsing stalls at position `pos`.
pub open spec fn err_at(t: Seq<STok>, eoi: Span, pos: int, expected: Seq<char>) -> ParseErrorS {
    if 0 <= pos < t.len() {
        ParseErrorS { expected, found: Some(t[pos].token), span: t[pos].span }
    } else {
        ParseErrorS { expected, found: None, span: eoi }
    }
}

/// Outcome of one grammar rule: a node and the next position, or a diagnostic.
pub enum PRes {
    Parsed { e: SpannedExprS, next: int },
    Failed { err: ParseErrorS },
}

/// Outcome of an argument list.
pub enum ARes {
    Parsed { args: Seq<SpannedExprS>, next: int },
    Failed { err: ParseErrorS },
}

/// Outcome of a parameter list.
pub enum PaRes {
    Parsed { params: Seq<ParamS>, next: int },
    Failed { err: ParseErrorS },
}

/// Outcome of a whole program: best-effort items plus diagnostics.
pub struct ProgS {
    pub items: Seq<SpannedExprS>,
    pub errs: Seq<ParseErrorS>,
}

pub open spec fn is_atom_token(k: TokenS) -> bool {
    k is Int || k is Float || k is Boolean || k is Str || k is Identifier
}

pub open spec fn is_factor_op(k: TokenS) -> bool {
    k is Multiply || k is Divide
}

pub open spec fn is_term_op(k: TokenS) -> bool {
    k is Plus || k is Minus
}

pub open spec fn is_compare_op(k: TokenS) -> bool {
    k is Less || k is Greater || k is Equal || k is NotEqual
}

/// The leaf node a literal or identifier token turns into.
pub open spec fn atom_expr(k: TokenS) -> ExprS {
    match k {
        TokenS::Int(i) => ExprS::Int(i),
        TokenS::Float(s) => ExprS::Float(s),
        TokenS::Boolean(b) => ExprS::Boolean(b),
        TokenS::Str(s) => ExprS::Str(s),
        TokenS::Identifier(s) => ExprS::Identifier(s),
        _ => ExprS::Int(0),
    }
}

/// The text an identifier token carries.
pub open spec fn ident_text(k: TokenS) -> Seq<char> {
    match k {
        TokenS::Identifier(s) => s,
        _ => Seq::empty(),
    }
}

/// A left-associative binary fold: the node spans its operands.
pub open spec fn bin_node(lhs: SpannedExprS, op: Seq<char>, rhs: SpannedExprS) -> SpannedExprS {
    SpannedExprS {
        expr: ExprS::Binary { lhs: Box::new(lhs), op, rhs: Box::new(rhs) },
        span: Span { start: lhs.span.start, end: rhs.span.end },
    }
}

/// *atom*: a literal or an identifier reference.
pub open spec fn sp_atom(t: Seq<STok>, eoi: Span, pos: int) -> PRes {
    if 0 <= pos < t.len() && is_atom_token(t[pos].token) {
        PRes::Parsed {
            e: SpannedExprS { expr: atom_expr(t[pos].token), span: t[pos].span },
            next: pos + 1,
        }
    } else {
        PRes::Failed { err: err_at(t, eoi, pos, "atom"@) }
    }
}

/// *call*: an atom followed by zero or more parenthesized argument lists,
/// folded left so `f(a)(b)` becomes `Call{Call{f,[a]},[b]}`.
pub open spec fn sp_call(t: Seq<STok>, eoi: Span, pos: int) -> PRes
    decreases t.len() - pos, 2int,
{
    match sp_atom(t, eoi, pos) {
        PRes::Parsed { e, next } => {
            if pos < next <= t.len() {
                sp_call_rest(t, eoi, next, e)
            } else {
                PRes::Parsed { e, next }
            }
        },
        PRes::Failed { err } => PRes::Failed { err },
    }
}

pub open spec fn sp_call_rest(t: Seq<STok>, eoi: Span, pos: int, acc: SpannedExprS) -> PRes
    decreases t.len() - pos, 1int,
{
    if 0 <= pos < t.len() && t[pos].token is OpenParen {
        match sp_args(t, eoi, pos + 1) {
            ARes::Parsed { args, next } => {
                if pos < next <= t.len() {
                    let folded = SpannedExprS {
                        expr: ExprS::Call { name: Box::new(acc), args },
                        span: Span { start: acc.span.start, end: t[next - 1].span.end },
                    };
                    sp_call_rest(t, eoi, next, folded)
                } else {
                    PRes::Parsed { e: acc, next: pos }
                }
            },
            ARes::Failed { err } => PRes::Failed { err },
        }
    } else {
        PRes::Parsed { e: acc, next: pos }
    }
}

/// A comma-separated argument list with an optional trailing comma, ending
/// at its closing parenthesis.
pub open spec fn sp_args(t: Seq<STok>, eoi: Span, pos: int) -> ARes
    decreases t.len() - pos, 10int,
{
    if 0 <= pos < t.len() && t[pos].token is CloseParen {
        ARes::Parsed { args: Seq::empty(), next: pos + 1 }
    } else {
        match sp_expr(t, eoi, pos) {
            PRes::Parsed { e, next } => {
                if pos < next <= t.len() {
                    sp_args_rest(t, eoi, next, seq![e])
                } else {
                    ARes::Parsed { args: seq![e], next }
                }
            },
            PRes::Failed { err } => ARes::Failed { err },
        }
    }
}

pub open spec fn sp_args_rest(t: Seq<STok>, eoi: Span, pos: int, acc: Seq<SpannedExprS>) -> ARes
    decreases t.len() - pos, 1int,
{
    if 0 <= pos < t.len() && t[pos].token is Comma {
        if pos + 1 < t.len() && t[pos + 1].token is CloseParen {
            ARes::Parsed { args: acc, next: pos + 2 }
        } else {
            match sp_expr(t, eoi, pos + 1) {
                PRes::Parsed { e, next } => {
                    if pos < next <= t.len() {
                        sp_args_rest(t, eoi, next, acc.push(e))
                    } else {
                        ARes::Parsed { args: acc.push(e), next }
                    }
                },
                PRes::Failed { err } => ARes::Failed { err },
            }
        }
    } else if 0 <= pos < t.len() && t[pos].token is CloseParen {
        ARes::Parsed { args: acc, next: pos + 1 }
    } else {
        ARes::Failed { err: err_at(t, eoi, pos, ", or )"@) }
    }
}

/// *unary*: zero or more prefix `+`/`-` tokens folded right onto a call.
pub open spec fn sp_unary(t: Seq<STok>, eoi: Span, pos: int) -> PRes
    decreases t.len() - pos, 3int,
{
    if 0 <= pos < t.len() && is_term_op(t[pos].token) {
        match sp_unary(t, eoi, pos + 1) {
            PRes::Parsed { e, next } => PRes::Parsed {
                e: SpannedExprS {
                    expr: ExprS::Unary { op: op_text(t[pos].token), rhs: Box::new(e) },
                    span: Span { start: t[pos].span.start, end: e.span.end },
                },
                next,
            },
            PRes::Failed { err } => PRes::Failed { err },
        }
    } else {
        sp_call(t, eoi, pos)
    }
}

/// *factor*: unary expressions joined by `*`/`/`, left-associative.
pub open spec fn sp_factor(t: Seq<STok>, eoi: Span, pos: int) -> PRes
    decreases t.len() - pos, 4int,
{
    match sp_unary(t, eoi, pos) {
        PRes::Parsed { e, next } => {
            if pos < next <= t.len() {
                sp_factor_rest(t, eoi, next, e)
            } else {
                PRes::Parsed { e, next }
            }
        },
        PRes::Failed { err } => PRes::Failed { err },
    }
}

pub open spec fn sp_factor_rest(t: Seq<STok>, eoi: Span, pos: int, acc: SpannedExprS) -> PRes
    decreases t.len() - pos, 1int,
{
    if 0 <= pos < t.len() && is_factor_op(t[pos].token) {
        match sp_unary(t, eoi, pos + 1) {
            PRes::Parsed { e, next } => {
                if pos < next <= t.len() {
                    sp_factor_rest(t, eoi, next, bin_node(acc, op_text(t[pos].token), e))
                } else {
                    PRes::Parsed { e: acc, next: pos }
                }
            },
            PRes::Failed { err } => PRes::Failed { err },
        }
    } else {
        PRes::Parsed { e: acc, next: pos }
    }
}

/// *term*: factors joined by `+`/`-`, left-associative.
pub open spec fn sp_term(t: Seq<STok>, eoi: Span, pos: int) -> PRes
    decreases t.len() - pos, 5int,
{
    match sp_factor(t, eoi, pos) {
        PRes::Parsed { e, next } => {
            if pos < next <= t.len() {
                sp_term_rest(t, eoi, next, e)
            } else {
                PRes::Parsed { e, next }
            }
        },
        PRes::Failed { err } => PRes::Failed { err },
    }
}

pub open spec fn sp_term_rest(t: Seq<STok>, eoi: Span, pos: int, acc: SpannedExprS) -> PRes
    decreases t.len() - pos, 1int,
{
    if 0 <= pos < t.len() && is_term_op(t[pos].token) {
        match sp_factor(t, eoi, pos + 1) {
            PRes::Parsed { e, next } => {
                if pos < next <= t.len() {
                    sp_term_rest(t, eoi, next, bin_node(acc, op_text(t[pos].token), e))
                } else {
                    PRes::Parsed { e: acc, next: pos }
                }
            },
            PRes::Failed { err } => PRes::Failed { err },
        }
    } else {
        PRes::Parsed { e: acc, next: pos }
    }
}

/// *compare*: terms joined by `<`, `>`, `=`, `!=`, left-associative and
/// deliberately non-chaining: `a < b < c` folds to `(a < b) < c`.
pub open spec fn sp_compare(t: Seq<STok>, eoi: Span, pos: int) -> PRes
    decreases t.len() - pos, 6int,
{
    match sp_term(t, eoi, pos) {
        PRes::Parsed { e, next } => {
            if pos < next <= t.len() {
                sp_compare_rest(t, eoi, next, e)
            } else {
                PRes::Parsed { e, next }
            }
        },
        PRes::Failed { err } => PRes::Failed { err },
    }
}

pub open spec fn sp_compare_rest(t: Seq<STok>, eoi: Span, pos: int, acc: SpannedExprS) -> PRes
    decreases t.len() - pos, 1int,
{
    if 0 <= pos < t.len() && is_compare_op(t[pos].token) {
        match sp_term(t, eoi, pos + 1) {
            PRes::Parsed { e, next } => {
                if pos < next <= t.len() {
                    sp_compare_rest(t, eoi, next, bin_node(acc, op_text(t[pos].token), e))
                } else {
                    PRes::Parsed { e: acc, next: pos }
                }
            },
            PRes::Failed { err } => PRes::Failed { err },
        }
    } else {
        PRes::Parsed { e: acc, next: pos }
    }
}

/// *let*: `let` IDENT `:` IDENT `=` expr. The node's span runs from the
/// binding name to the end of the value.
pub open spec fn sp_let(t: Seq<STok>, eoi: Span, pos: int) -> PRes
    decreases t.len() - pos, 7int,
{
    if !(0 <= pos < t.len() && t[pos].token is KwLet) {
        PRes::Failed { err: err_at(t, eoi, pos, "let"@) }
    } else if !(pos + 1 < t.len() && t[pos + 1].token is Identifier) {
        PRes::Failed { err: err_at(t, eoi, pos + 1, "identifier"@) }
    } else if !(pos + 2 < t.len() && t[pos + 2].token is Colon) {
        PRes::Failed { err: err_at(t, eoi, pos + 2, ":"@) }
    } else if !(pos + 3 < t.len() && t[pos + 3].token is Identifier) {
        PRes::Failed { err: err_at(t, eoi, pos + 3, "identifier"@) }
    } else if !(pos + 4 < t.len() && t[pos + 4].token is Assign) {
        PRes::Failed { err: err_at(t, eoi, pos + 4, "="@) }
    } else {
        match sp_expr(t, eoi, pos + 5) {
            PRes::Parsed { e, next } => PRes::Parsed {
                e: SpannedExprS {
                    expr: ExprS::Let {
                        name: ident_text(t[pos + 1].token),
                        type_hint: ident_text(t[pos + 3].token),
                        value: Box::new(e),
                    },
                    span: Span { start: t[pos + 1].span.start, end: e.span.end },
                },
                next,
            },
            PRes::Failed { err } => PRes::Failed { err },
        }
    }
}

/// The parenthesized `(IDENT : IDENT)` parameter groups of a function head.
pub open spec fn sp_params(t: Seq<STok>, eoi: Span, pos: int, acc: Seq<ParamS>) -> PaRes
    decreases t.len() - pos,
{
    if 0 <= pos < t.len() && t[pos].token is OpenParen {
        if !(pos + 1 < t.len() && t[pos + 1].token is Identifier) {
            PaRes::Failed { err: err_at(t, eoi, pos + 1, "identifier"@) }
        } else if !(pos + 2 < t.len() && t[pos + 2].token is Colon) {
            PaRes::Failed { err: err_at(t, eoi, pos + 2, ":"@) }
        } else if !(pos + 3 < t.len() && t[pos + 3].token is Identifier) {
            PaRes::Failed { err: err_at(t, eoi, pos + 3, "identifier"@) }
        } else if !(pos + 4 < t.len() && t[pos + 4].token is CloseParen) {
            PaRes::Failed { err: err_at(t, eoi, pos + 4, ")"@) }
        } else {
            sp_params(
                t,
                eoi,
                pos + 5,
                acc.push(
                    ParamS {
                        name: ident_text(t[pos + 1].token),
                        type_hint: ident_text(t[pos + 3].token),
                    },
                ),
            )
        }
    } else {
        PaRes::Parsed { params: acc, next: pos }
    }
}

/// *fun*: `fun` IDENT (`(` IDENT `:` IDENT `)`)* `:` IDENT `=` expr.
/// The node's span runs from the function name to the end of the body.
pub open spec fn sp_fun(t: Seq<STok>, eoi: Span, pos: int) -> PRes
    decreases t.len() - pos, 7int,
{
    if !(0 <= pos < t.len() && t[pos].token is KwFun) {
        PRes::Failed { err: err_at(t, eoi, pos, "fun"@) }
    } else if !(pos + 1 < t.len() && t[pos + 1].token is Identifier) {
        PRes::Failed { err: err_at(t, eoi, pos + 1, "identifier"@) }
    } else {
        match sp_params(t, eoi, pos + 2, Seq::empty()) {
            PaRes::Parsed { params, next } => {
                if pos + 2 <= next <= t.len() {
                    if !(next < t.len() && t[next].token is Colon) {
                        PRes::Failed { err: err_at(t, eoi, next, ":"@) }
                    } else if !(next + 1 < t.len() && t[next + 1].token is Identifier) {
                        PRes::Failed { err: err_at(t, eoi, next + 1, "identifier"@) }
                    } else if !(next + 2 < t.len() && t[next + 2].token is Assign) {
                        PRes::Failed { err: err_at(t, eoi, next + 2, "="@) }
                    } else {
                        match sp_expr(t, eoi, next + 3) {
                            PRes::Parsed { e, next: fin } => PRes::Parsed {
                                e: SpannedExprS {
                                    expr: ExprS::Fun {
                                        name: ident_text(t[pos + 1].token),
                                        type_hint: ident_text(t[next + 1].token),
                                        args: params,
                                        body: Box::new(e),
                                    },
                                    span: Span { start: t[pos + 1].span.start, end: e.span.end },
                                },
                                next: fin,
                            },
                            PRes::Failed { err } => PRes::Failed { err },
                        }
                    }
                } else {
                    PRes::Failed { err: err_at(t, eoi, pos, "fun"@) }
                }
            },
            PaRes::Failed { err } => PRes::Failed { err },
        }
    }
}

/// *do-block*: `do` (expr `;`)* `end`; its span covers the whole block.
pub open spec fn sp_do(t: Seq<STok>, eoi: Span, pos: int) -> PRes
    decreases t.len() - pos, 7int,
{
    if 0 <= pos < t.len() && t[pos].token is KwDo {
        sp_do_rest(t, eoi, pos + 1, Seq::empty(), t[pos].span.start)
    } else {
        PRes::Failed { err: err_at(t, eoi, pos, "do"@) }
    }
}

pub open spec fn sp_do_rest(
    t: Seq<STok>,
    eoi: Span,
    pos: int,
    acc: Seq<SpannedExprS>,
    start: usize,
) -> PRes
    decreases t.len() - pos, 9int,
{
    if 0 <= pos < t.len() && t[pos].token is KwEnd {
        PRes::Parsed {
            e: SpannedExprS {
                expr: ExprS::Do { body: acc },
                span: Span { start, end: t[pos].span.end },
            },
            next: pos + 1,
        }
    } else {
        match sp_expr(t, eoi, pos) {
            PRes::Parsed { e, next } => {
                if next < t.len() && t[next].token is SemiColon {
                    if pos < next + 1 <= t.len() {
                        sp_do_rest(t, eoi, next + 1, acc.push(e), start)
                    } else {
                        PRes::Failed { err: err_at(t, eoi, next, ";"@) }
                    }
                } else {
                    PRes::Failed { err: err_at(t, eoi, next, ";"@) }
                }
            },
            PRes::Failed { err } => PRes::Failed { err },
        }
    }
}

/// A top-level expression: `let`, `fun` and `do` forms are told apart by
/// their leading keyword; everything else falls through to *compare*.
pub open spec fn sp_expr(t: Seq<STok>, eoi: Span, pos: int) -> PRes
    decreases t.len() - pos, 8int,
{
    if 0 <= pos < t.len() && t[pos].token is KwLet {
        sp_let(t, eoi, pos)
    } else if 0 <= pos < t.len() && t[pos].token is KwFun {
        sp_fun(t, eoi, pos)
    } else if 0 <= pos < t.len() && t[pos].token is KwDo {
        sp_do(t, eoi, pos)
    } else {
        sp_compare(t, eoi, pos)
    }
}

/// The position just past the next statement separator, where parsing
/// resumes after a malformed item; the end of the stream if none is left.
pub open spec fn sp_sync(t: Seq<STok>, pos: int) -> int
    decreases t.len() - pos,
{
    if 0 <= pos < t.len() {
        if t[pos].token is SemiColon {
            pos + 1
        } else {
            sp_sync(t, pos + 1)
        }
    } else {
        t.len() as int
    }
}

/// A whole program: semicolon-terminated top-level items until the stream
/// is exhausted. A failed item contributes a diagnostic and parsing resumes
/// past the next separator; an item missing its separator is kept and also
/// reported.
pub open spec fn sp_items(t: Seq<STok>, eoi: Span, pos: int) -> ProgS
    decreases t.len() - pos,
{
    if !(0 <= pos < t.len()) {
        ProgS { items: Seq::empty(), errs: Seq::empty() }
    } else {
        match sp_expr(t, eoi, pos) {
            PRes::Parsed { e, next } => {
                if next < t.len() && t[next].token is SemiColon {
                    if pos < next + 1 <= t.len() {
                        let r = sp_items(t, eoi, next + 1);
                        ProgS { items: seq![e] + r.items, errs: r.errs }
                    } else {
                        ProgS { items: seq![e], errs: Seq::empty() }
                    }
                } else {
                    let q = sp_sync(t, next);
                    if pos < q <= t.len() {
                        let r = sp_items(t, eoi, q);
                        ProgS {
                            items: seq![e] + r.items,
                            errs: seq![err_at(t, eoi, next, ";"@)] + r.errs,
                        }
                    } else {
                        ProgS { items: seq![e], errs: seq![err_at(t, eoi, next, ";"@)] }
                    }
                }
            },
            PRes::Failed { err } => {
                let q = sp_sync(t, pos);
                if pos < q <= t.len() {
                    let r = sp_items(t, eoi, q);
                    ProgS { items: r.items, errs: seq![err] + r.errs }
                } else {
                    ProgS { items: Seq::empty(), errs: seq![err] }
                }
            },
        }
    }
}


/// The image of one rule outcome, for stating exec/spec correspondence.
pub open spec fn exec_pres(r: Result<(SpannedExpr, usize), ParseError>) -> PRes {
    match r {
        Ok((e, next)) => PRes::Parsed { e: view_spanned(e), next: next as int },
        Err(err) => PRes::Failed { err: err@ },
    }
}

/// The image of an argument-list outcome.
pub open spec fn exec_ares(r: Result<(Vec<SpannedExpr>, usize), ParseError>) -> ARes {
    match r {
        Ok((args, next)) => ARes::Parsed { args: view_spanned_seq(args@), next: next as int },
        Err(err) => ARes::Failed { err: err@ },
    }
}

/// The image of a parameter-list outcome.
pub open spec fn exec_pares(r: Result<(Vec<Param>, usize), ParseError>) -> PaRes {
    match r {
        Ok((params, next)) => PaRes::Parsed {
            params: crate::ast::view_params(params@),
            next: next as int,
        },
        Err(err) => PaRes::Failed { err: err@ },
    }
}

fn is_open_paren(t: &Token) -> (b: bool)
    ensures
        b == (t@ is OpenParen),
{
    matches!(t, Token::OpenParen)
}

fn is_close_paren(t: &Token) -> (b: bool)
    ensures
        b == (t@ is CloseParen),
{
    matches!(t, Token::CloseParen)
}

fn is_comma(t: &Token) -> (b: bool)
    ensures
        b == (t@ is Comma),
{
    matches!(t, Token::Comma)
}

fn is_colon(t: &Token) -> (b: bool)
    ensures
        b == (t@ is Colon),
{
    matches!(t, Token::Colon)
}

fn is_semicolon(t: &Token) -> (b: bool)
    ensures
        b == (t@ is SemiColon),
{
    matches!(t, Token::SemiColon)
}

fn is_assign(t: &Token) -> (b: bool)
    ensures
        b == (t@ is Assign),
{
    matches!(t, Token::Assign)
}

fn is_kw_let(t: &Token) -> (b: bool)
    ensures
        b == (t@ is KwLet),
{
    matches!(t, Token::KwLet)
}

fn is_kw_fun(t: &Token) -> (b: bool)
    ensures
        b == (t@ is KwFun),
{
    matches!(t, Token::KwFun)
}

fn is_kw_do(t: &Token) -> (b: bool)
    ensures
        b == (t@ is KwDo),
{
    matches!(t, Token::KwDo)
}

fn is_kw_end(t: &Token) -> (b: bool)
    ensures
        b == (t@ is KwEnd),
{
    matches!(t, Token::KwEnd)
}

fn is_identifier(t: &Token) -> (b: bool)
    ensures
        b == (t@ is Identifier),
{
    matches!(t, Token::Identifier(_))
}

fn exec_is_term_op(t: &Token) -> (b: bool)
    ensures
        b == is_term_op(t@),
{
    matches!(t, Token::Plus | Token::Minus)
}

fn exec_is_factor_op(t: &Token) -> (b: bool)
    ensures
        b == is_factor_op(t@),
{
    matches!(t, Token::Multiply | Token::Divide)
}

fn exec_is_compare_op(t: &Token) -> (b: bool)
    ensures
        b == is_compare_op(t@),
{
    matches!(t, Token::Less | Token::Greater | Token::Equal | Token::NotEqual)
}

/// A structural copy of a token whose image equals the original's.
fn dup_token(t: &Token) -> (r: Token)
    ensures
        r@ == t@,
{
    match t {
        Token::Int(i) => Token::Int(*i),
        Token::Float(s) => Token::Float(s.clone()),
        Token::Boolean(b) => Token::Boolean(*b),
        Token::Str(s) => Token::Str(s.clone()),
        Token::Identifier(s) => Token::Identifier(s.clone()),
        Token::KwLet => Token::KwLet,
        Token::KwFun => Token::KwFun,
        Token::KwDo => Token::KwDo,
        Token::KwEnd => Token::KwEnd,
        Token::OpenParen => Token::OpenParen,
        Token::CloseParen => Token::CloseParen,
        Token::Comma => Token::Comma,
        Token::Colon => Token::Colon,
        Token::SemiColon => Token::SemiColon,
        Token::Assign => Token::Assign,
        Token::Plus => Token::Plus,
        Token::Minus => Token::Minus,
        Token::Multiply => Token::Multiply,
        Token::Divide => Token::Divide,
        Token::Less => Token::Less,
        Token::Greater => Token::Greater,
        Token::Equal => Token::Equal,
        Token::NotEqual => Token::NotEqual,
    }
}

/// The text of an identifier token.
fn ident_string(t: &Token) -> (r: String)
    requires
        t@ is Identifier,
    ensures
        r@ == ident_text(t@),
{
    match t {
        Token::Identifier(s) => s.clone(),
        _ => {
            assert(false);
            String::new()
        },
    }
}

fn mk_err(tokens: &Vec<SpannedToken>, eoi: Span, pos: usize, expected: &str) -> (r: ParseError)
    ensures
        r@ == err_at(view_tokens(tokens@), eoi, pos as int, expected@),
{
    if pos < tokens.len() {
        let tk = &tokens[pos];
        ParseError { expected: String::from_str(expected), found: Some(dup_token(&tk.token)), span: tk.span }
    } else {
        ParseError { expected: String::from_str(expected), found: None, span: eoi }
    }
}

fn p_atom(tokens: &Vec<SpannedToken>, eoi: Span, pos: usize) -> (r: Result<
    (SpannedExpr, usize),
    ParseError,
>)
    requires
        pos <= tokens.len(),
    ensures
        exec_pres(r) == sp_atom(view_tokens(tokens@), eoi, pos as int),
        match r {
            Ok((e, next)) => pos < next <= tokens.len(),
            Err(_) => true,
        },
{
    if pos < tokens.len() {
        let tk = &tokens[pos];
        match &tk.token {
            Token::Int(i) => Ok((SpannedExpr { expr: Expr::Int(*i), span: tk.span }, pos + 1)),
            Token::Float(s) => Ok(
                (SpannedExpr { expr: Expr::Float(s.clone()), span: tk.span }, pos + 1),
            ),
            Token::Boolean(b) => Ok(
                (SpannedExpr { expr: Expr::Boolean(*b), span: tk.span }, pos + 1),
            ),
            Token::Str(s) => Ok((SpannedExpr { expr: Expr::Str(s.clone()), span: tk.span }, pos + 1)),
            Token::Identifier(s) => Ok(
                (SpannedExpr { expr: Expr::Identifier(s.clone()), span: tk.span }, pos + 1),
            ),
            _ => Err(mk_err(tokens, eoi, pos, "atom")),
        }
    } else {
        Err(mk_err(tokens, eoi, pos, "atom"))
    }
}

fn p_call(tokens: &Vec<SpannedToken>, eoi: Span, pos: usize) -> (r: Result<
    (SpannedExpr, usize),
    ParseError,
>)
    requires
        pos <= tokens.len(),
    ensures
        exec_pres(r) == sp_call(view_tokens(tokens@), eoi, pos as int),
        match r {
            Ok((e, next)) => pos < next <= tokens.len(),
            Err(_) => true,
        },
    decreases tokens.len() - pos, 2int,
{
    match p_atom(tokens, eoi, pos) {
        Ok((e, next)) => p_call_rest(tokens, eoi, next, e),
        Err(err) => Err(err),
    }
}

fn p_call_rest(tokens: &Vec<SpannedToken>, eoi: Span, pos: usize, acc: SpannedExpr) -> (r: Result<
    (SpannedExpr, usize),
    ParseError,
>)
    requires
        pos <= tokens.len(),
    ensures
        exec_pres(r) == sp_call_rest(view_tokens(tokens@), eoi, pos as int, view_spanned(acc)),
        match r {
            Ok((e, next)) => pos <= next <= tokens.len(),
            Err(_) => true,
        },
    decreases tokens.len() - pos, 1int,
{
    if pos < tokens.len() && is_open_paren(&tokens[pos].token) {
        match p_args(tokens, eoi, pos + 1) {
            Ok((args, next)) => {
                let start = acc.span.start;
                let end = tokens[next - 1].span.end;
                let folded = SpannedExpr {
                    expr: Expr::Call { name: Box::new(acc), args },
                    span: Span { start, end },
                };
                p_call_rest(tokens, eoi, next, folded)
            },
            Err(err) => Err(err),
        }
    } else {
        Ok((acc, pos))
    }
}

fn p_args(tokens: &Vec<SpannedToken>, eoi: Span, pos: usize) -> (r: Result<
    (Vec<SpannedExpr>, usize),
    ParseError,
>)
    requires
        pos <= tokens.len(),
    ensures
        exec_ares(r) == sp_args(view_tokens(tokens@), eoi, pos as int),
        match r {
            Ok((args, next)) => pos < next <= tokens.len(),
            Err(_) => true,
        },
    decreases tokens.len() - pos, 10int,
{
    if pos < tokens.len() && is_close_paren(&tokens[pos].token) {
        let args: Vec<SpannedExpr> = Vec::new();
        proof {
            assert(view_spanned_seq(args@) =~= Seq::<SpannedExprS>::empty());
        }
        Ok((args, pos + 1))
    } else {
        match p_expr(tokens, eoi, pos) {
            Ok((e, next)) => {
                let ghost ve = view_spanned(e);
                let mut args: Vec<SpannedExpr> = Vec::new();
                args.push(e);
                proof {
                    lemma_view_spanned_seq(args@);
                    assert(view_spanned_seq(args@) =~= seq![ve]);
                }
                p_args_rest(tokens, eoi, next, args)
            },
            Err(err) => Err(err),
        }
    }
}

fn p_args_rest(tokens: &Vec<SpannedToken>, eoi: Span, pos: usize, acc: Vec<SpannedExpr>) -> (r:
    Result<(Vec<SpannedExpr>, usize), ParseError>)
    requires
        pos <= tokens.len(),
    ensures
        exec_ares(r) == sp_args_rest(view_tokens(tokens@), eoi, pos as int, view_spanned_seq(acc@)),
        match r {
            Ok((args, next)) => pos < next <= tokens.len(),
            Err(_) => true,
        },
    decreases tokens.len() - pos, 1int,
{
    if pos < tokens.len() && is_comma(&tokens[pos].token) {
        if pos + 1 < tokens.len() && is_close_paren(&tokens[pos + 1].token) {
            Ok((acc, pos + 2))
        } else {
            match p_expr(tokens, eoi, pos + 1) {
                Ok((e, next)) => {
                    let ghost acc0 = acc@;
                    let ghost ve = view_spanned(e);
                    let mut acc = acc;
                    acc.push(e);
                    proof {
                        lemma_view_spanned_seq(acc0);
                        lemma_view_spanned_seq(acc@);
                        assert(view_spanned_seq(acc@) =~= view_spanned_seq(acc0).push(ve));
                    }
                    p_args_rest(tokens, eoi, next, acc)
                },
                Err(err) => Err(err),
            }
        }
    } else if pos < tokens.len() && is_close_paren(&tokens[pos].token) {
        Ok((acc, pos + 1))
    } else {
        Err(mk_err(tokens, eoi, pos, ", or )"))
    }
}

fn p_unary(tokens: &Vec<SpannedToken>, eoi: Span, pos: usize) -> (r: Result<
    (SpannedExpr, usize),
    ParseError,
>)
    requires
        pos <= tokens.len(),
    ensures
        exec_pres(r) == sp_unary(view_tokens(tokens@), eoi, pos as int),
        match r {
            Ok((e, next)) => pos < next <= tokens.len(),
            Err(_) => true,
        },
    decreases tokens.len() - pos, 3int,
{
    if pos < tokens.len() && exec_is_term_op(&tokens[pos].token) {
        match p_unary(tokens, eoi, pos + 1) {
            Ok((e, next)) => {
                let start = tokens[pos].span.start;
                let end = e.span.end;
                let op = tokens[pos].token.op_string();
                Ok(
                    (
                        SpannedExpr {
                            expr: Expr::Unary { op, rhs: Box::new(e) },
                            span: Span { start, end },
                        },
                        next,
                    ),
                )
            },
            Err(err) => Err(err),
        }
    } else {
        p_call(tokens, eoi, pos)
    }
}

fn p_factor(tokens: &Vec<SpannedToken>, eoi: Span, pos: usize) -> (r: Result<
    (SpannedExpr, usize),
    ParseError,
>)
    requires
        pos <= tokens.len(),
    ensures
        exec_pres(r) == sp_factor(view_tokens(tokens@), eoi, pos as int),
        match r {
            Ok((e, next)) => pos < next <= tokens.len(),
            Err(_) => true,
        },
    decreases tokens.len() - pos, 4int,
{
    match p_unary(tokens, eoi, pos) {
        Ok((e, next)) => p_factor_rest(tokens, eoi, next, e),
        Err(err) => Err(err),
    }
}

fn p_factor_rest(tokens: &Vec<SpannedToken>, eoi: Span, pos: usize, acc: SpannedExpr) -> (r: Result<
    (SpannedExpr, usize),
    ParseError,
>)
    requires
        pos <= tokens.len(),
    ensures
        exec_pres(r) == sp_factor_rest(view_tokens(tokens@), eoi, pos as int, view_spanned(acc)),
        match r {
            Ok((e, next)) => pos <= next <= tokens.len(),
            Err(_) => true,
        },
    decreases tokens.len() - pos, 1int,
{
    if pos < tokens.len() && exec_is_factor_op(&tokens[pos].token) {
        match p_unary(tokens, eoi, pos + 1) {
            Ok((e, next)) => {
                let op = tokens[pos].token.op_string();
                let start = acc.span.start;
                let end = e.span.end;
                let folded = SpannedExpr {
                    expr: Expr::Binary { lhs: Box::new(acc), op, rhs: Box::new(e) },
                    span: Span { start, end },
                };
                p_factor_rest(tokens, eoi, next, folded)
            },
            Err(err) => Err(err),
        }
    } else {
        Ok((acc, pos))
    }
}

fn p_term(tokens: &Vec<SpannedToken>, eoi: Span, pos: usize) -> (r: Result<
    (SpannedExpr, usize),
    ParseError,
>)
    requires
        pos <= tokens.len(),
    ensures
        exec_pres(r) == sp_term(view_tokens(tokens@), eoi, pos as int),
        match r {
            Ok((e, next)) => pos < next <= tokens.len(),
            Err(_) => true,
        },
    decreases tokens.len() - pos, 5int,
{
    match p_factor(tokens, eoi, pos) {
        Ok((e, next)) => p_term_rest(tokens, eoi, next, e),
        Err(err) => Err(err),
    }
}

fn p_term_rest(tokens: &Vec<SpannedToken>, eoi: Span, pos: usize, acc: SpannedExpr) -> (r: Result<
    (SpannedExpr, usize),
    ParseError,
>)
    requires
        pos <= tokens.len(),
    ensures
        exec_pres(r) == sp_term_rest(view_tokens(tokens@), eoi, pos as int, view_spanned(acc)),
        match r {
            Ok((e, next)) => pos <= next <= tokens.len(),
            Err(_) => true,
        },
    decreases tokens.len() - pos, 1int,
{
    if pos < tokens.len() && exec_is_term_op(&tokens[pos].token) {
        match p_factor(tokens, eoi, pos + 1) {
            Ok((e, next)) => {
                let op = tokens[pos].token.op_string();
                let start = acc.span.start;
                let end = e.span.end;
                let folded = SpannedExpr {
                    expr: Expr::Binary { lhs: Box::new(acc), op, rhs: Box::new(e) },
                    span: Span { start, end },
                };
                p_term_rest(tokens, eoi, next, folded)
            },
            Err(err) => Err(err),
        }
    } else {
        Ok((acc, pos))
    }
}

fn p_compare(tokens: &Vec<SpannedToken>, eoi: Span, pos: usize) -> (r: Result<
    (SpannedExpr, usize),
    ParseError,
>)
    requires
        pos <= tokens.len(),
    ensures
        exec_pres(r) == sp_compare(view_tokens(tokens@), eoi, pos as int),
        match r {
            Ok((e, next)) => pos < next <= tokens.len(),
            Err(_) => true,
        },
    decreases tokens.len() - pos, 6int,
{
    match p_term(tokens, eoi, pos) {
        Ok((e, next)) => p_compare_rest(tokens, eoi, next, e),
        Err(err) => Err(err),
    }
}

fn p_compare_rest(tokens: &Vec<SpannedToken>, eoi: Span, pos: usize, acc: SpannedExpr) -> (r:
    Result<(SpannedExpr, usize), ParseError>)
    requires
        pos <= tokens.len(),
    ensures
        exec_pres(r) == sp_compare_rest(view_tokens(tokens@), eoi, pos as int, view_spanned(acc)),
        match r {
            Ok((e, next)) => pos <= next <= tokens.len(),
            Err(_) => true,
        },
    decreases tokens.len() - pos, 1int,
{
    if pos < tokens.len() && exec_is_compare_op(&tokens[pos].token) {
        match p_term(tokens, eoi, pos + 1) {
            Ok((e, next)) => {
                let op = tokens[pos].token.op_string();
                let start = acc.span.start;
                let end = e.span.end;
                let folded = SpannedExpr {
                    expr: Expr::Binary { lhs: Box::new(acc), op, rhs: Box::new(e) },
                    span: Span { start, end },
                };
                p_compare_rest(tokens, eoi, next, folded)
            },
            Err(err) => Err(err),
        }
    } else {
        Ok((acc, pos))
    }
}

fn p_let(tokens: &Vec<SpannedToken>, eoi: Span, pos: usize) -> (r: Result<
    (SpannedExpr, usize),
    ParseError,
>)
    requires
        pos <= tokens.len(),
    ensures
        exec_pres(r) == sp_let(view_tokens(tokens@), eoi, pos as int),
        match r {
            Ok((e, next)) => pos < next <= tokens.len(),
            Err(_) => true,
        },
    decreases tokens.len() - pos, 7int,
{
    if !(pos < tokens.len() && is_kw_let(&tokens[pos].token)) {
        return Err(mk_err(tokens, eoi, pos, "let"));
    }
    if !(pos + 1 < tokens.len() && is_identifier(&tokens[pos + 1].token)) {
        return Err(mk_err(tokens, eoi, pos + 1, "identifier"));
    }
    if !(pos + 2 < tokens.len() && is_colon(&tokens[pos + 2].token)) {
        return Err(mk_err(tokens, eoi, pos + 2, ":"));
    }
    if !(pos + 3 < tokens.len() && is_identifier(&tokens[pos + 3].token)) {
        return Err(mk_err(tokens, eoi, pos + 3, "identifier"));
    }
    if !(pos + 4 < tokens.len() && is_assign(&tokens[pos + 4].token)) {
        return Err(mk_err(tokens, eoi, pos + 4, "="));
    }
    match p_expr(tokens, eoi, pos + 5) {
        Ok((e, next)) => {
            let name = ident_string(&tokens[pos + 1].token);
            let type_hint = ident_string(&tokens[pos + 3].token);
            let start = tokens[pos + 1].span.start;
            let end = e.span.end;
            Ok(
                (
                    SpannedExpr {
                        expr: Expr::Let { name, type_hint, value: Box::new(e) },
                        span: Span { start, end },
                    },
                    next,
                ),
            )
        },
        Err(err) => Err(err),
    }
}

fn p_params(tokens: &Vec<SpannedToken>, eoi: Span, pos: usize, acc: Vec<Param>) -> (r: Result<
    (Vec<Param>, usize),
    ParseError,
>)
    requires
        pos <= tokens.len(),
    ensures
        exec_pares(r) == sp_params(view_tokens(tokens@), eoi, pos as int, crate::ast::view_params(acc@)),
        match r {
            Ok((params, next)) => pos <= next <= tokens.len(),
            Err(_) => true,
        },
    decreases tokens.len() - pos,
{
    if pos < tokens.len() && is_open_paren(&tokens[pos].token) {
        if !(pos + 1 < tokens.len() && is_identifier(&tokens[pos + 1].token)) {
            return Err(mk_err(tokens, eoi, pos + 1, "identifier"));
        }
        if !(pos + 2 < tokens.len() && is_colon(&tokens[pos + 2].token)) {
            return Err(mk_err(tokens, eoi, pos + 2, ":"));
        }
        if !(pos + 3 < tokens.len() && is_identifier(&tokens[pos + 3].token)) {
            return Err(mk_err(tokens, eoi, pos + 3, "identifier"));
        }
        if !(pos + 4 < tokens.len() && is_close_paren(&tokens[pos + 4].token)) {
            return Err(mk_err(tokens, eoi, pos + 4, ")"));
        }
        let ghost acc0 = acc@;
        let name = ident_string(&tokens[pos + 1].token);
        let type_hint = ident_string(&tokens[pos + 3].token);
        let mut acc = acc;
        acc.push(Param { name, type_hint });
        proof {
            assert(crate::ast::view_params(acc@) =~= crate::ast::view_params(acc0).push(
                ParamS {
                    name: ident_text(view_tokens(tokens@)[pos + 1].token),
                    type_hint: ident_text(view_tokens(tokens@)[pos + 3].token),
                },
            ));
        }
        p_params(tokens, eoi, pos + 5, acc)
    } else {
        Ok((acc, pos))
    }
}

fn p_fun(tokens: &Vec<SpannedToken>, eoi: Span, pos: usize) -> (r: Result<
    (SpannedExpr, usize),
    ParseError,
>)
    requires
        pos <= tokens.len(),
    ensures
        exec_pres(r) == sp_fun(view_tokens(tokens@), eoi, pos as int),
        match r {
            Ok((e, next)) => pos < next <= tokens.len(),
            Err(_) => true,
        },
    decreases tokens.len() - pos, 7int,
{
    if !(pos < tokens.len() && is_kw_fun(&tokens[pos].token)) {
        return Err(mk_err(tokens, eoi, pos, "fun"));
    }
    if !(pos + 1 < tokens.len() && is_identifier(&tokens[pos + 1].token)) {
        return Err(mk_err(tokens, eoi, pos + 1, "identifier"));
    }
    let empty: Vec<Param> = Vec::new();
    proof {
        assert(crate::ast::view_params(empty@) =~= Seq::<ParamS>::empty());
    }
    match p_params(tokens, eoi, pos + 2, empty) {
        Ok((params, next)) => {
            if !(next < tokens.len() && is_colon(&tokens[next].token)) {
                return Err(mk_err(tokens, eoi, next, ":"));
            }
            if !(next + 1 < tokens.len() && is_identifier(&tokens[next + 1].token)) {
                return Err(mk_err(tokens, eoi, next + 1, "identifier"));
            }
            if !(next + 2 < tokens.len() && is_assign(&tokens[next + 2].token)) {
                return Err(mk_err(tokens, eoi, next + 2, "="));
            }
            match p_expr(tokens, eoi, next + 3) {
                Ok((e, fin)) => {
                    let name = ident_string(&tokens[pos + 1].token);
                    let type_hint = ident_string(&tokens[next + 1].token);
                    let start = tokens[pos + 1].span.start;
                    let end = e.span.end;
                    Ok(
                        (
                            SpannedExpr {
                                expr: Expr::Fun { name, type_hint, args: params, body: Box::new(e) },
                                span: Span { start, end },
                            },
                            fin,
                        ),
                    )
                },
                Err(err) => Err(err),
            }
        },
        Err(err) => Err(err),
    }
}

fn p_do(tokens: &Vec<SpannedToken>, eoi: Span, pos: usize) -> (r: Result<
    (SpannedExpr, usize),
    ParseError,
>)
    requires
        pos <= tokens.len(),
    ensures
        exec_pres(r) == sp_do(view_tokens(tokens@), eoi, pos as int),
        match r {
            Ok((e, next)) => pos < next <= tokens.len(),
            Err(_) => true,
        },
    decreases tokens.len() - pos, 7int,
{
    if pos < tokens.len() && is_kw_do(&tokens[pos].token) {
        let body: Vec<SpannedExpr> = Vec::new();
        proof {
            assert(view_spanned_seq(body@) =~= Seq::<SpannedExprS>::empty());
        }
        p_do_rest(tokens, eoi, pos + 1, body, tokens[pos].span.start)
    } else {
        Err(mk_err(tokens, eoi, pos, "do"))
    }
}

fn p_do_rest(
    tokens: &Vec<SpannedToken>,
    eoi: Span,
    pos: usize,
    acc: Vec<SpannedExpr>,
    start: usize,
) -> (r: Result<(SpannedExpr, usize), ParseError>)
    requires
        pos <= tokens.len(),
    ensures
        exec_pres(r) == sp_do_rest(
            view_tokens(tokens@),
            eoi,
            pos as int,
            view_spanned_seq(acc@),
            start,
        ),
        match r {
            Ok((e, next)) => pos < next <= tokens.len(),
            Err(_) => true,
        },
    decreases tokens.len() - pos, 9int,
{
    if pos < tokens.len() && is_kw_end(&tokens[pos].token) {
        let end = tokens[pos].span.end;
        Ok((SpannedExpr { expr: Expr::Do { body: acc }, span: Span { start, end } }, pos + 1))
    } else {
        match p_expr(tokens, eoi, pos) {
            Ok((e, next)) => {
                if next < tokens.len() && is_semicolon(&tokens[next].token) {
                    let ghost acc0 = acc@;
                    let ghost ve = view_spanned(e);
                    let mut acc = acc;
                    acc.push(e);
                    proof {
                        lemma_view_spanned_seq(acc0);
                        lemma_view_spanned_seq(acc@);
                        assert(view_spanned_seq(acc@) =~= view_spanned_seq(acc0).push(ve));
                    }
                    p_do_rest(tokens, eoi, next + 1, acc, start)
                } else {
                    Err(mk_err(tokens, eoi, next, ";"))
                }
            },
            Err(err) => Err(err),
        }
    }
}

fn p_expr(tokens: &Vec<SpannedToken>, eoi: Span, pos: usize) -> (r: Result<
    (SpannedExpr, usize),
    ParseError,
>)
    requires
        pos <= tokens.len(),
    ensures
        exec_pres(r) == sp_expr(view_tokens(tokens@), eoi, pos as int),
        match r {
            Ok((e, next)) => pos < next <= tokens.len(),
            Err(_) => true,
        },
    decreases tokens.len() - pos, 8int,
{
    if pos < tokens.len() && is_kw_let(&tokens[pos].token) {
        p_let(tokens, eoi, pos)
    } else if pos < tokens.len() && is_kw_fun(&tokens[pos].token) {
        p_fun(tokens, eoi, pos)
    } else if pos < tokens.len() && is_kw_do(&tokens[pos].token) {
        p_do(tokens, eoi, pos)
    } else {
        p_compare(tokens, eoi, pos)
    }
}

fn p_sync(tokens: &Vec<SpannedToken>, pos: usize) -> (r: usize)
    requires
        pos <= tokens.len(),
    ensures
        r == sp_sync(view_tokens(tokens@), pos as int),
        pos <= r <= tokens.len(),
        pos < tokens.len() ==> pos < r,
{
    let mut i: usize = pos;
    while i < tokens.len()
        invariant
            pos <= i <= tokens.len(),
            sp_sync(view_tokens(tokens@), pos as int) == sp_sync(view_tokens(tokens@), i as int),
        decreases tokens.len() - i,
    {
        if is_semicolon(&tokens[i].token) {
            return i + 1;
        }
        i = i + 1;
    }
    i
}

/// Parses a whole token stream into a best-effort program plus diagnostics.
///
/// `len` is the total input length in bytes; diagnostics at the end of the
/// stream point at the empty range `len..len`. The returned program is
/// always present (recovery assembles a possibly empty item list); a
/// non-empty diagnostic list still comes with every well-formed item that
/// could be assembled, and an empty diagnostic list does not by itself make
/// the program meaningful to later stages.
pub fn parse(tokens: Vec<SpannedToken>, len: usize) -> (r: (
    Option<Vec<SpannedExpr>>,
    Vec<ParseError>,
))
    ensures
        ({
            let p = sp_items(view_tokens(tokens@), Span { start: len, end: len }, 0);
            &&& match r.0 {
                Some(items) => view_spanned_seq(items@) == p.items,
                None => false,
            }
            &&& view_errors(r.1@) == p.errs
        }),
{
    let eoi = Span { start: len, end: len };
    let ghost t = view_tokens(tokens@);
    let mut items: Vec<SpannedExpr> = Vec::new();
    let mut errs: Vec<ParseError> = Vec::new();
    let mut pos: usize = 0;
    proof {
        assert(view_spanned_seq(items@) =~= Seq::<SpannedExprS>::empty());
        assert(view_errors(errs@) =~= Seq::<ParseErrorS>::empty());
    }
    while pos < tokens.len()
        invariant
            pos <= tokens.len(),
            t == view_tokens(tokens@),
            eoi == (Span { start: len, end: len }),
            sp_items(t, eoi, 0).items == view_spanned_seq(items@) + sp_items(t, eoi, pos as int).items,
            sp_items(t, eoi, 0).errs == view_errors(errs@) + sp_items(t, eoi, pos as int).errs,
        decreases tokens.len() - pos,
    {
        let ghost items0 = items@;
        let ghost errs0 = errs@;
        let ghost pos0 = pos as int;
        match p_expr(&tokens, eoi, pos) {
            Ok((e, next)) => {
                let ghost ve = view_spanned(e);
                if next < tokens.len() && is_semicolon(&tokens[next].token) {
                    items.push(e);
                    pos = next + 1;
                    proof {
                        lemma_view_spanned_seq(items0);
                        lemma_view_spanned_seq(items@);
                        assert(view_spanned_seq(items@) =~= view_spanned_seq(items0).push(ve));
                        let rest = sp_items(t, eoi, pos as int);
                        assert(sp_items(t, eoi, pos0).items =~= seq![ve] + rest.items);
                        assert(sp_items(t, eoi, 0).items =~= view_spanned_seq(items@) + rest.items);
                        assert(sp_items(t, eoi, 0).errs =~= view_errors(errs@) + rest.errs);
                    }
                } else {
                    let err = mk_err(&tokens, eoi, next, ";");
                    let ghost verr = err@;
                    errs.push(err);
                    items.push(e);
                    pos = p_sync(&tokens, next);
                    proof {
                        lemma_view_spanned_seq(items0);
                        lemma_view_spanned_seq(items@);
                        assert(view_spanned_seq(items@) =~= view_spanned_seq(items0).push(ve));
                        assert(view_errors(errs@) =~= view_errors(errs0).push(verr));
                        let rest = sp_items(t, eoi, pos as int);
                        assert(sp_items(t, eoi, pos0).items =~= seq![ve] + rest.items);
                        assert(sp_items(t, eoi, pos0).errs =~= seq![verr] + rest.errs);
                        assert(sp_items(t, eoi, 0).items =~= view_spanned_seq(items@) + rest.items);
                        assert(sp_items(t, eoi, 0).errs =~= view_errors(errs@) + rest.errs);
                    }
                }
            },
            Err(err) => {
                let ghost verr = err@;
                errs.push(err);
                pos = p_sync(&tokens, pos);
                proof {
                    assert(view_errors(errs@) =~= view_errors(errs0).push(verr));
                    let rest = sp_items(t, eoi, pos as int);
                    assert(sp_items(t, eoi, pos0).items =~= rest.items);
                    assert(sp_items(t, eoi, pos0).errs =~= seq![verr] + rest.errs);
                    assert(sp_items(t, eoi, 0).items =~= view_spanned_seq(items@) + rest.items);
                    assert(sp_items(t, eoi, 0).errs =~= view_errors(errs@) + rest.errs);
                }
            },
        }
    }
    (Some(items), errs)
}


/// The spanned leaf node made from the token at `pos`.
pub open spec fn atom_node(t: Seq<STok>, pos: int) -> SpannedExprS {
    SpannedExprS { expr: atom_expr(t[pos].token), span: t[pos].span }
}

/// No expression layer consumes the token at `pos`: it is past the end of
/// the stream, or it opens no argument list and is no operator.
pub open spec fn stops_expr(t: Seq<STok>, pos: int) -> bool {
    pos >= t.len() || !(t[pos].token is OpenParen || is_factor_op(t[pos].token) || is_term_op(
        t[pos].token,
    ) || is_compare_op(t[pos].token))
}

/// A lone literal or identifier, followed by nothing an expression layer
/// could consume, parses to its leaf node at every layer of the grammar.
pub proof fn lemma_atom_alone(t: Seq<STok>, eoi: Span, pos: int)
    requires
        0 <= pos < t.len(),
        is_atom_token(t[pos].token),
        stops_expr(t, pos + 1),
    ensures
        sp_call(t, eoi, pos) == (PRes::Parsed { e: atom_node(t, pos), next: pos + 1 }),
        sp_unary(t, eoi, pos) == (PRes::Parsed { e: atom_node(t, pos), next: pos + 1 }),
        sp_factor(t, eoi, pos) == (PRes::Parsed { e: atom_node(t, pos), next: pos + 1 }),
        sp_term(t, eoi, pos) == (PRes::Parsed { e: atom_node(t, pos), next: pos + 1 }),
        sp_compare(t, eoi, pos) == (PRes::Parsed { e: atom_node(t, pos), next: pos + 1 }),
        sp_expr(t, eoi, pos) == (PRes::Parsed { e: atom_node(t, pos), next: pos + 1 }),
{
    let a = atom_node(t, pos);
    assert(sp_atom(t, eoi, pos) == PRes::Parsed { e: a, next: pos + 1 });
    assert(sp_call_rest(t, eoi, pos + 1, a) == PRes::Parsed { e: a, next: pos + 1 });
    assert(sp_call(t, eoi, pos) == PRes::Parsed { e: a, next: pos + 1 });
    assert(sp_unary(t, eoi, pos) == PRes::Parsed { e: a, next: pos + 1 });
    assert(sp_factor_rest(t, eoi, pos + 1, a) == PRes::Parsed { e: a, next: pos + 1 });
    assert(sp_factor(t, eoi, pos) == PRes::Parsed { e: a, next: pos + 1 });
    assert(sp_term_rest(t, eoi, pos + 1, a) == PRes::Parsed { e: a, next: pos + 1 });
    assert(sp_term(t, eoi, pos) == PRes::Parsed { e: a, next: pos + 1 });
    assert(sp_compare_rest(t, eoi, pos + 1, a) == PRes::Parsed { e: a, next: pos + 1 });
    assert(sp_compare(t, eoi, pos) == PRes::Parsed { e: a, next: pos + 1 });
    assert(sp_expr(t, eoi, pos) == PRes::Parsed { e: a, next: pos + 1 });
}

/// Precedence: in `a op1 b op2 c` with a multiplicative `op1` and an
/// additive `op2`, the parse groups as `(a op1 b) op2 c`.
pub proof fn lemma_precedence(t: Seq<STok>, eoi: Span)
    requires
        t.len() == 5,
        is_atom_token(t[0].token),
        is_factor_op(t[1].token),
        is_atom_token(t[2].token),
        is_term_op(t[3].token),
        is_atom_token(t[4].token),
    ensures
        sp_expr(t, eoi, 0) == (PRes::Parsed {
            e: bin_node(
                bin_node(atom_node(t, 0), op_text(t[1].token), atom_node(t, 2)),
                op_text(t[3].token),
                atom_node(t, 4),
            ),
            next: 5,
        }),
{
    let a0 = atom_node(t, 0);
    let a2 = atom_node(t, 2);
    let a4 = atom_node(t, 4);
    let b = bin_node(a0, op_text(t[1].token), a2);
    let c = bin_node(b, op_text(t[3].token), a4);
    assert(sp_atom(t, eoi, 0) == PRes::Parsed { e: a0, next: 1 });
    assert(sp_call_rest(t, eoi, 1, a0) == PRes::Parsed { e: a0, next: 1 });
    assert(sp_call(t, eoi, 0) == PRes::Parsed { e: a0, next: 1 });
    assert(sp_unary(t, eoi, 0) == PRes::Parsed { e: a0, next: 1 });
    assert(sp_atom(t, eoi, 2) == PRes::Parsed { e: a2, next: 3 });
    assert(sp_call_rest(t, eoi, 3, a2) == PRes::Parsed { e: a2, next: 3 });
    assert(sp_call(t, eoi, 2) == PRes::Parsed { e: a2, next: 3 });
    assert(sp_unary(t, eoi, 2) == PRes::Parsed { e: a2, next: 3 });
    assert(sp_factor_rest(t, eoi, 3, b) == PRes::Parsed { e: b, next: 3 });
    assert(sp_factor_rest(t, eoi, 1, a0) == PRes::Parsed { e: b, next: 3 });
    assert(sp_factor(t, eoi, 0) == PRes::Parsed { e: b, next: 3 });
    lemma_atom_alone(t, eoi, 4);
    assert(sp_factor(t, eoi, 4) == PRes::Parsed { e: a4, next: 5 });
    assert(sp_term_rest(t, eoi, 5, c) == PRes::Parsed { e: c, next: 5 });
    assert(sp_term_rest(t, eoi, 3, b) == PRes::Parsed { e: c, next: 5 });
    assert(sp_term(t, eoi, 0) == PRes::Parsed { e: c, next: 5 });
    assert(sp_compare_rest(t, eoi, 5, c) == PRes::Parsed { e: c, next: 5 });
    assert(sp_compare(t, eoi, 0) == PRes::Parsed { e: c, next: 5 });
    assert(sp_expr(t, eoi, 0) == PRes::Parsed { e: c, next: 5 });
}

/// Non-chaining comparisons: `a < b < c` parses as the left fold
/// `(a < b) < c`, never as a three-way chained comparison.
pub proof fn lemma_non_chaining_compare(t: Seq<STok>, eoi: Span)
    requires
        t.len() == 5,
        is_atom_token(t[0].token),
        is_compare_op(t[1].token),
        is_atom_token(t[2].token),
        is_compare_op(t[3].token),
        is_atom_token(t[4].token),
    ensures
        sp_expr(t, eoi, 0) == (PRes::Parsed {
            e: bin_node(
                bin_node(atom_node(t, 0), op_text(t[1].token), atom_node(t, 2)),
                op_text(t[3].token),
                atom_node(t, 4),
            ),
            next: 5,
        }),
{
    let a0 = atom_node(t, 0);
    let a2 = atom_node(t, 2);
    let a4 = atom_node(t, 4);
    let b = bin_node(a0, op_text(t[1].token), a2);
    let c = bin_node(b, op_text(t[3].token), a4);
    assert(sp_atom(t, eoi, 0) == PRes::Parsed { e: a0, next: 1 });
    assert(sp_call_rest(t, eoi, 1, a0) == PRes::Parsed { e: a0, next: 1 });
    assert(sp_call(t, eoi, 0) == PRes::Parsed { e: a0, next: 1 });
    assert(sp_unary(t, eoi, 0) == PRes::Parsed { e: a0, next: 1 });
    assert(sp_factor_rest(t, eoi, 1, a0) == PRes::Parsed { e: a0, next: 1 });
    assert(sp_factor(t, eoi, 0) == PRes::Parsed { e: a0, next: 1 });
    assert(sp_term_rest(t, eoi, 1, a0) == PRes::Parsed { e: a0, next: 1 });
    assert(sp_term(t, eoi, 0) == PRes::Parsed { e: a0, next: 1 });
    assert(sp_atom(t, eoi, 2) == PRes::Parsed { e: a2, next: 3 });
    assert(sp_call_rest(t, eoi, 3, a2) == PRes::Parsed { e: a2, next: 3 });
    assert(sp_call(t, eoi, 2) == PRes::Parsed { e: a2, next: 3 });
    assert(sp_unary(t, eoi, 2) == PRes::Parsed { e: a2, next: 3 });
    assert(sp_factor_rest(t, eoi, 3, a2) == PRes::Parsed { e: a2, next: 3 });
    assert(sp_factor(t, eoi, 2) == PRes::Parsed { e: a2, next: 3 });
    assert(sp_term_rest(t, eoi, 3, a2) == PRes::Parsed { e: a2, next: 3 });
    assert(sp_term(t, eoi, 2) == PRes::Parsed { e: a2, next: 3 });
    lemma_atom_alone(t, eoi, 4);
    assert(sp_term(t, eoi, 4) == PRes::Parsed { e: a4, next: 5 });
    assert(sp_compare_rest(t, eoi, 5, c) == PRes::Parsed { e: c, next: 5 });
    assert(sp_compare_rest(t, eoi, 3, b) == PRes::Parsed { e: c, next: 5 });
    assert(sp_compare_rest(t, eoi, 1, a0) == PRes::Parsed { e: c, next: 5 });
    assert(sp_compare(t, eoi, 0) == PRes::Parsed { e: c, next: 5 });
    assert(sp_expr(t, eoi, 0) == PRes::Parsed { e: c, next: 5 });
}

/// Call folding: `f(a, b)(c)` parses as `Call{Call{f, [a, b]}, [c]}`, the
/// second argument list folding left onto the first call.
pub proof fn lemma_call_folding(t: Seq<STok>, eoi: Span)
    requires
        t.len() == 9,
        is_atom_token(t[0].token),
        t[1].token is OpenParen,
        is_atom_token(t[2].token),
        t[3].token is Comma,
        is_atom_token(t[4].token),
        t[5].token is CloseParen,
        t[6].token is OpenParen,
        is_atom_token(t[7].token),
        t[8].token is CloseParen,
    ensures
        sp_expr(t, eoi, 0) == (PRes::Parsed {
            e: SpannedExprS {
                expr: ExprS::Call {
                    name: Box::new(
                        SpannedExprS {
                            expr: ExprS::Call {
                                name: Box::new(atom_node(t, 0)),
                                args: seq![atom_node(t, 2), atom_node(t, 4)],
                            },
                            span: Span { start: t[0].span.start, end: t[5].span.end },
                        },
                    ),
                    args: seq![atom_node(t, 7)],
                },
                span: Span { start: t[0].span.start, end: t[8].span.end },
            },
            next: 9,
        }),
{
    let f = atom_node(t, 0);
    let a2 = atom_node(t, 2);
    let a4 = atom_node(t, 4);
    let a7 = atom_node(t, 7);
    let f1 = SpannedExprS {
        expr: ExprS::Call { name: Box::new(f), args: seq![a2, a4] },
        span: Span { start: t[0].span.start, end: t[5].span.end },
    };
    let f2 = SpannedExprS {
        expr: ExprS::Call { name: Box::new(f1), args: seq![a7] },
        span: Span { start: t[0].span.start, end: t[8].span.end },
    };
    assert(sp_atom(t, eoi, 0) == PRes::Parsed { e: f, next: 1 });
    lemma_atom_alone(t, eoi, 2);
    lemma_atom_alone(t, eoi, 4);
    lemma_atom_alone(t, eoi, 7);
    assert(sp_args_rest(t, eoi, 5, seq![a2, a4]) == ARes::Parsed {
        args: seq![a2, a4],
        next: 6,
    });
    assert(seq![a2].push(a4) =~= seq![a2, a4]);
    assert(sp_args_rest(t, eoi, 3, seq![a2]) == ARes::Parsed { args: seq![a2, a4], next: 6 });
    assert(sp_args(t, eoi, 2) == ARes::Parsed { args: seq![a2, a4], next: 6 });
    assert(sp_args_rest(t, eoi, 8, seq![a7]) == ARes::Parsed { args: seq![a7], next: 9 });
    assert(sp_args(t, eoi, 7) == ARes::Parsed { args: seq![a7], next: 9 });
    assert(sp_call_rest(t, eoi, 9, f2) == PRes::Parsed { e: f2, next: 9 });
    assert(sp_call_rest(t, eoi, 6, f1) == PRes::Parsed { e: f2, next: 9 });
    assert(sp_call_rest(t, eoi, 1, f) == PRes::Parsed { e: f2, next: 9 });
    assert(sp_call(t, eoi, 0) == PRes::Parsed { e: f2, next: 9 });
    assert(sp_unary(t, eoi, 0) == PRes::Parsed { e: f2, next: 9 });
    assert(sp_factor_rest(t, eoi, 9, f2) == PRes::Parsed { e: f2, next: 9 });
    assert(sp_factor(t, eoi, 0) == PRes::Parsed { e: f2, next: 9 });
    assert(sp_term_rest(t, eoi, 9, f2) == PRes::Parsed { e: f2, next: 9 });
    assert(sp_term(t, eoi, 0) == PRes::Parsed { e: f2, next: 9 });
    assert(sp_compare_rest(t, eoi, 9, f2) == PRes::Parsed { e: f2, next: 9 });
    assert(sp_compare(t, eoi, 0) == PRes::Parsed { e: f2, next: 9 });
    assert(sp_expr(t, eoi, 0) == PRes::Parsed { e: f2, next: 9 });
}


/// Span facts of a primary grammar layer: a parsed node begins at the
/// start of the token at `start_at` and ends at the end of the last token
/// consumed.
pub open spec fn spans_ok(r: PRes, t: Seq<STok>, pos: int, start_at: int) -> bool {
    match r {
        PRes::Parsed { e, next } => pos < next <= t.len() && 0 <= start_at < t.len()
            && e.span.start == t[start_at].span.start && e.span.end == t[next - 1].span.end,
        PRes::Failed { .. } => true,
    }
}

/// Span facts of a left-fold continuation: the accumulator's start is
/// kept; if anything was consumed the node ends at the last token taken.
pub open spec fn rest_spans_ok(r: PRes, t: Seq<STok>, pos: int, acc: SpannedExprS) -> bool {
    match r {
        PRes::Parsed { e, next } => pos <= next <= t.len() && e.span.start == acc.span.start && (
        next == pos ==> e == acc) && (next > pos ==> e.span.end == t[next - 1].span.end),
        PRes::Failed { .. } => true,
    }
}

pub proof fn lemma_spans_atom(t: Seq<STok>, eoi: Span, pos: int)
    ensures
        spans_ok(sp_atom(t, eoi, pos), t, pos, pos),
{
}

pub proof fn lemma_spans_call(t: Seq<STok>, eoi: Span, pos: int)
    ensures
        spans_ok(sp_call(t, eoi, pos), t, pos, pos),
    decreases t.len() - pos, 2int,
{
    lemma_spans_atom(t, eoi, pos);
    match sp_atom(t, eoi, pos) {
        PRes::Parsed { e, next } => {
            lemma_spans_call_rest(t, eoi, next, e);
        },
        PRes::Failed { .. } => {},
    }
}

pub proof fn lemma_spans_call_rest(t: Seq<STok>, eoi: Span, pos: int, acc: SpannedExprS)
    requires
        0 <= pos <= t.len(),
    ensures
        rest_spans_ok(sp_call_rest(t, eoi, pos, acc), t, pos, acc),
    decreases t.len() - pos, 1int,
{
    if 0 <= pos < t.len() && t[pos].token is OpenParen {
        lemma_spans_args(t, eoi, pos + 1);
        match sp_args(t, eoi, pos + 1) {
            ARes::Parsed { args, next } => {
                if pos < next <= t.len() {
                    let folded = SpannedExprS {
                        expr: ExprS::Call { name: Box::new(acc), args },
                        span: Span { start: acc.span.start, end: t[next - 1].span.end },
                    };
                    lemma_spans_call_rest(t, eoi, next, folded);
                }
            },
            ARes::Failed { .. } => {},
        }
    }
}

pub proof fn lemma_spans_args(t: Seq<STok>, eoi: Span, pos: int)
    ensures
        match sp_args(t, eoi, pos) {
            ARes::Parsed { args, next } => pos < next <= t.len(),
            ARes::Failed { .. } => true,
        },
    decreases t.len() - pos, 10int,
{
    if !(0 <= pos < t.len() && t[pos].token is CloseParen) {
        lemma_spans_expr(t, eoi, pos);
        match sp_expr(t, eoi, pos) {
            PRes::Parsed { e, next } => {
                if pos < next <= t.len() {
                    lemma_spans_args_rest(t, eoi, next, seq![e]);
                }
            },
            PRes::Failed { .. } => {},
        }
    }
}

pub proof fn lemma_spans_args_rest(t: Seq<STok>, eoi: Span, pos: int, acc: Seq<SpannedExprS>)
    requires
        0 <= pos <= t.len(),
    ensures
        match sp_args_rest(t, eoi, pos, acc) {
            ARes::Parsed { args, next } => pos < next <= t.len(),
            ARes::Failed { .. } => true,
        },
    decreases t.len() - pos, 1int,
{
    if 0 <= pos < t.len() && t[pos].token is Comma {
        if !(pos + 1 < t.len() && t[pos + 1].token is CloseParen) {
            lemma_spans_expr(t, eoi, pos + 1);
            match sp_expr(t, eoi, pos + 1) {
                PRes::Parsed { e, next } => {
                    if pos < next <= t.len() {
                        lemma_spans_args_rest(t, eoi, next, acc.push(e));
                    }
                },
                PRes::Failed { .. } => {},
            }
        }
    }
}

pub proof fn lemma_spans_unary(t: Seq<STok>, eoi: Span, pos: int)
    ensures
        spans_ok(sp_unary(t, eoi, pos), t, pos, pos),
    decreases t.len() - pos, 3int,
{
    if 0 <= pos < t.len() && is_term_op(t[pos].token) {
        lemma_spans_unary(t, eoi, pos + 1);
    } else {
        lemma_spans_call(t, eoi, pos);
    }
}

pub proof fn lemma_spans_factor(t: Seq<STok>, eoi: Span, pos: int)
    ensures
        spans_ok(sp_factor(t, eoi, pos), t, pos, pos),
    decreases t.len() - pos, 4int,
{
    lemma_spans_unary(t, eoi, pos);
    match sp_unary(t, eoi, pos) {
        PRes::Parsed { e, next } => {
            lemma_spans_factor_rest(t, eoi, next, e);
        },
        PRes::Failed { .. } => {},
    }
}

pub proof fn lemma_spans_factor_rest(t: Seq<STok>, eoi: Span, pos: int, acc: SpannedExprS)
    requires
        0 <= pos <= t.len(),
    ensures
        rest_spans_ok(sp_factor_rest(t, eoi, pos, acc), t, pos, acc),
    decreases t.len() - pos, 1int,
{
    if 0 <= pos < t.len() && is_factor_op(t[pos].token) {
        lemma_spans_unary(t, eoi, pos + 1);
        match sp_unary(t, eoi, pos + 1) {
            PRes::Parsed { e, next } => {
                if pos < next <= t.len() {
                    lemma_spans_factor_rest(t, eoi, next, bin_node(acc, op_text(t[pos].token), e));
                }
            },
            PRes::Failed { .. } => {},
        }
    }
}

pub proof fn lemma_spans_term(t: Seq<STok>, eoi: Span, pos: int)
    ensures
        spans_ok(sp_term(t, eoi, pos), t, pos, pos),
    decreases t.len() - pos, 5int,
{
    lemma_spans_factor(t, eoi, pos);
    match sp_factor(t, eoi, pos) {
        PRes::Parsed { e, next } => {
            lemma_spans_term_rest(t, eoi, next, e);
        },
        PRes::Failed { .. } => {},
    }
}

pub proof fn lemma_spans_term_rest(t: Seq<STok>, eoi: Span, pos: int, acc: SpannedExprS)
    requires
        0 <= pos <= t.len(),
    ensures
        rest_spans_ok(sp_term_rest(t, eoi, pos, acc), t, pos, acc),
    decreases t.len() - pos, 1int,
{
    if 0 <= pos < t.len() && is_term_op(t[pos].token) {
        lemma_spans_factor(t, eoi, pos + 1);
        match sp_factor(t, eoi, pos + 1) {
            PRes::Parsed { e, next } => {
                if pos < next <= t.len() {
                    lemma_spans_term_rest(t, eoi, next, bin_node(acc, op_text(t[pos].token), e));
                }
            },
            PRes::Failed { .. } => {},
        }
    }
}

pub proof fn lemma_spans_compare(t: Seq<STok>, eoi: Span, pos: int)
    ensures
        spans_ok(sp_compare(t, eoi, pos), t, pos, pos),
    decreases t.len() - pos, 6int,
{
    lemma_spans_term(t, eoi, pos);
    match sp_term(t, eoi, pos) {
        PRes::Parsed { e, next } => {
            lemma_spans_compare_rest(t, eoi, next, e);
        },
        PRes::Failed { .. } => {},
    }
}

pub proof fn lemma_spans_compare_rest(t: Seq<STok>, eoi: Span, pos: int, acc: SpannedExprS)
    requires
        0 <= pos <= t.len(),
    ensures
        rest_spans_ok(sp_compare_rest(t, eoi, pos, acc), t, pos, acc),
    decreases t.len() - pos, 1int,
{
    if 0 <= pos < t.len() && is_compare_op(t[pos].token) {
        lemma_spans_term(t, eoi, pos + 1);
        match sp_term(t, eoi, pos + 1) {
            PRes::Parsed { e, next } => {
                if pos < next <= t.len() {
                    lemma_spans_compare_rest(t, eoi, next, bin_node(acc, op_text(t[pos].token), e));
                }
            },
            PRes::Failed { .. } => {},
        }
    }
}

pub proof fn lemma_spans_let(t: Seq<STok>, eoi: Span, pos: int)
    ensures
        spans_ok(sp_let(t, eoi, pos), t, pos, pos + 1),
    decreases t.len() - pos, 7int,
{
    if 0 <= pos < t.len() && t[pos].token is KwLet && pos + 1 < t.len() && t[pos + 1].token
        is Identifier && pos + 2 < t.len() && t[pos + 2].token is Colon && pos + 3 < t.len() && t[
        pos + 3
    ].token is Identifier && pos + 4 < t.len() && t[pos + 4].token is Assign {
        lemma_spans_expr(t, eoi, pos + 5);
    }
}

pub proof fn lemma_spans_params(t: Seq<STok>, eoi: Span, pos: int, acc: Seq<ParamS>)
    requires
        0 <= pos <= t.len(),
    ensures
        match sp_params(t, eoi, pos, acc) {
            PaRes::Parsed { params, next } => pos <= next <= t.len(),
            PaRes::Failed { .. } => true,
        },
    decreases t.len() - pos,
{
    if 0 <= pos < t.len() && t[pos].token is OpenParen {
        if pos + 1 < t.len() && t[pos + 1].token is Identifier && pos + 2 < t.len() && t[pos
            + 2].token is Colon && pos + 3 < t.len() && t[pos + 3].token is Identifier && pos + 4
            < t.len() && t[pos + 4].token is CloseParen {
            lemma_spans_params(
                t,
                eoi,
                pos + 5,
                acc.push(
                    ParamS {
                        name: ident_text(t[pos + 1].token),
                        type_hint: ident_text(t[pos + 3].token),
                    },
                ),
            );
        }
    }
}

pub proof fn lemma_spans_fun(t: Seq<STok>, eoi: Span, pos: int)
    ensures
        spans_ok(sp_fun(t, eoi, pos), t, pos, pos + 1),
    decreases t.len() - pos, 7int,
{
    if 0 <= pos < t.len() && t[pos].token is KwFun && pos + 1 < t.len() && t[pos + 1].token
        is Identifier {
        lemma_spans_params(t, eoi, pos + 2, Seq::empty());
        match sp_params(t, eoi, pos + 2, Seq::empty()) {
            PaRes::Parsed { params, next } => {
                if pos + 2 <= next <= t.len() {
                    if next + 2 < t.len() && t[next].token is Colon && t[next + 1].token
                        is Identifier && t[next + 2].token is Assign {
                        lemma_spans_expr(t, eoi, next + 3);
                    }
                }
            },
            PaRes::Failed { .. } => {},
        }
    }
}

pub proof fn lemma_spans_do(t: Seq<STok>, eoi: Span, pos: int)
    ensures
        spans_ok(sp_do(t, eoi, pos), t, pos, pos),
    decreases t.len() - pos, 7int,
{
    if 0 <= pos < t.len() && t[pos].token is KwDo {
        lemma_spans_do_rest(t, eoi, pos + 1, Seq::empty(), t[pos].span.start);
    }
}

pub proof fn lemma_spans_do_rest(
    t: Seq<STok>,
    eoi: Span,
    pos: int,
    acc: Seq<SpannedExprS>,
    start: usize,
)
    requires
        0 <= pos <= t.len(),
    ensures
        match sp_do_rest(t, eoi, pos, acc, start) {
            PRes::Parsed { e, next } => pos < next <= t.len() && e.span.start == start
                && e.span.end == t[next - 1].span.end,
            PRes::Failed { .. } => true,
        },
    decreases t.len() - pos, 9int,
{
    if !(0 <= pos < t.len() && t[pos].token is KwEnd) {
        lemma_spans_expr(t, eoi, pos);
        match sp_expr(t, eoi, pos) {
            PRes::Parsed { e, next } => {
                if next < t.len() && t[next].token is SemiColon {
                    if pos < next + 1 <= t.len() {
                        lemma_spans_do_rest(t, eoi, next + 1, acc.push(e), start);
                    }
                }
            },
            PRes::Failed { .. } => {},
        }
    }
}

/// Span faithfulness of a parsed top-level item: it ends exactly at its
/// last token's end, and begins at its first token's start -- except for
/// the `let` and `fun` forms, whose spans deliberately begin at the bound
/// name, one token after the keyword.
pub proof fn lemma_spans_expr(t: Seq<STok>, eoi: Span, pos: int)
    ensures
        match sp_expr(t, eoi, pos) {
            PRes::Parsed { e, next } => 0 <= pos < next <= t.len() && e.span.end == t[next
                - 1].span.end && ((t[pos].token is KwLet || t[pos].token is KwFun)
                ==> pos + 1 < t.len() && e.span.start == t[pos + 1].span.start) && (!(t[pos].token
                is KwLet || t[pos].token is KwFun) ==> e.span.start == t[pos].span.start),
            PRes::Failed { .. } => true,
        },
    decreases t.len() - pos, 8int,
{
    if 0 <= pos < t.len() && t[pos].token is KwLet {
        lemma_spans_let(t, eoi, pos);
    } else if 0 <= pos < t.len() && t[pos].token is KwFun {
        lemma_spans_fun(t, eoi, pos);
    } else if 0 <= pos < t.len() && t[pos].token is KwDo {
        lemma_spans_do(t, eoi, pos);
    } else {
        lemma_spans_compare(t, eoi, pos);
    }
}

} // verus!
