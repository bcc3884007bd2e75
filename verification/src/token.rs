use vstd::prelude::*;

use crate::span::Span;

verus! {

/// A lexical token of the source language, as the tokenizer hands it over.
///
/// Literal kinds carry their payload; a float literal keeps its source text,
/// since its numeric interpretation is the business of later stages.
#[derive(Debug, Clone)]
pub enum Token {
    Int(i64),
    Float(String),
    Boolean(bool),
    Str(String),
    Identifier(String),
    KwLet,
    KwFun,
    KwDo,
    KwEnd,
    OpenParen,
    CloseParen,
    Comma,
    Colon,
    SemiColon,
    Assign,
    Plus,
    Minus,
    Multiply,
    Divide,
    Less,
    Greater,
    Equal,
    NotEqual,
}

/// The mathematical image of a token: text as a character sequence.
pub enum TokenS {
    Int(i64),
    Float(Seq<char>),
    Boolean(bool),
    Str(Seq<char>),
    Identifier(Seq<char>),
    KwLet,
    KwFun,
    KwDo,
    KwEnd,
    OpenParen,
    CloseParen,
    Comma,
    Colon,
    SemiColon,
    Assign,
    Plus,
    Minus,
    Multiply,
    Divide,
    Less,
    Greater,
    Equal,
    NotEqual,
}

impl View for Token {
    type V = TokenS;

    open spec fn view(&self) -> TokenS {
        match self {
            Token::Int(i) => TokenS::Int(*i),
            Token::Float(s) => TokenS::Float(s@),
            Token::Boolean(b) => TokenS::Boolean(*b),
            Token::Str(s) => TokenS::Str(s@),
            Token::Identifier(s) => TokenS::Identifier(s@),
            Token::KwLet => TokenS::KwLet,
            Token::KwFun => TokenS::KwFun,
            Token::KwDo => TokenS::KwDo,
            Token::KwEnd => TokenS::KwEnd,
            Token::OpenParen => TokenS::OpenParen,
            Token::CloseParen => TokenS::CloseParen,
            Token::Comma => TokenS::Comma,
            Token::Colon => TokenS::Colon,
            Token::SemiColon => TokenS::SemiColon,
            Token::Assign => TokenS::Assign,
            Token::Plus => TokenS::Plus,
            Token::Minus => TokenS::Minus,
            Token::Multiply => TokenS::Multiply,
            Token::Divide => TokenS::Divide,
            Token::Less => TokenS::Less,
            Token::Greater => TokenS::Greater,
            Token::Equal => TokenS::Equal,
            Token::NotEqual => TokenS::NotEqual,
        }
    }
}

/// A token paired with the byte range it was read from.
#[derive(Debug, Clone)]
pub struct SpannedToken {
    pub token: Token,
    pub span: Span,
}

/// The mathematical image of a spanned token.
pub struct STok {
    pub token: TokenS,
    pub span: Span,
}

impl View for SpannedToken {
    type V = STok;

    open spec fn view(&self) -> STok {
        STok { token: self.token@, span: self.span }
    }
}

/// The image of a whole token stream.
pub open spec fn view_tokens(s: Seq<SpannedToken>) -> Seq<STok> {
    Seq::new(s.len(), |i: int| s[i]@)
}

/// The text an operator token stands for; empty for non-operator tokens.
pub open spec fn op_text(k: TokenS) -> Seq<char> {
    match k {
        TokenS::Plus => "+"@,
        TokenS::Minus => "-"@,
        TokenS::Multiply => "*"@,
        TokenS::Divide => "/"@,
        TokenS::Less => "<"@,
        TokenS::Greater => ">"@,
        TokenS::Equal => "="@,
        TokenS::NotEqual => "!="@,
        _ => Seq::empty(),
    }
}

impl Token {
    /// The operator text of this token, as the syntax tree stores it.
    pub fn op_string(&self) -> (r: String)
        ensures
            r@ == op_text(self@),
    {
        match self {
            Token::Plus => String::from_str("+"),
            Token::Minus => String::from_str("-"),
            Token::Multiply => String::from_str("*"),
            Token::Divide => String::from_str("/"),
            Token::Less => String::from_str("<"),
            Token::Greater => String::from_str(">"),
            Token::Equal => String::from_str("="),
            Token::NotEqual => String::from_str("!="),
            _ => String::new(),
        }
    }
}

} // verus!
