//! Front end and back end of a small experimental-language compiler.
//!
//! The parser turns a spanned token stream into a spanned syntax tree while
//! recording recoverable diagnostics; the code generator walks a typed
//! intermediate representation and renders it as target-language text.
//! The tokenizer and the lowering stage in between are outside collaborators.

pub mod ast;
pub mod codegen;
pub mod ir;
pub mod parser;
pub mod span;
pub mod token;
