//! A small Swiss-German flavoured teaching language.
//!
//! The front end is a tokenizer ([`lexer`]), a recursive-descent parser
//! ([`parser`], after the grammar in [`grammar`]) and a scope-based semantic
//! analyzer ([`seman`], after the rules in [`rules`]). Behind it stand the
//! text of diagnostics ([`report`]), the C text of a program ([`trans`]) and
//! the beginnings of a native-code generator ([`interm`], [`compiler`]).
//! Every function has a machine-checked contract.

pub mod ast;
pub mod compiler;
pub mod grammar;
pub mod interm;
pub mod lexer;
pub mod parser;
pub mod report;
pub mod rules;
pub mod seman;
pub mod text;
pub mod trans;
