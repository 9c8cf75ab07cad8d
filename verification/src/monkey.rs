//! A lexer and Pratt parser for a small Monkey-style expression language:
//! `let` bindings, `return` statements, identifiers, integer literals, and
//! prefix and infix operator expressions with the usual precedence levels.

pub mod ast;
pub mod lexer;
pub mod parser;
pub mod token;
