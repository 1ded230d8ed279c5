//! A small scripting language: integer variables, `let` and `print`
//! statements, and left-associative addition.
//!
//! Source text flows one way through three stages. The [`lexer`] turns
//! characters into tokens on demand, the [`parser`] turns tokens into
//! statements, and the [`interpreter`] runs statements against a flat
//! environment and records every printed value. [`decimal`] gives the text
//! of a printed value.
pub mod chars;
pub mod token;
pub mod lexer;
pub mod lexer_lemmas;
pub mod ast;
pub mod parser;
pub mod interpreter;
pub mod decimal;
