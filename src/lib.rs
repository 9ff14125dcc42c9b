/// Tokens and their mathematical views.
pub mod tokens;
/// The scanner from source text to tokens.
pub mod lexer;
/// Statements and expressions.
pub mod ast;
/// The grammar, as spec functions over token views.
pub mod grammar;
/// The parser, proved to follow the grammar.
pub mod parser;
/// Runtime values, bindings and built-in functions.
pub mod object;
/// The meaning of programs, as spec functions.
pub mod semantics;
/// The evaluator, proved to follow the semantics.
pub mod evaluate;
/// Source text to value, in one call.
pub mod interpreter;
/// General properties of the language.
pub mod laws;
