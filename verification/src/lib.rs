//! A small scripting-language runtime: a lexer that turns source text into
//! tokens, a recursive-descent parser that builds an abstract syntax tree,
//! and a tree-walking evaluator that runs the tree against a chain of
//! lexical environments.
//!
//! Every stage is specified by a spec-level function over mathematical
//! models (sequences of characters, model tokens, model values), and the
//! executable code is proved to return exactly what the model says.

pub mod ast;
pub mod environment;
pub mod interpreter;
pub mod lexer;
pub mod parser;
pub mod strutil;
