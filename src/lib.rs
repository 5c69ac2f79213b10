//! A front end for the rune configuration language: a lexer, a parser that
//! builds a document tree, and a resolver that follows references, evaluates
//! conditionals and flattens the result into plain values.
pub mod error;
pub mod text;

pub mod number;
pub mod ast;
pub mod lexer;
pub mod host;
pub mod resolver;
pub mod grammar;
pub mod parser;
pub mod eval;
pub mod utils;
pub mod convert;
pub mod config;
pub mod system;
pub mod laws;

pub use ast::{Document, Value};
pub use config::RuneConfig;
pub use error::RuneError;
pub mod lines;
pub mod gathers;
