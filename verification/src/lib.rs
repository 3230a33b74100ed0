//! A verified compiler front end for a declarative scene language and its
//! companion per-node scripting language: lexing, parsing, literal type
//! inference, lowering to an identifier-addressed scene tree, and
//! deterministic code generation.

pub mod ast;
pub mod codegen;
pub mod error;
pub mod ir;
pub mod lexer;
pub mod parser;
pub mod pipeline;
pub mod property_type;
pub mod text;
pub mod token;
pub mod transformer;
