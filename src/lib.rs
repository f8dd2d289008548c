//! A compiler for a small subset of C: lexing, parsing and code generation for
//! x86-64, and the driver logic that sequences the stages, each with a contract
//! stated over spec functions.

pub mod token;
pub mod lexer;
pub mod ast;
pub mod parser;
pub mod codegen;
pub mod driver;
pub mod emit;
