//! The second form of the command language: records that carry error codes,
//! a parser and an abstract syntax tree.
pub mod objects;
pub mod parser;
pub mod ast;
