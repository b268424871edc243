//! The first form of the command language: its objects, its parser and its
//! syntax trees.
pub mod objects;
pub mod parser;
pub mod syntax_tree;
pub mod coder;
pub mod ast;
