//! Front end of a compiler for a small imperative language: the scanner and
//! the parser, the syntax tree and its rendering, a generic tree-rewriting
//! framework, and the passes that normalise a parsed program for code
//! generation.
pub mod ast_printer;
pub mod compiler;
pub mod error;
pub mod model;
pub mod parser;
pub mod passes;
pub mod string_specs;
pub mod tokenizer;
