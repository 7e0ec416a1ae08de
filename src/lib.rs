//! Recursive-descent parser for a small C subset: tokens in, one function body out.

pub mod ast;
pub mod token;
pub mod grammar;
pub mod parser;
pub mod laws;
pub mod frame;
