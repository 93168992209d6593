pub mod error;
pub mod span;
pub mod token;
pub mod text;
pub mod warning;
pub mod exprs;
pub mod range;
pub mod char_group;
pub mod helper;
pub mod parser;
pub mod grammar;
pub mod parser_impl;
pub mod parser_rec;
pub mod compile;
pub mod compiler_error;
pub mod pretty;
pub mod laws;
