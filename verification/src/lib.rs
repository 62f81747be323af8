//! ActionScript 3 lexical analysis and parsing support.

pub mod character_validation;
pub mod operator_precedence;
pub mod operator;
pub mod token;
pub mod keywords;
pub mod util;
pub mod location;
pub mod diagnostics;
pub mod compiler_options;
pub mod source;
pub mod tokenizer;
pub mod ast;
pub mod parser;
pub mod directive_context;
