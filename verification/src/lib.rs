//! Lexical and syntactic front end for a small line-oriented declaration
//! language whose one construct is a named "band":
//! `# <identifier> ( <args> ) = <expression> ;`.
//!
//! The lexer turns text into a token stream, and the parser drives a
//! two-token-lookahead recursive descent over that stream to build a
//! [`node::Block`] or report a [`parser::ParseError`].

pub mod lexer;
pub mod node;
pub mod parser;
pub mod producer;
pub mod token;
