//! Lexical front end of a small deployment language: a line classifier that
//! turns a document into tokens, and the records that describe the resources
//! a document declares.

pub mod lexer;
pub mod nodes;
