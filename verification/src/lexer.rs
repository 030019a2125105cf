//! The line classifier, its token vocabulary and its keyword tables.

pub mod common_literals;
pub mod deployment_literals;
pub mod lexer;
pub mod text;
pub mod token;
