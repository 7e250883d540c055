pub mod ast;
pub mod ast_pp;
pub mod error;
pub mod expressions;
pub mod grammar;
pub mod lexer;
pub mod operator;
pub mod parser;
pub mod polish_notation;
pub mod statements;
pub mod token;
