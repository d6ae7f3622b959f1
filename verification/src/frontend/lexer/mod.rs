pub mod lexer;
pub mod tokens;
