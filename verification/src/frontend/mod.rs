pub mod errors;
pub mod lexer;
pub mod parser;
pub mod sema;
pub mod text;
