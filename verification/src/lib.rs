pub mod backend;
pub mod cli;
pub mod frontend;
