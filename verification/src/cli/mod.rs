pub mod cli;
pub mod driver;
