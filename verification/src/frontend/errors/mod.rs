pub mod errors;
pub mod span;
