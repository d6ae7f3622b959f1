pub mod codegen;
pub mod context;
pub mod ir;
