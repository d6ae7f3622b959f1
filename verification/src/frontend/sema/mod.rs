pub mod context;
pub mod modules;
pub mod names;
pub mod scopes;
pub mod sema;
pub mod symbols;
pub mod type_checker;
pub mod typed_ast;
