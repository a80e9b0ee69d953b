pub mod expr;
pub mod function;
