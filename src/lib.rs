//! A small-language toolchain core: a tokenizer, a parser, an AST-to-bytecode
//! compiler and a stack-based virtual machine with an explicit frame stack.
//!
//! - `lexer`: source text to tokens.
//! - `parser`: tokens to the syntax tree, by recursive descent.
//! - `ast`: the syntax tree that the compiler consumes.
//! - `inst`, `unit`, `value`: instructions, compiled function units and
//!   runtime values.
//! - `codegen`: the compiler, stated against `code_of` and `compiled_from`.
//! - `vm`: the machine, stated against the one-step semantics `step_spec`.
//! - `correctness`: properties of compiled code when it runs.
//!
//! Each expression of a body keeps on the operand stack what it pushes: a
//! body leaves the values of all its expressions, in order. A function
//! literal pushes nothing, and a conditional without "else" pushes nothing
//! when its condition is false.

pub mod ast;
pub mod codegen;
pub mod correctness;
pub mod inst;
pub mod lexer;
pub mod parser;
pub mod unit;
pub mod value;
pub mod vm;
