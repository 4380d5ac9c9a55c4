//! Compiles RVC-CAL dataflow networks (an actor AST plus a network description)
//! into the source text of a standalone Rust program.
pub mod ast;
pub mod codegen;
pub mod imports;
pub mod network;
pub mod text;
