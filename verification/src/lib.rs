//! A stack-based bytecode virtual machine with verified instruction semantics.
pub mod opcode;
pub mod text;
pub mod value;
pub mod module;
pub mod globals;
pub mod semantics;
pub mod vm;
pub mod runner;
pub mod laws;
pub mod output;
