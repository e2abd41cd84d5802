//! A small register-based bytecode virtual machine together with the
//! assembler that turns its textual assembly language into bytecode.

pub mod assembler;
pub mod instruction;
pub mod repl;
pub mod vm;
