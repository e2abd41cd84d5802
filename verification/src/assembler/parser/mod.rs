//! The grammar of the assembly language, one module for each of its rules.

pub mod directive;
pub mod instruction;
pub mod integer_operand;
pub mod label;
pub mod opcode;
pub mod program;
pub mod register;
