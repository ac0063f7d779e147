//! Lifting a character stream into functions and instructions.

pub mod decoding;
pub mod disassembler;
pub mod function;
pub mod instruction;
pub mod operand;
pub mod round_trip;
