//! A disassembler and symbolic executor for a compact stack-oriented bytecode.

pub mod disassembler;
pub mod glyph;
pub mod symbolic;
pub mod text;
