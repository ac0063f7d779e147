//! Instructions and their mnemonics.

use vstd::prelude::*;
use vstd::string::*;
use crate::disassembler::operand::{operand_models, Operand, OperandModel};
use crate::text::{hex_text, join_text, pad_right_text, push_hex, push_padded};

verus! {

/// The operations of the stack machine.
#[allow(non_camel_case_types)]
#[derive(Debug, Clone, Copy, PartialEq, Eq, Structural)]
pub enum Mnemonic {
    PUSH,
    POP,
    RET,
    CALL,
    ADD,
    SUB,
    MUL,
    DIV,
    MIN,
    MAX,
    FRAC,
    NEG,
}

impl Mnemonic {
    /// The lowercase name of the mnemonic.
    pub open spec fn text(self) -> Seq<char> {
        match self {
            Mnemonic::PUSH => "push"@,
            Mnemonic::POP => "pop"@,
            Mnemonic::RET => "ret"@,
            Mnemonic::CALL => "call"@,
            Mnemonic::ADD => "add"@,
            Mnemonic::SUB => "sub"@,
            Mnemonic::MUL => "mul"@,
            Mnemonic::DIV => "div"@,
            Mnemonic::MIN => "min"@,
            Mnemonic::MAX => "max"@,
            Mnemonic::FRAC => "frac"@,
            Mnemonic::NEG => "neg"@,
        }
    }

    /// Returns the lowercase name of the mnemonic as a string slice.
    pub fn as_str(&self) -> (r: &'static str)
        ensures
            r@ == self.text(),
    {
        match self {
            Mnemonic::PUSH => "push",
            Mnemonic::POP => "pop",
            Mnemonic::RET => "ret",
            Mnemonic::CALL => "call",
            Mnemonic::ADD => "add",
            Mnemonic::SUB => "sub",
            Mnemonic::MUL => "mul",
            Mnemonic::DIV => "div",
            Mnemonic::MIN => "min",
            Mnemonic::MAX => "max",
            Mnemonic::FRAC => "frac",
            Mnemonic::NEG => "neg",
        }
    }

    /// Returns the lowercase name of the mnemonic.
    pub fn to_string(&self) -> (r: String)
        ensures
            r@ == self.text(),
    {
        self.as_str().to_owned()
    }
}

/// The column width the mnemonic is padded to in a line of disassembly.
pub const MNEMONIC_WIDTH: usize = 12;

/// What an instruction holds.
pub struct InstructionModel {
    pub address: nat,
    pub mnemonic: Mnemonic,
    pub operands: Seq<OperandModel>,
}

/// The texts of a sequence of operands, in order.
pub open spec fn operand_texts(operands: Seq<OperandModel>) -> Seq<Seq<char>> {
    operands.map_values(|o: OperandModel| o.text())
}

impl InstructionModel {
    /// The line of disassembly for the instruction: the address in hexadecimal, a colon and
    /// a tab, the mnemonic padded to its column, and the operands separated by `, `.
    pub open spec fn text(self) -> Seq<char> {
        "0x"@ + hex_text(self.address) + ":\t"@ + pad_right_text(
            self.mnemonic.text(),
            MNEMONIC_WIDTH as nat,
        ) + join_text(operand_texts(self.operands), ", "@)
    }
}

/// One instruction of a function.
#[derive(Debug, PartialEq, Eq)]
pub struct Instruction {
    address: usize,
    mnemonic: Mnemonic,
    operands: Vec<Operand>,
}

impl View for Instruction {
    type V = InstructionModel;

    closed spec fn view(&self) -> InstructionModel {
        InstructionModel {
            address: self.address as nat,
            mnemonic: self.mnemonic,
            operands: operand_models(self.operands@),
        }
    }
}

impl Instruction {
    /// Creates a new instruction.
    pub fn new(address: usize, mnemonic: Mnemonic, operands: Vec<Operand>) -> (r: Instruction)
        ensures
            r@ == (InstructionModel {
                address: address as nat,
                mnemonic,
                operands: operand_models(operands@),
            }),
    {
        Instruction { address, mnemonic, operands }
    }

    /// Returns the address of the instruction.
    pub fn address(&self) -> (r: &usize)
        ensures
            *r == self@.address,
    {
        &self.address
    }

    /// Returns the mnemonic of the instruction.
    pub fn mnemonic(&self) -> (r: &Mnemonic)
        ensures
            *r == self@.mnemonic,
    {
        &self.mnemonic
    }

    /// Returns the operands of the instruction.
    pub fn operands(&self) -> (r: &Vec<Operand>)
        ensures
            operand_models(r@) == self@.operands,
    {
        &self.operands
    }

    /// Returns a string representation of the instruction.
    pub fn to_string(&self) -> (r: String)
        ensures
            r@ == self@.text(),
    {
        let mut out = "0x".to_owned();
        push_hex(&mut out, self.address);
        out.append(":\t");
        push_padded(&mut out, self.mnemonic.as_str(), MNEMONIC_WIDTH);
        let ghost head = out@;
        let ghost parts = operand_texts(self@.operands);
        let mut k: usize = 0;
        while k < self.operands.len()
            invariant
                k <= self.operands.len(),
                parts == operand_texts(self@.operands),
                parts.len() == self.operands.len(),
                out@ == head + join_text(parts.take(k as int), ", "@),
            decreases self.operands.len() - k,
        {
            if k > 0 {
                out.append(", ");
            }
            let operand = self.operands[k].to_string();
            out.append(operand.as_str());
            proof {
                assert(parts.take(k + 1).drop_last() =~= parts.take(k as int));
                assert(parts.take(k + 1).last() == self.operands[k as int]@.text());
                assert(out@ =~= head + join_text(parts.take(k + 1), ", "@));
            }
            k = k + 1;
        }
        proof {
            assert(parts.take(k as int) =~= parts);
            assert(out@ =~= self@.text());
        }
        out
    }
}

} // verus!
