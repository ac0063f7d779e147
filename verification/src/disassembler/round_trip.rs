//! Reading the stream back from the instructions it was decoded into.

use vstd::prelude::*;
use crate::disassembler::decoding::{
    names_variable, operation, variable_operand, DisassemblerModel, FIRST_PARAMETER_DIGIT,
};
use crate::glyph::alphabetic;
use crate::disassembler::instruction::{InstructionModel, Mnemonic};
use crate::disassembler::operand::{Literal, OperandModel};

verus! {

/// The character that an instruction is written as in the stream. A call is written as `^`
/// and a return as `;`.
pub open spec fn glyph(instruction: InstructionModel) -> char {
    match instruction.mnemonic {
        Mnemonic::PUSH => match instruction.operands[0] {
            OperandModel::Literal(Literal::ZERO) => '0',
            OperandModel::Literal(Literal::INFINITY) => '1',
            OperandModel::GlobalVariable(name) => name[0],
            OperandModel::Parameter(index) => (index + FIRST_PARAMETER_DIGIT) as char,
            OperandModel::FunctionReference(_) => '^',
        },
        Mnemonic::POP => '.',
        Mnemonic::RET => ';',
        Mnemonic::CALL => '^',
        Mnemonic::ADD => '+',
        Mnemonic::SUB => '-',
        Mnemonic::MUL => '*',
        Mnemonic::DIV => '/',
        Mnemonic::MIN => 'm',
        Mnemonic::MAX => 'M',
        Mnemonic::FRAC => '\'',
        Mnemonic::NEG => '!',
    }
}

/// The characters that a sequence of instructions is written as.
pub open spec fn glyphs(instructions: Seq<InstructionModel>) -> Seq<char> {
    instructions.map_values(|i: InstructionModel| glyph(i))
}

/// Whether a character stands for an instruction by itself: a variable or an operation.
pub open spec fn recognised(c: char) -> bool {
    names_variable(c) || operation(c) is Some
}

/// The test for a recognised character, as a function.
pub open spec fn is_recognised() -> spec_fn(char) -> bool {
    |c: char| recognised(c)
}

/// Whether a character opens, closes or calls a function, or stores into a variable.
pub open spec fn structural(c: char) -> bool {
    c == '^' || c == ':' || c == ';' || c == '='
}

/// The glyph of the instruction that a recognised character is decoded into is that
/// character.
pub proof fn lemma_glyph_of_decoded(c: char, address: nat)
    requires
        recognised(c),
    ensures
        names_variable(c) ==> glyph(
            InstructionModel {
                address,
                mnemonic: Mnemonic::PUSH,
                operands: seq![variable_operand(c)],
            },
        ) == c,
        !names_variable(c) ==> (operation(c) matches Some((mnemonic, operands)) && glyph(
            InstructionModel { address, mnemonic, operands },
        ) == c),
{
    if names_variable(c) {
        let operand = variable_operand(c);
        assert(seq![operand][0] == operand);
        if alphabetic(c) {
            assert(seq![c][0] == c);
        } else {
            assert(c as int >= FIRST_PARAMETER_DIGIT);
        }
    } else {
        if c == '0' {
            assert(seq![OperandModel::Literal(Literal::ZERO)][0] == OperandModel::Literal(
                Literal::ZERO,
            ));
        } else if c == '1' {
            assert(seq![OperandModel::Literal(Literal::INFINITY)][0] == OperandModel::Literal(
                Literal::INFINITY,
            ));
        }
    }
}

impl DisassemblerModel {
    /// Whether none of the characters still to be decoded is structural.
    pub open spec fn rest_is_plain(self) -> bool {
        forall|k: int|
            self.pos <= k < self.bytecode.len() ==> !structural(#[trigger] self.bytecode[k])
    }

    /// A stream without structural characters reads back from what it is decoded into.
    ///
    /// Where a function is open and none of the characters still to be decoded opens, closes
    /// or calls a function or stores into a variable, decoding succeeds, touches no other
    /// function, and adds to the open function instructions whose glyphs, in order, are
    /// the recognised characters of the rest of the stream.
    pub proof fn lemma_round_trip(self)
        requires
            self.wf(),
            self.current is Some,
            self.rest_is_plain(),
        ensures
            self.run().1 is Ok,
            self.run().0.current == self.current,
            self.run().0.functions.len() == self.functions.len(),
            forall|f: int|
                0 <= f < self.functions.len() && f != self.current->0
                    ==> #[trigger] self.run().0.functions[f] == self.functions[f],
            self.run().0.functions[self.current->0 as int].instructions.len()
                >= self.functions[self.current->0 as int].instructions.len(),
            self.run().0.functions[self.current->0 as int].instructions.take(
                self.functions[self.current->0 as int].instructions.len() as int,
            ) == self.functions[self.current->0 as int].instructions,
            glyphs(
                self.run().0.functions[self.current->0 as int].instructions.skip(
                    self.functions[self.current->0 as int].instructions.len() as int,
                ),
            ) == self.bytecode.skip(self.pos as int).filter(is_recognised()),
        decreases self.bytecode.len() - self.pos,
    {
        let open = self.current->0 as int;
        let before = self.functions[open].instructions;
        let rest = self.bytecode.skip(self.pos as int);
        if self.pos >= self.bytecode.len() {
            reveal(Seq::filter);
            assert(rest =~= Seq::<char>::empty());
            assert(self.run().0.functions[open].instructions.take(before.len() as int) =~= before);
            assert(glyphs(self.run().0.functions[open].instructions.skip(before.len() as int))
                =~= Seq::<char>::empty());
        } else {
            let c = self.bytecode[self.pos as int];
            assert(!structural(c));
            if self.pos + 1 < self.bytecode.len() {
                assert(!structural(self.bytecode[self.pos + 1 as int]));
            }
            let next = self.step().0;
            self.lemma_step_advances();
            self.lemma_step_wf();
            assert(self.step().1 is Ok);
            assert(next.rest_is_plain()) by {
                assert forall|k: int| next.pos <= k < next.bytecode.len() implies !structural(
                    #[trigger] next.bytecode[k],
                ) by {
                    assert(!structural(self.bytecode[k]));
                }
            }
            next.lemma_round_trip();
            let end = self.run().0;
            assert(end == next.run().0);
            let after = end.functions[open].instructions;
            let later = self.bytecode.skip(next.pos as int);
            assert(next.pos == self.pos + 1);
            assert(rest =~= seq![c] + later);
            Seq::filter_distributes_over_add(seq![c], later, is_recognised());
            assert(seq![c].filter(is_recognised()) =~= if recognised(c) {
                seq![c]
            } else {
                Seq::<char>::empty()
            }) by {
                reveal_with_fuel(Seq::filter, 2);
                assert(seq![c].drop_last() =~= Seq::<char>::empty());
            }
            if recognised(c) {
                let middle = next.functions[open].instructions;
                assert(middle.len() == before.len() + 1);
                assert(middle.take(before.len() as int) =~= before);
                lemma_glyph_of_decoded(c, self.address());
                assert(glyph(middle[before.len() as int]) == c);
                assert(after.take(before.len() as int) =~= after.take(middle.len() as int).take(
                    before.len() as int,
                ));
                assert(after[before.len() as int] == after.take(
                    middle.len() as int,
                )[before.len() as int]);
                assert(glyphs(after.skip(before.len() as int)) =~= seq![c] + glyphs(
                    after.skip(middle.len() as int),
                ));
            } else {
                assert(next.functions =~= self.functions);
            }
            assert forall|f: int|
                0 <= f < self.functions.len() && f != open implies #[trigger] end.functions[f]
                == self.functions[f] by {
                assert(end.functions[f] == next.functions[f]);
            }
        }
    }
}

} // verus!
