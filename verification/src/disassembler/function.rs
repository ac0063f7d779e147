//! Functions recovered from the bytecode.

use vstd::prelude::*;
use vstd::string::*;
use crate::disassembler::instruction::{Instruction, InstructionModel};
use crate::disassembler::operand::{FunctionReference, Variable};
use crate::text::{decimal_text, join_text, line_texts, push_decimal};

verus! {

/// The models of a sequence of instructions, in order.
pub open spec fn instruction_models(instructions: Seq<Instruction>) -> Seq<InstructionModel> {
    instructions.map_values(|i: Instruction| i@)
}

/// Whether the addresses grow strictly along the sequence.
pub open spec fn addresses_increasing(instructions: Seq<InstructionModel>) -> bool {
    forall|i: int, j: int|
        0 <= i < j < instructions.len() ==> instructions[i].address < instructions[j].address
}

/// The names `param_0`, `param_1`, ... of the first `n` parameters.
pub open spec fn parameter_names(n: nat) -> Seq<Seq<char>> {
    Seq::new(n, |i: int| "param_"@ + decimal_text(i as nat))
}

/// What a function holds.
pub struct FunctionModel {
    pub address: nat,
    pub id: Seq<char>,
    pub num_params: nat,
    pub instructions: Seq<InstructionModel>,
}

impl FunctionModel {
    /// The formatted name of the function.
    pub open spec fn name(self) -> Seq<char> {
        "func_"@ + self.id
    }

    /// The first line of the function's disassembly: its name and parameter list.
    pub open spec fn header(self) -> Seq<char> {
        "function "@ + self.name() + "("@ + join_text(parameter_names(self.num_params), ", "@)
            + ")"@
    }

    /// The function's disassembly: the header, then one line per instruction, each behind a
    /// tab.
    pub open spec fn disassembly(self) -> Seq<Seq<char>> {
        seq![self.header()] + self.instructions.map_values(|i: InstructionModel| "\t"@ + i.text())
    }

    /// The function as it is when first created: without instructions.
    pub open spec fn empty(address: nat, id: Seq<char>, num_params: nat) -> FunctionModel {
        FunctionModel { address, id, num_params, instructions: Seq::empty() }
    }

    /// The function with one more instruction at its end.
    pub open spec fn with_instruction(self, instruction: InstructionModel) -> FunctionModel {
        FunctionModel { instructions: self.instructions.push(instruction), ..self }
    }
}

/// A function: an id, an address, a parameter count and the instructions of its body.
#[derive(Debug, PartialEq, Eq)]
pub struct Function {
    address: usize,
    reference: FunctionReference,
    num_params: u8,
    instructions: Vec<Instruction>,
}

impl View for Function {
    type V = FunctionModel;

    closed spec fn view(&self) -> FunctionModel {
        FunctionModel {
            address: self.address as nat,
            id: self.reference@,
            num_params: self.num_params as nat,
            instructions: instruction_models(self.instructions@),
        }
    }
}

impl Function {
    /// Creates a new function.
    pub fn new(address: usize, id: String, num_params: u8) -> (r: Function)
        ensures
            r@ == FunctionModel::empty(address as nat, id@, num_params as nat),
    {
        let r = Function {
            address,
            reference: FunctionReference::new(id),
            num_params,
            instructions: Vec::new(),
        };
        assert(r@.instructions =~= Seq::empty());
        r
    }

    /// Returns the ID of the function.
    pub fn id(&self) -> (r: &str)
        ensures
            r@ == self@.id,
    {
        self.reference.id()
    }

    /// Returns the address of the function.
    pub fn address(&self) -> (r: usize)
        ensures
            r == self@.address,
    {
        self.address
    }

    /// Returns the number of parameters of the function.
    pub fn num_params(&self) -> (r: u8)
        ensures
            r == self@.num_params,
    {
        self.num_params
    }

    /// Returns the instructions within the function.
    pub fn instructions(self) -> (r: Vec<Instruction>)
        ensures
            instruction_models(r@) == self@.instructions,
    {
        self.instructions
    }

    /// Adds an instruction to the function.
    pub fn add_instruction(&mut self, instr: Instruction)
        ensures
            final(self)@ == old(self)@.with_instruction(instr@),
    {
        self.instructions.push(instr);
        assert(instruction_models(self.instructions@) =~= instruction_models(
            old(self).instructions@,
        ).push(instr@));
    }

    /// Returns a reference to the function. Can be used for referring
    /// to calls of the function within instructions.
    pub fn get_reference(&self) -> (r: FunctionReference)
        ensures
            r@ == self@.id,
    {
        FunctionReference::new(self.reference.id().to_owned())
    }

    /// Returns the disassembly for the function as a vector of disassembly lines.
    pub fn get_disassembly(&self) -> (dis: Vec<String>)
        ensures
            line_texts(dis@) == self@.disassembly(),
    {
        let mut func_line = "function ".to_owned();
        func_line.append(self.reference.name());
        func_line.append("(");
        let ghost head = func_line@;
        let ghost names = parameter_names(self.num_params as nat);
        let mut i: u8 = 0;
        while i < self.num_params
            invariant
                i <= self.num_params,
                names == parameter_names(self.num_params as nat),
                func_line@ == head + join_text(names.take(i as int), ", "@),
            decreases self.num_params - i,
        {
            if i > 0 {
                func_line.append(", ");
            }
            func_line.append("param_");
            push_decimal(&mut func_line, i as usize);
            proof {
                assert(names.take(i + 1).drop_last() =~= names.take(i as int));
                assert(func_line@ =~= head + join_text(names.take(i + 1), ", "@));
            }
            i = i + 1;
        }
        func_line.append(")");
        proof {
            assert(names.take(i as int) =~= names);
            assert(func_line@ =~= self@.header());
        }

        let mut dis: Vec<String> = Vec::new();
        dis.push(func_line);
        let mut k: usize = 0;
        while k < self.instructions.len()
            invariant
                k <= self.instructions.len(),
                line_texts(dis@) =~= self@.disassembly().take(k + 1),
            decreases self.instructions.len() - k,
        {
            let mut line = "\t".to_owned();
            let text = self.instructions[k].to_string();
            line.append(text.as_str());
            dis.push(line);
            proof {
                let all = self@.disassembly();
                assert(all.len() == self.instructions.len() + 1);
                assert(all[k + 1] == "\t"@ + self.instructions[k as int]@.text());
                assert(line@ =~= all[k + 1]);
                assert(all.take(k + 2) =~= all.take(k + 1).push(all[k + 1]));
                assert(line_texts(dis@) =~= line_texts(dis@.drop_last()).push(line@));
            }
            k = k + 1;
        }
        assert(self@.disassembly().take(k + 1) =~= self@.disassembly());
        dis
    }
}

impl Variable for Function {
    open spec fn formatted(&self) -> Seq<char> {
        self@.name()
    }

    fn name(&self) -> (r: &str) {
        self.reference.name()
    }
}

} // verus!
