//! The decoder that recovers functions and instructions from a character stream.

use vstd::prelude::*;
use vstd::string::*;
use crate::disassembler::decoding::{
    callee_from, first_index_from, lookahead, operation, reserved, variable_operand,
    DisassemblerModel, DisassemblyError, FIRST_PARAMETER_DIGIT, LOOKAHEAD, PARAMETER_COUNT,
};
use crate::disassembler::function::{addresses_increasing, Function, FunctionModel};
use crate::disassembler::instruction::{Instruction, Mnemonic};
use crate::disassembler::operand::{GlobalVariable, Literal, Operand, OperandModel, Parameter};
use crate::text::{chars_of, line_texts};

verus! {

/// The models of a sequence of functions, in order.
pub open spec fn function_models(functions: Seq<Function>) -> Seq<FunctionModel> {
    functions.map_values(|f: Function| f@)
}

/// The disassembly of a sequence of functions: that of each function in order, each followed
/// by an empty line.
pub open spec fn listing(functions: Seq<FunctionModel>) -> Seq<Seq<char>>
    decreases functions.len(),
{
    if functions.len() == 0 {
        Seq::empty()
    } else {
        listing(functions.drop_last()) + functions.last().disassembly() + seq![Seq::<char>::empty()]
    }
}

/// A decoder of bytecode, holding the functions it has recovered.
#[derive(Debug)]
pub struct Disassembler {
    bytecode: Vec<char>,
    base_address: usize,
    pos: usize,
    functions: Vec<Function>,
    current_function_index: Option<usize>,
}

impl View for Disassembler {
    type V = DisassemblerModel;

    closed spec fn view(&self) -> DisassemblerModel {
        DisassemblerModel {
            bytecode: self.bytecode@,
            base_address: self.base_address as nat,
            pos: self.pos as nat,
            functions: function_models(self.functions@),
            current: match self.current_function_index {
                Some(i) => Some(i as nat),
                None => None,
            },
        }
    }
}

/// Tells whether a letter or digit is an operation rather than a variable.
pub fn is_reserved(c: char) -> (r: bool)
    ensures
        r == reserved(c),
{
    c == 'm' || c == 'M' || c == '0' || c == '1'
}

/// Returns the mnemonic and operands that an operation character stands for, if it is one.
pub fn decode_operation(c: char) -> (r: Option<(Mnemonic, Vec<Operand>)>)
    ensures
        match r {
            Some((mnemonic, operands)) => operation(c) == Some(
                (mnemonic, crate::disassembler::operand::operand_models(operands@)),
            ),
            None => operation(c) is None,
        },
{
    let mut operands: Vec<Operand> = Vec::new();
    let mnemonic = match c {
        '+' => Mnemonic::ADD,
        '-' => Mnemonic::SUB,
        '*' => Mnemonic::MUL,
        '/' => Mnemonic::DIV,
        'm' => Mnemonic::MIN,
        'M' => Mnemonic::MAX,
        '0' => {
            operands.push(Operand::Literal(Literal::ZERO));
            Mnemonic::PUSH
        },
        '1' => {
            operands.push(Operand::Literal(Literal::INFINITY));
            Mnemonic::PUSH
        },
        '\'' => Mnemonic::FRAC,
        '!' => Mnemonic::NEG,
        '.' => Mnemonic::POP,
        _ => {
            return None;
        },
    };
    proof {
        let models = crate::disassembler::operand::operand_models(operands@);
        if c == '0' {
            assert(models =~= seq![OperandModel::Literal(Literal::ZERO)]);
        } else if c == '1' {
            assert(models =~= seq![OperandModel::Literal(Literal::INFINITY)]);
        } else {
            assert(models =~= Seq::empty());
        }
    }
    Some((mnemonic, operands))
}

impl Disassembler {
    /// The decoder's invariant.
    pub open spec fn wf(&self) -> bool {
        self@.wf()
    }

    /// Creates a new disassembler.
    pub fn new(bytecode: String) -> (r: Disassembler)
        ensures
            r.wf(),
            r@ == DisassemblerModel::initial(bytecode@),
    {
        let r = Disassembler {
            bytecode: chars_of(bytecode.as_str()),
            base_address: 0,
            pos: 0,
            functions: Vec::new(),
            current_function_index: None,
        };
        assert(r@.functions =~= Seq::empty());
        assert(r.bytecode.len() == r.bytecode@.len());
        r
    }

    /// Returns the vector of functions.
    pub fn functions(self) -> (r: Vec<Function>)
        ensures
            function_models(r@) == self@.functions,
            self.wf() ==> forall|f: int|
                0 <= f < r@.len() ==> addresses_increasing(#[trigger] r@[f]@.instructions),
    {
        proof {
            assert forall|f: int|
                0 <= f < self.functions@.len() && self.wf() implies addresses_increasing(
                #[trigger] self.functions@[f]@.instructions,
            ) by {
                assert(self@.functions[f] == self.functions@[f]@);
            }
        }
        self.functions
    }

    /// Returns the address of the first character of the current stream.
    pub fn base_address(&self) -> (r: usize)
        ensures
            r == self@.base_address,
    {
        self.base_address
    }

    /// Returns the index of the next character to decode.
    pub fn pos(&self) -> (r: usize)
        ensures
            r == self@.pos,
    {
        self.pos
    }

    /// Reads the next byte from the bytecode and advances the position.
    fn read_byte(&mut self) -> (byte: char)
        requires
            old(self)@.pos < old(self)@.bytecode.len(),
        ensures
            byte == old(self)@.bytecode[old(self)@.pos as int],
            final(self)@ == old(self)@.advanced(),
    {
        let byte = self.bytecode[self.pos];
        assert(self.bytecode.len() == self.bytecode@.len());
        self.pos += 1;
        return byte;
    }

    /// Reads the next byte from the bytecode, without advancing the position.
    fn peek_byte(&self) -> (byte: char)
        requires
            self@.pos < self@.bytecode.len(),
        ensures
            byte == self@.bytecode[self@.pos as int],
    {
        return self.bytecode[self.pos];
    }

    /// Advances the position.
    fn advance(&mut self)
        requires
            old(self)@.pos < old(self)@.bytecode.len(),
        ensures
            final(self)@ == old(self)@.advanced(),
    {
        assert(self.bytecode.len() == self.bytecode@.len());
        self.pos += 1;
    }

    /// Adds an instruction to the current function being disassembled.
    fn add_instruction(&mut self, instr: Instruction) -> (r: Result<(), DisassemblyError>)
        requires
            old(self)@.current matches Some(i) ==> i < old(self)@.functions.len(),
        ensures
            (final(self)@, r) == old(self)@.emit(instr@),
    {
        match self.current_function_index {
            Some(i) => {
                self.functions[i].add_instruction(instr);
                assert(self@.functions =~= old(self)@.functions.update(
                    i as int,
                    old(self)@.functions[i as int].with_instruction(instr@),
                ));
                Ok(())
            },
            None => Err(DisassemblyError::NoCurrentFunction),
        }
    }

    /// Opens a new, empty function with the given address and id.
    fn open_function(&mut self, address: usize, id: String)
        ensures
            final(self)@ == old(self)@.opened(address as nat, id@),
    {
        let func = Function::new(address, id, PARAMETER_COUNT);
        let index = self.functions.len();
        self.functions.push(func);
        self.current_function_index = Some(index);
        assert(self@.functions =~= old(self)@.functions.push(
            FunctionModel::empty(address as nat, id@, PARAMETER_COUNT as nat),
        ));
    }

    /// Tells whether the characters that the lookahead reaches start with `id`.
    fn lookahead_starts_with(&self, id: &str) -> (r: bool)
        requires
            self@.pos <= self@.bytecode.len(),
        ensures
            r == id@.is_prefix_of(lookahead(self@.bytecode, self@.pos as int)),
    {
        let ghost window = lookahead(self@.bytecode, self@.pos as int);
        let id_length = id.unicode_len();
        let rest = self.bytecode.len() - self.pos;
        let reach = if rest > LOOKAHEAD {
            LOOKAHEAD
        } else {
            rest
        };
        assert(window.len() == reach);
        if id_length > reach {
            return false;
        }
        let mut k: usize = 0;
        while k < id_length
            invariant
                k <= id_length,
                id_length == id@.len(),
                id_length <= reach,
                reach == window.len(),
                window == lookahead(self@.bytecode, self@.pos as int),
                self.pos + reach <= self.bytecode.len(),
                forall|j: int| 0 <= j < k ==> id@[j] == window[j],
            decreases id_length - k,
        {
            if id.get_char(k) != self.bytecode[self.pos + k] {
                assert(id@[k as int] != window[k as int]);
                assert(id@ != window.subrange(0, id@.len() as int));
                return false;
            }
            k = k + 1;
        }
        assert(id@ =~= window.subrange(0, id@.len() as int));
        true
    }

    /// Finds the function that a call at the current position refers to: the first whose
    /// id the lookahead starts with.
    fn find_callee(&self) -> (r: Option<usize>)
        requires
            self@.pos <= self@.bytecode.len(),
        ensures
            match r {
                Some(f) => callee_from(
                    self@.functions,
                    lookahead(self@.bytecode, self@.pos as int),
                    0,
                ) == Some(f as int) && f < self@.functions.len(),
                None => callee_from(
                    self@.functions,
                    lookahead(self@.bytecode, self@.pos as int),
                    0,
                ) is None,
            },
    {
        let ghost window = lookahead(self@.bytecode, self@.pos as int);
        let mut f: usize = 0;
        while f < self.functions.len()
            invariant
                f <= self.functions.len(),
                self@.pos <= self@.bytecode.len(),
                window == lookahead(self@.bytecode, self@.pos as int),
                callee_from(self@.functions, window, 0) == callee_from(
                    self@.functions,
                    window,
                    f as int,
                ),
            decreases self.functions.len() - f,
        {
            if self.lookahead_starts_with(self.functions[f].id()) {
                return Some(f);
            }
            f = f + 1;
        }
        None
    }

    /// Reads a function id up to the `:` that closes it and opens the function, whose
    /// address is that of the `:` before the id. Fails if the stream ends first.
    fn read_function(&mut self, address: usize) -> (r: Result<(), DisassemblyError>)
        requires
            old(self)@.pos <= old(self)@.bytecode.len(),
        ensures
            ({
                let before = old(self)@;
                let end = first_index_from(before.bytecode, ':', before.pos as int);
                if end < before.bytecode.len() {
                    &&& r == Ok::<(), DisassemblyError>(())
                    &&& final(self)@ == DisassemblerModel {
                        pos: (end + 1) as nat,
                        ..before
                    }.opened(address as nat, before.bytecode.subrange(before.pos as int, end))
                } else {
                    &&& r == Err::<(), DisassemblyError>(DisassemblyError::UnterminatedName)
                    &&& final(self)@ == DisassemblerModel { pos: before.bytecode.len(), ..before }
                }
            }),
    {
        let start = self.pos;
        let length = self.bytecode.len();
        let mut name = String::new();
        let mut end: usize = start;
        while end < length && self.bytecode[end] != ':'
            invariant
                start <= end <= length,
                length == self.bytecode@.len(),
                name@ == self.bytecode@.subrange(start as int, end as int),
                first_index_from(self.bytecode@, ':', start as int) == first_index_from(
                    self.bytecode@,
                    ':',
                    end as int,
                ),
                *self == *old(self),
            decreases length - end,
        {
            name.push(self.bytecode[end]);
            end = end + 1;
            assert(name@ =~= self.bytecode@.subrange(start as int, end as int));
        }
        if end < length {
            self.pos = end + 1;
            self.open_function(address, name);
            Ok(())
        } else {
            self.pos = length;
            Err(DisassemblyError::UnterminatedName)
        }
    }

    /// Decodes the next character of the stream.
    fn decode_next(&mut self) -> (r: Result<(), DisassemblyError>)
        requires
            old(self).wf(),
            old(self)@.pos < old(self)@.bytecode.len(),
        ensures
            final(self).wf(),
            (final(self)@, r) == old(self)@.step(),
    {
        proof {
            old(self)@.lemma_step_wf();
        }
        let address = self.base_address + self.pos;
        let opcode = self.read_byte();

        if opcode == ';' {
            // the delimiter closes the function that is open
            if let Some(_) = self.current_function_index {
                let instr = Instruction::new(address, Mnemonic::RET, Vec::new());
                assert(instr@.operands =~= Seq::empty());
                let done = self.add_instruction(instr);
                self.current_function_index = None;
                done
            } else {
                Ok(())
            }
        } else if opcode.is_alphanumeric() && !is_reserved(opcode) {
            // push global variable or parameter
            if self.pos < self.bytecode.len() && self.peek_byte() == '=' {
                self.advance();
                return Err(DisassemblyError::UnsupportedStore);
            }
            let operand = if opcode.is_alphabetic() {
                // letters correspond to global variables
                let mut name = String::new();
                name.push(opcode);
                assert(name@ =~= seq![opcode]);
                Operand::GlobalVariable(GlobalVariable::new(name))
            } else {
                // numbers correspond to parameters
                let param_index = (opcode as usize) - FIRST_PARAMETER_DIGIT;
                Operand::Parameter(Parameter::new(param_index))
            };
            let mut operands: Vec<Operand> = Vec::new();
            operands.push(operand);
            let instr = Instruction::new(address, Mnemonic::PUSH, operands);
            assert(instr@.operands =~= seq![variable_operand(opcode)]);
            let done = self.add_instruction(instr);
            done
        } else if opcode == ':' {
            // create function
            let done = self.read_function(address);
            done
        } else if opcode == '^' {
            // call function
            match self.find_callee() {
                Some(f) => {
                    let callee = Operand::FunctionReference(self.functions[f].get_reference());
                    let mut operands: Vec<Operand> = Vec::new();
                    operands.push(callee);
                    let instr = Instruction::new(address, Mnemonic::CALL, operands);
                    assert(instr@.operands =~= seq![
                        OperandModel::FunctionReference(old(self)@.functions[f as int].id),
                    ]);
                    let done = self.add_instruction(instr);
                        done
                },
                None => {
                    Err(DisassemblyError::UnknownCallee)
                },
            }
        } else {
            match decode_operation(opcode) {
                Some((mnemonic, operands)) => {
                    let done = self.add_instruction(Instruction::new(address, mnemonic, operands));
                        done
                },
                None => {
                        Ok(())
                },
            }
        }
    }

    /// Disassembles the current bytecode from the current position to its end.
    ///
    /// Stops at the first character that cannot be decoded and returns why; what was decoded
    /// before it stays.
    pub fn disassemble(&mut self) -> (r: Result<(), DisassemblyError>)
        requires
            old(self).wf(),
        ensures
            final(self).wf(),
            (final(self)@, r) == old(self)@.run(),
    {
        let bytecode_length = self.bytecode.len();
        while self.pos < bytecode_length
            invariant
                self.wf(),
                bytecode_length == self@.bytecode.len(),
                self@.run() == old(self)@.run(),
            decreases self@.bytecode.len() - self@.pos,
        {
            proof {
                self@.lemma_step_advances();
            }
            let done = self.decode_next();
            if done.is_err() {
                return done;
            }
        }
        Ok(())
    }

    /// Disassembles a new snippet of bytecode into a function of its own, named
    /// `snippet_name`, at addresses that go on from where the previous stream was left.
    pub fn disassemble_snippet(&mut self, snippet_name: String, bytecode: String) -> (r: Result<
        (),
        DisassemblyError,
    >)
        requires
            old(self).wf(),
            old(self)@.base_address + old(self)@.pos + bytecode@.len() <= usize::MAX,
        ensures
            final(self).wf(),
            (final(self)@, r) == old(self)@.begin_snippet(snippet_name@, bytecode@).run(),
    {
        let address = self.base_address + self.pos;
        self.open_function(address, snippet_name);
        self.bytecode = chars_of(bytecode.as_str());
        self.base_address = address;  // update base address
        self.pos = 0;  // reset pos within bytecode
        proof {
            assert(self@ == old(self)@.begin_snippet(snippet_name@, bytecode@));
            old(self)@.lemma_begin_snippet_wf(snippet_name@, bytecode@);
        }
        self.disassemble()
    }

    /// Returns the disassembly as a vector of disassembly lines.
    pub fn get_disassembly(&self) -> (dis: Vec<String>)
        ensures
            line_texts(dis@) == listing(self@.functions),
    {
        let mut dis: Vec<String> = Vec::new();
        let mut f: usize = 0;
        while f < self.functions.len()
            invariant
                f <= self.functions.len(),
                line_texts(dis@) == listing(self@.functions.take(f as int)),
            decreases self.functions.len() - f,
        {
            let ghost before = dis@;
            let mut lines = self.functions[f].get_disassembly();
            let ghost added = lines@;
            dis.append(&mut lines);
            dis.push(String::new());  // empty line to separate functions
            proof {
                let taken = self@.functions.take(f + 1);
                assert(taken.drop_last() =~= self@.functions.take(f as int));
                assert(taken.last() == self.functions[f as int]@);
                assert(line_texts(dis@) =~= line_texts(before) + line_texts(added) + seq![
                    Seq::<char>::empty(),
                ]);
            }
            f = f + 1;
        }
        assert(self@.functions.take(f as int) =~= self@.functions);
        dis
    }
}

} // verus!
