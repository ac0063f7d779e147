//! What decoding a character stream means, stated over the models of the data.

use vstd::prelude::*;
use vstd::string::*;
use crate::disassembler::function::{addresses_increasing, FunctionModel};
use crate::disassembler::instruction::{InstructionModel, Mnemonic};
use crate::disassembler::operand::{Literal, OperandModel};
use crate::glyph::{alphabetic, alphanumeric};
use crate::text::decimal_text;

verus! {

/// Why decoding stopped before the end of the stream.
#[derive(Debug, Clone, Copy, PartialEq, Eq, Structural)]
pub enum DisassemblyError {
    /// A `^` is followed by the id of no function decoded so far.
    UnknownCallee,
    /// A variable is followed by `=`; storing into a variable is not part of the language.
    UnsupportedStore,
    /// An instruction was met while no function was open.
    NoCurrentFunction,
    /// A `:` opens a function id that no second `:` closes.
    UnterminatedName,
}

impl DisassemblyError {
    /// The message that reports the error.
    pub open spec fn text(self) -> Seq<char> {
        match self {
            DisassemblyError::UnknownCallee => "Unknown function callee"@,
            DisassemblyError::UnsupportedStore =>
                "Storing variables as result of subroutines not implemented"@,
            DisassemblyError::NoCurrentFunction =>
                "Tried to add an instruction when there is no current function"@,
            DisassemblyError::UnterminatedName => "Function id is not closed by a colon"@,
        }
    }

    /// Returns the message that reports the error.
    pub fn message(&self) -> (r: String)
        ensures
            r@ == self.text(),
    {
        match self {
            DisassemblyError::UnknownCallee => "Unknown function callee".to_owned(),
            DisassemblyError::UnsupportedStore =>
                "Storing variables as result of subroutines not implemented".to_owned(),
            DisassemblyError::NoCurrentFunction =>
                "Tried to add an instruction when there is no current function".to_owned(),
            DisassemblyError::UnterminatedName => "Function id is not closed by a colon".to_owned(),
        }
    }
}

/// How many characters after a `^` are looked at to find the callee's id.
pub const LOOKAHEAD: usize = 10;

/// The number of parameters every decoded function is given.
pub const PARAMETER_COUNT: u8 = 8;

/// The code point of the digit that stands for the first parameter.
pub const FIRST_PARAMETER_DIGIT: usize = 50;

/// The letters and digits that are operations rather than variables.
pub open spec fn reserved(c: char) -> bool {
    c == 'm' || c == 'M' || c == '0' || c == '1'
}

/// Whether the character names a global variable or a parameter.
pub open spec fn names_variable(c: char) -> bool {
    alphanumeric(c) && !reserved(c)
}

/// The operand a variable character pushes: a letter names a global variable, anything else
/// the parameter whose index is the code point less that of `2`.
pub open spec fn variable_operand(c: char) -> OperandModel {
    if alphabetic(c) {
        OperandModel::GlobalVariable(seq![c])
    } else {
        OperandModel::Parameter((c as int - FIRST_PARAMETER_DIGIT) as nat)
    }
}

/// The mnemonic and operands that an operation character stands for, if it is one.
pub open spec fn operation(c: char) -> Option<(Mnemonic, Seq<OperandModel>)> {
    if c == '+' {
        Some((Mnemonic::ADD, Seq::empty()))
    } else if c == '-' {
        Some((Mnemonic::SUB, Seq::empty()))
    } else if c == '*' {
        Some((Mnemonic::MUL, Seq::empty()))
    } else if c == '/' {
        Some((Mnemonic::DIV, Seq::empty()))
    } else if c == 'm' {
        Some((Mnemonic::MIN, Seq::empty()))
    } else if c == 'M' {
        Some((Mnemonic::MAX, Seq::empty()))
    } else if c == '0' {
        Some((Mnemonic::PUSH, seq![OperandModel::Literal(Literal::ZERO)]))
    } else if c == '1' {
        Some((Mnemonic::PUSH, seq![OperandModel::Literal(Literal::INFINITY)]))
    } else if c == '\'' {
        Some((Mnemonic::FRAC, Seq::empty()))
    } else if c == '!' {
        Some((Mnemonic::NEG, Seq::empty()))
    } else if c == '.' {
        Some((Mnemonic::POP, Seq::empty()))
    } else {
        None
    }
}

/// The first index at or after `from` at which `s` holds `c`, or the length of `s` if there
/// is none.
pub open spec fn first_index_from(s: Seq<char>, c: char, from: int) -> int
    decreases s.len() - from,
{
    if from >= s.len() {
        s.len() as int
    } else if s[from] == c {
        from
    } else {
        first_index_from(s, c, from + 1)
    }
}

/// The index found lies between `from` and the length, holds `c` if it is an index, and no
/// index before it from `from` on holds `c`.
pub proof fn lemma_first_index_from(s: Seq<char>, c: char, from: int)
    requires
        0 <= from <= s.len(),
    ensures
        from <= first_index_from(s, c, from) <= s.len(),
        first_index_from(s, c, from) < s.len() ==> s[first_index_from(s, c, from)] == c,
        forall|k: int| from <= k < first_index_from(s, c, from) ==> s[k] != c,
    decreases s.len() - from,
{
    if from < s.len() && s[from] != c {
        lemma_first_index_from(s, c, from + 1);
    }
}

/// The characters looked at after a `^` at `pos - 1`: up to `LOOKAHEAD` of them.
pub open spec fn lookahead(bytecode: Seq<char>, pos: int) -> Seq<char> {
    if pos + LOOKAHEAD <= bytecode.len() {
        bytecode.subrange(pos, pos + LOOKAHEAD)
    } else {
        bytecode.subrange(pos, bytecode.len() as int)
    }
}

/// The index of the first function at or after `from` whose id the window starts with.
pub open spec fn callee_from(functions: Seq<FunctionModel>, window: Seq<char>, from: int) -> Option<
    int,
>
    decreases functions.len() - from,
{
    if from >= functions.len() {
        None
    } else if functions[from].id.is_prefix_of(window) {
        Some(from)
    } else {
        callee_from(functions, window, from + 1)
    }
}

/// The callee found is the first function from `from` on whose id the window starts with;
/// none is found exactly when there is no such function.
pub proof fn lemma_callee_from(functions: Seq<FunctionModel>, window: Seq<char>, from: int)
    requires
        0 <= from <= functions.len(),
    ensures
        match callee_from(functions, window, from) {
            Some(f) => {
                &&& from <= f < functions.len()
                &&& functions[f].id.is_prefix_of(window)
                &&& forall|g: int| from <= g < f ==> !functions[g].id.is_prefix_of(window)
            },
            None => forall|g: int|
                from <= g < functions.len() ==> !functions[g].id.is_prefix_of(window),
        },
    decreases functions.len() - from,
{
    if from < functions.len() && !functions[from].id.is_prefix_of(window) {
        lemma_callee_from(functions, window, from + 1);
    }
}

/// Whether one of the functions has the given id.
pub open spec fn known_id(functions: Seq<FunctionModel>, id: Seq<char>) -> bool {
    exists|g: int| 0 <= g < functions.len() && #[trigger] functions[g].id == id
}

/// Whether every function that the instruction refers to is among the given functions.
pub open spec fn references_known(
    functions: Seq<FunctionModel>,
    instruction: InstructionModel,
) -> bool {
    forall|o: int|
        0 <= o < instruction.operands.len() ==> (
        #[trigger] instruction.operands[o] matches OperandModel::FunctionReference(id) ==> known_id(
            functions,
            id,
        ))
}

/// What an instruction refers to stays known when functions are added and none changes its
/// id.
pub proof fn lemma_references_stay_known(
    before: Seq<FunctionModel>,
    after: Seq<FunctionModel>,
    instruction: InstructionModel,
)
    requires
        before.len() <= after.len(),
        forall|g: int| 0 <= g < before.len() ==> (#[trigger] after[g]).id == before[g].id,
        references_known(before, instruction),
    ensures
        references_known(after, instruction),
{
    assert forall|o: int| 0 <= o < instruction.operands.len() implies (
    #[trigger] instruction.operands[o] matches OperandModel::FunctionReference(id) ==> known_id(
        after,
        id,
    )) by {
        if let OperandModel::FunctionReference(id) = instruction.operands[o] {
            assert(known_id(before, id));
            let g = choose|g: int| 0 <= g < before.len() && #[trigger] before[g].id == id;
            assert(after[g].id == id);
        }
    }
}

/// The state of a decoder: the stream and the place in it, and the functions recovered so
/// far.
pub struct DisassemblerModel {
    /// The stream being decoded.
    pub bytecode: Seq<char>,
    /// The address of the stream's first character.
    pub base_address: nat,
    /// The index of the next character to decode.
    pub pos: nat,
    /// The functions recovered so far, in the order in which they were met.
    pub functions: Seq<FunctionModel>,
    /// The index of the function that instructions are added to, if one is open.
    pub current: Option<nat>,
}

impl DisassemblerModel {
    /// A decoder at the start of `bytecode`, with no function recovered.
    pub open spec fn initial(bytecode: Seq<char>) -> DisassemblerModel {
        DisassemblerModel {
            bytecode,
            base_address: 0,
            pos: 0,
            functions: Seq::empty(),
            current: None,
        }
    }

    /// The address of the next character to decode.
    pub open spec fn address(self) -> nat {
        self.base_address + self.pos
    }

    /// The decoder one character further on.
    pub open spec fn advanced(self) -> DisassemblerModel {
        DisassemblerModel { pos: self.pos + 1, ..self }
    }

    /// The decoder with no function open.
    pub open spec fn closed(self) -> DisassemblerModel {
        DisassemblerModel { current: None, ..self }
    }

    /// The decoder with a new, empty function opened at the current address.
    pub open spec fn opened(self, address: nat, id: Seq<char>) -> DisassemblerModel {
        DisassemblerModel {
            functions: self.functions.push(
                FunctionModel::empty(address, id, PARAMETER_COUNT as nat),
            ),
            current: Some(self.functions.len()),
            ..self
        }
    }

    /// Adds an instruction to the open function; fails if none is open.
    pub open spec fn emit(self, instruction: InstructionModel) -> (
        DisassemblerModel,
        Result<(), DisassemblyError>,
    ) {
        match self.current {
            Some(i) => (
                DisassemblerModel {
                    functions: self.functions.update(
                        i as int,
                        self.functions[i as int].with_instruction(instruction),
                    ),
                    ..self
                },
                Ok(()),
            ),
            None => (self, Err(DisassemblyError::NoCurrentFunction)),
        }
    }

    /// Decodes the character at `pos`, which must be inside the stream.
    ///
    /// The character is consumed first and gives the address of whatever is emitted for it.
    /// A `;` closes the open function with a `RET`, or does nothing if none is open. A
    /// variable character followed by `=` is refused; otherwise it pushes its operand. A
    /// `:` opens a function whose id runs up to the next `:`. A `^` calls the first function
    /// whose id the following characters start with, and leaves those characters to be
    /// decoded in their turn. An operation character emits its instruction, and any other
    /// character is passed over.
    pub open spec fn step(self) -> (DisassemblerModel, Result<(), DisassemblyError>) {
        let c = self.bytecode[self.pos as int];
        let address = self.address();
        let read = self.advanced();
        if c == ';' {
            if self.current is Some {
                let (emitted, done) = read.emit(
                    InstructionModel { address, mnemonic: Mnemonic::RET, operands: Seq::empty() },
                );
                (emitted.closed(), done)
            } else {
                (read, Ok(()))
            }
        } else if names_variable(c) {
            if read.pos < self.bytecode.len() && self.bytecode[read.pos as int] == '=' {
                (read.advanced(), Err(DisassemblyError::UnsupportedStore))
            } else {
                read.emit(
                    InstructionModel {
                        address,
                        mnemonic: Mnemonic::PUSH,
                        operands: seq![variable_operand(c)],
                    },
                )
            }
        } else if c == ':' {
            let end = first_index_from(self.bytecode, ':', read.pos as int);
            if end < self.bytecode.len() {
                (
                    DisassemblerModel { pos: (end + 1) as nat, ..self }.opened(
                        address,
                        self.bytecode.subrange(read.pos as int, end),
                    ),
                    Ok(()),
                )
            } else {
                (
                    DisassemblerModel { pos: self.bytecode.len(), ..self },
                    Err(DisassemblyError::UnterminatedName),
                )
            }
        } else if c == '^' {
            match callee_from(self.functions, lookahead(self.bytecode, read.pos as int), 0) {
                Some(f) => read.emit(
                    InstructionModel {
                        address,
                        mnemonic: Mnemonic::CALL,
                        operands: seq![OperandModel::FunctionReference(self.functions[f].id)],
                    },
                ),
                None => (read, Err(DisassemblyError::UnknownCallee)),
            }
        } else {
            match operation(c) {
                Some((mnemonic, operands)) => read.emit(
                    InstructionModel { address, mnemonic, operands },
                ),
                None => (read, Ok(())),
            }
        }
    }

    /// Decodes from `pos` to the end of the stream, or up to the first character that fails.
    pub open spec fn run(self) -> (DisassemblerModel, Result<(), DisassemblyError>)
        decreases self.bytecode.len() - self.pos,
        via Self::run_decreases
    {
        if self.pos >= self.bytecode.len() {
            (self, Ok(()))
        } else {
            let (next, done) = self.step();
            if done is Err {
                (next, done)
            } else {
                next.run()
            }
        }
    }

    #[via_fn]
    proof fn run_decreases(self) {
        if self.pos < self.bytecode.len() {
            self.lemma_step_advances();
        }
    }

    /// The decoder as a new pass starts: a function named `name` is opened at the current
    /// address, the stream is replaced by `snippet`, and addresses go on from where the
    /// previous stream was left.
    pub open spec fn begin_snippet(self, name: Seq<char>, snippet: Seq<char>) -> DisassemblerModel {
        DisassemblerModel {
            bytecode: snippet,
            base_address: self.base_address + self.pos,
            pos: 0,
            ..self.opened(self.address(), name)
        }
    }

    /// The decoder's invariant: the place lies within the stream, every address of the
    /// stream fits a machine word, the open function exists, the addresses within each
    /// function grow strictly, those of the open function lie behind the place, and every
    /// function that an instruction refers to has been recovered.
    pub open spec fn wf(self) -> bool {
        &&& forall|f: int, k: int|
            0 <= f < self.functions.len() && 0 <= k < self.functions[f].instructions.len()
                ==> references_known(self.functions, #[trigger] self.functions[f].instructions[k])
        &&& self.pos <= self.bytecode.len()
        &&& self.base_address + self.bytecode.len() <= usize::MAX
        &&& self.current matches Some(i) ==> i < self.functions.len()
        &&& forall|f: int|
            0 <= f < self.functions.len() ==> addresses_increasing(
                #[trigger] self.functions[f].instructions,
            )
        &&& self.current matches Some(i) ==> forall|k: int|
            0 <= k < self.functions[i as int].instructions.len()
                ==> #[trigger] self.functions[i as int].instructions[k].address < self.address()
    }

    /// A new decoder keeps the invariant, provided the addresses of its stream fit a machine
    /// word.
    pub proof fn lemma_initial_wf(bytecode: Seq<char>)
        requires
            bytecode.len() <= usize::MAX,
        ensures
            DisassemblerModel::initial(bytecode).wf(),
    {
    }

    /// Within every function the addresses of the instructions grow strictly: of two
    /// instructions of one function, the earlier has the smaller address. This holds of
    /// every decoder that keeps the invariant, so of a new one and of all that decoding
    /// and new passes make of it.
    pub proof fn lemma_addresses_increase(self, f: int, i: int, j: int)
        requires
            self.wf(),
            0 <= f < self.functions.len(),
            0 <= i < j < self.functions[f].instructions.len(),
        ensures
            self.functions[f].instructions[i].address < self.functions[f].instructions[j].address,
    {
        assert(addresses_increasing(self.functions[f].instructions));
    }

    /// A letter other than `m` and `M` pushes the global variable that it names, whose
    /// formatted name is `global_` and the letter. The letter must stand in an open
    /// function and not before a `=`.
    pub proof fn lemma_letter_pushes_global(self)
        requires
            self.pos < self.bytecode.len(),
            alphabetic(self.bytecode[self.pos as int]),
            self.bytecode[self.pos as int] != 'm',
            self.bytecode[self.pos as int] != 'M',
            self.current is Some,
            self.pos + 1 < self.bytecode.len() ==> self.bytecode[self.pos + 1 as int] != '=',
        ensures
            ({
                let operand = OperandModel::GlobalVariable(seq![self.bytecode[self.pos as int]]);
                &&& operand.text() == "global_"@ + seq![self.bytecode[self.pos as int]]
                &&& self.step() == self.advanced().emit(
                    InstructionModel {
                        address: self.address(),
                        mnemonic: Mnemonic::PUSH,
                        operands: seq![operand],
                    },
                )
                &&& self.step().1 is Ok
            }),
    {
    }

    /// A digit from `2` to `9` pushes the parameter whose index is the digit's code point
    /// less that of `2`, and whose formatted name is `param_` and that index. The digit
    /// must stand in an open function and not before a `=`.
    pub proof fn lemma_digit_pushes_parameter(self)
        requires
            self.pos < self.bytecode.len(),
            '2' <= self.bytecode[self.pos as int] <= '9',
            self.current is Some,
            self.pos + 1 < self.bytecode.len() ==> self.bytecode[self.pos + 1 as int] != '=',
        ensures
            ({
                let index = (self.bytecode[self.pos as int] as int - FIRST_PARAMETER_DIGIT) as nat;
                let operand = OperandModel::Parameter(index);
                &&& index < PARAMETER_COUNT
                &&& operand.text() == "param_"@ + decimal_text(index)
                &&& self.step() == self.advanced().emit(
                    InstructionModel {
                        address: self.address(),
                        mnemonic: Mnemonic::PUSH,
                        operands: seq![operand],
                    },
                )
                &&& self.step().1 is Ok
            }),
    {
    }

    /// A new pass starts from a decoder that keeps the invariant, provided the addresses of
    /// the snippet fit a machine word.
    pub proof fn lemma_begin_snippet_wf(self, name: Seq<char>, snippet: Seq<char>)
        requires
            self.wf(),
            self.base_address + self.pos + snippet.len() <= usize::MAX,
        ensures
            self.begin_snippet(name, snippet).wf(),
    {
        let next = self.begin_snippet(name, snippet);
        assert forall|f: int| 0 <= f < next.functions.len() implies addresses_increasing(
            #[trigger] next.functions[f].instructions,
        ) by {
            if f < self.functions.len() {
                assert(addresses_increasing(self.functions[f].instructions));
            }
        }
        assert forall|f: int, k: int|
            0 <= f < next.functions.len() && 0 <= k < next.functions[f].instructions.len()
                implies references_known(
            next.functions,
            #[trigger] next.functions[f].instructions[k],
        ) by {
            lemma_references_stay_known(
                self.functions,
                next.functions,
                self.functions[f].instructions[k],
            );
        }
    }

    /// One step moves the place forward and leaves the stream and its base address alone.
    pub proof fn lemma_step_advances(self)
        requires
            self.pos < self.bytecode.len(),
        ensures
            self.pos < self.step().0.pos <= self.bytecode.len(),
            self.step().0.bytecode == self.bytecode,
            self.step().0.base_address == self.base_address,
    {
        lemma_first_index_from(self.bytecode, ':', self.pos + 1 as int);
    }

    /// One step keeps the invariant.
    pub proof fn lemma_step_wf(self)
        requires
            self.wf(),
            self.pos < self.bytecode.len(),
        ensures
            self.step().0.wf(),
    {
        self.lemma_step_advances();
        let next = self.step().0;
        assert forall|f: int| 0 <= f < next.functions.len() implies addresses_increasing(
            #[trigger] next.functions[f].instructions,
        ) by {
            if f < self.functions.len() {
                assert(addresses_increasing(self.functions[f].instructions));
            }
        }
        let window = lookahead(self.bytecode, self.pos + 1 as int);
        lemma_callee_from(self.functions, window, 0);
        assert forall|f: int, k: int|
            0 <= f < next.functions.len() && 0 <= k < next.functions[f].instructions.len()
                implies references_known(
            next.functions,
            #[trigger] next.functions[f].instructions[k],
        ) by {
            let instruction = next.functions[f].instructions[k];
            if f < self.functions.len() && k < self.functions[f].instructions.len() {
                assert(instruction == self.functions[f].instructions[k]);
                lemma_references_stay_known(self.functions, next.functions, instruction);
            } else {
                assert forall|o: int| 0 <= o < instruction.operands.len() implies (
                #[trigger] instruction.operands[o] matches OperandModel::FunctionReference(id)
                    ==> known_id(next.functions, id)) by {
                    if let OperandModel::FunctionReference(id) = instruction.operands[o] {
                        let g = callee_from(self.functions, window, 0)->0;
                        assert(next.functions[g].id == id);
                    }
                }
            }
        }
    }

    /// Decoding keeps the invariant, moves the place forward, and leaves the stream and its
    /// base address alone.
    pub proof fn lemma_run_wf(self)
        requires
            self.wf(),
        ensures
            self.run().0.wf(),
            self.pos <= self.run().0.pos,
            self.run().0.bytecode == self.bytecode,
            self.run().0.base_address == self.base_address,
            self.run().1 is Ok ==> self.run().0.pos == self.bytecode.len(),
        decreases self.bytecode.len() - self.pos,
    {
        if self.pos < self.bytecode.len() {
            self.lemma_step_advances();
            self.lemma_step_wf();
            if self.step().1 is Ok {
                self.step().0.lemma_run_wf();
            }
        }
    }
}

} // verus!
