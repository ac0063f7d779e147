//! One symbolic execution: a position, a stack and a status.

use std::collections::HashMap;
use vstd::prelude::*;
use vstd::string::*;
use crate::disassembler::function::parameter_names;
use crate::disassembler::instruction::{Instruction, InstructionModel, Mnemonic};
use crate::disassembler::operand::{Operand, OperandModel};
use crate::symbolic::stack::{stack_text, Stack};
use crate::symbolic::symbol::{
    BinaryExpressionSymbol, BinaryOperator, CallExpressionSymbol, Expression, IdentifierSymbol,
    LiteralSymbol, Symbol, UnaryExpressionSymbol, UnaryOperator,
};
use crate::text::push_decimal;

verus! {

/// Whether an execution goes on, has ended (at a return, or where the instructions end), or
/// has failed.
#[derive(Debug, Clone, Copy, PartialEq, Eq, Structural)]
pub enum Status {
    Active,
    Terminated,
    Errored,
}

/// Why an instruction could not be executed.
#[derive(Debug, Clone, Copy, PartialEq, Eq, Structural)]
pub enum StepError {
    /// The instruction lacks an operand that its mnemonic asks for.
    MissingOperand,
    /// The instruction takes more from the stack than is on it.
    StackUnderflow,
}

impl StepError {
    /// The message that reports the error.
    pub open spec fn text(self) -> Seq<char> {
        match self {
            StepError::MissingOperand =>
                "Expected operand at index {index} but got None, bad disassembly"@,
            StepError::StackUnderflow => "Got empty stack when operand expected"@,
        }
    }

    /// Returns the message that reports the error.
    pub fn message(&self) -> (r: String)
        ensures
            r@ == self.text(),
    {
        match self {
            StepError::MissingOperand =>
                "Expected operand at index {index} but got None, bad disassembly".to_owned(),
            StepError::StackUnderflow => "Got empty stack when operand expected".to_owned(),
        }
    }
}

/// The most arguments a call takes from the stack.
pub const MAX_CALL_ARGUMENTS: usize = 8;

/// The arithmetic operator that a mnemonic applies, if it applies one.
pub open spec fn arithmetic_operator(mnemonic: Mnemonic) -> Option<BinaryOperator> {
    match mnemonic {
        Mnemonic::ADD => Some(BinaryOperator::Add),
        Mnemonic::SUB => Some(BinaryOperator::Subtract),
        Mnemonic::MUL => Some(BinaryOperator::Multiply),
        Mnemonic::DIV => Some(BinaryOperator::Divide),
        _ => None,
    }
}

/// The top `n` entries of a stack in the order in which they are popped: the top first.
pub open spec fn popped_entries(stack: Seq<Expression>, n: nat) -> Seq<Expression> {
    Seq::new(n, |k: int| stack[stack.len() - 1 - k])
}

/// The number of arguments a call takes from a stack of the given height.
pub open spec fn call_arity(height: nat) -> nat {
    if height < MAX_CALL_ARGUMENTS {
        height
    } else {
        MAX_CALL_ARGUMENTS as nat
    }
}

/// The identifiers `param_0`, `param_1`, ... of the first `n` parameters.
pub open spec fn parameter_identifiers(n: nat) -> Seq<Expression> {
    Seq::new(n, |i: int| Expression::Identifier(parameter_names(n)[i]))
}

/// What a state holds.
pub struct StateModel {
    pub id: nat,
    /// The index of the next instruction.
    pub pos: nat,
    /// The symbols bound to names.
    pub variables: Map<String, Symbol>,
    /// The stack, the top last.
    pub stack: Seq<Expression>,
    pub status: Status,
}

/// What executing an instruction gives besides the new state: the line it reports, if any,
/// or why it failed.
pub type Outcome = Result<Option<Seq<char>>, StepError>;

impl StateModel {
    /// A fresh state: active, with no variable bound and an empty stack.
    pub open spec fn initial(id: nat, pos: nat) -> StateModel {
        StateModel {
            id,
            pos,
            variables: Map::empty(),
            stack: Seq::empty(),
            status: Status::Active,
        }
    }

    /// The state with one more entry on the stack.
    pub open spec fn pushed(self, entry: Expression) -> StateModel {
        StateModel { stack: self.stack.push(entry), ..self }
    }

    /// The state with another status.
    pub open spec fn with_status(self, status: Status) -> StateModel {
        StateModel { status, ..self }
    }

    /// Takes the top entry off the stack; fails on the empty stack.
    pub open spec fn pop(self) -> (StateModel, Result<Expression, StepError>) {
        if self.stack.len() > 0 {
            (StateModel { stack: self.stack.drop_last(), ..self }, Ok(self.stack.last()))
        } else {
            (self, Err(StepError::StackUnderflow))
        }
    }

    /// Reads an operand of the instruction; a missing one fails the state.
    pub open spec fn operand(self, instruction: InstructionModel, index: nat) -> (
        StateModel,
        Result<OperandModel, StepError>,
    ) {
        if index < instruction.operands.len() {
            (self, Ok(instruction.operands[index as int]))
        } else {
            (self.with_status(Status::Errored), Err(StepError::MissingOperand))
        }
    }

    /// Pops one entry and pushes what `build` makes of it.
    pub open spec fn replace_one(self, build: spec_fn(Expression) -> Expression) -> (
        StateModel,
        Outcome,
    ) {
        let (rest, top) = self.pop();
        match top {
            Ok(x) => (rest.pushed(build(x)), Ok(None)),
            Err(e) => (rest, Err(e)),
        }
    }

    /// Pops two entries and pushes what `build` makes of them, the first popped first. With
    /// a single entry on the stack, that entry is gone when the second pop fails.
    pub open spec fn replace_two(self, build: spec_fn(Expression, Expression) -> Expression) -> (
        StateModel,
        Outcome,
    ) {
        let (rest, first) = self.pop();
        match first {
            Ok(a) => {
                let (rest, second) = rest.pop();
                match second {
                    Ok(b) => (rest.pushed(build(a, b)), Ok(None)),
                    Err(e) => (rest, Err(e)),
                }
            },
            Err(e) => (rest, Err(e)),
        }
    }

    /// Pops up to `MAX_CALL_ARGUMENTS` entries and pushes the call of `callee` on them, in
    /// the order in which they were popped. The call's text is reported.
    pub open spec fn call(self, callee: Expression) -> (StateModel, Outcome) {
        let arity = call_arity(self.stack.len());
        let call = Expression::Call(Box::new(callee), popped_entries(self.stack, arity));
        (
            StateModel { stack: self.stack.take(self.stack.len() - arity).push(call), ..self },
            Ok(Some(call.text())),
        )
    }

    /// Executes one instruction: the position moves on by one, whatever the instruction,
    /// and the mnemonic decides the rest.
    pub open spec fn execute(self, instruction: InstructionModel) -> (StateModel, Outcome) {
        let moved = StateModel { pos: self.pos + 1, ..self };
        match instruction.mnemonic {
            Mnemonic::PUSH => {
                let (read, operand) = moved.operand(instruction, 0);
                match operand {
                    Ok(o) => (read.pushed(Expression::of_operand(o)), Ok(None)),
                    Err(e) => (read, Err(e)),
                }
            },
            Mnemonic::POP => {
                let (rest, top) = moved.pop();
                match top {
                    Ok(_) => (rest, Ok(None)),
                    Err(e) => (rest, Err(e)),
                }
            },
            Mnemonic::ADD | Mnemonic::SUB | Mnemonic::MUL | Mnemonic::DIV => moved.replace_two(
                |a: Expression, b: Expression|
                    Expression::Binary(
                        arithmetic_operator(instruction.mnemonic)->0,
                        Box::new(a),
                        Box::new(b),
                    ),
            ),
            Mnemonic::FRAC => moved.replace_one(
                |x: Expression|
                    Expression::Binary(
                        BinaryOperator::Divide,
                        Box::new(Expression::Literal(LiteralSymbol::One)),
                        Box::new(x),
                    ),
            ),
            Mnemonic::NEG => moved.replace_one(
                |x: Expression| Expression::Unary(UnaryOperator::Not, Box::new(x)),
            ),
            Mnemonic::MIN | Mnemonic::MAX => moved.replace_two(
                |a: Expression, b: Expression|
                    Expression::Call(
                        Box::new(Expression::Identifier(instruction.mnemonic.text())),
                        seq![a, b],
                    ),
            ),
            Mnemonic::CALL => {
                let (read, operand) = moved.operand(instruction, 0);
                match operand {
                    Ok(o) => read.call(Expression::of_operand(o)),
                    Err(e) => (read, Err(e)),
                }
            },
            Mnemonic::RET => (
                moved.with_status(Status::Terminated),
                Ok(Some(stack_text(moved.stack))),
            ),
        }
    }

    /// Steps the state by one instruction. A failure makes the state errored and reports
    /// its message.
    pub open spec fn step(self, instruction: InstructionModel) -> (StateModel, Option<Seq<char>>) {
        let (next, outcome) = self.execute(instruction);
        match outcome {
            Ok(line) => (next, line),
            Err(e) => (next.with_status(Status::Errored), Some(e.text())),
        }
    }
}

impl StateModel {
    /// Whether the state can take a step: it is active and its position is that of an
    /// instruction.
    pub open spec fn running(self, instructions: Seq<InstructionModel>) -> bool {
        self.status == Status::Active && self.pos < instructions.len()
    }

    /// The state after `steps` steps through `instructions`, or after as many as it takes
    /// before it stops running.
    pub open spec fn after(self, instructions: Seq<InstructionModel>, steps: nat) -> StateModel
        decreases steps,
    {
        if steps == 0 {
            self
        } else {
            let before = self.after(instructions, (steps - 1) as nat);
            if before.running(instructions) {
                before.step(instructions[before.pos as int]).0
            } else {
                before
            }
        }
    }

    /// The line that the step after `steps` earlier ones reports, if the state takes that
    /// step and the step reports one.
    pub open spec fn line_at(self, instructions: Seq<InstructionModel>, steps: nat) -> Option<
        Seq<char>,
    > {
        let before = self.after(instructions, steps);
        if before.running(instructions) {
            before.step(instructions[before.pos as int]).1
        } else {
            None
        }
    }

    /// The state when it has stopped running.
    pub open spec fn finished(self, instructions: Seq<InstructionModel>) -> StateModel {
        self.after(instructions, instructions.len())
    }

    /// On a stack that is not empty, the reciprocal takes the top entry and puts in its
    /// place the quotient of the literal one by that entry; the state stays as active as it
    /// was, and nothing is reported.
    pub proof fn lemma_reciprocal(self, instruction: InstructionModel)
        requires
            instruction.mnemonic == Mnemonic::FRAC,
            self.stack.len() > 0,
        ensures
            self.step(instruction).0.stack == self.stack.drop_last().push(
                Expression::Binary(
                    BinaryOperator::Divide,
                    Box::new(Expression::Literal(LiteralSymbol::One)),
                    Box::new(self.stack.last()),
                ),
            ),
            self.step(instruction).0.stack.len() == self.stack.len(),
            self.step(instruction).0.status == self.status,
            self.step(instruction).1 is None,
    {
    }

    /// A call that names its callee takes as many arguments as the stack holds, but eight
    /// at most, and leaves in their place a call of that many arguments: the entries it
    /// took, the top first. What lay below them stays.
    pub proof fn lemma_call_arity(self, instruction: InstructionModel)
        requires
            instruction.mnemonic == Mnemonic::CALL,
            instruction.operands.len() > 0,
        ensures
            ({
                let arity = call_arity(self.stack.len());
                let after = self.step(instruction).0.stack;
                &&& arity == if self.stack.len() < 8 {
                    self.stack.len()
                } else {
                    8
                }
                &&& self.step(instruction).0.status == self.status
                &&& after.len() == self.stack.len() - arity + 1
                &&& after.drop_last() == self.stack.take(self.stack.len() - arity)
                &&& after.last() == Expression::Call(
                    Box::new(Expression::of_operand(instruction.operands[0])),
                    popped_entries(self.stack, arity),
                )
                &&& after.last() matches Expression::Call(callee, arguments)
                &&& *callee == Expression::of_operand(instruction.operands[0])
                &&& arguments.len() == arity
                &&& forall|k: int|
                    0 <= k < arity ==> arguments[k] == self.stack[self.stack.len() - 1 - k]
            }),
    {
        let arity = call_arity(self.stack.len());
        let after = self.step(instruction).0.stack;
        assert(after.drop_last() =~= self.stack.take(self.stack.len() - arity));
    }

    /// A state that steps a return is terminated right after the step, and its position
    /// has moved on by exactly one; its stack is as it was, and is what the step reports.
    pub proof fn lemma_return_terminates(self, instruction: InstructionModel)
        requires
            instruction.mnemonic == Mnemonic::RET,
        ensures
            self.step(instruction).0.status == Status::Terminated,
            self.step(instruction).0.pos == self.pos + 1,
            self.step(instruction).0.stack == self.stack,
            self.step(instruction).1 == Some(stack_text(self.stack)),
    {
    }

    /// A step moves the position on by one and keeps the id and the variables.
    pub proof fn lemma_step_moves(self, instruction: InstructionModel)
        ensures
            self.step(instruction).0.pos == self.pos + 1,
            self.step(instruction).0.id == self.id,
            self.step(instruction).0.variables == self.variables,
    {
    }

    /// A state that has stopped running stays as it is.
    pub proof fn lemma_after_stable(
        self,
        instructions: Seq<InstructionModel>,
        steps: nat,
        later: nat,
    )
        requires
            steps <= later,
            !self.after(instructions, steps).running(instructions),
        ensures
            self.after(instructions, later) == self.after(instructions, steps),
        decreases later,
    {
        if steps < later {
            self.lemma_after_stable(instructions, steps, (later - 1) as nat);
        }
    }

    /// A state that still runs after `steps` steps has run all along, and its position has
    /// moved on by `steps`.
    pub proof fn lemma_after_running(self, instructions: Seq<InstructionModel>, steps: nat)
        requires
            self.after(instructions, steps).running(instructions),
        ensures
            self.after(instructions, steps).pos == self.pos + steps,
            forall|k: nat|
                k <= steps ==> #[trigger] self.after(instructions, k).running(instructions),
        decreases steps,
    {
        if steps > 0 {
            let before = self.after(instructions, (steps - 1) as nat);
            if before.running(instructions) {
                before.lemma_step_moves(instructions[before.pos as int]);
                self.lemma_after_running(instructions, (steps - 1) as nat);
            }
        }
    }

    /// A finished state does not run, and no number of further steps changes it.
    pub proof fn lemma_finished(self, instructions: Seq<InstructionModel>, steps: nat)
        requires
            steps >= instructions.len(),
        ensures
            !self.finished(instructions).running(instructions),
            self.after(instructions, steps) == self.finished(instructions),
    {
        if self.finished(instructions).running(instructions) {
            self.lemma_after_running(instructions, instructions.len());
        }
        self.lemma_after_stable(instructions, instructions.len(), steps);
    }
}

/// The character sequence of an optional line.
pub open spec fn line_text(line: Option<String>) -> Option<Seq<char>> {
    match line {
        Some(s) => Some(s@),
        None => None,
    }
}

/// The outcome that an executable result stands for.
pub open spec fn outcome_of(r: Result<Option<String>, StepError>) -> Outcome {
    match r {
        Ok(line) => Ok(line_text(line)),
        Err(e) => Err(e),
    }
}

/// One symbolic execution.
#[derive(Debug)]
pub struct State {
    id: usize,
    pos: usize,
    variables: HashMap<String, Symbol>,
    stack: Stack,
    status: Status,
}

impl View for State {
    type V = StateModel;

    closed spec fn view(&self) -> StateModel {
        StateModel {
            id: self.id as nat,
            pos: self.pos as nat,
            variables: self.variables@,
            stack: self.stack@,
            status: self.status,
        }
    }
}

impl State {
    /// The state's invariant: that of its stack.
    pub closed spec fn wf(&self) -> bool {
        self.stack.wf()
    }

    // Creates a new state with a given pos.
    pub fn new(id: usize, pos: usize) -> (r: State)
        ensures
            r.wf(),
            r@ == StateModel::initial(id as nat, pos as nat),
    {
        State { id, pos, variables: HashMap::new(), stack: Stack::new(), status: Status::Active }
    }

    /// Returns the ID of the state.
    pub fn id(&self) -> (r: usize)
        ensures
            r == self@.id,
    {
        self.id
    }

    /// Returns the position of the state.
    pub fn pos(&self) -> (r: usize)
        ensures
            r == self@.pos,
    {
        self.pos
    }

    /// Returns the status of the state.
    pub fn status(&self) -> (r: &Status)
        ensures
            *r == self@.status,
    {
        &self.status
    }

    /// Returns the stack of the state.
    pub fn stack(&self) -> (r: &Stack)
        ensures
            r@ == self@.stack,
            self.wf() ==> r.wf(),
    {
        &self.stack
    }

    /// Marks the state as terminated.
    pub fn terminate(&mut self)
        ensures
            old(self).wf() ==> final(self).wf(),
            final(self)@ == old(self)@.with_status(Status::Terminated),
    {
        self.status = Status::Terminated;
    }

    /// Pushes parameters to the stack before the symbolic execution starts.
    pub fn push_params(&mut self, num_params: usize)
        requires
            old(self).wf(),
        ensures
            final(self).wf(),
            final(self)@ == (StateModel {
                stack: old(self)@.stack + parameter_identifiers(num_params as nat),
                ..old(self)@
            }),
    {
        let mut i: usize = 0;
        while i < num_params
            invariant
                i <= num_params,
                self.wf(),
                self@ == (StateModel {
                    stack: old(self)@.stack + parameter_identifiers(num_params as nat).take(
                        i as int,
                    ),
                    ..old(self)@
                }),
            decreases num_params - i,
        {
            let mut name = "param_".to_owned();
            push_decimal(&mut name, i);
            let param = IdentifierSymbol::new(name);
            self.stack.push(Symbol::IdentifierSymbol(param));
            proof {
                let all = parameter_identifiers(num_params as nat);
                assert(all.take(i + 1) =~= all.take(i as int).push(all[i as int]));
                assert(self@.stack =~= old(self)@.stack + all.take(i + 1));
            }
            i = i + 1;
        }
        proof {
            let all = parameter_identifiers(num_params as nat);
            assert(all.take(i as int) =~= all);
        }
    }

    /// Helper method to access the ith operand from an instruction.
    fn get_operand<'instr>(&mut self, instruction: &'instr Instruction, index: usize) -> (r:
        Result<&'instr Operand, StepError>)
        requires
            old(self).wf(),
        ensures
            final(self).wf(),
            final(self)@ == old(self)@.operand(instruction@, index as nat).0,
            match r {
                Ok(operand) => old(self)@.operand(instruction@, index as nat).1 == Ok::<
                    OperandModel,
                    StepError,
                >(operand@),
                Err(e) => old(self)@.operand(instruction@, index as nat).1 == Err::<
                    OperandModel,
                    StepError,
                >(e),
            },
    {
        let operands = instruction.operands();
        if index < operands.len() {
            Ok(&operands[index])
        } else {
            self.status = Status::Errored;
            Err(StepError::MissingOperand)
        }
    }

    /// Helper method to pop from the stack.
    fn pop(&mut self) -> (r: Result<Symbol, StepError>)
        requires
            old(self).wf(),
        ensures
            final(self).wf(),
            final(self)@ == old(self)@.pop().0,
            match r {
                Ok(top) => old(self)@.pop().1 == Ok::<Expression, StepError>(top@),
                Err(e) => old(self)@.pop().1 == Err::<Expression, StepError>(e),
            },
    {
        match self.stack.pop() {
            Some(top) => Ok(top),
            None => Err(StepError::StackUnderflow),
        }
    }

    /// Pops two entries and pushes the arithmetic expression on them.
    fn apply_arithmetic(&mut self, operator: BinaryOperator) -> (r: Result<
        Option<String>,
        StepError,
    >)
        requires
            old(self).wf(),
        ensures
            final(self).wf(),
            (final(self)@, outcome_of(r)) == old(self)@.replace_two(
                |a: Expression, b: Expression|
                    Expression::Binary(operator, Box::new(a), Box::new(b)),
            ),
    {
        let left = match self.pop() {
            Ok(symbol) => symbol,
            Err(e) => {
                return Err(e);
            },
        };
        let right = match self.pop() {
            Ok(symbol) => symbol,
            Err(e) => {
                return Err(e);
            },
        };
        let expression = BinaryExpressionSymbol::new(operator, Box::new(left), Box::new(right));
        self.stack.push(Symbol::BinaryExpressionSymbol(expression));
        Ok(None)
    }

    /// Symbolically executes an instruction.
    fn execute(&mut self, instruction: &Instruction) -> (r: Result<Option<String>, StepError>)
        requires
            old(self).wf(),
            old(self)@.pos < usize::MAX,
        ensures
            final(self).wf(),
            (final(self)@, outcome_of(r)) == old(self)@.execute(instruction@),
    {
        self.pos += 1;

        match instruction.mnemonic() {
            Mnemonic::PUSH => {
                let operand = match self.get_operand(instruction, 0) {
                    Ok(operand) => operand,
                    Err(e) => {
                        return Err(e);
                    },
                };
                let symbol = Symbol::from(operand);
                self.stack.push(symbol);
                Ok(None)
            },
            Mnemonic::POP => {
                match self.pop() {
                    Ok(_) => Ok(None),
                    Err(e) => Err(e),
                }
            },
            Mnemonic::ADD => self.apply_arithmetic(BinaryOperator::Add),
            Mnemonic::SUB => self.apply_arithmetic(BinaryOperator::Subtract),
            Mnemonic::MUL => self.apply_arithmetic(BinaryOperator::Multiply),
            Mnemonic::DIV => self.apply_arithmetic(BinaryOperator::Divide),
            Mnemonic::FRAC => {
                let one = Symbol::LiteralSymbol(LiteralSymbol::One);
                let operand = match self.pop() {
                    Ok(symbol) => symbol,
                    Err(e) => {
                        return Err(e);
                    },
                };
                proof {
                    Symbol::lemma_literal(LiteralSymbol::One);
                }
                let frac = BinaryExpressionSymbol::new(
                    BinaryOperator::Divide,
                    Box::new(one),
                    Box::new(operand),
                );
                self.stack.push(Symbol::BinaryExpressionSymbol(frac));
                Ok(None)
            },
            Mnemonic::NEG => {
                let argument = match self.pop() {
                    Ok(symbol) => symbol,
                    Err(e) => {
                        return Err(e);
                    },
                };
                let result = UnaryExpressionSymbol::new(UnaryOperator::Not, Box::new(argument));
                self.stack.push(Symbol::UnaryExpressionSymbol(result));
                Ok(None)
            },
            Mnemonic::MIN | Mnemonic::MAX => {
                let left = match self.pop() {
                    Ok(symbol) => symbol,
                    Err(e) => {
                        return Err(e);
                    },
                };
                let right = match self.pop() {
                    Ok(symbol) => symbol,
                    Err(e) => {
                        return Err(e);
                    },
                };
                let mut arguments: Vec<Symbol> = Vec::new();
                arguments.push(left);
                arguments.push(right);

                let callee_name = instruction.mnemonic().to_string();
                let callee = IdentifierSymbol::new(callee_name);

                let call = CallExpressionSymbol::new(
                    Box::new(Symbol::IdentifierSymbol(callee)),
                    arguments,
                );
                assert(arguments@.map_values(|s: Symbol| s@) =~= seq![left@, right@]);
                self.stack.push(Symbol::CallExpressionSymbol(call));
                Ok(None)
            },
            Mnemonic::CALL => {
                let operand = match self.get_operand(instruction, 0) {
                    Ok(operand) => operand,
                    Err(e) => {
                        return Err(e);
                    },
                };
                let callee = Symbol::from(operand);

                let ghost before = self@.stack;
                let mut arguments: Vec<Symbol> = Vec::new();
                let mut i: usize = 0;
                while i < MAX_CALL_ARGUMENTS && self.stack.size() > 0
                    invariant
                        self.wf(),
                        i <= MAX_CALL_ARGUMENTS,
                        i <= before.len(),
                        self@ == (StateModel {
                            stack: self@.stack,
                            ..old(self)@.execute(instruction@).0
                        }),
                        self@.stack =~= before.take(before.len() - i),
                        arguments@.map_values(|s: Symbol| s@) =~= popped_entries(
                            before,
                            i as nat,
                        ),
                    decreases MAX_CALL_ARGUMENTS - i,
                {
                    let ghost taken = arguments@;
                    if let Some(operand) = self.stack.pop() {
                        arguments.push(operand);
                        proof {
                            assert(operand@ == before[before.len() - 1 - i]);
                            assert(arguments@.map_values(|s: Symbol| s@) =~= taken.map_values(
                                |s: Symbol| s@,
                            ).push(operand@));
                            assert(arguments@.map_values(|s: Symbol| s@) =~= popped_entries(
                                before,
                                (i + 1) as nat,
                            ));
                            assert(self@.stack =~= before.take(before.len() - (i + 1)));
                        }
                    }
                    i += 1;
                }

                let call = CallExpressionSymbol::new(Box::new(callee), arguments);
                let call = Symbol::CallExpressionSymbol(call);
                let line = call.to_string();
                self.stack.push(call);
                Ok(Some(line))
            },
            Mnemonic::RET => {
                let line = self.stack.to_string();
                self.status = Status::Terminated;
                Ok(Some(line))
            },
        }
    }

    /// Steps the state by executing a single instruction. Returns the line that the step
    /// reports: the stack at a return, the call that a call builds, or the message of a
    /// failure.
    ///
    /// Whatever the instruction, the position moves on by one. A return terminates the state
    /// and leaves the stack alone. A reciprocal on a stack that is not empty puts the
    /// quotient of the literal one by the top entry in that entry's place. A call that
    /// names its callee takes as many entries as the stack holds, eight at most, and puts
    /// the call on them in their place.
    pub fn step(&mut self, instruction: &Instruction) -> (line: Option<String>)
        requires
            old(self).wf(),
            old(self)@.pos < usize::MAX,
        ensures
            final(self).wf(),
            (final(self)@, line_text(line)) == old(self)@.step(instruction@),
            final(self)@.pos == old(self)@.pos + 1,
            instruction@.mnemonic == Mnemonic::RET ==> {
                &&& final(self)@.status == Status::Terminated
                &&& final(self)@.stack == old(self)@.stack
                &&& line_text(line) == Some(stack_text(old(self)@.stack))
            },
            instruction@.mnemonic == Mnemonic::FRAC && old(self)@.stack.len() > 0 ==> {
                &&& final(self)@.status == old(self)@.status
                &&& final(self)@.stack == old(self)@.stack.drop_last().push(
                    Expression::Binary(
                        BinaryOperator::Divide,
                        Box::new(Expression::Literal(LiteralSymbol::One)),
                        Box::new(old(self)@.stack.last()),
                    ),
                )
            },
            instruction@.mnemonic == Mnemonic::CALL && instruction@.operands.len() > 0 ==> {
                let height = old(self)@.stack.len();
                let arity = if height < 8 {
                    height
                } else {
                    8
                };
                &&& final(self)@.status == old(self)@.status
                &&& final(self)@.stack.len() == height - arity + 1
                &&& final(self)@.stack.drop_last() == old(self)@.stack.take(height - arity)
                &&& final(self)@.stack.last() == Expression::Call(
                    Box::new(Expression::of_operand(instruction@.operands[0])),
                    popped_entries(old(self)@.stack, arity),
                )
            },
    {
        proof {
            old(self)@.lemma_step_moves(instruction@);
            if instruction@.mnemonic == Mnemonic::RET {
                old(self)@.lemma_return_terminates(instruction@);
            }
            if instruction@.mnemonic == Mnemonic::FRAC && old(self)@.stack.len() > 0 {
                old(self)@.lemma_reciprocal(instruction@);
            }
            if instruction@.mnemonic == Mnemonic::CALL && instruction@.operands.len() > 0 {
                old(self)@.lemma_call_arity(instruction@);
            }
        }
        match self.execute(instruction) {
            Ok(line) => line,
            Err(e) => {
                self.status = Status::Errored;
                Some(e.message())
            },
        }
    }
}

} // verus!
