use bytecode_analyzer::disassembler::disassembler::Disassembler;
use bytecode_analyzer::disassembler::function::Function;
use bytecode_analyzer::disassembler::instruction::{Instruction, Mnemonic};
use bytecode_analyzer::disassembler::operand::{
    FunctionReference, GlobalVariable, Literal, Operand, Parameter,
};
use bytecode_analyzer::symbolic::state::{State, Status, StepError};
use bytecode_analyzer::symbolic::state_manager::StateManager;
use bytecode_analyzer::symbolic::symbol::{
    BinaryExpressionSymbol, BinaryOperator, CallExpressionSymbol, IdentifierSymbol, LiteralSymbol,
    Symbol, UnaryExpressionSymbol, UnaryOperator,
};

const UNDERFLOW: &str = "Got empty stack when operand expected";
const MISSING: &str = "Expected operand at index {index} but got None, bad disassembly";

fn ident(name: &str) -> Symbol {
    Symbol::IdentifierSymbol(IdentifierSymbol::new(name.to_string()))
}

fn binary(operator: BinaryOperator, left: Symbol, right: Symbol) -> Symbol {
    Symbol::BinaryExpressionSymbol(BinaryExpressionSymbol::new(
        operator,
        Box::new(left),
        Box::new(right),
    ))
}

fn call(callee: Symbol, arguments: Vec<Symbol>) -> Symbol {
    Symbol::CallExpressionSymbol(CallExpressionSymbol::new(Box::new(callee), arguments))
}

fn push(operand: Operand) -> Instruction {
    Instruction::new(0, Mnemonic::PUSH, vec![operand])
}

fn push_param(index: usize) -> Instruction {
    push(Operand::Parameter(Parameter::new(index)))
}

fn push_global(name: &str) -> Instruction {
    push(Operand::GlobalVariable(GlobalVariable::new(name.to_string())))
}

fn plain(mnemonic: Mnemonic) -> Instruction {
    Instruction::new(0, mnemonic, Vec::new())
}

fn call_of(id: &str) -> Instruction {
    Instruction::new(
        0,
        Mnemonic::CALL,
        vec![Operand::FunctionReference(FunctionReference::new(id.to_string()))],
    )
}

fn run(state: &mut State, instructions: &[Instruction]) -> Vec<Option<String>> {
    instructions.iter().map(|i| state.step(i)).collect()
}

fn function_of(instructions: Vec<Instruction>) -> Function {
    let mut function = Function::new(0, "f".to_string(), 8);
    for instruction in instructions {
        function.add_instruction(instruction);
    }
    function
}

#[test]
fn new_state_is_active_and_empty() {
    let state = State::new(4, 9);
    assert_eq!(state.id(), 4);
    assert_eq!(state.pos(), 9);
    assert_eq!(*state.status(), Status::Active);
    assert_eq!(state.stack().size(), 0);
}

#[test]
fn subtraction_takes_the_top_as_its_left_side() {
    let mut state = State::new(0, 0);
    let lines = run(
        &mut state,
        &[push_param(0), push_param(1), plain(Mnemonic::SUB), plain(Mnemonic::RET)],
    );
    assert_eq!(lines, vec![None, None, None, Some("[param_1 - param_0]".to_string())]);
    assert_eq!(
        state.stack().elements(),
        &vec![binary(BinaryOperator::Subtract, ident("param_1"), ident("param_0"))]
    );
    assert_eq!(*state.status(), Status::Terminated);
    assert_eq!(state.pos(), 4);
}

#[test]
fn reciprocal_of_zero_is_not_simplified() {
    let mut state = State::new(0, 0);
    let lines = run(
        &mut state,
        &[push(Operand::Literal(Literal::ZERO)), plain(Mnemonic::FRAC), plain(Mnemonic::RET)],
    );
    assert_eq!(lines, vec![None, None, Some("[1 / 0.0]".to_string())]);
    assert_eq!(
        state.stack().elements(),
        &vec![binary(
            BinaryOperator::Divide,
            Symbol::LiteralSymbol(LiteralSymbol::One),
            Symbol::LiteralSymbol(LiteralSymbol::Zero)
        )]
    );
}

#[test]
fn call_takes_its_arguments_in_pop_order() {
    let mut state = State::new(0, 0);
    let lines = run(
        &mut state,
        &[push_global("a"), push_global("b"), push_global("c"), call_of("f"), plain(Mnemonic::RET)],
    );
    assert_eq!(
        lines,
        vec![
            None,
            None,
            None,
            Some("func_f(global_c, global_b, global_a)".to_string()),
            Some("[func_f(global_c, global_b, global_a)]".to_string()),
        ]
    );
    assert_eq!(
        state.stack().elements(),
        &vec![call(ident("func_f"), vec![ident("global_c"), ident("global_b"), ident("global_a")])]
    );
}

#[test]
fn call_takes_at_most_eight_arguments() {
    let mut state = State::new(0, 0);
    state.push_params(10);
    assert_eq!(state.stack().size(), 10);
    assert_eq!(
        state.step(&call_of("g")),
        Some("func_g(param_9, param_8, param_7, param_6, param_5, param_4, param_3, param_2)".to_string())
    );
    assert_eq!(state.stack().size(), 3);
    assert_eq!(state.stack().elements()[0], ident("param_0"));
    assert_eq!(state.stack().elements()[1], ident("param_1"));
    assert_eq!(
        state.stack().elements()[2],
        call(ident("func_g"), (2..10).rev().map(|i| ident(&format!("param_{}", i))).collect())
    );
    assert_eq!(*state.status(), Status::Active);
}

#[test]
fn call_on_an_empty_stack_has_no_arguments() {
    let mut state = State::new(0, 0);
    assert_eq!(state.step(&call_of("g")), Some("func_g()".to_string()));
    assert_eq!(state.stack().elements(), &vec![call(ident("func_g"), Vec::new())]);
    for height in 1..=8 {
        let mut state = State::new(0, 0);
        state.push_params(height);
        state.step(&call_of("g"));
        assert_eq!(state.stack().size(), 1);
    }
    let mut state = State::new(0, 0);
    state.push_params(9);
    state.step(&call_of("g"));
    assert_eq!(state.stack().size(), 2);
}

#[test]
fn call_converts_whatever_operand_names_the_callee() {
    let mut state = State::new(0, 0);
    let instruction = Instruction::new(0, Mnemonic::CALL, vec![Operand::Literal(Literal::INFINITY)]);
    assert_eq!(state.step(&instruction), Some("Infinity()".to_string()));
}

#[test]
fn return_terminates_and_moves_on_by_one() {
    let mut state = State::new(0, 17);
    assert_eq!(state.step(&plain(Mnemonic::RET)), Some("[]".to_string()));
    assert_eq!(*state.status(), Status::Terminated);
    assert_eq!(state.pos(), 18);
    let mut state = State::new(0, 0);
    state.push_params(2);
    assert_eq!(state.step(&plain(Mnemonic::RET)), Some("[param_0, param_1]".to_string()));
    assert_eq!(state.stack().size(), 2);
}

#[test]
fn arithmetic_builds_binary_expressions() {
    let cases = [
        (Mnemonic::ADD, BinaryOperator::Add),
        (Mnemonic::SUB, BinaryOperator::Subtract),
        (Mnemonic::MUL, BinaryOperator::Multiply),
        (Mnemonic::DIV, BinaryOperator::Divide),
    ];
    for (mnemonic, operator) in cases {
        let mut state = State::new(0, 0);
        state.push_params(3);
        assert_eq!(state.step(&plain(mnemonic)), None);
        assert_eq!(
            state.stack().elements(),
            &vec![ident("param_0"), binary(operator, ident("param_2"), ident("param_1"))]
        );
        assert_eq!(state.pos(), 1);
        assert_eq!(*state.status(), Status::Active);
    }
}

#[test]
fn minimum_and_maximum_build_calls() {
    for (mnemonic, name) in [(Mnemonic::MIN, "min"), (Mnemonic::MAX, "max")] {
        let mut state = State::new(0, 0);
        state.push_params(2);
        assert_eq!(state.step(&plain(mnemonic)), None);
        assert_eq!(
            state.stack().elements(),
            &vec![call(ident(name), vec![ident("param_1"), ident("param_0")])]
        );
    }
}

#[test]
fn negation_builds_a_unary_expression() {
    let mut state = State::new(0, 0);
    state.push_params(1);
    assert_eq!(state.step(&plain(Mnemonic::NEG)), None);
    assert_eq!(
        state.stack().elements(),
        &vec![Symbol::UnaryExpressionSymbol(UnaryExpressionSymbol::new(
            UnaryOperator::Not,
            Box::new(ident("param_0"))
        ))]
    );
}

#[test]
fn reciprocal_takes_one_entry_and_leaves_one() {
    let mut state = State::new(0, 0);
    state.push_params(3);
    assert_eq!(state.step(&plain(Mnemonic::FRAC)), None);
    assert_eq!(
        state.stack().elements(),
        &vec![
            ident("param_0"),
            ident("param_1"),
            binary(BinaryOperator::Divide, Symbol::LiteralSymbol(LiteralSymbol::One), ident("param_2")),
        ]
    );
}

#[test]
fn pop_discards_the_top() {
    let mut state = State::new(0, 0);
    state.push_params(2);
    assert_eq!(state.step(&plain(Mnemonic::POP)), None);
    assert_eq!(state.stack().elements(), &vec![ident("param_0")]);
}

#[test]
fn push_converts_each_kind_of_operand() {
    let mut state = State::new(0, 0);
    run(
        &mut state,
        &[
            push(Operand::Literal(Literal::ZERO)),
            push(Operand::Literal(Literal::INFINITY)),
            push_global("x"),
            push_param(7),
            push(Operand::FunctionReference(FunctionReference::new("ab".to_string()))),
        ],
    );
    assert_eq!(
        state.stack().elements(),
        &vec![
            Symbol::LiteralSymbol(LiteralSymbol::Zero),
            Symbol::LiteralSymbol(LiteralSymbol::Infinity),
            ident("global_x"),
            ident("param_7"),
            ident("func_ab"),
        ]
    );
    assert_eq!(state.pos(), 5);
}

#[test]
fn empty_stack_makes_the_state_errored() {
    let takers = [
        Mnemonic::POP,
        Mnemonic::ADD,
        Mnemonic::SUB,
        Mnemonic::MUL,
        Mnemonic::DIV,
        Mnemonic::MIN,
        Mnemonic::MAX,
        Mnemonic::FRAC,
        Mnemonic::NEG,
    ];
    for mnemonic in takers {
        let mut state = State::new(0, 3);
        assert_eq!(state.step(&plain(mnemonic)), Some(UNDERFLOW.to_string()));
        assert_eq!(*state.status(), Status::Errored);
        assert_eq!(state.pos(), 4);
        assert_eq!(state.stack().size(), 0);
    }
}

#[test]
fn second_pop_fails_after_the_first_has_taken_its_entry() {
    for mnemonic in [Mnemonic::ADD, Mnemonic::SUB, Mnemonic::MUL, Mnemonic::DIV, Mnemonic::MIN, Mnemonic::MAX] {
        let mut state = State::new(0, 0);
        state.push_params(1);
        assert_eq!(state.step(&plain(mnemonic)), Some(UNDERFLOW.to_string()));
        assert_eq!(*state.status(), Status::Errored);
        assert_eq!(state.stack().size(), 0);
    }
}

#[test]
fn missing_operand_makes_the_state_errored() {
    for mnemonic in [Mnemonic::PUSH, Mnemonic::CALL] {
        let mut state = State::new(0, 0);
        state.push_params(2);
        assert_eq!(state.step(&plain(mnemonic)), Some(MISSING.to_string()));
        assert_eq!(*state.status(), Status::Errored);
        assert_eq!(state.pos(), 1);
        assert_eq!(state.stack().size(), 2);
    }
}

#[test]
fn error_messages() {
    assert_eq!(StepError::StackUnderflow.message(), UNDERFLOW);
    assert_eq!(StepError::MissingOperand.message(), MISSING);
}

#[test]
fn parameters_are_pushed_in_order() {
    let mut state = State::new(0, 0);
    state.push_params(0);
    assert_eq!(state.stack().size(), 0);
    state.push_params(8);
    assert_eq!(
        state.stack().to_string(),
        "[param_0, param_1, param_2, param_3, param_4, param_5, param_6, param_7]"
    );
    state.push_params(1);
    assert_eq!(state.stack().size(), 9);
    assert_eq!(state.stack().elements()[8], ident("param_0"));
    assert_eq!(state.pos(), 0);
}

#[test]
fn manager_starts_with_one_active_state() {
    let manager = StateManager::new(function_of(Vec::new()));
    assert!(manager.is_active(0));
    assert!(!manager.is_active(1));
    assert!(!manager.is_terminated(0));
    assert!(manager.state(1).is_none());
    let state = manager.state(0).unwrap();
    assert_eq!((state.id(), state.pos()), (0, 0));
    assert_eq!(*state.status(), Status::Active);
}

#[test]
fn manager_runs_a_function_to_its_return() {
    let mut manager = StateManager::new(function_of(vec![
        push_param(0),
        push_param(1),
        plain(Mnemonic::SUB),
        plain(Mnemonic::RET),
        plain(Mnemonic::POP),
    ]));
    assert_eq!(manager.explore(), vec!["[param_1 - param_0]"]);
    assert!(!manager.is_active(0));
    assert!(!manager.is_terminated(0));
    let state = manager.state(0).unwrap();
    assert_eq!(*state.status(), Status::Terminated);
    assert_eq!(state.pos(), 4);
    assert_eq!(
        state.stack().elements(),
        &vec![binary(BinaryOperator::Subtract, ident("param_1"), ident("param_0"))]
    );
}

#[test]
fn manager_marks_a_state_that_runs_off_the_end() {
    let mut manager = StateManager::new(function_of(vec![push_global("a"), call_of("f")]));
    assert_eq!(manager.explore(), vec!["func_f(global_a)"]);
    assert!(!manager.is_active(0));
    assert!(manager.is_terminated(0));
    let state = manager.state(0).unwrap();
    assert_eq!(*state.status(), Status::Terminated);
    assert_eq!(state.pos(), 2);
    assert_eq!(state.stack().elements(), &vec![call(ident("func_f"), vec![ident("global_a")])]);
    // exploring again changes nothing
    assert!(manager.explore().is_empty());
    assert!(manager.is_terminated(0));
    assert_eq!(manager.state(0).unwrap().pos(), 2);
    assert_eq!(*manager.state(0).unwrap().status(), Status::Terminated);
}

#[test]
fn manager_terminates_a_state_after_a_single_push() {
    let mut manager = StateManager::new(function_of(vec![push_param(0)]));
    assert!(manager.explore().is_empty());
    assert!(!manager.is_active(0));
    assert!(manager.is_terminated(0));
    let state = manager.state(0).unwrap();
    assert_eq!(*state.status(), Status::Terminated);
    assert_eq!(state.pos(), 1);
    assert_eq!(state.stack().elements(), &vec![ident("param_0")]);
}

#[test]
fn terminate_changes_the_status_alone() {
    let mut state = State::new(3, 5);
    state.push_params(2);
    state.terminate();
    assert_eq!(*state.status(), Status::Terminated);
    assert_eq!((state.id(), state.pos()), (3, 5));
    assert_eq!(state.stack().elements(), &vec![ident("param_0"), ident("param_1")]);
}

#[test]
fn manager_of_an_empty_function_terminates_at_once() {
    let mut manager = StateManager::new(function_of(Vec::new()));
    assert!(manager.explore().is_empty());
    assert!(!manager.is_active(0));
    assert!(manager.is_terminated(0));
    assert_eq!(manager.state(0).unwrap().pos(), 0);
    assert_eq!(*manager.state(0).unwrap().status(), Status::Terminated);
}

#[test]
fn manager_stops_an_errored_state_without_terminating_it() {
    let mut manager = StateManager::new(function_of(vec![
        push_param(0),
        plain(Mnemonic::ADD),
        plain(Mnemonic::RET),
    ]));
    assert_eq!(manager.explore(), vec![UNDERFLOW]);
    assert!(!manager.is_active(0));
    assert!(!manager.is_terminated(0));
    let state = manager.state(0).unwrap();
    assert_eq!(*state.status(), Status::Errored);
    assert_eq!(state.pos(), 2);
    assert_eq!(state.stack().size(), 0);
}

#[test]
fn decoded_functions_are_explored() {
    let mut disassembler = Disassembler::new(":id:23-;:g:xy^id'".to_string());
    assert_eq!(disassembler.disassemble(), Ok(()));
    assert_eq!(disassembler.disassemble_snippet("algorithm".to_string(), "x01mM!;".to_string()), Ok(()));
    let mut reports = Vec::new();
    for function in disassembler.functions() {
        let mut manager = StateManager::new(function);
        reports.push(manager.explore());
    }
    assert_eq!(
        reports,
        vec![
            vec!["[param_1 - param_0]".to_string()],
            vec!["func_id(global_y, global_x)".to_string()],
            vec!["[!max(min(Infinity, 0.0), global_x)]".to_string()],
        ]
    );
}
