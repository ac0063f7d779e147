use bytecode_analyzer::disassembler::decoding::DisassemblyError;
use bytecode_analyzer::disassembler::disassembler::{decode_operation, is_reserved, Disassembler};
use bytecode_analyzer::disassembler::function::Function;
use bytecode_analyzer::disassembler::instruction::{Instruction, Mnemonic};
use bytecode_analyzer::disassembler::operand::{
    FunctionReference, GlobalVariable, Literal, Operand, Parameter, Variable,
};

fn decode(bytecode: &str) -> (Result<(), DisassemblyError>, Vec<Function>) {
    let mut disassembler = Disassembler::new(bytecode.to_string());
    let done = disassembler.disassemble();
    (done, disassembler.functions())
}

fn shape(instructions: &[Instruction]) -> Vec<(usize, Mnemonic, String)> {
    instructions
        .iter()
        .map(|i| {
            let operands: Vec<String> = i.operands().iter().map(|o| o.to_string()).collect();
            (*i.address(), *i.mnemonic(), operands.join(", "))
        })
        .collect()
}

fn line(address: usize, mnemonic: Mnemonic, operands: &str) -> (usize, Mnemonic, String) {
    (address, mnemonic, operands.to_string())
}

#[test]
fn function_with_parameter_and_addition() {
    let (done, mut functions) = decode(":ab:2+;");
    assert_eq!(done, Ok(()));
    assert_eq!(functions.len(), 1);
    let function = functions.remove(0);
    assert_eq!(function.id(), "ab");
    assert_eq!(function.name(), "func_ab");
    assert_eq!(function.address(), 0);
    assert_eq!(function.num_params(), 8);
    let instructions = function.instructions();
    assert_eq!(instructions.len(), 3);
    assert_eq!(
        instructions[0],
        Instruction::new(4, Mnemonic::PUSH, vec![Operand::Parameter(Parameter::new(0))])
    );
    assert_eq!(instructions[1], Instruction::new(5, Mnemonic::ADD, Vec::new()));
    assert_eq!(instructions[2], Instruction::new(6, Mnemonic::RET, Vec::new()));
}

#[test]
fn function_with_global_and_infinity() {
    let (done, mut functions) = decode(":f:x1+;");
    assert_eq!(done, Ok(()));
    assert_eq!(functions.len(), 1);
    let function = functions.remove(0);
    assert_eq!(function.id(), "f");
    let instructions = function.instructions();
    assert_eq!(
        instructions,
        vec![
            Instruction::new(
                3,
                Mnemonic::PUSH,
                vec![Operand::GlobalVariable(GlobalVariable::new("x".to_string()))]
            ),
            Instruction::new(4, Mnemonic::PUSH, vec![Operand::Literal(Literal::INFINITY)]),
            Instruction::new(5, Mnemonic::ADD, Vec::new()),
            Instruction::new(6, Mnemonic::RET, Vec::new()),
        ]
    );
}

#[test]
fn call_goes_into_the_current_function_and_its_id_is_decoded_again() {
    let (done, mut functions) = decode(":id:23-;:g:^id;");
    assert_eq!(done, Ok(()));
    assert_eq!(functions.len(), 2);
    let caller = functions.remove(1);
    let callee = functions.remove(0);
    assert_eq!(
        shape(&callee.instructions()),
        vec![
            line(4, Mnemonic::PUSH, "param_0"),
            line(5, Mnemonic::PUSH, "param_1"),
            line(6, Mnemonic::SUB, ""),
            line(7, Mnemonic::RET, ""),
        ]
    );
    assert_eq!(caller.id(), "g");
    assert_eq!(caller.address(), 8);
    let instructions = caller.instructions();
    assert_eq!(
        instructions[0],
        Instruction::new(
            11,
            Mnemonic::CALL,
            vec![Operand::FunctionReference(FunctionReference::new("id".to_string()))]
        )
    );
    assert_eq!(
        shape(&instructions),
        vec![
            line(11, Mnemonic::CALL, "func_id"),
            line(12, Mnemonic::PUSH, "global_i"),
            line(13, Mnemonic::PUSH, "global_d"),
            line(14, Mnemonic::RET, ""),
        ]
    );
}

#[test]
fn call_without_a_current_function_fails() {
    let mut disassembler = Disassembler::new(":id:23-;^id".to_string());
    assert_eq!(disassembler.disassemble(), Err(DisassemblyError::NoCurrentFunction));
    assert_eq!(disassembler.pos(), 9);
    let mut functions = disassembler.functions();
    assert_eq!(functions.len(), 1);
    assert_eq!(functions.remove(0).instructions().len(), 4);
}

#[test]
fn call_at_the_end_of_the_stream_is_recorded() {
    let (done, mut functions) = decode(":id:;:g:^id");
    assert_eq!(done, Ok(()));
    assert_eq!(
        shape(&functions.remove(1).instructions()),
        vec![
            line(8, Mnemonic::CALL, "func_id"),
            line(9, Mnemonic::PUSH, "global_i"),
            line(10, Mnemonic::PUSH, "global_d"),
        ]
    );
}

#[test]
fn call_picks_the_first_function_whose_id_is_a_prefix() {
    let (done, mut functions) = decode(":a:;:ab:;:c:^ab;");
    assert_eq!(done, Ok(()));
    let caller = functions.remove(2);
    assert_eq!(shape(&caller.instructions())[0], line(12, Mnemonic::CALL, "func_a"));
}

#[test]
fn call_looks_ten_characters_ahead_and_no_further() {
    let (done, mut functions) = decode(":abcdefghij:;:k:^abcdefghij");
    assert_eq!(done, Ok(()));
    assert_eq!(
        shape(&functions.remove(1).instructions())[0],
        line(16, Mnemonic::CALL, "func_abcdefghij")
    );
    let (done, _) = decode(":abcdefghijk:;:k:^abcdefghijk");
    assert_eq!(done, Err(DisassemblyError::UnknownCallee));
}

#[test]
fn call_of_an_unknown_function_fails() {
    let mut disassembler = Disassembler::new(":f:^g;".to_string());
    assert_eq!(disassembler.disassemble(), Err(DisassemblyError::UnknownCallee));
    assert_eq!(disassembler.pos(), 4);
    // an id that is too long for the rest of the stream does not match either
    let (done, _) = decode(":abc:^ab");
    assert_eq!(done, Err(DisassemblyError::UnknownCallee));
    // what comes before an error stays
    let (done, mut functions) = decode(":f:2^g");
    assert_eq!(done, Err(DisassemblyError::UnknownCallee));
    assert_eq!(shape(&functions.remove(0).instructions()), vec![line(3, Mnemonic::PUSH, "param_0")]);
}

#[test]
fn unknown_callee_is_reported_before_a_missing_function() {
    let (done, _) = decode("^x");
    assert_eq!(done, Err(DisassemblyError::UnknownCallee));
}

#[test]
fn store_into_a_variable_is_refused() {
    let mut disassembler = Disassembler::new(":f:x=2".to_string());
    assert_eq!(disassembler.disassemble(), Err(DisassemblyError::UnsupportedStore));
    assert_eq!(disassembler.pos(), 5);
    let (done, _) = decode(":f:7=");
    assert_eq!(done, Err(DisassemblyError::UnsupportedStore));
    // the store is refused even where no function is open
    let (done, _) = decode("x=");
    assert_eq!(done, Err(DisassemblyError::UnsupportedStore));
    // a reserved letter or digit is no variable
    let (done, mut functions) = decode(":f:m=0=");
    assert_eq!(done, Ok(()));
    assert_eq!(
        shape(&functions.remove(0).instructions()),
        vec![line(3, Mnemonic::MIN, ""), line(5, Mnemonic::PUSH, "0.0")]
    );
}

#[test]
fn instruction_outside_a_function_fails() {
    for stream in ["+", "x", "2", "0", ".", ":f:;!"] {
        let (done, _) = decode(stream);
        assert_eq!(done, Err(DisassemblyError::NoCurrentFunction), "{}", stream);
    }
}

#[test]
fn unterminated_function_id_fails() {
    let mut disassembler = Disassembler::new(":f:2;:gh".to_string());
    assert_eq!(disassembler.disassemble(), Err(DisassemblyError::UnterminatedName));
    assert_eq!(disassembler.pos(), 8);
    assert_eq!(disassembler.functions().len(), 1);
    let (done, functions) = decode(":");
    assert_eq!(done, Err(DisassemblyError::UnterminatedName));
    assert!(functions.is_empty());
}

#[test]
fn delimiter_outside_a_function_does_nothing() {
    let (done, mut functions) = decode(";;:f:;;");
    assert_eq!(done, Ok(()));
    assert_eq!(functions.len(), 1);
    let function = functions.remove(0);
    assert_eq!(function.address(), 2);
    assert_eq!(shape(&function.instructions()), vec![line(5, Mnemonic::RET, "")]);
}

#[test]
fn every_operation_glyph_is_decoded() {
    let (done, mut functions) = decode(":f:+-*/mM01'!.");
    assert_eq!(done, Ok(()));
    assert_eq!(
        shape(&functions.remove(0).instructions()),
        vec![
            line(3, Mnemonic::ADD, ""),
            line(4, Mnemonic::SUB, ""),
            line(5, Mnemonic::MUL, ""),
            line(6, Mnemonic::DIV, ""),
            line(7, Mnemonic::MIN, ""),
            line(8, Mnemonic::MAX, ""),
            line(9, Mnemonic::PUSH, "0.0"),
            line(10, Mnemonic::PUSH, "Infinity"),
            line(11, Mnemonic::FRAC, ""),
            line(12, Mnemonic::NEG, ""),
            line(13, Mnemonic::POP, ""),
        ]
    );
}

#[test]
fn every_parameter_digit_maps_to_its_index() {
    let (done, mut functions) = decode(":f:23456789");
    assert_eq!(done, Ok(()));
    let instructions = functions.remove(0).instructions();
    assert_eq!(instructions.len(), 8);
    for (index, instruction) in instructions.iter().enumerate() {
        assert_eq!(
            *instruction,
            Instruction::new(
                3 + index,
                Mnemonic::PUSH,
                vec![Operand::Parameter(Parameter::new(index))]
            )
        );
        assert_eq!(instruction.operands()[0].to_string(), format!("param_{}", index));
    }
}

#[test]
fn unrecognised_characters_are_passed_over() {
    let (done, mut functions) = decode(":f: 2\n(+)\t#;");
    assert_eq!(done, Ok(()));
    assert_eq!(
        shape(&functions.remove(0).instructions()),
        vec![
            line(4, Mnemonic::PUSH, "param_0"),
            line(7, Mnemonic::ADD, ""),
            line(11, Mnemonic::RET, ""),
        ]
    );
}

#[test]
fn letters_and_numbers_beyond_ascii_are_variables() {
    let (done, mut functions) = decode(":f:é٣→");
    assert_eq!(done, Ok(()));
    assert_eq!(
        shape(&functions.remove(0).instructions()),
        vec![line(3, Mnemonic::PUSH, "global_é"), line(4, Mnemonic::PUSH, "param_1585")]
    );
}

#[test]
fn function_id_may_be_empty_or_hold_any_character() {
    let (done, mut functions) = decode("::2;:a+b ;:x");
    assert_eq!(done, Ok(()));
    assert_eq!(functions.len(), 2);
    assert_eq!(functions[0].id(), "");
    assert_eq!(functions[1].id(), "a+b ;");
    assert_eq!(functions[1].address(), 4);
    assert_eq!(shape(&functions.remove(1).instructions()), vec![line(11, Mnemonic::PUSH, "global_x")]);
}

#[test]
fn a_new_function_closes_the_one_before_without_a_return() {
    let (done, mut functions) = decode(":a:2:b:3;");
    assert_eq!(done, Ok(()));
    assert_eq!(shape(&functions.remove(0).instructions()), vec![line(3, Mnemonic::PUSH, "param_0")]);
    assert_eq!(
        shape(&functions.remove(0).instructions()),
        vec![line(7, Mnemonic::PUSH, "param_1"), line(8, Mnemonic::RET, "")]
    );
}

#[test]
fn snippet_goes_on_in_the_same_address_space() {
    let mut disassembler = Disassembler::new(":ab:2+;".to_string());
    assert_eq!(disassembler.disassemble(), Ok(()));
    assert_eq!((disassembler.base_address(), disassembler.pos()), (0, 7));
    assert_eq!(disassembler.disassemble_snippet("algorithm".to_string(), "2 3+^ab".to_string()), Ok(()));
    assert_eq!((disassembler.base_address(), disassembler.pos()), (7, 7));
    assert_eq!(disassembler.disassemble_snippet("more".to_string(), ";:z:".to_string()), Ok(()));
    assert_eq!((disassembler.base_address(), disassembler.pos()), (14, 4));
    let mut functions = disassembler.functions();
    assert_eq!(functions.len(), 4);
    assert_eq!(functions[1].id(), "algorithm");
    assert_eq!(functions[1].address(), 7);
    assert_eq!(functions[1].num_params(), 8);
    assert_eq!(functions[2].id(), "more");
    assert_eq!(functions[2].address(), 14);
    assert_eq!(functions[3].id(), "z");
    assert_eq!(functions[3].address(), 15);
    assert_eq!(
        shape(&functions.remove(1).instructions()),
        vec![
            line(7, Mnemonic::PUSH, "param_0"),
            line(9, Mnemonic::PUSH, "param_1"),
            line(10, Mnemonic::ADD, ""),
            line(11, Mnemonic::CALL, "func_ab"),
            line(12, Mnemonic::PUSH, "global_a"),
            line(13, Mnemonic::PUSH, "global_b"),
        ]
    );
    assert_eq!(shape(&functions.remove(1).instructions()), vec![line(14, Mnemonic::RET, "")]);
}

#[test]
fn addresses_grow_within_every_function() {
    let mut disassembler = Disassembler::new(":a:23+4*;:b:^a'!.xyz;".to_string());
    assert_eq!(disassembler.disassemble(), Ok(()));
    assert_eq!(disassembler.disassemble_snippet("s".to_string(), "2^b3^a;".to_string()), Ok(()));
    for function in disassembler.functions() {
        let instructions = function.instructions();
        for pair in instructions.windows(2) {
            assert!(pair[0].address() < pair[1].address());
        }
    }
}

#[test]
fn glyphs_of_the_instructions_give_back_the_stream() {
    let stream = "x2+y3-*9/mM01'!.q";
    let mut disassembler = Disassembler::new(String::new());
    assert_eq!(disassembler.disassemble_snippet("s".to_string(), format!("{} \n#", stream)), Ok(()));
    let instructions = disassembler.functions().remove(0).instructions();
    let glyphs: String = instructions
        .iter()
        .map(|i| match (i.mnemonic(), i.operands().first()) {
            (Mnemonic::PUSH, Some(Operand::Literal(Literal::ZERO))) => '0',
            (Mnemonic::PUSH, Some(Operand::Literal(Literal::INFINITY))) => '1',
            (Mnemonic::PUSH, Some(Operand::GlobalVariable(v))) => v.name().chars().last().unwrap(),
            (Mnemonic::PUSH, Some(Operand::Parameter(p))) => {
                let index: u32 = p.name()["param_".len()..].parse().unwrap();
                char::from_u32(index + 50).unwrap()
            }
            (Mnemonic::ADD, _) => '+',
            (Mnemonic::SUB, _) => '-',
            (Mnemonic::MUL, _) => '*',
            (Mnemonic::DIV, _) => '/',
            (Mnemonic::MIN, _) => 'm',
            (Mnemonic::MAX, _) => 'M',
            (Mnemonic::FRAC, _) => '\'',
            (Mnemonic::NEG, _) => '!',
            (Mnemonic::POP, _) => '.',
            _ => unreachable!(),
        })
        .collect();
    assert_eq!(glyphs, stream);
}

#[test]
fn reserved_characters_and_operations() {
    for c in ['m', 'M', '0', '1'] {
        assert!(is_reserved(c));
        assert!(decode_operation(c).is_some());
    }
    for c in ['a', 'Z', '2', '9', '+', ';'] {
        assert!(!is_reserved(c));
    }
    assert_eq!(decode_operation('*'), Some((Mnemonic::MUL, Vec::new())));
    assert_eq!(
        decode_operation('1'),
        Some((Mnemonic::PUSH, vec![Operand::Literal(Literal::INFINITY)]))
    );
    for c in ['x', '2', ';', ':', '^', '=', ' '] {
        assert_eq!(decode_operation(c), None);
    }
}

#[test]
fn instruction_text_has_hexadecimal_address_and_padded_mnemonic() {
    assert_eq!(
        Instruction::new(3, Mnemonic::PUSH, vec![Operand::Parameter(Parameter::new(0))]).to_string(),
        "0x3:\tpush        param_0"
    );
    assert_eq!(Instruction::new(0, Mnemonic::RET, Vec::new()).to_string(), "0x0:\tret         ");
    assert_eq!(Instruction::new(255, Mnemonic::FRAC, Vec::new()).to_string(), "0xff:\tfrac        ");
    assert_eq!(
        Instruction::new(
            0x1a2b,
            Mnemonic::CALL,
            vec![
                Operand::FunctionReference(FunctionReference::new("f".to_string())),
                Operand::Literal(Literal::ZERO),
                Operand::GlobalVariable(GlobalVariable::new("x".to_string())),
            ]
        )
        .to_string(),
        "0x1a2b:\tcall        func_f, 0.0, global_x"
    );
}

#[test]
fn mnemonic_text_is_its_lowercase_name() {
    let names = [
        (Mnemonic::PUSH, "push"),
        (Mnemonic::POP, "pop"),
        (Mnemonic::RET, "ret"),
        (Mnemonic::CALL, "call"),
        (Mnemonic::ADD, "add"),
        (Mnemonic::SUB, "sub"),
        (Mnemonic::MUL, "mul"),
        (Mnemonic::DIV, "div"),
        (Mnemonic::MIN, "min"),
        (Mnemonic::MAX, "max"),
        (Mnemonic::FRAC, "frac"),
        (Mnemonic::NEG, "neg"),
    ];
    for (mnemonic, name) in names {
        assert_eq!(mnemonic.to_string(), name);
        assert_eq!(mnemonic.as_str(), name);
    }
}

#[test]
fn function_disassembly_has_header_and_indented_lines() {
    let mut function = Function::new(16, "ab".to_string(), 8);
    assert_eq!(
        function.get_disassembly(),
        vec!["function func_ab(param_0, param_1, param_2, param_3, param_4, param_5, param_6, param_7)"]
    );
    function.add_instruction(Instruction::new(19, Mnemonic::PUSH, vec![Operand::Parameter(Parameter::new(0))]));
    function.add_instruction(Instruction::new(20, Mnemonic::RET, Vec::new()));
    assert_eq!(
        function.get_disassembly(),
        vec![
            "function func_ab(param_0, param_1, param_2, param_3, param_4, param_5, param_6, param_7)",
            "\t0x13:\tpush        param_0",
            "\t0x14:\tret         ",
        ]
    );
    assert_eq!(function.get_reference().name(), "func_ab");
    assert_eq!(function.get_reference().id(), "ab");
    assert_eq!(Function::new(0, "z".to_string(), 0).get_disassembly(), vec!["function func_z()"]);
    assert_eq!(Function::new(0, "z".to_string(), 1).get_disassembly(), vec!["function func_z(param_0)"]);
    assert_eq!(
        Function::new(0, "w".to_string(), 12).get_disassembly(),
        vec!["function func_w(param_0, param_1, param_2, param_3, param_4, param_5, param_6, param_7, param_8, param_9, param_10, param_11)"]
    );
}

#[test]
fn whole_disassembly_separates_functions_by_empty_lines() {
    let mut disassembler = Disassembler::new(":ab:2+;:c:^ab".to_string());
    assert!(disassembler.get_disassembly().is_empty());
    assert_eq!(disassembler.disassemble(), Ok(()));
    let header = |name: &str| {
        format!(
            "function {}(param_0, param_1, param_2, param_3, param_4, param_5, param_6, param_7)",
            name
        )
    };
    assert_eq!(
        disassembler.get_disassembly(),
        vec![
            header("func_ab"),
            "\t0x4:\tpush        param_0".to_string(),
            "\t0x5:\tadd         ".to_string(),
            "\t0x6:\tret         ".to_string(),
            String::new(),
            header("func_c"),
            "\t0xa:\tcall        func_ab".to_string(),
            "\t0xb:\tpush        global_a".to_string(),
            "\t0xc:\tpush        global_b".to_string(),
            String::new(),
        ]
    );
}

#[test]
fn decoding_error_messages() {
    assert_eq!(DisassemblyError::UnknownCallee.message(), "Unknown function callee");
    assert_eq!(
        DisassemblyError::UnsupportedStore.message(),
        "Storing variables as result of subroutines not implemented"
    );
    assert_eq!(
        DisassemblyError::NoCurrentFunction.message(),
        "Tried to add an instruction when there is no current function"
    );
    assert_eq!(
        DisassemblyError::UnterminatedName.message(),
        "Function id is not closed by a colon"
    );
}
