use bytecode_analyzer::disassembler::operand::{
    FunctionReference, GlobalVariable, Literal, Operand, Parameter, Variable,
};

#[test]
fn global_variable_is_formatted_with_prefix() {
    let var = GlobalVariable::new("x".to_string());
    assert_eq!(var.name(), "global_x");
}

#[test]
fn parameter_is_formatted_with_decimal_index() {
    assert_eq!(Parameter::new(0).name(), "param_0");
    assert_eq!(Parameter::new(7).name(), "param_7");
    assert_eq!(Parameter::new(128).name(), "param_128");
    assert_eq!(Parameter::new(1000).name(), "param_1000");
}

#[test]
fn function_reference_is_formatted_with_prefix() {
    assert_eq!(FunctionReference::new("ab".to_string()).name(), "func_ab");
    assert_eq!(FunctionReference::new(String::new()).name(), "func_");
}

#[test]
fn operand_text_is_glyph_or_formatted_name() {
    assert_eq!(Operand::Literal(Literal::ZERO).to_string(), "0.0");
    assert_eq!(Operand::Literal(Literal::INFINITY).to_string(), "Infinity");
    assert_eq!(
        Operand::GlobalVariable(GlobalVariable::new("q".to_string())).to_string(),
        "global_q"
    );
    assert_eq!(Operand::Parameter(Parameter::new(3)).to_string(), "param_3");
    assert_eq!(
        Operand::FunctionReference(FunctionReference::new("id".to_string())).to_string(),
        "func_id"
    );
}
