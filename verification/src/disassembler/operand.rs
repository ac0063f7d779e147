//! The values an instruction can carry.

use vstd::prelude::*;
use vstd::string::*;
use crate::text::{decimal_text, push_decimal};

verus! {

/// A literal operand.
#[allow(non_camel_case_types)]
#[derive(Debug, Clone, Copy, PartialEq, Eq, Structural)]
pub enum Literal {
    ZERO,
    INFINITY,
}

impl Literal {
    /// The glyph a literal is printed as.
    pub open spec fn text(self) -> Seq<char> {
        match self {
            Literal::ZERO => "0.0"@,
            Literal::INFINITY => "Infinity"@,
        }
    }
}

/// Something that is referred to by a formatted name.
pub trait Variable {
    /// The formatted name, as a sequence of characters.
    spec fn formatted(&self) -> Seq<char>;

    /// Returns the name of the variable.
    fn name(&self) -> (r: &str)
        ensures
            r@ == self.formatted(),
    ;
}

/// A global variable, known by the character sequence the bytecode names it with.
#[derive(Debug, PartialEq, Eq)]
pub struct GlobalVariable {
    name: String,
    formatted_name: String,
}

impl View for GlobalVariable {
    type V = Seq<char>;

    closed spec fn view(&self) -> Seq<char> {
        self.name@
    }
}

impl GlobalVariable {
    #[verifier::type_invariant]
    spec fn named_consistently(&self) -> bool {
        self.formatted_name@ == "global_"@ + self.name@
    }

    /// Creates a new global variable.
    pub fn new(name: String) -> (r: GlobalVariable)
        ensures
            r@ == name@,
    {
        let mut formatted_name = "global_".to_owned();
        formatted_name.append(name.as_str());
        GlobalVariable { name, formatted_name }
    }
}

impl Variable for GlobalVariable {
    open spec fn formatted(&self) -> Seq<char> {
        "global_"@ + self@
    }

    fn name(&self) -> (r: &str) {
        proof {
            use_type_invariant(self);
        }
        self.formatted_name.as_str()
    }
}

/// A parameter of the enclosing function, known by its index.
#[derive(Debug, PartialEq, Eq)]
pub struct Parameter {
    index: usize,
    formatted_name: String,
}

impl View for Parameter {
    type V = nat;

    closed spec fn view(&self) -> nat {
        self.index as nat
    }
}

impl Parameter {
    #[verifier::type_invariant]
    spec fn named_consistently(&self) -> bool {
        self.formatted_name@ == "param_"@ + decimal_text(self.index as nat)
    }

    /// Creates a new parameter.
    pub fn new(index: usize) -> (r: Parameter)
        ensures
            r@ == index,
    {
        let mut formatted_name = "param_".to_owned();
        push_decimal(&mut formatted_name, index);
        Parameter { index, formatted_name }
    }
}

impl Variable for Parameter {
    open spec fn formatted(&self) -> Seq<char> {
        "param_"@ + decimal_text(self@)
    }

    fn name(&self) -> (r: &str) {
        proof {
            use_type_invariant(self);
        }
        self.formatted_name.as_str()
    }
}

/// A reference to a function, known by the function's id.
#[derive(Debug, PartialEq, Eq)]
pub struct FunctionReference {
    id: String,
    formatted_name: String,
}

impl View for FunctionReference {
    type V = Seq<char>;

    closed spec fn view(&self) -> Seq<char> {
        self.id@
    }
}

impl FunctionReference {
    #[verifier::type_invariant]
    spec fn named_consistently(&self) -> bool {
        self.formatted_name@ == "func_"@ + self.id@
    }

    /// Creates a new function reference.
    pub fn new(id: String) -> (r: FunctionReference)
        ensures
            r@ == id@,
    {
        let mut formatted_name = "func_".to_owned();
        formatted_name.append(id.as_str());
        FunctionReference { id, formatted_name }
    }

    /// Returns the id of the function referred to.
    pub fn id(&self) -> (r: &str)
        ensures
            r@ == self@,
    {
        self.id.as_str()
    }
}

impl Variable for FunctionReference {
    open spec fn formatted(&self) -> Seq<char> {
        "func_"@ + self@
    }

    fn name(&self) -> (r: &str) {
        proof {
            use_type_invariant(self);
        }
        self.formatted_name.as_str()
    }
}

/// What an operand stands for.
pub enum OperandModel {
    Literal(Literal),
    GlobalVariable(Seq<char>),
    Parameter(nat),
    FunctionReference(Seq<char>),
}

impl OperandModel {
    /// The text an operand is printed as: a literal's glyph, or the formatted name.
    pub open spec fn text(self) -> Seq<char> {
        match self {
            OperandModel::Literal(literal) => literal.text(),
            OperandModel::GlobalVariable(name) => "global_"@ + name,
            OperandModel::Parameter(index) => "param_"@ + decimal_text(index),
            OperandModel::FunctionReference(id) => "func_"@ + id,
        }
    }
}

/// An operand of an instruction.
#[derive(Debug, PartialEq, Eq)]
pub enum Operand {
    Literal(Literal),
    GlobalVariable(GlobalVariable),
    Parameter(Parameter),
    FunctionReference(FunctionReference),
}

impl View for Operand {
    type V = OperandModel;

    open spec fn view(&self) -> OperandModel {
        match self {
            Operand::Literal(literal) => OperandModel::Literal(*literal),
            Operand::GlobalVariable(var) => OperandModel::GlobalVariable(var@),
            Operand::Parameter(param) => OperandModel::Parameter(param@),
            Operand::FunctionReference(func) => OperandModel::FunctionReference(func@),
        }
    }
}

/// The models of a sequence of operands, in order.
pub open spec fn operand_models(operands: Seq<Operand>) -> Seq<OperandModel> {
    operands.map_values(|o: Operand| o@)
}

impl Operand {
    /// Returns the text the operand is printed as.
    pub fn to_string(&self) -> (r: String)
        ensures
            r@ == self@.text(),
    {
        match self {
            Operand::Literal(Literal::ZERO) => "0.0".to_owned(),
            Operand::Literal(Literal::INFINITY) => "Infinity".to_owned(),
            Operand::GlobalVariable(var) => var.name().to_owned(),
            Operand::Parameter(param) => param.name().to_owned(),
            Operand::FunctionReference(func) => func.name().to_owned(),
        }
    }
}

} // verus!
