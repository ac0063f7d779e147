//! Symbolic values: expression trees over literals and identifiers.

use vstd::prelude::*;
use vstd::string::*;
use crate::disassembler::operand::{Literal, Operand, OperandModel, Variable};
use crate::text::join_text;

verus! {

/// A literal value.
#[derive(Debug, Clone, Copy, PartialEq, Eq, Structural)]
pub enum LiteralSymbol {
    Zero,
    NegZero,
    Infinity,
    NegInfinity,
    /// The numerator of a reciprocal; no instruction pushes it by itself.
    One,
}

impl LiteralSymbol {
    /// The glyph the literal is printed as.
    pub open spec fn text(self) -> Seq<char> {
        match self {
            LiteralSymbol::Zero => "0.0"@,
            LiteralSymbol::NegZero => "-0.0"@,
            LiteralSymbol::Infinity => "Infinity"@,
            LiteralSymbol::NegInfinity => "-Infinity"@,
            LiteralSymbol::One => "1"@,
        }
    }

    /// Returns the glyph the literal is printed as.
    pub fn as_str(&self) -> (r: &'static str)
        ensures
            r@ == self.text(),
    {
        match self {
            LiteralSymbol::Zero => "0.0",
            LiteralSymbol::NegZero => "-0.0",
            LiteralSymbol::Infinity => "Infinity",
            LiteralSymbol::NegInfinity => "-Infinity",
            LiteralSymbol::One => "1",
        }
    }
}

/// An operator with one argument.
#[derive(Debug, Clone, Copy, PartialEq, Eq, Structural)]
pub enum UnaryOperator {
    Not,
}

impl UnaryOperator {
    /// The sign the operator is printed as.
    pub open spec fn text(self) -> Seq<char> {
        "!"@
    }

    /// Returns the sign the operator is printed as.
    pub fn as_str(&self) -> (r: &'static str)
        ensures
            r@ == self.text(),
    {
        "!"
    }
}

/// An operator with two arguments.
#[derive(Debug, Clone, Copy, PartialEq, Eq, Structural)]
pub enum BinaryOperator {
    Add,
    Subtract,
    Multiply,
    Divide,
}

impl BinaryOperator {
    /// The sign the operator is printed as.
    pub open spec fn text(self) -> Seq<char> {
        match self {
            BinaryOperator::Add => "+"@,
            BinaryOperator::Subtract => "-"@,
            BinaryOperator::Multiply => "*"@,
            BinaryOperator::Divide => "/"@,
        }
    }

    /// Returns the sign the operator is printed as.
    pub fn as_str(&self) -> (r: &'static str)
        ensures
            r@ == self.text(),
    {
        match self {
            BinaryOperator::Add => "+",
            BinaryOperator::Subtract => "-",
            BinaryOperator::Multiply => "*",
            BinaryOperator::Divide => "/",
        }
    }
}

/// What a symbol stands for: an expression tree.
pub enum Expression {
    Literal(LiteralSymbol),
    Identifier(Seq<char>),
    Unary(UnaryOperator, Box<Expression>),
    Binary(BinaryOperator, Box<Expression>, Box<Expression>),
    Call(Box<Expression>, Seq<Expression>),
}

impl Expression {
    /// The text an expression is printed as. A unary expression is its operator and its
    /// argument; a binary one is written infix between single spaces, without parentheses; a
    /// call is the callee and, in parentheses, the arguments separated by `, `.
    pub open spec fn text(self) -> Seq<char>
        decreases self,
    {
        match self {
            Expression::Literal(literal) => literal.text(),
            Expression::Identifier(name) => name,
            Expression::Unary(operator, argument) => operator.text() + argument.text(),
            Expression::Binary(operator, left, right) => left.text() + " "@ + operator.text()
                + " "@ + right.text(),
            Expression::Call(callee, arguments) => callee.text() + "("@ + join_text(
                expression_texts(arguments),
                ", "@,
            ) + ")"@,
        }
    }

    /// The expression an operand is turned into when it is pushed: a literal becomes the
    /// literal of the same value, anything else the identifier of its formatted name.
    pub open spec fn of_operand(operand: OperandModel) -> Expression {
        match operand {
            OperandModel::Literal(Literal::ZERO) => Expression::Literal(LiteralSymbol::Zero),
            OperandModel::Literal(Literal::INFINITY) => Expression::Literal(
                LiteralSymbol::Infinity,
            ),
            _ => Expression::Identifier(operand.text()),
        }
    }
}

/// The texts of a sequence of expressions, in order.
pub open spec fn expression_texts(items: Seq<Expression>) -> Seq<Seq<char>>
    decreases items,
{
    Seq::new(
        items.len(),
        |i: int|
            if 0 <= i < items.len() {
                items[i].text()
            } else {
                Seq::empty()
            },
    )
}

/// An identifier.
#[derive(Debug, PartialEq, Eq)]
pub struct IdentifierSymbol {
    name: String,
}

/// An operator applied to one argument.
#[derive(Debug, PartialEq, Eq)]
pub struct UnaryExpressionSymbol {
    operator: UnaryOperator,
    argument: Box<Symbol>,
}

/// An operator applied to two arguments.
#[derive(Debug, PartialEq, Eq)]
pub struct BinaryExpressionSymbol {
    operator: BinaryOperator,
    left: Box<Symbol>,
    right: Box<Symbol>,
}

/// A callee applied to a list of arguments.
#[derive(Debug, PartialEq, Eq)]
pub struct CallExpressionSymbol {
    callee: Box<Symbol>,
    arguments: Vec<Symbol>,
}

/// A symbolic value.
#[derive(Debug, PartialEq, Eq)]
pub enum Symbol {
    LiteralSymbol(LiteralSymbol),
    IdentifierSymbol(IdentifierSymbol),
    UnaryExpressionSymbol(UnaryExpressionSymbol),
    BinaryExpressionSymbol(BinaryExpressionSymbol),
    CallExpressionSymbol(CallExpressionSymbol),
}

/// The expressions that a sequence of symbols stands for, in order.
pub closed spec fn expressions(items: Seq<Symbol>) -> Seq<Expression>
    decreases items,
{
    Seq::new(
        items.len(),
        |i: int|
            if 0 <= i < items.len() {
                items[i].expression()
            } else {
                Expression::Literal(LiteralSymbol::Zero)
            },
    )
}

/// The expressions of a sequence of symbols are the views of the symbols, one for one.
pub proof fn lemma_expressions(items: Seq<Symbol>)
    ensures
        expressions(items) == items.map_values(|s: Symbol| s@),
{
    assert(expressions(items) =~= items.map_values(|s: Symbol| s@));
}

impl Symbol {
    /// The expression the symbol stands for.
    pub closed spec fn expression(&self) -> Expression
        decreases self,
    {
        match self {
            Symbol::LiteralSymbol(literal) => Expression::Literal(*literal),
            Symbol::IdentifierSymbol(ident) => Expression::Identifier(ident.name@),
            Symbol::UnaryExpressionSymbol(unary) => Expression::Unary(
                unary.operator,
                Box::new((*unary.argument).expression()),
            ),
            Symbol::BinaryExpressionSymbol(binary) => Expression::Binary(
                binary.operator,
                Box::new((*binary.left).expression()),
                Box::new((*binary.right).expression()),
            ),
            Symbol::CallExpressionSymbol(call) => Expression::Call(
                Box::new((*call.callee).expression()),
                expressions(call.arguments@),
            ),
        }
    }

    /// A literal symbol stands for the literal it holds.
    pub proof fn lemma_literal(literal: LiteralSymbol)
        ensures
            Symbol::LiteralSymbol(literal)@ == Expression::Literal(literal),
    {
    }

    /// Creates a symbol from an operand.
    pub fn from(value: &Operand) -> (r: Symbol)
        ensures
            r@ == Expression::of_operand(value@),
    {
        match value {
            Operand::Literal(literal) => match literal {
                Literal::ZERO => Symbol::LiteralSymbol(LiteralSymbol::Zero),
                Literal::INFINITY => Symbol::LiteralSymbol(LiteralSymbol::Infinity),
            },
            Operand::GlobalVariable(var) => Symbol::IdentifierSymbol(
                IdentifierSymbol::new(var.name().to_owned()),
            ),
            Operand::Parameter(param) => Symbol::IdentifierSymbol(
                IdentifierSymbol::new(param.name().to_owned()),
            ),
            Operand::FunctionReference(func) => Symbol::IdentifierSymbol(
                IdentifierSymbol::new(func.name().to_owned()),
            ),
        }
    }

    /// Appends the text of the symbol to `out`.
    pub fn write_to(&self, out: &mut String)
        ensures
            final(out)@ == old(out)@ + self@.text(),
        decreases self,
    {
        match self {
            Symbol::LiteralSymbol(literal) => {
                out.append(literal.as_str());
            },
            Symbol::IdentifierSymbol(ident) => {
                out.append(ident.name.as_str());
            },
            Symbol::UnaryExpressionSymbol(unary) => {
                out.append(unary.operator.as_str());
                unary.argument.write_to(out);
                assert(out@ =~= old(out)@ + self@.text());
            },
            Symbol::BinaryExpressionSymbol(binary) => {
                binary.left.write_to(out);
                out.append(" ");
                out.append(binary.operator.as_str());
                out.append(" ");
                binary.right.write_to(out);
                assert(out@ =~= old(out)@ + self@.text());
            },
            Symbol::CallExpressionSymbol(call) => {
                call.callee.write_to(out);
                out.append("(");
                let ghost head = out@;
                let ghost parts = expression_texts(expressions(call.arguments@));
                let mut k: usize = 0;
                while k < call.arguments.len()
                    invariant
                        k <= call.arguments.len(),
                        parts == expression_texts(expressions(call.arguments@)),
                        out@ == head + join_text(parts.take(k as int), ", "@),
                        *self == Symbol::CallExpressionSymbol(*call),
                    decreases call.arguments.len() - k,
                {
                    if k > 0 {
                        out.append(", ");
                    }
                    proof {
                        assert(decreases_to!(*self => self->CallExpressionSymbol_0));
                        assert(decreases_to!(*call => call.arguments));
                        assert(decreases_to!(call.arguments => call.arguments[k as int]));
                    }
                    call.arguments[k].write_to(out);
                    proof {
                        assert(parts.take(k + 1).drop_last() =~= parts.take(k as int));
                        assert(out@ =~= head + join_text(parts.take(k + 1), ", "@));
                    }
                    k = k + 1;
                }
                out.append(")");
                proof {
                    assert(parts.take(k as int) =~= parts);
                    assert(out@ =~= old(out)@ + self@.text());
                }
            },
        }
    }

    /// Returns the text of the symbol.
    pub fn to_string(&self) -> (r: String)
        ensures
            r@ == self@.text(),
    {
        let mut out = String::new();
        self.write_to(&mut out);
        assert(out@ =~= self@.text());
        out
    }
}

impl View for Symbol {
    type V = Expression;

    open spec fn view(&self) -> Expression {
        self.expression()
    }
}

impl View for IdentifierSymbol {
    type V = Expression;

    open spec fn view(&self) -> Expression {
        Symbol::IdentifierSymbol(*self)@
    }
}

impl View for UnaryExpressionSymbol {
    type V = Expression;

    open spec fn view(&self) -> Expression {
        Symbol::UnaryExpressionSymbol(*self)@
    }
}

impl View for BinaryExpressionSymbol {
    type V = Expression;

    open spec fn view(&self) -> Expression {
        Symbol::BinaryExpressionSymbol(*self)@
    }
}

impl View for CallExpressionSymbol {
    type V = Expression;

    open spec fn view(&self) -> Expression {
        Symbol::CallExpressionSymbol(*self)@
    }
}

impl IdentifierSymbol {
    /// Creates a new identifier symbol.
    pub fn new(name: String) -> (r: IdentifierSymbol)
        ensures
            r@ == Expression::Identifier(name@),
    {
        IdentifierSymbol { name }
    }
}

impl UnaryExpressionSymbol {
    /// Creates a new unary expression symbol.
    pub fn new(operator: UnaryOperator, argument: Box<Symbol>) -> (r: UnaryExpressionSymbol)
        ensures
            r@ == Expression::Unary(operator, Box::new(argument@)),
    {
        UnaryExpressionSymbol { operator, argument }
    }
}

impl BinaryExpressionSymbol {
    /// Creates a new binary expression symbol.
    pub fn new(operator: BinaryOperator, left: Box<Symbol>, right: Box<Symbol>) -> (r:
        BinaryExpressionSymbol)
        ensures
            r@ == Expression::Binary(operator, Box::new(left@), Box::new(right@)),
    {
        BinaryExpressionSymbol { operator, left, right }
    }
}

impl CallExpressionSymbol {
    /// Creates a new call expression symbol.
    pub fn new(callee: Box<Symbol>, arguments: Vec<Symbol>) -> (r: CallExpressionSymbol)
        ensures
            r@ == Expression::Call(Box::new(callee@), arguments@.map_values(|s: Symbol| s@)),
    {
        proof {
            lemma_expressions(arguments@);
        }
        CallExpressionSymbol { callee, arguments }
    }
}

} // verus!
