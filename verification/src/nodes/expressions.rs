//! Expressions and their parts.

use crate::nodes::operators::{BinaryOperator, UnaryOperator};
use crate::nodes::statements::Block;
use vstd::prelude::*;

verus! {

/// A name: a variable, a field, a method or a parameter.
#[derive(Clone, Debug)]
pub struct Identifier {
    pub name: String,
}

/// A string literal, held in the form in which it is printed: with its quotes
/// or its long brackets, and with its escapes.
#[derive(Clone, Debug)]
pub struct StringExpression {
    pub literal: String,
}

/// The value of a decimal number.
#[derive(Clone, Debug)]
pub enum DecimalValue {
    /// Not a number.
    NotANumber,
    /// Positive infinity.
    PositiveInfinity,
    /// Negative infinity.
    NegativeInfinity,
    /// A finite value, held as the shortest decimal text that reads back as the
    /// same value, without an exponent.
    Finite(String),
}

/// A decimal number literal.
#[derive(Clone, Debug)]
pub struct DecimalNumber {
    pub value: DecimalValue,
    /// The exponent written after the value, if any.
    pub exponent: Option<i64>,
    /// Whether the exponent letter is a capital; lower case when not recorded.
    pub is_uppercase: Option<bool>,
}

/// A hexadecimal number literal.
#[derive(Clone, Debug)]
pub struct HexNumber {
    pub integer: u64,
    /// The binary exponent written after the digits, if any.
    pub exponent: Option<u32>,
    pub is_x_uppercase: bool,
    /// Whether the exponent letter is a capital; lower case when not recorded.
    pub is_exponent_uppercase: Option<bool>,
}

/// A binary number literal.
#[derive(Clone, Debug)]
pub struct BinaryNumber {
    pub value: u64,
    pub is_b_uppercase: bool,
}

/// A number literal.
#[derive(Clone, Debug)]
pub enum NumberExpression {
    Decimal(DecimalNumber),
    Hex(HexNumber),
    Binary(BinaryNumber),
}

/// An expression.
#[derive(Debug)]
pub enum Expression {
    Binary(Box<BinaryExpression>),
    Call(Box<FunctionCall>),
    False,
    Field(Box<FieldExpression>),
    Function(FunctionExpression),
    Identifier(Identifier),
    If(Box<IfExpression>),
    Index(Box<IndexExpression>),
    Nil,
    Number(NumberExpression),
    Parenthese(Box<ParentheseExpression>),
    String(StringExpression),
    Table(TableExpression),
    True,
    Unary(Box<UnaryExpression>),
    VariableArguments,
}

/// Two operands joined by a binary operator.
#[derive(Debug)]
pub struct BinaryExpression {
    pub operator: BinaryOperator,
    pub left: Expression,
    pub right: Expression,
}

/// An operand under a unary operator.
#[derive(Debug)]
pub struct UnaryExpression {
    pub operator: UnaryOperator,
    pub expression: Expression,
}

/// An expression in parentheses.
#[derive(Debug)]
pub struct ParentheseExpression {
    pub expression: Expression,
}

/// What can stand before a call, a field access or an index.
#[derive(Debug)]
pub enum Prefix {
    Call(FunctionCall),
    Field(Box<FieldExpression>),
    Identifier(Identifier),
    Index(Box<IndexExpression>),
    Parenthese(ParentheseExpression),
}

/// A field access: `prefix.field`.
#[derive(Debug)]
pub struct FieldExpression {
    pub prefix: Prefix,
    pub field: Identifier,
}

/// An index access: `prefix[index]`.
#[derive(Debug)]
pub struct IndexExpression {
    pub prefix: Prefix,
    pub index: Expression,
}

/// The arguments of a call in parentheses.
#[derive(Debug)]
pub struct TupleArguments {
    pub values: Vec<Expression>,
}

/// The arguments of a call.
#[derive(Debug)]
pub enum Arguments {
    Tuple(TupleArguments),
    String(StringExpression),
    Table(TableExpression),
}

/// A call of a function or of a method.
#[derive(Debug)]
pub struct FunctionCall {
    pub prefix: Box<Prefix>,
    pub arguments: Arguments,
    pub method: Option<Identifier>,
}

/// A table entry `field = value`.
#[derive(Debug)]
pub struct TableFieldEntry {
    pub field: Identifier,
    pub value: Expression,
}

/// A table entry `[key] = value`.
#[derive(Debug)]
pub struct TableIndexEntry {
    pub key: Expression,
    pub value: Expression,
}

/// An entry of a table constructor.
#[derive(Debug)]
pub enum TableEntry {
    Field(TableFieldEntry),
    Index(TableIndexEntry),
    Value(Expression),
}

/// A table constructor.
#[derive(Debug)]
pub struct TableExpression {
    pub entries: Vec<TableEntry>,
}

/// A further branch of an if-expression.
#[derive(Debug)]
pub struct ElseIfExpressionBranch {
    pub condition: Expression,
    pub result: Expression,
}

/// An if-expression: `if condition then result else else_result`.
#[derive(Debug)]
pub struct IfExpression {
    pub condition: Expression,
    pub result: Expression,
    pub else_result: Expression,
    pub branches: Vec<ElseIfExpressionBranch>,
}

/// An anonymous function.
#[derive(Debug)]
pub struct FunctionExpression {
    pub block: Block,
    pub parameters: Vec<Identifier>,
    pub is_variadic: bool,
}

/// What can stand on the left of an assignment.
#[derive(Debug)]
pub enum Variable {
    Identifier(Identifier),
    Field(Box<FieldExpression>),
    Index(Box<IndexExpression>),
}

} // verus!
