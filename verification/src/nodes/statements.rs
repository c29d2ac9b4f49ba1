//! Statements and blocks.

use crate::nodes::expressions::{Expression, FunctionCall, Identifier, Variable};
use crate::nodes::operators::CompoundOperator;
use vstd::prelude::*;

verus! {

/// A sequence of statements, closed by at most one last statement.
#[derive(Debug)]
pub struct Block {
    pub statements: Vec<Statement>,
    pub last_statement: Option<LastStatement>,
}

impl Block {
    /// Whether the block holds no statement at all.
    pub open spec fn is_empty_spec(&self) -> bool {
        self.statements@.len() == 0 && self.last_statement is None
    }

    /// Whether the block holds no statement at all.
    #[verifier::when_used_as_spec(is_empty_spec)]
    pub fn is_empty(&self) -> (empty: bool)
        ensures
            empty == self.is_empty_spec(),
    {
        self.statements.len() == 0 && self.last_statement.is_none()
    }
}

/// The statement that may close a block.
#[derive(Debug)]
pub enum LastStatement {
    Break,
    Continue,
    Return(ReturnStatement),
}

/// `return` with its values.
#[derive(Debug)]
pub struct ReturnStatement {
    pub expressions: Vec<Expression>,
}

/// A statement.
#[derive(Debug)]
pub enum Statement {
    Assign(AssignStatement),
    Do(DoStatement),
    Call(FunctionCall),
    CompoundAssign(CompoundAssignStatement),
    Function(FunctionStatement),
    GenericFor(GenericForStatement),
    If(IfStatement),
    LocalAssign(LocalAssignStatement),
    LocalFunction(LocalFunctionStatement),
    NumericFor(NumericForStatement),
    Repeat(RepeatStatement),
    While(WhileStatement),
}

/// An assignment: `variables = values`.
#[derive(Debug)]
pub struct AssignStatement {
    pub variables: Vec<Variable>,
    pub values: Vec<Expression>,
}

/// A block of its own: `do ... end`.
#[derive(Debug)]
pub struct DoStatement {
    pub block: Block,
}

/// A compound assignment such as `variable += value`.
#[derive(Debug)]
pub struct CompoundAssignStatement {
    pub operator: CompoundOperator,
    pub variable: Variable,
    pub value: Expression,
}

/// The name of a function statement: `name.field.field:method`.
#[derive(Debug)]
pub struct FunctionName {
    pub name: Identifier,
    pub field_names: Vec<Identifier>,
    pub method: Option<Identifier>,
}

/// A function statement.
#[derive(Debug)]
pub struct FunctionStatement {
    pub name: FunctionName,
    pub block: Block,
    pub parameters: Vec<Identifier>,
    pub is_variadic: bool,
}

/// A generic for loop: `for identifiers in expressions do ... end`.
#[derive(Debug)]
pub struct GenericForStatement {
    pub identifiers: Vec<Identifier>,
    pub expressions: Vec<Expression>,
    pub block: Block,
}

/// A branch of an if statement.
#[derive(Debug)]
pub struct IfBranch {
    pub condition: Expression,
    pub block: Block,
}

/// An if statement.
#[derive(Debug)]
pub struct IfStatement {
    pub branches: Vec<IfBranch>,
    pub else_block: Option<Block>,
}

/// A declaration of local variables.
#[derive(Debug)]
pub struct LocalAssignStatement {
    pub variables: Vec<Identifier>,
    pub values: Vec<Expression>,
}

/// A declaration of a local function.
#[derive(Debug)]
pub struct LocalFunctionStatement {
    pub identifier: Identifier,
    pub block: Block,
    pub parameters: Vec<Identifier>,
    pub is_variadic: bool,
}

/// A numeric for loop: `for identifier = start, end, step do ... end`.
#[derive(Debug)]
pub struct NumericForStatement {
    pub identifier: Identifier,
    pub start: Expression,
    pub end: Expression,
    pub step: Option<Expression>,
    pub block: Block,
}

/// A loop that tests its condition after each round.
#[derive(Debug)]
pub struct RepeatStatement {
    pub block: Block,
    pub condition: Expression,
}

/// A loop that tests its condition before each round.
#[derive(Debug)]
pub struct WhileStatement {
    pub block: Block,
    pub condition: Expression,
}

} // verus!
