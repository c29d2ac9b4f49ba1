//! What is emitted for a node of the syntax tree: parentheses, empty bodies
//! and the `;` between statements.

use crate::generator::emission::{
    binary_emissions, binary_operator_emissions, block_emissions, expression_emissions, fragment,
    function_expression_emissions, function_parameters_emissions, joined, needs_semicolon,
    prefix_emissions, statement_emissions, statements_emissions, symbol, variable_parts, wrapped,
};
use crate::generator::layout::{Emission, Layout, group_emit_all};
use crate::generator::utils::{prefix_starts_with_parenthese_spec, starts_with_parenthese_spec};
use crate::nodes::expressions::{
    BinaryExpression, Expression, FunctionExpression, Identifier, Prefix, Variable,
};
use crate::nodes::operators::BinaryOperator;
use crate::nodes::statements::{Block, Statement};
use vstd::prelude::*;

verus! {

/// What is emitted for `operand` in parentheses.
pub open spec fn in_parentheses(operand: Expression) -> Seq<Emission> {
    symbol('(') + expression_emissions(operand) + symbol(')')
}

/// What is emitted for the left operand of `binary`, in parentheses or not.
pub open spec fn left_operand_emissions(binary: BinaryExpression) -> Seq<Emission> {
    wrapped(
        binary.operator.left_operand_needs_parentheses(binary.left),
        expression_emissions(binary.left),
    )
}

/// What is emitted for the right operand of `binary`, in parentheses or not.
pub open spec fn right_operand_emissions(binary: BinaryExpression) -> Seq<Emission> {
    wrapped(
        binary.operator.right_operand_needs_parentheses(binary.right),
        expression_emissions(binary.right),
    )
}

/// An operand that needs parentheses on the left of its operator is printed
/// in them: what is emitted for the expression opens with `(`, the operand and
/// `)`, and the operator and the right operand follow.
pub proof fn lemma_left_operand_in_parentheses(layout: Layout, binary: BinaryExpression)
    requires
        binary.operator.left_operand_needs_parentheses(binary.left),
    ensures
        binary_emissions(binary) == in_parentheses(binary.left) + (binary_operator_emissions(
            binary.operator,
        ) + right_operand_emissions(binary)),
        layout.emit_all(binary_emissions(binary)) == layout.emit_all(
            in_parentheses(binary.left),
        ).emit_all(binary_operator_emissions(binary.operator) + right_operand_emissions(binary)),
        layout.emit_all(in_parentheses(binary.left)) == layout.emit(
            Emission::Fragment(seq!['(']),
        ).emit_all(expression_emissions(binary.left)).emit(Emission::Fragment(seq![')'])),
{
    broadcast use group_emit_all;

    let rest = binary_operator_emissions(binary.operator) + right_operand_emissions(binary);
    assert(binary_emissions(binary) =~= in_parentheses(binary.left) + rest);
}

/// An operand that needs parentheses on the right of its operator is printed
/// in them: what is emitted for the expression closes with `(`, the operand
/// and `)`.
pub proof fn lemma_right_operand_in_parentheses(layout: Layout, binary: BinaryExpression)
    requires
        binary.operator.right_operand_needs_parentheses(binary.right),
    ensures
        binary_emissions(binary) == left_operand_emissions(binary) + binary_operator_emissions(
            binary.operator,
        ) + in_parentheses(binary.right),
        layout.emit_all(binary_emissions(binary)) == layout.emit_all(
            left_operand_emissions(binary) + binary_operator_emissions(binary.operator),
        ).emit_all(in_parentheses(binary.right)),
{
    broadcast use group_emit_all;

}

/// An operand whose binary operator binds less tightly than the operator
/// above it needs parentheses, on either side.
pub proof fn lemma_looser_operand_needs_parentheses(
    operator: BinaryOperator,
    operand: BinaryExpression,
)
    requires
        operand.operator.precedence() < operator.precedence(),
    ensures
        operator.left_operand_needs_parentheses(Expression::Binary(Box::new(operand))),
        operator.right_operand_needs_parentheses(Expression::Binary(Box::new(operand))),
{
}

/// A block without statements emits nothing.
pub proof fn lemma_empty_block_emits_nothing(block: Block)
    requires
        block.is_empty_spec(),
    ensures
        block_emissions(block) == Seq::<Emission>::empty(),
{
    assert(block.statements@ =~= Seq::<Statement>::empty());
    assert(block_emissions(block) =~= Seq::<Emission>::empty());
}

/// A function with an empty body emits `end` directly after the parenthesis
/// that closes its parameters.
pub proof fn lemma_empty_function_body(function: FunctionExpression)
    requires
        function.block.is_empty_spec(),
    ensures
        function_expression_emissions(function) == fragment("function"@) + symbol('(')
            + function_parameters_emissions(function.parameters@, function.is_variadic)
            + symbol(')') + fragment("end"@),
{
    lemma_empty_block_emits_nothing(function.block);
    assert(function_expression_emissions(function) =~= fragment("function"@) + symbol('(')
        + function_parameters_emissions(function.parameters@, function.is_variadic)
        + symbol(')') + fragment("end"@));
}

/// Between a statement that ends with what a parenthesis would call and a
/// statement that begins with a parenthesis, a `;` is emitted; between other
/// statements nothing is.
pub proof fn lemma_semicolon_between_statements(first: Statement, second: Statement)
    ensures
        needs_semicolon(first, second) ==> statements_emissions(seq![first, second])
            == statement_emissions(first) + symbol(';') + statement_emissions(second),
        !needs_semicolon(first, second) ==> statements_emissions(seq![first, second])
            == statement_emissions(first) + statement_emissions(second),
{
    let both = seq![first, second];
    assert(both.drop_last() =~= seq![first]);
    assert(seq![first].drop_last() =~= Seq::<Statement>::empty());
    reveal_with_fuel(statements_emissions, 3);
    assert(statements_emissions(seq![first]) =~= statement_emissions(first));
    assert(statement_emissions(first) + Seq::<Emission>::empty() =~= statement_emissions(first));
}

/// The first emission of parts that are joined is the first emission of the
/// first part.
proof fn lemma_joined_first(parts: Seq<Seq<Emission>>, separator: Seq<Emission>)
    requires
        parts.len() > 0,
        parts[0].len() > 0,
    ensures
        joined(parts, separator).len() > 0,
        joined(parts, separator)[0] == parts[0][0],
    decreases parts.len(),
{
    if parts.len() > 1 {
        lemma_joined_first(parts.drop_last(), separator);
    }
}

/// A prefix that begins with an expression in parentheses emits `(` first.
pub proof fn lemma_prefix_starts_with_parenthese(prefix: Prefix)
    requires
        prefix_starts_with_parenthese_spec(prefix),
    ensures
        prefix_emissions(prefix).len() > 0,
        prefix_emissions(prefix)[0] == Emission::Fragment(seq!['(']),
    decreases prefix,
{
    match prefix {
        Prefix::Parenthese(_) => {},
        Prefix::Call(call) => {
            lemma_prefix_starts_with_parenthese(*call.prefix);
        },
        Prefix::Field(field) => {
            lemma_prefix_starts_with_parenthese(field.prefix);
        },
        Prefix::Index(index) => {
            lemma_prefix_starts_with_parenthese(index.prefix);
        },
        Prefix::Identifier(_) => {},
    }
}

/// The name at the root of a prefix that begins with no parenthesis.
pub open spec fn leading_name(prefix: Prefix) -> Identifier
    decreases prefix,
{
    match prefix {
        Prefix::Call(call) => leading_name(*call.prefix),
        Prefix::Field(field) => leading_name(field.prefix),
        Prefix::Index(index) => leading_name(index.prefix),
        Prefix::Identifier(identifier) => identifier,
        Prefix::Parenthese(_) => arbitrary(),
    }
}

/// A prefix that is held to begin with no parenthesis emits the name at its
/// root first: it begins with `(` only if that name is `(`, which is no name.
pub proof fn lemma_prefix_starts_with_its_name(prefix: Prefix)
    requires
        !prefix_starts_with_parenthese_spec(prefix),
    ensures
        prefix_emissions(prefix).len() > 0,
        prefix_emissions(prefix)[0] == Emission::Fragment(leading_name(prefix).name@),
    decreases prefix,
{
    match prefix {
        Prefix::Call(call) => {
            lemma_prefix_starts_with_its_name(*call.prefix);
        },
        Prefix::Field(field) => {
            lemma_prefix_starts_with_its_name(field.prefix);
        },
        Prefix::Index(index) => {
            lemma_prefix_starts_with_its_name(index.prefix);
        },
        Prefix::Identifier(_) => {},
        Prefix::Parenthese(_) => {},
    }
}

/// A statement that is held to begin with a parenthesis emits `(` first.
pub proof fn lemma_statement_starts_with_parenthese(statement: Statement)
    requires
        starts_with_parenthese_spec(statement),
    ensures
        statement_emissions(statement).len() > 0,
        statement_emissions(statement)[0] == Emission::Fragment(seq!['(']),
{
    match statement {
        Statement::Assign(assign) => {
            let variable = assign.variables@[0];
            match variable {
                Variable::Field(field) => {
                    lemma_prefix_starts_with_parenthese(field.prefix);
                },
                Variable::Index(index) => {
                    lemma_prefix_starts_with_parenthese(index.prefix);
                },
                Variable::Identifier(_) => {},
            }
            lemma_joined_first(variable_parts(assign.variables@), symbol(','));
        },
        Statement::CompoundAssign(assign) => {
            match assign.variable {
                Variable::Field(field) => {
                    lemma_prefix_starts_with_parenthese(field.prefix);
                },
                Variable::Index(index) => {
                    lemma_prefix_starts_with_parenthese(index.prefix);
                },
                Variable::Identifier(_) => {},
            }
        },
        Statement::Call(call) => {
            lemma_prefix_starts_with_parenthese(*call.prefix);
        },
        _ => {},
    }
}

} // verus!
