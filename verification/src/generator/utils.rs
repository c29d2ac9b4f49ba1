//! Executable predicates on characters and fragments that the generator
//! consults when it places a separator.

use crate::generator::layout::{
    breaks_concat, breaks_long_string, breaks_minus, breaks_variable_arguments,
};
use crate::generator::text::{is_digit_char, is_word_char};
use crate::nodes::expressions::{Expression, Prefix, Variable};
use crate::nodes::statements::Statement;
use vstd::prelude::*;

verus! {

/// `String::push` of the standard library: it appends `character` to `text`
/// and leaves the characters before it as they were.
pub assume_specification[ std::string::String::push ](
    text: &mut std::string::String,
    character: char,
)
    ensures
        final(text)@ == old(text)@.push(character),
;

/// The characters of `content`, in order.
pub fn characters(content: &str) -> (list: Vec<char>)
    ensures
        list@ == content@,
{
    let mut list: Vec<char> = Vec::new();
    for character in iterator: content.chars()
        invariant
            list@ == iterator.seq().take(iterator.index()),
    {
        list.push(character);
    }
    list
}

/// Whether `content` begins with `character`.
pub fn starts_with(content: &str, character: char) -> (starts: bool)
    ensures
        starts == (content@.len() > 0 && content@[0] == character),
{
    let mut iterator = content.chars();
    match iterator.next() {
        Some(first) => first == character,
        None => false,
    }
}

/// The string that holds the characters of `list`, in order.
pub fn string_of(list: &Vec<char>) -> (text: String)
    ensures
        text@ == list@,
{
    let mut text = String::new();
    let mut index: usize = 0;
    while index < list.len()
        invariant
            index <= list.len(),
            text@ == list@.take(index as int),
        decreases list.len() - index,
    {
        text.push(list[index]);
        index = index + 1;
    }
    text
}

/// Whether `character` is an ASCII decimal digit.
pub fn is_digit(character: char) -> (digit: bool)
    ensures
        digit == is_digit_char(character),
{
    '0' <= character && character <= '9'
}

/// Whether `character` takes part in the spacing decision: two such characters
/// side by side read as one word.
pub fn is_relevant_for_spacing(character: &char) -> (relevant: bool)
    ensures
        relevant == is_word_char(*character),
{
    let c = *character;
    ('a' <= c && c <= 'z') || ('A' <= c && c <= 'Z') || is_digit(c) || c == '_'
}

/// Whether `..` must be kept apart from `last_string`.
pub fn break_concat(last_string: &[char]) -> (needed: bool)
    ensures
        needed == breaks_concat(last_string@),
{
    let length: usize = last_string.len();
    length > 0 && (is_digit(last_string[length - 1]) || last_string[length - 1] == '.')
}

/// Whether `-` must be kept apart from `last_string`.
pub fn break_minus(last_string: &[char]) -> (needed: bool)
    ensures
        needed == breaks_minus(last_string@),
{
    let length: usize = last_string.len();
    length > 0 && last_string[length - 1] == '-'
}

/// Whether `...` must be kept apart from `last_string`.
pub fn break_variable_arguments(last_string: &[char]) -> (needed: bool)
    ensures
        needed == breaks_variable_arguments(last_string@),
{
    let length: usize = last_string.len();
    length > 0 && (is_digit(last_string[length - 1]) || last_string[length - 1] == '.')
}

/// Whether a long-bracket string must be kept apart from `last_string`.
pub fn break_long_string(last_string: &[char]) -> (needed: bool)
    ensures
        needed == breaks_long_string(last_string@),
{
    let length: usize = last_string.len();
    length > 0 && last_string[length - 1] == '['
}

/// Whether the printed form of `prefix` begins with `(`.
pub open spec fn prefix_starts_with_parenthese_spec(prefix: Prefix) -> bool
    decreases prefix,
{
    match prefix {
        Prefix::Parenthese(_) => true,
        Prefix::Call(call) => prefix_starts_with_parenthese_spec(*call.prefix),
        Prefix::Field(field) => prefix_starts_with_parenthese_spec(field.prefix),
        Prefix::Index(index) => prefix_starts_with_parenthese_spec(index.prefix),
        Prefix::Identifier(_) => false,
    }
}

/// Whether the printed form of `variable` begins with `(`.
pub open spec fn variable_starts_with_parenthese_spec(variable: Variable) -> bool {
    match variable {
        Variable::Identifier(_) => false,
        Variable::Field(field) => prefix_starts_with_parenthese_spec(field.prefix),
        Variable::Index(index) => prefix_starts_with_parenthese_spec(index.prefix),
    }
}

/// Whether the printed form of `statement` begins with `(`: an assignment or
/// a call whose first prefix goes back to an expression in parentheses.
pub open spec fn starts_with_parenthese_spec(statement: Statement) -> bool {
    match statement {
        Statement::Assign(assign) => assign.variables@.len() > 0
            && variable_starts_with_parenthese_spec(assign.variables@[0]),
        Statement::CompoundAssign(assign) => variable_starts_with_parenthese_spec(
            assign.variable,
        ),
        Statement::Call(call) => prefix_starts_with_parenthese_spec(*call.prefix),
        _ => false,
    }
}

/// Whether the printed form of `expression` ends with what a following `(`
/// would call: a name, a field, an index, a call or a closing parenthesis.
pub open spec fn expression_ends_with_prefix_spec(expression: Expression) -> bool
    decreases expression,
{
    match expression {
        Expression::Binary(binary) => binary.operator.right_operand_needs_parentheses(
            binary.right,
        ) || expression_ends_with_prefix_spec(binary.right),
        Expression::Call(_)
        | Expression::Parenthese(_)
        | Expression::Identifier(_)
        | Expression::Field(_)
        | Expression::Index(_) => true,
        Expression::Unary(unary) => (unary.expression matches Expression::Binary(binary)
            && binary.operator.precedence() <= 6) || expression_ends_with_prefix_spec(
            unary.expression,
        ),
        Expression::If(if_expression) => expression_ends_with_prefix_spec(
            if_expression.else_result,
        ),
        _ => false,
    }
}

/// Whether the printed form of `statement` ends with what a following `(`
/// would call.
pub open spec fn ends_with_prefix_spec(statement: Statement) -> bool {
    match statement {
        Statement::Assign(assign) => assign.values@.len() > 0
            && expression_ends_with_prefix_spec(assign.values@.last()),
        Statement::CompoundAssign(assign) => expression_ends_with_prefix_spec(assign.value),
        Statement::Call(_) => true,
        Statement::Repeat(repeat) => expression_ends_with_prefix_spec(repeat.condition),
        Statement::LocalAssign(assign) => assign.values@.len() > 0
            && expression_ends_with_prefix_spec(assign.values@.last()),
        _ => false,
    }
}

fn prefix_starts_with_parenthese(prefix: &Prefix) -> (starts: bool)
    ensures
        starts == prefix_starts_with_parenthese_spec(*prefix),
    decreases *prefix,
{
    match prefix {
        Prefix::Parenthese(_) => true,
        Prefix::Call(call) => prefix_starts_with_parenthese(&call.prefix),
        Prefix::Field(field) => prefix_starts_with_parenthese(&field.prefix),
        Prefix::Index(index) => prefix_starts_with_parenthese(&index.prefix),
        Prefix::Identifier(_) => false,
    }
}

fn variable_starts_with_parenthese(variable: &Variable) -> (starts: bool)
    ensures
        starts == variable_starts_with_parenthese_spec(*variable),
{
    match variable {
        Variable::Identifier(_) => false,
        Variable::Field(field) => prefix_starts_with_parenthese(&field.prefix),
        Variable::Index(index) => prefix_starts_with_parenthese(&index.prefix),
    }
}

/// Whether the printed form of `statement` begins with `(`.
pub fn starts_with_parenthese(statement: &Statement) -> (starts: bool)
    ensures
        starts == starts_with_parenthese_spec(*statement),
{
    match statement {
        Statement::Assign(assign) => {
            if assign.variables.len() > 0 {
                variable_starts_with_parenthese(&assign.variables[0])
            } else {
                false
            }
        },
        Statement::CompoundAssign(assign) => variable_starts_with_parenthese(&assign.variable),
        Statement::Call(call) => prefix_starts_with_parenthese(&call.prefix),
        _ => false,
    }
}

fn expression_ends_with_prefix(expression: &Expression) -> (ends: bool)
    ensures
        ends == expression_ends_with_prefix_spec(*expression),
    decreases *expression,
{
    match expression {
        Expression::Binary(binary) => binary.operator.right_needs_parentheses(&binary.right)
            || expression_ends_with_prefix(&binary.right),
        Expression::Call(_)
        | Expression::Parenthese(_)
        | Expression::Identifier(_)
        | Expression::Field(_)
        | Expression::Index(_) => true,
        Expression::Unary(unary) => {
            let wrapped = match &unary.expression {
                Expression::Binary(binary) => !binary.operator.precedes_unary_expression(),
                _ => false,
            };
            wrapped || expression_ends_with_prefix(&unary.expression)
        },
        Expression::If(if_expression) => expression_ends_with_prefix(&if_expression.else_result),
        _ => false,
    }
}

/// Whether the printed form of `statement` ends with what a following `(`
/// would call.
pub fn ends_with_prefix(statement: &Statement) -> (ends: bool)
    ensures
        ends == ends_with_prefix_spec(*statement),
{
    match statement {
        Statement::Assign(assign) => {
            let count: usize = assign.values.len();
            count > 0 && expression_ends_with_prefix(&assign.values[count - 1])
        },
        Statement::CompoundAssign(assign) => expression_ends_with_prefix(&assign.value),
        Statement::Call(_) => true,
        Statement::Repeat(repeat) => expression_ends_with_prefix(&repeat.condition),
        Statement::LocalAssign(assign) => {
            let count: usize = assign.values.len();
            count > 0 && expression_ends_with_prefix(&assign.values[count - 1])
        },
        _ => false,
    }
}

} // verus!
