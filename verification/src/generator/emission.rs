//! What the generator emits for each node of the syntax tree: a sequence of
//! requests to the buffer, fixed by the node alone.

use crate::generator::layout::{Emission, Layout};
use crate::generator::number::number_text;
use crate::generator::utils::{ends_with_prefix_spec, starts_with_parenthese_spec};
use crate::nodes::expressions::{
    Arguments, BinaryExpression, ElseIfExpressionBranch, Expression, FieldExpression, FunctionCall,
    FunctionExpression, Identifier, IfExpression, IndexExpression, ParentheseExpression, Prefix,
    StringExpression, TableEntry, TableExpression, TupleArguments, UnaryExpression, Variable,
};
use crate::nodes::operators::{BinaryOperator, UnaryOperator};
use crate::nodes::statements::{
    AssignStatement, Block, CompoundAssignStatement, DoStatement, FunctionName, FunctionStatement,
    GenericForStatement, IfBranch, IfStatement, LastStatement, LocalAssignStatement,
    LocalFunctionStatement, NumericForStatement, RepeatStatement, ReturnStatement, Statement,
    WhileStatement,
};
use vstd::prelude::*;

verus! {

/// One plain fragment.
pub open spec fn fragment(text: Seq<char>) -> Seq<Emission> {
    seq![Emission::Fragment(text)]
}

/// One plain fragment of a single character.
pub open spec fn symbol(c: char) -> Seq<Emission> {
    seq![Emission::Fragment(seq![c])]
}

/// The parts in order, with `separator` between each two neighbours.
pub open spec fn joined(parts: Seq<Seq<Emission>>, separator: Seq<Emission>) -> Seq<Emission>
    decreases parts.len(),
{
    if parts.len() == 0 {
        Seq::empty()
    } else if parts.len() == 1 {
        parts[0]
    } else {
        joined(parts.drop_last(), separator) + separator + parts.last()
    }
}

/// The parts in order, with a comma between each two neighbours.
pub open spec fn comma_separated(parts: Seq<Seq<Emission>>) -> Seq<Emission> {
    joined(parts, symbol(','))
}

/// The parts in order, with nothing between them.
pub open spec fn concatenated(parts: Seq<Seq<Emission>>) -> Seq<Emission> {
    joined(parts, Seq::empty())
}

/// `inner`, in parentheses where `needed`.
pub open spec fn wrapped(needed: bool, inner: Seq<Emission>) -> Seq<Emission> {
    if needed {
        symbol('(') + inner + symbol(')')
    } else {
        inner
    }
}

/// A name.
pub open spec fn identifier_emissions(identifier: Identifier) -> Seq<Emission> {
    fragment(identifier.name@)
}

/// Each name of a list.
pub open spec fn identifier_parts(list: Seq<Identifier>) -> Seq<Seq<Emission>> {
    Seq::new(list.len(), |i: int| identifier_emissions(list[i]))
}

/// A string literal.
pub open spec fn string_emissions(string: StringExpression) -> Seq<Emission> {
    seq![Emission::String(string.literal@)]
}

/// The parameters of a function: the names, separated by commas, and `...`
/// after them where the function is variadic.
pub open spec fn function_parameters_emissions(
    parameters: Seq<Identifier>,
    is_variadic: bool,
) -> Seq<Emission> {
    let rest = if !is_variadic {
        Seq::empty()
    } else if parameters.len() > 0 {
        symbol(',') + fragment("..."@)
    } else {
        fragment("..."@)
    };
    comma_separated(identifier_parts(parameters)) + rest
}

/// A block: its statements, then its last statement.
pub open spec fn block_emissions(block: Block) -> Seq<Emission>
    decreases block,
{
    let last = match block.last_statement {
        Some(last_statement) => last_statement_emissions(last_statement),
        None => Seq::empty(),
    };
    statements_emissions(block.statements@) + last
}

/// Whether `;` must stand between `statement` and `next`: without it, Lua
/// would read the parenthesis that opens `next` as a call of what ends
/// `statement`.
pub open spec fn needs_semicolon(statement: Statement, next: Statement) -> bool {
    starts_with_parenthese_spec(next) && ends_with_prefix_spec(statement)
}

/// The statements of a block in order, with `;` where two neighbours need it.
pub open spec fn statements_emissions(statements: Seq<Statement>) -> Seq<Emission>
    decreases statements,
{
    if statements.len() == 0 {
        Seq::empty()
    } else {
        let separator = if statements.len() >= 2 && needs_semicolon(
            statements[statements.len() - 2],
            statements.last(),
        ) {
            symbol(';')
        } else {
            Seq::empty()
        };
        statements_emissions(statements.drop_last()) + separator + statement_emissions(
            statements.last(),
        )
    }
}

/// The body of a `while` or numeric `for` loop, from what is emitted for its
/// block: `do end` in one fragment when the block is empty.
pub open spec fn loop_body_emissions(is_empty: bool, block: Seq<Emission>) -> Seq<Emission> {
    if is_empty {
        fragment("do end"@)
    } else {
        fragment("do"@) + block + fragment("end"@)
    }
}

/// The statement that closes a block.
pub open spec fn last_statement_emissions(statement: LastStatement) -> Seq<Emission>
    decreases statement,
{
    match statement {
        LastStatement::Break => fragment("break"@),
        LastStatement::Continue => fragment("continue"@),
        LastStatement::Return(statement) => return_emissions(statement),
    }
}

/// `return` and its values, separated by commas.
pub open spec fn return_emissions(statement: ReturnStatement) -> Seq<Emission>
    decreases statement,
{
    fragment("return"@) + comma_separated(expression_parts(statement.expressions@))
}

/// A statement.
pub open spec fn statement_emissions(statement: Statement) -> Seq<Emission>
    decreases statement,
{
    match statement {
        Statement::Assign(statement) => assign_emissions(statement),
        Statement::Do(statement) => do_emissions(statement),
        Statement::Call(call) => call_emissions(call),
        Statement::CompoundAssign(statement) => compound_assign_emissions(statement),
        Statement::Function(statement) => function_statement_emissions(statement),
        Statement::GenericFor(statement) => generic_for_emissions(statement),
        Statement::If(statement) => if_statement_emissions(statement),
        Statement::LocalAssign(statement) => local_assign_emissions(statement),
        Statement::LocalFunction(statement) => local_function_emissions(statement),
        Statement::NumericFor(statement) => numeric_for_emissions(statement),
        Statement::Repeat(statement) => repeat_emissions(statement),
        Statement::While(statement) => while_emissions(statement),
    }
}

/// An assignment: the variables, `=` and the values, each list separated by
/// commas.
pub open spec fn assign_emissions(statement: AssignStatement) -> Seq<Emission>
    decreases statement,
{
    comma_separated(variable_parts(statement.variables@))
        + symbol('=')
        + comma_separated(expression_parts(statement.values@))
}

/// `do`, the block and `end`.
pub open spec fn do_emissions(statement: DoStatement) -> Seq<Emission>
    decreases statement,
{
    fragment("do"@) + block_emissions(statement.block) + fragment("end"@)
}

/// A compound assignment: the variable, the operator and the value.
pub open spec fn compound_assign_emissions(statement: CompoundAssignStatement) -> Seq<Emission>
    decreases statement,
{
    variable_emissions(statement.variable)
        + fragment(statement.operator.text())
        + expression_emissions(statement.value)
}

/// The name of a function statement: the base name, each field after a dot,
/// and the method after a colon.
pub open spec fn function_name_emissions(name: FunctionName) -> Seq<Emission> {
    identifier_emissions(name.name)
        + concatenated(
            Seq::new(
                name.field_names@.len(),
                |i: int| symbol('.') + identifier_emissions(name.field_names@[i]),
            ),
        )
        + method_emissions(name.method)
}

/// A function statement: `function`, the name, the parameters in parentheses,
/// the block and `end`.
pub open spec fn function_statement_emissions(statement: FunctionStatement) -> Seq<Emission>
    decreases statement,
{
    fragment("function"@)
        + function_name_emissions(statement.name)
        + symbol('(')
        + function_parameters_emissions(statement.parameters@, statement.is_variadic)
        + symbol(')')
        + block_emissions(statement.block)
        + fragment("end"@)
}

/// A generic for loop: `for`, the names, `in`, the expressions, `do`, the
/// block and `end`.
pub open spec fn generic_for_emissions(statement: GenericForStatement) -> Seq<Emission>
    decreases statement,
{
    fragment("for"@)
        + comma_separated(identifier_parts(statement.identifiers@))
        + fragment("in"@)
        + comma_separated(expression_parts(statement.expressions@))
        + fragment("do"@)
        + block_emissions(statement.block)
        + fragment("end"@)
}

/// A branch of an if statement: `if` for the first and `elseif` for the
/// others, the condition, `then` and the block.
pub open spec fn if_branch_emissions(branch: IfBranch, is_first: bool) -> Seq<Emission>
    decreases branch,
{
    fragment(
        if is_first {
            "if"@
        } else {
            "elseif"@
        },
    )
        + expression_emissions(branch.condition)
        + fragment("then"@)
        + block_emissions(branch.block)
}

/// Each branch of an if statement.
pub open spec fn if_branch_parts(branches: Seq<IfBranch>) -> Seq<Seq<Emission>>
    decreases branches,
{
    Seq::new(
        branches.len(),
        |i: int|
            if 0 <= i < branches.len() {
                if_branch_emissions(branches[i], i == 0)
            } else {
                Seq::empty()
            },
    )
}

/// An if statement: the branches, `else` and its block where there is one,
/// and `end`.
pub open spec fn if_statement_emissions(statement: IfStatement) -> Seq<Emission>
    decreases statement,
{
    let else_part = match statement.else_block {
        Some(block) => fragment("else"@) + block_emissions(block),
        None => Seq::empty(),
    };
    concatenated(if_branch_parts(statement.branches@)) + else_part + fragment("end"@)
}

/// A declaration of local variables: `local`, the names and, where there are
/// values, `=` and the values.
pub open spec fn local_assign_emissions(statement: LocalAssignStatement) -> Seq<Emission>
    decreases statement,
{
    let values = if statement.values@.len() > 0 {
        symbol('=') + comma_separated(expression_parts(statement.values@))
    } else {
        Seq::empty()
    };
    fragment("local"@) + comma_separated(identifier_parts(statement.variables@)) + values
}

/// A declaration of a local function: `local function` in one fragment, the
/// name, the parameters in parentheses, the block and `end`.
pub open spec fn local_function_emissions(statement: LocalFunctionStatement) -> Seq<Emission>
    decreases statement,
{
    fragment("local function"@)
        + identifier_emissions(statement.identifier)
        + symbol('(')
        + function_parameters_emissions(statement.parameters@, statement.is_variadic)
        + symbol(')')
        + block_emissions(statement.block)
        + fragment("end"@)
}

/// A numeric for loop: `for`, the name, `=`, the start, the end and the step
/// where there is one, separated by commas, and the body.
pub open spec fn numeric_for_emissions(statement: NumericForStatement) -> Seq<Emission>
    decreases statement,
{
    let step = match statement.step {
        Some(step) => symbol(',') + expression_emissions(step),
        None => Seq::empty(),
    };
    fragment("for"@)
        + identifier_emissions(statement.identifier)
        + symbol('=')
        + expression_emissions(statement.start)
        + symbol(',')
        + expression_emissions(statement.end)
        + step
        + loop_body_emissions(statement.block.is_empty_spec(), block_emissions(statement.block))
}

/// A repeat loop: `repeat`, the block, `until` and the condition.
pub open spec fn repeat_emissions(statement: RepeatStatement) -> Seq<Emission>
    decreases statement,
{
    fragment("repeat"@)
        + block_emissions(statement.block)
        + fragment("until"@)
        + expression_emissions(statement.condition)
}

/// A while loop: `while`, the condition and the body.
pub open spec fn while_emissions(statement: WhileStatement) -> Seq<Emission>
    decreases statement,
{
    fragment("while"@)
        + expression_emissions(statement.condition)
        + loop_body_emissions(statement.block.is_empty_spec(), block_emissions(statement.block))
}

/// An expression.
pub open spec fn expression_emissions(expression: Expression) -> Seq<Emission>
    decreases expression,
{
    match expression {
        Expression::Binary(binary) => binary_emissions(*binary),
        Expression::Call(call) => call_emissions(*call),
        Expression::False => fragment("false"@),
        Expression::Field(field) => field_emissions(*field),
        Expression::Function(function) => function_expression_emissions(function),
        Expression::Identifier(identifier) => identifier_emissions(identifier),
        Expression::If(if_expression) => if_expression_emissions(*if_expression),
        Expression::Index(index) => index_emissions(*index),
        Expression::Nil => fragment("nil"@),
        Expression::Number(number) => fragment(number_text(number)),
        Expression::Parenthese(parenthese) => parenthese_emissions(*parenthese),
        Expression::String(string) => string_emissions(string),
        Expression::Table(table) => table_emissions(table),
        Expression::True => fragment("true"@),
        Expression::Unary(unary) => unary_emissions(*unary),
        Expression::VariableArguments => seq![Emission::VariableArguments],
    }
}

/// Each expression of a list.
pub open spec fn expression_parts(list: Seq<Expression>) -> Seq<Seq<Emission>>
    decreases list,
{
    Seq::new(
        list.len(),
        |i: int|
            if 0 <= i < list.len() {
                expression_emissions(list[i])
            } else {
                Seq::empty()
            },
    )
}

/// The operator of a binary expression: `..` has a rule of its own.
pub open spec fn binary_operator_emissions(operator: BinaryOperator) -> Seq<Emission> {
    if operator is Concat {
        seq![Emission::Concat]
    } else {
        fragment(operator.text())
    }
}

/// A binary expression: the operands, each in parentheses where the operator
/// asks for them, and the operator between them.
pub open spec fn binary_emissions(binary: BinaryExpression) -> Seq<Emission>
    decreases binary,
{
    wrapped(
        binary.operator.left_operand_needs_parentheses(binary.left),
        expression_emissions(binary.left),
    )
        + binary_operator_emissions(binary.operator)
        + wrapped(
            binary.operator.right_operand_needs_parentheses(binary.right),
            expression_emissions(binary.right),
        )
}

/// A unary operator: `-` has a rule of its own.
pub open spec fn unary_operator_emissions(operator: UnaryOperator) -> Seq<Emission> {
    match operator {
        UnaryOperator::Length => symbol('#'),
        UnaryOperator::Minus => seq![Emission::Minus],
        UnaryOperator::Not => fragment("not"@),
    }
}

/// Whether the operand of a unary operator must stand in parentheses: when it
/// has a binary operator that does not bind tighter than a unary one.
pub open spec fn unary_operand_needs_parentheses(operand: Expression) -> bool {
    operand matches Expression::Binary(binary) && binary.operator.precedence() <= 6
}

/// A unary expression: the operator, and the operand in parentheses where it
/// needs them.
pub open spec fn unary_emissions(unary: UnaryExpression) -> Seq<Emission>
    decreases unary,
{
    unary_operator_emissions(unary.operator)
        + wrapped(
            unary_operand_needs_parentheses(unary.expression),
            expression_emissions(unary.expression),
        )
}

/// An anonymous function: `function`, the parameters in parentheses, the
/// block and `end`.
pub open spec fn function_expression_emissions(function: FunctionExpression) -> Seq<Emission>
    decreases function,
{
    fragment("function"@)
        + symbol('(')
        + function_parameters_emissions(function.parameters@, function.is_variadic)
        + symbol(')')
        + block_emissions(function.block)
        + fragment("end"@)
}

/// The method of a call, after a colon.
pub open spec fn method_emissions(method: Option<Identifier>) -> Seq<Emission> {
    match method {
        Some(method) => symbol(':') + identifier_emissions(method),
        None => Seq::empty(),
    }
}

/// A call: what is called, the method where there is one, and the arguments.
pub open spec fn call_emissions(call: FunctionCall) -> Seq<Emission>
    decreases call,
{
    prefix_emissions(*call.prefix)
        + method_emissions(call.method)
        + arguments_emissions(call.arguments)
}

/// The arguments of a call: in parentheses, or a single string or table.
pub open spec fn arguments_emissions(arguments: Arguments) -> Seq<Emission>
    decreases arguments,
{
    match arguments {
        Arguments::Tuple(arguments) => tuple_arguments_emissions(arguments),
        Arguments::String(string) => string_emissions(string),
        Arguments::Table(table) => table_emissions(table),
    }
}

/// Arguments in parentheses: the opening parenthesis stays attached to what
/// is called.
pub open spec fn tuple_arguments_emissions(arguments: TupleArguments) -> Seq<Emission>
    decreases arguments,
{
    seq![Emission::Merged('(')]
        + comma_separated(expression_parts(arguments.values@))
        + symbol(')')
}

/// What stands before a call, a field access or an index.
pub open spec fn prefix_emissions(prefix: Prefix) -> Seq<Emission>
    decreases prefix,
{
    match prefix {
        Prefix::Call(call) => call_emissions(call),
        Prefix::Field(field) => field_emissions(*field),
        Prefix::Identifier(identifier) => identifier_emissions(identifier),
        Prefix::Index(index) => index_emissions(*index),
        Prefix::Parenthese(parenthese) => parenthese_emissions(parenthese),
    }
}

/// What stands on the left of an assignment.
pub open spec fn variable_emissions(variable: Variable) -> Seq<Emission>
    decreases variable,
{
    match variable {
        Variable::Identifier(identifier) => identifier_emissions(identifier),
        Variable::Field(field) => field_emissions(*field),
        Variable::Index(index) => index_emissions(*index),
    }
}

/// Each variable of a list.
pub open spec fn variable_parts(list: Seq<Variable>) -> Seq<Seq<Emission>>
    decreases list,
{
    Seq::new(
        list.len(),
        |i: int|
            if 0 <= i < list.len() {
                variable_emissions(list[i])
            } else {
                Seq::empty()
            },
    )
}

/// A field access: the prefix, `.` and the name of the field.
pub open spec fn field_emissions(field: FieldExpression) -> Seq<Emission>
    decreases field,
{
    prefix_emissions(field.prefix) + symbol('.') + identifier_emissions(field.field)
}

/// An index access: the prefix and the index in brackets.
pub open spec fn index_emissions(index: IndexExpression) -> Seq<Emission>
    decreases index,
{
    prefix_emissions(index.prefix) + symbol('[') + expression_emissions(index.index) + symbol(']')
}

/// An expression in parentheses.
pub open spec fn parenthese_emissions(parenthese: ParentheseExpression) -> Seq<Emission>
    decreases parenthese,
{
    symbol('(') + expression_emissions(parenthese.expression) + symbol(')')
}

/// A further branch of an if-expression: `elseif`, the condition, `then` and
/// the result.
pub open spec fn else_if_expression_emissions(branch: ElseIfExpressionBranch) -> Seq<Emission>
    decreases branch,
{
    fragment("elseif"@)
        + expression_emissions(branch.condition)
        + fragment("then"@)
        + expression_emissions(branch.result)
}

/// Each further branch of an if-expression.
pub open spec fn else_if_expression_parts(
    branches: Seq<ElseIfExpressionBranch>,
) -> Seq<Seq<Emission>>
    decreases branches,
{
    Seq::new(
        branches.len(),
        |i: int|
            if 0 <= i < branches.len() {
                else_if_expression_emissions(branches[i])
            } else {
                Seq::empty()
            },
    )
}

/// An if-expression: `if`, the condition, `then`, the result, the further
/// branches, `else` and the last result.
pub open spec fn if_expression_emissions(if_expression: IfExpression) -> Seq<Emission>
    decreases if_expression,
{
    fragment("if"@)
        + expression_emissions(if_expression.condition)
        + fragment("then"@)
        + expression_emissions(if_expression.result)
        + concatenated(else_if_expression_parts(if_expression.branches@))
        + fragment("else"@)
        + expression_emissions(if_expression.else_result)
}

/// A table constructor: the entries in braces, separated by commas.
pub open spec fn table_emissions(table: TableExpression) -> Seq<Emission>
    decreases table,
{
    symbol('{') + comma_separated(table_entry_parts(table.entries@)) + symbol('}')
}

/// An entry of a table constructor: `name = value`, `[key] = value` or a
/// value alone.
pub open spec fn table_entry_emissions(entry: TableEntry) -> Seq<Emission>
    decreases entry,
{
    match entry {
        TableEntry::Field(entry) => identifier_emissions(entry.field)
            + symbol('=')
            + expression_emissions(entry.value),
        TableEntry::Index(entry) => symbol('[')
            + expression_emissions(entry.key)
            + symbol(']')
            + symbol('=')
            + expression_emissions(entry.value),
        TableEntry::Value(expression) => expression_emissions(expression),
    }
}

/// Each entry of a list.
pub open spec fn table_entry_parts(list: Seq<TableEntry>) -> Seq<Seq<Emission>>
    decreases list,
{
    Seq::new(
        list.len(),
        |i: int|
            if 0 <= i < list.len() {
                table_entry_emissions(list[i])
            } else {
                Seq::empty()
            },
    )
}

/// The text that a generator with the column span `column_span` prints for
/// `block`, when it has printed nothing before.
pub open spec fn printed(column_span: nat, block: Block) -> Seq<char> {
    Layout::empty(column_span).emit_all(block_emissions(block)).output
}

} // verus!
