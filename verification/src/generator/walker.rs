//! The syntax-tree walker: one method of the dense generator for each kind of
//! node. Each emits the sequence of emissions that is fixed for the node.

use crate::generator::dense::DenseLuaGenerator;
use crate::generator::emission::{
    arguments_emissions, assign_emissions, binary_emissions, block_emissions, call_emissions,
    comma_separated, compound_assign_emissions, concatenated, do_emissions,
    else_if_expression_emissions, else_if_expression_parts, expression_emissions, expression_parts,
    field_emissions, fragment, function_expression_emissions, function_name_emissions,
    function_parameters_emissions, function_statement_emissions, generic_for_emissions,
    identifier_emissions, identifier_parts, if_branch_emissions, if_branch_parts,
    if_expression_emissions, if_statement_emissions, index_emissions, joined,
    last_statement_emissions, local_assign_emissions, local_function_emissions,
    numeric_for_emissions, parenthese_emissions, prefix_emissions, repeat_emissions,
    statement_emissions, statements_emissions, string_emissions, symbol, table_emissions,
    table_entry_emissions, table_entry_parts, tuple_arguments_emissions, unary_emissions,
    variable_emissions, variable_parts, while_emissions,
};
use crate::generator::layout::{Emission, group_emit_all};
use crate::generator::number::{number_text, push_digits, push_signed};
use crate::generator::utils::{
    break_concat, break_long_string, break_minus, break_variable_arguments, ends_with_prefix,
    starts_with, starts_with_parenthese,
};
use crate::nodes::expressions::{
    Arguments, BinaryExpression, DecimalValue, ElseIfExpressionBranch, Expression, FieldExpression,
    FunctionCall, FunctionExpression, Identifier, IfExpression, IndexExpression, NumberExpression,
    ParentheseExpression, Prefix, StringExpression, TableEntry, TableExpression, TupleArguments,
    UnaryExpression, Variable,
};
use crate::nodes::operators::{BinaryOperator, UnaryOperator};
use crate::nodes::statements::{
    AssignStatement, Block, CompoundAssignStatement, DoStatement, FunctionName, FunctionStatement,
    GenericForStatement, IfBranch, IfStatement, LastStatement, LocalAssignStatement,
    LocalFunctionStatement, NumericForStatement, RepeatStatement, Statement, WhileStatement,
};
use vstd::prelude::*;

verus! {

broadcast use group_emit_all;

/// What `joined` gives for one part more.
proof fn lemma_joined_next(parts: Seq<Seq<Emission>>, separator: Seq<Emission>, count: int)
    requires
        0 <= count < parts.len(),
    ensures
        joined(parts.take(count + 1), separator) == if count == 0 {
            parts[0]
        } else {
            joined(parts.take(count), separator) + separator + parts[count]
        },
        joined(parts.take(0), separator) == Seq::<Emission>::empty(),
{
    assert(parts.take(count + 1).drop_last() =~= parts.take(count));
    assert(parts.take(count + 1).last() == parts[count]);
}

impl DenseLuaGenerator {
    /// Writes the names of `identifiers`, separated by commas.
    fn write_identifiers(&mut self, identifiers: &Vec<Identifier>)
        requires
            old(self)@.well_formed(),
        ensures
            final(self)@ == old(self)@.emit_all(comma_separated(identifier_parts(identifiers@))),
            final(self)@.well_formed(),
    {
        let ghost parts = identifier_parts(identifiers@);
        let mut index: usize = 0;
        while index < identifiers.len()
            invariant
                index <= identifiers.len(),
                parts == identifier_parts(identifiers@),
                self@.well_formed(),
                self@ == old(self)@.emit_all(comma_separated(parts.take(index as int))),
            decreases identifiers.len() - index,
        {
            if index > 0 {
                self.push_char(',');
            }
            self.push_str(identifiers[index].name.as_str());
            proof {
                broadcast use group_emit_all;

                lemma_joined_next(parts, symbol(','), index as int);
            }
            index = index + 1;
        }
        assert(parts.take(index as int) =~= parts);
    }

    /// Writes the parameters of a function: the names, separated by commas,
    /// and `...` after them where the function is variadic.
    pub fn write_function_parameters(&mut self, parameters: &Vec<Identifier>, is_variadic: bool)
        requires
            old(self)@.well_formed(),
        ensures
            final(self)@ == old(self)@.emit_all(
                function_parameters_emissions(parameters@, is_variadic),
            ),
            final(self)@.well_formed(),
    {
        self.write_identifiers(parameters);
        if is_variadic {
            if parameters.len() > 0 {
                self.push_char(',');
            }
            self.push_str("...");
        }
    }

    /// Writes `identifier`.
    pub fn write_identifier(&mut self, identifier: &Identifier)
        requires
            old(self)@.well_formed(),
        ensures
            final(self)@ == old(self)@.emit_all(identifier_emissions(*identifier)),
            final(self)@.well_formed(),
    {
        self.push_str(identifier.name.as_str());
    }

    /// Writes a string literal: one that opens with a long bracket is kept
    /// apart from a `[` before it.
    pub fn write_string(&mut self, string: &StringExpression)
        requires
            old(self)@.well_formed(),
        ensures
            final(self)@ == old(self)@.emit_all(string_emissions(*string)),
            final(self)@.well_formed(),
    {
        let result = string.literal.as_str();
        if starts_with(result, '[') {
            self.push_str_and_break_if(result, break_long_string);
        } else {
            self.push_str(result);
        }
    }

    /// Writes a number literal as one fragment.
    pub fn write_number(&mut self, number: &NumberExpression)
        requires
            old(self)@.well_formed(),
        ensures
            final(self)@ == old(self)@.emit_all(fragment(number_text(*number))),
            final(self)@.well_formed(),
    {
        match number {
            NumberExpression::Decimal(number) => {
                match &number.value {
                    DecimalValue::NotANumber => {
                        self.push_str("(0/0)");
                    },
                    DecimalValue::PositiveInfinity => {
                        self.push_str("(1/0)");
                    },
                    DecimalValue::NegativeInfinity => {
                        self.push_str("(-1/0)");
                    },
                    DecimalValue::Finite(text) => {
                        let mut result = text.clone();
                        if let Some(exponent) = number.exponent {
                            let exponent_char = match number.is_uppercase {
                                Some(true) => 'E',
                                _ => 'e',
                            };
                            result.push(exponent_char);
                            push_signed(&mut result, exponent);
                        }
                        self.push_str(result.as_str());
                    },
                }
            },
            NumberExpression::Hex(number) => {
                let mut result = String::new();
                result.push('0');
                result.push(
                    if number.is_x_uppercase {
                        'X'
                    } else {
                        'x'
                    },
                );
                push_digits(&mut result, number.integer, 16);
                if let Some(exponent) = number.exponent {
                    let exponent_char = match number.is_exponent_uppercase {
                        Some(true) => 'P',
                        _ => 'p',
                    };
                    result.push(exponent_char);
                    push_digits(&mut result, exponent as u64, 10);
                }
                assert(result@ =~= number_text(NumberExpression::Hex(*number)));
                self.push_str(result.as_str());
            },
            NumberExpression::Binary(number) => {
                let mut result = String::new();
                result.push('0');
                result.push(
                    if number.is_b_uppercase {
                        'B'
                    } else {
                        'b'
                    },
                );
                push_digits(&mut result, number.value, 2);
                assert(result@ =~= number_text(NumberExpression::Binary(*number)));
                self.push_str(result.as_str());
            },
        }
    }

    /// Writes `block`: its statements, with `;` between two of them where the
    /// first ends with what the parenthesis that opens the second would call,
    /// then its last statement.
    pub fn write_block(&mut self, block: &Block)
        requires
            old(self)@.well_formed(),
        ensures
            final(self)@ == old(self)@.emit_all(block_emissions(*block)),
            final(self)@.well_formed(),
        decreases *block,
    {
        let statements = &block.statements;
        let mut index: usize = 0;
        while index < statements.len()
            invariant
                index <= statements.len(),
                statements == &block.statements,
                self@.well_formed(),
                self@ == old(self)@.emit_all(statements_emissions(statements@.take(index as int))),
            decreases statements.len() - index,
        {
            if index > 0 && starts_with_parenthese(&statements[index]) && ends_with_prefix(
                &statements[index - 1],
            ) {
                self.push_char(';');
            }
            proof {
                assert(decreases_to!(*block => block.statements));
                assert(decreases_to!(block.statements => block.statements@));
                assert(decreases_to!(block.statements@ => block.statements@[index as int]));
            }
            self.write_statement(&statements[index]);
            proof {
                broadcast use group_emit_all;

                assert(statements@.take(index + 1).drop_last() =~= statements@.take(
                    index as int,
                ));
            }
            index = index + 1;
        }
        assert(statements@.take(index as int) =~= statements@);
        if let Some(last_statement) = &block.last_statement {
            self.write_last_statement(last_statement);
        }
    }

    /// Writes `statement`.
    pub fn write_statement(&mut self, statement: &Statement)
        requires
            old(self)@.well_formed(),
        ensures
            final(self)@ == old(self)@.emit_all(statement_emissions(*statement)),
            final(self)@.well_formed(),
        decreases *statement,
    {
        match statement {
            Statement::Assign(statement) => self.write_assign_statement(statement),
            Statement::Do(statement) => self.write_do_statement(statement),
            Statement::Call(call) => self.write_function_call(call),
            Statement::CompoundAssign(statement) => self.write_compound_assign(statement),
            Statement::Function(statement) => self.write_function_statement(statement),
            Statement::GenericFor(statement) => self.write_generic_for(statement),
            Statement::If(statement) => self.write_if_statement(statement),
            Statement::LocalAssign(statement) => self.write_local_assign(statement),
            Statement::LocalFunction(statement) => self.write_local_function(statement),
            Statement::NumericFor(statement) => self.write_numeric_for(statement),
            Statement::Repeat(statement) => self.write_repeat_statement(statement),
            Statement::While(statement) => self.write_while_statement(statement),
        }
    }

    /// Writes the expressions of `expressions`, separated by commas.
    fn write_expressions(&mut self, expressions: &Vec<Expression>)
        requires
            old(self)@.well_formed(),
        ensures
            final(self)@ == old(self)@.emit_all(comma_separated(expression_parts(expressions@))),
            final(self)@.well_formed(),
        decreases *expressions,
    {
        let ghost parts = expression_parts(expressions@);
        let mut index: usize = 0;
        while index < expressions.len()
            invariant
                index <= expressions.len(),
                parts == expression_parts(expressions@),
                self@.well_formed(),
                self@ == old(self)@.emit_all(comma_separated(parts.take(index as int))),
            decreases expressions.len() - index,
        {
            if index > 0 {
                self.push_char(',');
            }
            proof {
                assert(decreases_to!(*expressions => expressions@));
                assert(decreases_to!(expressions@ => expressions@[index as int]));
            }
            self.write_expression(&expressions[index]);
            proof {
                broadcast use group_emit_all;

                lemma_joined_next(parts, symbol(','), index as int);
            }
            index = index + 1;
        }
        assert(parts.take(index as int) =~= parts);
    }

    /// Writes an assignment: the variables, `=` and the values.
    pub fn write_assign_statement(&mut self, assign: &AssignStatement)
        requires
            old(self)@.well_formed(),
        ensures
            final(self)@ == old(self)@.emit_all(assign_emissions(*assign)),
            final(self)@.well_formed(),
        decreases *assign,
    {
        let variables = &assign.variables;
        let ghost parts = variable_parts(variables@);
        let mut index: usize = 0;
        while index < variables.len()
            invariant
                index <= variables.len(),
                variables == &assign.variables,
                parts == variable_parts(variables@),
                self@.well_formed(),
                self@ == old(self)@.emit_all(comma_separated(parts.take(index as int))),
            decreases variables.len() - index,
        {
            if index > 0 {
                self.push_char(',');
            }
            proof {
                assert(decreases_to!(*assign => assign.variables));
                assert(decreases_to!(assign.variables => assign.variables@));
                assert(decreases_to!(assign.variables@ => assign.variables@[index as int]));
            }
            self.write_variable(&variables[index]);
            proof {
                broadcast use group_emit_all;

                lemma_joined_next(parts, symbol(','), index as int);
            }
            index = index + 1;
        }
        assert(parts.take(index as int) =~= parts);
        self.push_char('=');
        self.write_expressions(&assign.values);
    }

    /// Writes `do`, the block and `end`.
    pub fn write_do_statement(&mut self, do_statement: &DoStatement)
        requires
            old(self)@.well_formed(),
        ensures
            final(self)@ == old(self)@.emit_all(do_emissions(*do_statement)),
            final(self)@.well_formed(),
        decreases *do_statement,
    {
        self.push_str("do");
        self.write_block(&do_statement.block);
        self.push_str("end");
    }

    /// Writes a generic for loop.
    pub fn write_generic_for(&mut self, generic_for: &GenericForStatement)
        requires
            old(self)@.well_formed(),
        ensures
            final(self)@ == old(self)@.emit_all(generic_for_emissions(*generic_for)),
            final(self)@.well_formed(),
        decreases *generic_for,
    {
        self.push_str("for");
        self.write_identifiers(&generic_for.identifiers);
        self.push_str("in");
        self.write_expressions(&generic_for.expressions);
        self.push_str("do");
        self.write_block(&generic_for.block);
        self.push_str("end");
    }

    /// Writes a branch of an if statement.
    fn write_if_branch(&mut self, branch: &IfBranch, is_first: bool)
        requires
            old(self)@.well_formed(),
        ensures
            final(self)@ == old(self)@.emit_all(if_branch_emissions(*branch, is_first)),
            final(self)@.well_formed(),
        decreases *branch,
    {
        if is_first {
            self.push_str("if");
        } else {
            self.push_str("elseif");
        }
        self.write_expression(&branch.condition);
        self.push_str("then");
        self.write_block(&branch.block);
    }

    /// Writes an if statement: each branch, the `else` block where there is
    /// one, and `end`.
    pub fn write_if_statement(&mut self, if_statement: &IfStatement)
        requires
            old(self)@.well_formed(),
        ensures
            final(self)@ == old(self)@.emit_all(if_statement_emissions(*if_statement)),
            final(self)@.well_formed(),
        decreases *if_statement,
    {
        let branches = &if_statement.branches;
        let ghost parts = if_branch_parts(branches@);
        let mut index: usize = 0;
        while index < branches.len()
            invariant
                index <= branches.len(),
                branches == &if_statement.branches,
                parts == if_branch_parts(branches@),
                self@.well_formed(),
                self@ == old(self)@.emit_all(concatenated(parts.take(index as int))),
            decreases branches.len() - index,
        {
            proof {
                assert(decreases_to!(*if_statement => if_statement.branches));
                assert(decreases_to!(if_statement.branches => if_statement.branches@));
                assert(decreases_to!(branches@ => branches@[index as int]));
            }
            self.write_if_branch(&branches[index], index == 0);
            proof {
                broadcast use group_emit_all;

                lemma_joined_next(parts, Seq::empty(), index as int);
            }
            index = index + 1;
        }
        assert(parts.take(index as int) =~= parts);
        if let Some(else_block) = &if_statement.else_block {
            self.push_str("else");
            self.write_block(else_block);
        }
        self.push_str("end");
    }

    /// Writes the name of a function statement.
    fn write_function_name(&mut self, name: &FunctionName)
        requires
            old(self)@.well_formed(),
        ensures
            final(self)@ == old(self)@.emit_all(function_name_emissions(*name)),
            final(self)@.well_formed(),
    {
        self.push_str(name.name.name.as_str());
        let field_names = &name.field_names;
        let ghost middle = self@;
        let ghost parts = Seq::new(
            field_names@.len(),
            |i: int| symbol('.') + identifier_emissions(field_names@[i]),
        );
        let mut index: usize = 0;
        while index < field_names.len()
            invariant
                index <= field_names.len(),
                parts.len() == field_names@.len(),
                forall|i: int|
                    0 <= i < parts.len() ==> #[trigger] parts[i] == symbol('.')
                        + identifier_emissions(field_names@[i]),
                self@.well_formed(),
                self@ == middle.emit_all(concatenated(parts.take(index as int))),
            decreases field_names.len() - index,
        {
            self.push_char('.');
            self.push_str(field_names[index].name.as_str());
            proof {
                broadcast use group_emit_all;

                lemma_joined_next(parts, Seq::empty(), index as int);
            }
            index = index + 1;
        }
        proof {
            assert(parts.take(index as int) =~= parts);
            assert(parts =~= Seq::new(
                name.field_names@.len(),
                |i: int| symbol('.') + identifier_emissions(name.field_names@[i]),
            ));
        }
        if let Some(method) = &name.method {
            self.push_char(':');
            self.push_str(method.name.as_str());
        }
    }

    /// Writes a function statement.
    pub fn write_function_statement(&mut self, function: &FunctionStatement)
        requires
            old(self)@.well_formed(),
        ensures
            final(self)@ == old(self)@.emit_all(function_statement_emissions(*function)),
            final(self)@.well_formed(),
        decreases *function,
    {
        self.push_str("function");
        self.write_function_name(&function.name);
        self.push_char('(');
        self.write_function_parameters(&function.parameters, function.is_variadic);
        self.push_char(')');
        let block = &function.block;
        if !block.is_empty() {
            self.write_block(block);
        }
        self.push_str("end");
    }

    /// Writes the statement that closes a block.
    pub fn write_last_statement(&mut self, statement: &LastStatement)
        requires
            old(self)@.well_formed(),
        ensures
            final(self)@ == old(self)@.emit_all(last_statement_emissions(*statement)),
            final(self)@.well_formed(),
        decreases *statement,
    {
        match statement {
            LastStatement::Break => self.push_str("break"),
            LastStatement::Continue => self.push_str("continue"),
            LastStatement::Return(expressions) => {
                self.push_str("return");
                self.write_expressions(&expressions.expressions);
            },
        }
    }

    /// Writes a declaration of local variables, with `=` and the values where
    /// it has any.
    pub fn write_local_assign(&mut self, assign: &LocalAssignStatement)
        requires
            old(self)@.well_formed(),
        ensures
            final(self)@ == old(self)@.emit_all(local_assign_emissions(*assign)),
            final(self)@.well_formed(),
        decreases *assign,
    {
        self.push_str("local");
        self.write_identifiers(&assign.variables);
        if assign.values.len() > 0 {
            self.push_char('=');
            self.write_expressions(&assign.values);
        }
    }

    /// Writes a compound assignment: the variable, the operator and the value.
    pub fn write_compound_assign(&mut self, assign: &CompoundAssignStatement)
        requires
            old(self)@.well_formed(),
        ensures
            final(self)@ == old(self)@.emit_all(compound_assign_emissions(*assign)),
            final(self)@.well_formed(),
        decreases *assign,
    {
        self.write_variable(&assign.variable);
        self.push_str(assign.operator.to_str());
        self.write_expression(&assign.value);
    }

    /// Writes a declaration of a local function.
    pub fn write_local_function(&mut self, function: &LocalFunctionStatement)
        requires
            old(self)@.well_formed(),
        ensures
            final(self)@ == old(self)@.emit_all(local_function_emissions(*function)),
            final(self)@.well_formed(),
        decreases *function,
    {
        self.push_str("local function");
        self.push_str(function.identifier.name.as_str());
        self.push_char('(');
        self.write_function_parameters(&function.parameters, function.is_variadic);
        self.push_char(')');
        let block = &function.block;
        if !block.is_empty() {
            self.write_block(block);
        }
        self.push_str("end");
    }

    /// Writes a numeric for loop.
    pub fn write_numeric_for(&mut self, numeric_for: &NumericForStatement)
        requires
            old(self)@.well_formed(),
        ensures
            final(self)@ == old(self)@.emit_all(numeric_for_emissions(*numeric_for)),
            final(self)@.well_formed(),
        decreases *numeric_for,
    {
        self.push_str("for");
        self.push_str(numeric_for.identifier.name.as_str());
        self.push_char('=');
        self.write_expression(&numeric_for.start);
        self.push_char(',');
        self.write_expression(&numeric_for.end);
        if let Some(step) = &numeric_for.step {
            self.push_char(',');
            self.write_expression(step);
        }
        let block = &numeric_for.block;
        if block.is_empty() {
            self.push_str("do end");
        } else {
            self.push_str("do");
            self.write_block(block);
            self.push_str("end");
        }
    }

    /// Writes a repeat loop.
    pub fn write_repeat_statement(&mut self, repeat: &RepeatStatement)
        requires
            old(self)@.well_formed(),
        ensures
            final(self)@ == old(self)@.emit_all(repeat_emissions(*repeat)),
            final(self)@.well_formed(),
        decreases *repeat,
    {
        self.push_str("repeat");
        let block = &repeat.block;
        if !block.is_empty() {
            self.write_block(block);
        }
        self.push_str("until");
        self.write_expression(&repeat.condition);
    }

    /// Writes a while loop.
    pub fn write_while_statement(&mut self, while_statement: &WhileStatement)
        requires
            old(self)@.well_formed(),
        ensures
            final(self)@ == old(self)@.emit_all(while_emissions(*while_statement)),
            final(self)@.well_formed(),
        decreases *while_statement,
    {
        self.push_str("while");
        self.write_expression(&while_statement.condition);
        let block = &while_statement.block;
        if block.is_empty() {
            self.push_str("do end");
        } else {
            self.push_str("do");
            self.write_block(block);
            self.push_str("end");
        }
    }

    /// Writes `expression`.
    pub fn write_expression(&mut self, expression: &Expression)
        requires
            old(self)@.well_formed(),
        ensures
            final(self)@ == old(self)@.emit_all(expression_emissions(*expression)),
            final(self)@.well_formed(),
        decreases *expression,
    {
        match expression {
            Expression::Binary(binary) => self.write_binary_expression(binary),
            Expression::Call(call) => self.write_function_call(call),
            Expression::False => self.push_str("false"),
            Expression::Field(field) => self.write_field(field),
            Expression::Function(function) => self.write_function(function),
            Expression::Identifier(identifier) => self.write_identifier(identifier),
            Expression::If(if_expression) => self.write_if_expression(if_expression),
            Expression::Index(index) => self.write_index(index),
            Expression::Nil => self.push_str("nil"),
            Expression::Number(number) => self.write_number(number),
            Expression::Parenthese(parenthese) => self.write_parenthese(parenthese),
            Expression::String(string) => self.write_string(string),
            Expression::Table(table) => self.write_table(table),
            Expression::True => self.push_str("true"),
            Expression::Unary(unary) => self.write_unary_expression(unary),
            Expression::VariableArguments => {
                proof {
                    reveal_strlit("...");
                }
                self.push_str_and_break_if("...", break_variable_arguments);
            },
        }
    }

    /// Writes a binary expression: each operand in parentheses where the
    /// operator asks for them, and the operator between them.
    pub fn write_binary_expression(&mut self, binary: &BinaryExpression)
        requires
            old(self)@.well_formed(),
        ensures
            final(self)@ == old(self)@.emit_all(binary_emissions(*binary)),
            final(self)@.well_formed(),
        decreases *binary,
    {
        let operator = binary.operator;
        let left = &binary.left;
        let right = &binary.right;

        if operator.left_needs_parentheses(left) {
            self.push_char('(');
            self.write_expression(left);
            self.push_char(')');
        } else {
            self.write_expression(left);
        }

        match operator {
            BinaryOperator::Concat => {
                proof {
                    reveal_strlit("..");
                }
                self.push_str_and_break_if("..", break_concat);
            },
            _ => self.push_str(operator.to_str()),
        }

        if operator.right_needs_parentheses(right) {
            self.push_char('(');
            self.write_expression(right);
            self.push_char(')');
        } else {
            self.write_expression(right);
        }
    }

    /// Writes a unary expression: the operator, and the operand in parentheses
    /// where it has a binary operator that does not bind tighter.
    pub fn write_unary_expression(&mut self, unary: &UnaryExpression)
        requires
            old(self)@.well_formed(),
        ensures
            final(self)@ == old(self)@.emit_all(unary_emissions(*unary)),
            final(self)@.well_formed(),
        decreases *unary,
    {
        match unary.operator {
            UnaryOperator::Length => self.push_char('#'),
            UnaryOperator::Minus => {
                proof {
                    reveal_strlit("-");
                }
                self.push_str_and_break_if("-", break_minus);
            },
            UnaryOperator::Not => self.push_str("not"),
        }

        let expression = &unary.expression;

        let needs_parentheses = match expression {
            Expression::Binary(binary) => !binary.operator.precedes_unary_expression(),
            _ => false,
        };
        if needs_parentheses {
            self.push_char('(');
            self.write_expression(expression);
            self.push_char(')');
        } else {
            self.write_expression(expression);
        }
    }

    /// Writes an anonymous function.
    pub fn write_function(&mut self, function: &FunctionExpression)
        requires
            old(self)@.well_formed(),
        ensures
            final(self)@ == old(self)@.emit_all(function_expression_emissions(*function)),
            final(self)@.well_formed(),
        decreases *function,
    {
        self.push_str("function");
        self.push_char('(');
        self.write_function_parameters(&function.parameters, function.is_variadic);
        self.push_char(')');
        let block = &function.block;
        if !block.is_empty() {
            self.write_block(block);
        }
        self.push_str("end");
    }

    /// Writes a call: what is called, the method where there is one, and the
    /// arguments.
    pub fn write_function_call(&mut self, call: &FunctionCall)
        requires
            old(self)@.well_formed(),
        ensures
            final(self)@ == old(self)@.emit_all(call_emissions(*call)),
            final(self)@.well_formed(),
        decreases *call,
    {
        self.write_prefix(&call.prefix);
        if let Some(method) = &call.method {
            self.push_char(':');
            self.push_str(method.name.as_str());
        }
        self.write_arguments(&call.arguments);
    }

    /// Writes the arguments of a call.
    pub fn write_arguments(&mut self, arguments: &Arguments)
        requires
            old(self)@.well_formed(),
        ensures
            final(self)@ == old(self)@.emit_all(arguments_emissions(*arguments)),
            final(self)@.well_formed(),
        decreases *arguments,
    {
        match arguments {
            Arguments::Tuple(arguments) => self.write_tuple_arguments(arguments),
            Arguments::String(string) => self.write_string(string),
            Arguments::Table(table) => self.write_table(table),
        }
    }

    /// Writes what stands before a call, a field access or an index.
    pub fn write_prefix(&mut self, prefix: &Prefix)
        requires
            old(self)@.well_formed(),
        ensures
            final(self)@ == old(self)@.emit_all(prefix_emissions(*prefix)),
            final(self)@.well_formed(),
        decreases *prefix,
    {
        match prefix {
            Prefix::Call(call) => self.write_function_call(call),
            Prefix::Field(field) => self.write_field(field),
            Prefix::Identifier(identifier) => self.write_identifier(identifier),
            Prefix::Index(index) => self.write_index(index),
            Prefix::Parenthese(parenthese) => self.write_parenthese(parenthese),
        }
    }

    /// Writes what stands on the left of an assignment.
    pub fn write_variable(&mut self, variable: &Variable)
        requires
            old(self)@.well_formed(),
        ensures
            final(self)@ == old(self)@.emit_all(variable_emissions(*variable)),
            final(self)@.well_formed(),
        decreases *variable,
    {
        match variable {
            Variable::Identifier(identifier) => self.write_identifier(identifier),
            Variable::Field(field) => self.write_field(field),
            Variable::Index(index) => self.write_index(index),
        }
    }

    /// Writes a field access.
    pub fn write_field(&mut self, field: &FieldExpression)
        requires
            old(self)@.well_formed(),
        ensures
            final(self)@ == old(self)@.emit_all(field_emissions(*field)),
            final(self)@.well_formed(),
        decreases *field,
    {
        self.write_prefix(&field.prefix);
        self.push_char('.');
        self.push_str(field.field.name.as_str());
    }

    /// Writes an index access.
    pub fn write_index(&mut self, index: &IndexExpression)
        requires
            old(self)@.well_formed(),
        ensures
            final(self)@ == old(self)@.emit_all(index_emissions(*index)),
            final(self)@.well_formed(),
        decreases *index,
    {
        self.write_prefix(&index.prefix);
        self.push_char('[');
        self.write_expression(&index.index);
        self.push_char(']');
    }

    /// Writes a further branch of an if-expression.
    fn write_else_if_expression_branch(&mut self, branch: &ElseIfExpressionBranch)
        requires
            old(self)@.well_formed(),
        ensures
            final(self)@ == old(self)@.emit_all(else_if_expression_emissions(*branch)),
            final(self)@.well_formed(),
        decreases *branch,
    {
        self.push_str("elseif");
        self.write_expression(&branch.condition);
        self.push_str("then");
        self.write_expression(&branch.result);
    }

    /// Writes an if-expression.
    pub fn write_if_expression(&mut self, if_expression: &IfExpression)
        requires
            old(self)@.well_formed(),
        ensures
            final(self)@ == old(self)@.emit_all(if_expression_emissions(*if_expression)),
            final(self)@.well_formed(),
        decreases *if_expression,
    {
        self.push_str("if");
        self.write_expression(&if_expression.condition);
        self.push_str("then");
        self.write_expression(&if_expression.result);

        let branches = &if_expression.branches;
        let ghost middle = self@;
        let ghost parts = else_if_expression_parts(branches@);
        let mut index: usize = 0;
        while index < branches.len()
            invariant
                index <= branches.len(),
                branches == &if_expression.branches,
                parts == else_if_expression_parts(branches@),
                self@.well_formed(),
                self@ == middle.emit_all(concatenated(parts.take(index as int))),
            decreases branches.len() - index,
        {
            proof {
                assert(decreases_to!(*if_expression => if_expression.branches));
                assert(decreases_to!(if_expression.branches => if_expression.branches@));
                assert(decreases_to!(branches@ => branches@[index as int]));
            }
            self.write_else_if_expression_branch(&branches[index]);
            proof {
                broadcast use group_emit_all;

                lemma_joined_next(parts, Seq::empty(), index as int);
            }
            index = index + 1;
        }
        assert(parts.take(index as int) =~= parts);

        self.push_str("else");
        self.write_expression(&if_expression.else_result);
    }

    /// Writes a table constructor.
    pub fn write_table(&mut self, table: &TableExpression)
        requires
            old(self)@.well_formed(),
        ensures
            final(self)@ == old(self)@.emit_all(table_emissions(*table)),
            final(self)@.well_formed(),
        decreases *table,
    {
        self.push_char('{');

        let entries = &table.entries;
        let ghost middle = self@;
        let ghost parts = table_entry_parts(entries@);
        let mut index: usize = 0;
        while index < entries.len()
            invariant
                index <= entries.len(),
                entries == &table.entries,
                parts == table_entry_parts(entries@),
                self@.well_formed(),
                self@ == middle.emit_all(comma_separated(parts.take(index as int))),
            decreases entries.len() - index,
        {
            if index > 0 {
                self.push_char(',');
            }
            proof {
                assert(decreases_to!(*table => table.entries));
                assert(decreases_to!(table.entries => table.entries@));
                assert(decreases_to!(table.entries@ => table.entries@[index as int]));
            }
            self.write_table_entry(&entries[index]);
            proof {
                broadcast use group_emit_all;

                lemma_joined_next(parts, symbol(','), index as int);
            }
            index = index + 1;
        }
        assert(parts.take(index as int) =~= parts);

        self.push_char('}');
    }

    /// Writes an entry of a table constructor.
    pub fn write_table_entry(&mut self, entry: &TableEntry)
        requires
            old(self)@.well_formed(),
        ensures
            final(self)@ == old(self)@.emit_all(table_entry_emissions(*entry)),
            final(self)@.well_formed(),
        decreases *entry,
    {
        match entry {
            TableEntry::Field(entry) => {
                self.push_str(entry.field.name.as_str());
                self.push_char('=');
                self.write_expression(&entry.value);
            },
            TableEntry::Index(entry) => {
                self.push_char('[');
                self.write_expression(&entry.key);
                self.push_char(']');
                self.push_char('=');
                self.write_expression(&entry.value);
            },
            TableEntry::Value(expression) => self.write_expression(expression),
        }
    }

    /// Writes arguments in parentheses: the opening parenthesis stays attached
    /// to what is called.
    pub fn write_tuple_arguments(&mut self, arguments: &TupleArguments)
        requires
            old(self)@.well_formed(),
        ensures
            final(self)@ == old(self)@.emit_all(tuple_arguments_emissions(*arguments)),
            final(self)@.well_formed(),
        decreases *arguments,
    {
        self.merge_char('(');
        self.write_expressions(&arguments.values);
        self.push_char(')');
    }

    /// Writes an expression in parentheses.
    pub fn write_parenthese(&mut self, parenthese: &ParentheseExpression)
        requires
            old(self)@.well_formed(),
        ensures
            final(self)@ == old(self)@.emit_all(parenthese_emissions(*parenthese)),
            final(self)@.well_formed(),
        decreases *parenthese,
    {
        self.push_char('(');
        self.write_expression(&parenthese.expression);
        self.push_char(')');
    }
}

} // verus!
