use darklua::generator::dense::DenseLuaGenerator;
use darklua::nodes::expressions::{
    Arguments, BinaryExpression, BinaryNumber, DecimalNumber, DecimalValue,
    ElseIfExpressionBranch, Expression, FieldExpression, FunctionCall, FunctionExpression,
    HexNumber, Identifier, IfExpression, IndexExpression, NumberExpression,
    ParentheseExpression, Prefix, StringExpression, TableEntry, TableExpression,
    TableFieldEntry, TableIndexEntry, TupleArguments, UnaryExpression, Variable,
};
use darklua::nodes::operators::{BinaryOperator, CompoundOperator, UnaryOperator};
use darklua::nodes::statements::{
    AssignStatement, Block, CompoundAssignStatement, DoStatement, FunctionName,
    FunctionStatement, GenericForStatement, IfBranch, IfStatement, LastStatement,
    LocalAssignStatement, LocalFunctionStatement, NumericForStatement, RepeatStatement,
    ReturnStatement, Statement, WhileStatement,
};

fn name(text: &str) -> Identifier {
    Identifier { name: text.to_string() }
}

fn names(texts: &[&str]) -> Vec<Identifier> {
    texts.iter().map(|text| name(text)).collect()
}

fn var(text: &str) -> Expression {
    Expression::Identifier(name(text))
}

fn decimal(text: &str) -> Expression {
    Expression::Number(NumberExpression::Decimal(DecimalNumber {
        value: DecimalValue::Finite(text.to_string()),
        exponent: None,
        is_uppercase: None,
    }))
}

fn string(literal: &str) -> StringExpression {
    StringExpression { literal: literal.to_string() }
}

fn binary(operator: BinaryOperator, left: Expression, right: Expression) -> Expression {
    Expression::Binary(Box::new(BinaryExpression { operator, left, right }))
}

fn unary(operator: UnaryOperator, expression: Expression) -> Expression {
    Expression::Unary(Box::new(UnaryExpression { operator, expression }))
}

fn parenthese(expression: Expression) -> ParentheseExpression {
    ParentheseExpression { expression }
}

fn call(prefix: Prefix, values: Vec<Expression>) -> FunctionCall {
    FunctionCall {
        prefix: Box::new(prefix),
        arguments: Arguments::Tuple(TupleArguments { values }),
        method: None,
    }
}

fn block(statements: Vec<Statement>) -> Block {
    Block { statements, last_statement: None }
}

fn empty_block() -> Block {
    block(Vec::new())
}

fn break_block() -> Block {
    Block { statements: Vec::new(), last_statement: Some(LastStatement::Break) }
}

fn local(variable: &str, value: Expression) -> Statement {
    Statement::LocalAssign(LocalAssignStatement {
        variables: names(&[variable]),
        values: vec![value],
    })
}

fn assign(variable: &str, value: Expression) -> Statement {
    Statement::Assign(AssignStatement {
        variables: vec![Variable::Identifier(name(variable))],
        values: vec![value],
    })
}

fn emit_block_with(column_span: usize, block: &Block) -> String {
    let mut generator = DenseLuaGenerator::new(column_span);
    generator.write_block(block);
    generator.into_string()
}

fn emit_block(block: &Block) -> String {
    emit_block_with(80, block)
}

fn emit_statement(statement: Statement) -> String {
    let mut generator = DenseLuaGenerator::new(80);
    generator.write_statement(&statement);
    generator.into_string()
}

fn emit_expression(expression: Expression) -> String {
    let mut generator = DenseLuaGenerator::new(80);
    generator.write_expression(&expression);
    generator.into_string()
}

fn emit_number(number: NumberExpression) -> String {
    let mut generator = DenseLuaGenerator::new(80);
    generator.write_number(&number);
    generator.into_string()
}

fn is_word(character: char) -> bool {
    character.is_ascii_alphanumeric() || character == '_'
}

fn words(text: &str) -> Vec<String> {
    text.split(|character: char| !is_word(character))
        .filter(|word| !word.is_empty())
        .map(|word| word.to_string())
        .collect()
}

#[test]
fn empty_block_gives_empty_string() {
    assert_eq!(emit_block(&empty_block()), "");
}

#[test]
fn local_assign_of_a_number() {
    let block = block(vec![local("x", decimal("1"))]);
    assert_eq!(emit_block(&block), "local x=1");
}

#[test]
fn call_statement_before_a_parenthese_gets_a_semicolon() {
    let print = Statement::Call(FunctionCall {
        prefix: Box::new(Prefix::Identifier(name("print"))),
        arguments: Arguments::String(string("\"hi\"")),
        method: None,
    });
    let next = Statement::Call(call(Prefix::Parenthese(parenthese(decimal("1"))), Vec::new()));
    assert_eq!(emit_block(&block(vec![print, next])), "print\"hi\";(1)()");
}

#[test]
fn return_of_a_concatenation_of_numbers() {
    let block = Block {
        statements: Vec::new(),
        last_statement: Some(LastStatement::Return(ReturnStatement {
            expressions: vec![binary(BinaryOperator::Concat, decimal("1"), decimal("2"))],
        })),
    };
    assert_eq!(emit_block(&block), "return 1 ..2");
}

#[test]
fn minus_of_a_minus_gets_a_space() {
    let value = unary(UnaryOperator::Minus, unary(UnaryOperator::Minus, var("b")));
    assert_eq!(emit_block(&block(vec![assign("a", value)])), "a=- -b");
}

#[test]
fn table_with_each_kind_of_entry() {
    let table = Expression::Table(TableExpression {
        entries: vec![
            TableEntry::Field(TableFieldEntry { field: name("a"), value: decimal("1") }),
            TableEntry::Index(TableIndexEntry { key: var("k"), value: decimal("2") }),
            TableEntry::Value(decimal("3")),
        ],
    });
    assert_eq!(emit_block(&block(vec![assign("t", table)])), "t={a=1,[k]=2,3}");
}

#[test]
fn numeric_for_with_an_empty_body() {
    let statement = Statement::NumericFor(NumericForStatement {
        identifier: name("i"),
        start: decimal("1"),
        end: decimal("10"),
        step: None,
        block: empty_block(),
    });
    assert_eq!(emit_block(&block(vec![statement])), "for i=1,10 do end");
}

fn long_sum(terms: usize) -> Expression {
    let mut expression = var("value0");
    for index in 1..terms {
        expression = binary(BinaryOperator::Plus, expression, var(&format!("value{}", index)));
    }
    expression
}

#[test]
fn long_expression_is_wrapped_within_the_budget() {
    let block = block(vec![local("total", long_sum(30))]);
    let text = emit_block_with(80, &block);

    assert!(text.len() >= 200);
    assert!(text.contains('\n'));
    for line in text.lines() {
        assert!(line.chars().count() <= 80, "{:?}", line);
    }
    let mut expected = vec!["local".to_string(), "total".to_string()];
    for index in 0..30 {
        expected.push(format!("value{}", index));
    }
    assert_eq!(words(&text), expected);
    assert_eq!(
        text,
        "local total=value0+value1+value2+value3+value4+value5+value6+value7+value8+\n\
         value9+value10+value11+value12+value13+value14+value15+value16+value17+value18+\n\
         value19+value20+value21+value22+value23+value24+value25+value26+value27+value28+\n\
         value29"
    );
}

#[test]
fn no_line_exceeds_the_budget_unless_a_fragment_is_longer() {
    let block = block(vec![
        local("first", long_sum(12)),
        Statement::Call(call(Prefix::Identifier(name("print")), vec![var("first"), long_sum(5)])),
        assign("a_rather_long_variable_name", var("first")),
    ]);
    for column_span in 1..40 {
        let text = emit_block_with(column_span, &block);
        // the longest fragment is the long name, and `print(` counts as one
        let bound = column_span.max("a_rather_long_variable_name".len());
        for line in text.lines() {
            assert!(line.chars().count() <= bound, "{} {:?}", column_span, line);
        }
    }
}

#[test]
fn words_are_the_same_whatever_the_budget() {
    let block = block(vec![
        local("first", long_sum(12)),
        Statement::Call(call(Prefix::Identifier(name("print")), vec![var("first"), long_sum(5)])),
        Statement::While(WhileStatement { block: break_block(), condition: Expression::True }),
    ]);
    let expected = words(&emit_block_with(1000, &block));
    assert_eq!(expected[0], "local");
    assert_eq!(expected[expected.len() - 1], "end");
    for column_span in 1..60 {
        assert_eq!(words(&emit_block_with(column_span, &block)), expected, "{}", column_span);
    }
}

#[test]
fn callee_moves_to_a_new_line_with_its_parenthesis() {
    let statement = Statement::Call(call(Prefix::Identifier(name("print")), vec![var("x")]));
    let block = block(vec![local("x", decimal("1")), statement]);
    // `print` does not fit behind the space: it begins the next line
    assert_eq!(emit_block_with(14, &block), "local x=1\nprint(x)");
    // `print` fits, but not with its parenthesis: it moves to the next line
    assert_eq!(emit_block_with(15, &block), "local x=1\nprint(x)");
    // both fit, and the line is full
    assert_eq!(emit_block_with(16, &block), "local x=1 print(\nx)");
    assert_eq!(emit_block_with(18, &block), "local x=1 print(x)");
}

#[test]
fn function_with_an_empty_body_ends_after_the_parenthesis() {
    let function = Expression::Function(FunctionExpression {
        block: empty_block(),
        parameters: Vec::new(),
        is_variadic: false,
    });
    assert_eq!(emit_block(&block(vec![local("f", function)])), "local f=function()end");
}

#[test]
fn function_statement_with_an_empty_body() {
    let statement = Statement::Function(FunctionStatement {
        name: FunctionName { name: name("f"), field_names: Vec::new(), method: None },
        block: empty_block(),
        parameters: Vec::new(),
        is_variadic: false,
    });
    assert_eq!(emit_statement(statement), "function f()end");
}

#[test]
fn function_statement_with_fields_method_and_parameters() {
    let statement = Statement::Function(FunctionStatement {
        name: FunctionName {
            name: name("a"),
            field_names: names(&["b", "c"]),
            method: Some(name("d")),
        },
        block: break_block(),
        parameters: names(&["x", "y"]),
        is_variadic: true,
    });
    assert_eq!(emit_statement(statement), "function a.b.c:d(x,y,...)break end");
}

#[test]
fn local_function_with_parameters() {
    let statement = Statement::LocalFunction(LocalFunctionStatement {
        identifier: name("f"),
        block: empty_block(),
        parameters: names(&["a", "b"]),
        is_variadic: false,
    });
    assert_eq!(emit_statement(statement), "local function f(a,b)end");
}

#[test]
fn variadic_function_without_parameters_has_no_comma() {
    let function = Expression::Function(FunctionExpression {
        block: Block {
            statements: Vec::new(),
            last_statement: Some(LastStatement::Return(ReturnStatement {
                expressions: vec![Expression::VariableArguments],
            })),
        },
        parameters: Vec::new(),
        is_variadic: true,
    });
    assert_eq!(emit_expression(function), "function(...)return...end");
}

#[test]
fn function_parameters_are_separated_by_commas() {
    let mut generator = DenseLuaGenerator::new(80);
    generator.write_function_parameters(&names(&["a", "b", "c"]), false);
    assert_eq!(generator.into_string(), "a,b,c");

    let mut generator = DenseLuaGenerator::new(80);
    generator.write_function_parameters(&names(&["a"]), true);
    assert_eq!(generator.into_string(), "a,...");

    let mut generator = DenseLuaGenerator::new(80);
    generator.write_function_parameters(&Vec::new(), true);
    assert_eq!(generator.into_string(), "...");

    let mut generator = DenseLuaGenerator::new(80);
    generator.write_function_parameters(&Vec::new(), false);
    assert_eq!(generator.into_string(), "");
}

#[test]
fn last_statements() {
    let mut generator = DenseLuaGenerator::new(80);
    generator.write_last_statement(&LastStatement::Break);
    assert_eq!(generator.into_string(), "break");

    let mut generator = DenseLuaGenerator::new(80);
    generator.write_last_statement(&LastStatement::Continue);
    assert_eq!(generator.into_string(), "continue");

    let mut generator = DenseLuaGenerator::new(80);
    generator.write_last_statement(&LastStatement::Return(ReturnStatement {
        expressions: Vec::new(),
    }));
    assert_eq!(generator.into_string(), "return");

    let mut generator = DenseLuaGenerator::new(80);
    generator.write_last_statement(&LastStatement::Return(ReturnStatement {
        expressions: vec![var("a"), decimal("2"), Expression::Nil],
    }));
    assert_eq!(generator.into_string(), "return a,2,nil");
}

#[test]
fn assign_with_several_variables_and_values() {
    let statement = Statement::Assign(AssignStatement {
        variables: vec![
            Variable::Identifier(name("a")),
            Variable::Field(Box::new(FieldExpression {
                prefix: Prefix::Identifier(name("b")),
                field: name("c"),
            })),
            Variable::Index(Box::new(IndexExpression {
                prefix: Prefix::Identifier(name("d")),
                index: decimal("1"),
            })),
        ],
        values: vec![Expression::True, Expression::False, Expression::Nil],
    });
    assert_eq!(emit_statement(statement), "a,b.c,d[1]=true,false,nil");
}

#[test]
fn local_assign_without_values() {
    let statement = Statement::LocalAssign(LocalAssignStatement {
        variables: names(&["a", "b"]),
        values: Vec::new(),
    });
    assert_eq!(emit_statement(statement), "local a,b");
}

#[test]
fn compound_assign_uses_the_operator_text() {
    for (operator, text) in [
        (CompoundOperator::Plus, "a+=1"),
        (CompoundOperator::Minus, "a-=1"),
        (CompoundOperator::Asterisk, "a*=1"),
        (CompoundOperator::Slash, "a/=1"),
        (CompoundOperator::Percent, "a%=1"),
        (CompoundOperator::Caret, "a^=1"),
        (CompoundOperator::Concat, "a..=1"),
    ] {
        let statement = Statement::CompoundAssign(CompoundAssignStatement {
            operator,
            variable: Variable::Identifier(name("a")),
            value: decimal("1"),
        });
        assert_eq!(emit_statement(statement), text);
    }
}

#[test]
fn do_statement() {
    let statement = Statement::Do(DoStatement { block: empty_block() });
    assert_eq!(emit_statement(statement), "do end");

    let statement = Statement::Do(DoStatement { block: break_block() });
    assert_eq!(emit_statement(statement), "do break end");
}

#[test]
fn while_statement() {
    let statement =
        Statement::While(WhileStatement { block: empty_block(), condition: Expression::True });
    assert_eq!(emit_statement(statement), "while true do end");

    let statement =
        Statement::While(WhileStatement { block: break_block(), condition: var("a") });
    assert_eq!(emit_statement(statement), "while a do break end");
}

#[test]
fn empty_loop_body_is_one_fragment() {
    // `do end` moves to the next line as a whole
    let statement =
        Statement::While(WhileStatement { block: empty_block(), condition: Expression::True });
    let mut generator = DenseLuaGenerator::new(13);
    generator.write_statement(&statement);
    assert_eq!(generator.into_string(), "while true\ndo end");
}

#[test]
fn repeat_statement() {
    let statement =
        Statement::Repeat(RepeatStatement { block: empty_block(), condition: Expression::True });
    assert_eq!(emit_statement(statement), "repeat until true");

    let statement =
        Statement::Repeat(RepeatStatement { block: break_block(), condition: var("a") });
    assert_eq!(emit_statement(statement), "repeat break until a");
}

#[test]
fn numeric_for_with_a_step_and_a_body() {
    let statement = Statement::NumericFor(NumericForStatement {
        identifier: name("i"),
        start: decimal("10"),
        end: decimal("1"),
        step: Some(unary(UnaryOperator::Minus, decimal("1"))),
        block: break_block(),
    });
    assert_eq!(emit_statement(statement), "for i=10,1,-1 do break end");
}

#[test]
fn generic_for() {
    let statement = Statement::GenericFor(GenericForStatement {
        identifiers: names(&["k", "v"]),
        expressions: vec![Expression::Call(Box::new(call(
            Prefix::Identifier(name("pairs")),
            vec![var("t")],
        )))],
        block: empty_block(),
    });
    assert_eq!(emit_statement(statement), "for k,v in pairs(t)do end");
}

#[test]
fn if_statement_with_branches_and_else() {
    let statement = Statement::If(IfStatement {
        branches: vec![
            IfBranch { condition: var("a"), block: break_block() },
            IfBranch { condition: var("b"), block: empty_block() },
        ],
        else_block: Some(break_block()),
    });
    assert_eq!(emit_statement(statement), "if a then break elseif b then else break end");
}

#[test]
fn if_statement_without_else() {
    let statement = Statement::If(IfStatement {
        branches: vec![IfBranch { condition: Expression::True, block: empty_block() }],
        else_block: None,
    });
    assert_eq!(emit_statement(statement), "if true then end");
}

#[test]
fn if_expression_with_branches() {
    let expression = Expression::If(Box::new(IfExpression {
        condition: var("a"),
        result: decimal("1"),
        else_result: decimal("3"),
        branches: vec![ElseIfExpressionBranch { condition: var("b"), result: decimal("2") }],
    }));
    assert_eq!(emit_expression(expression), "if a then 1 elseif b then 2 else 3");
}

#[test]
fn call_with_a_method() {
    let expression = Expression::Call(Box::new(FunctionCall {
        prefix: Box::new(Prefix::Identifier(name("object"))),
        arguments: Arguments::Tuple(TupleArguments { values: vec![decimal("1"), decimal("2")] }),
        method: Some(name("method")),
    }));
    assert_eq!(emit_expression(expression), "object:method(1,2)");
}

#[test]
fn call_with_a_table_argument() {
    let expression = Expression::Call(Box::new(FunctionCall {
        prefix: Box::new(Prefix::Identifier(name("f"))),
        arguments: Arguments::Table(TableExpression { entries: Vec::new() }),
        method: None,
    }));
    assert_eq!(emit_expression(expression), "f{}");
}

#[test]
fn call_of_a_call_of_a_field_of_an_index() {
    let index = Prefix::Index(Box::new(IndexExpression {
        prefix: Prefix::Identifier(name("a")),
        index: Expression::String(string("'k'")),
    }));
    let field = Prefix::Field(Box::new(FieldExpression { prefix: index, field: name("f") }));
    let inner = call(field, vec![var("x")]);
    let outer = call(Prefix::Call(inner), Vec::new());
    assert_eq!(emit_expression(Expression::Call(Box::new(outer))), "a['k'].f(x)()");
}

#[test]
fn long_string_in_an_index_gets_a_space() {
    let expression = Expression::Index(Box::new(IndexExpression {
        prefix: Prefix::Identifier(name("t")),
        index: Expression::String(string("[[key]]")),
    }));
    assert_eq!(emit_expression(expression), "t[ [[key]]]");
}

#[test]
fn long_string_in_an_index_gets_a_line_break_when_the_space_does_not_fit() {
    let expression = Expression::Index(Box::new(IndexExpression {
        prefix: Prefix::Identifier(name("t")),
        index: Expression::String(string("[[key]]")),
    }));
    let mut generator = DenseLuaGenerator::new(9);
    generator.write_expression(&expression);
    assert_eq!(generator.into_string(), "t[\n[[key]]]");
}

#[test]
fn quoted_string_in_an_index_gets_no_space() {
    let expression = Expression::Index(Box::new(IndexExpression {
        prefix: Prefix::Identifier(name("t")),
        index: Expression::String(string("\"key\"")),
    }));
    assert_eq!(emit_expression(expression), "t[\"key\"]");
}

#[test]
fn long_string_after_a_name_gets_no_space() {
    let expression = Expression::Call(Box::new(FunctionCall {
        prefix: Box::new(Prefix::Identifier(name("print"))),
        arguments: Arguments::String(string("[[hello]]")),
        method: None,
    }));
    assert_eq!(emit_expression(expression), "print[[hello]]");
}

#[test]
fn simple_expressions() {
    assert_eq!(emit_expression(Expression::Nil), "nil");
    assert_eq!(emit_expression(Expression::True), "true");
    assert_eq!(emit_expression(Expression::False), "false");
    assert_eq!(emit_expression(Expression::VariableArguments), "...");
    assert_eq!(emit_expression(var("name")), "name");
    assert_eq!(
        emit_expression(Expression::Parenthese(Box::new(parenthese(var("a"))))),
        "(a)"
    );
}

#[test]
fn not_a_number_and_the_infinities() {
    let number = |value| {
        NumberExpression::Decimal(DecimalNumber { value, exponent: None, is_uppercase: None })
    };
    assert_eq!(emit_number(number(DecimalValue::NotANumber)), "(0/0)");
    assert_eq!(emit_number(number(DecimalValue::PositiveInfinity)), "(1/0)");
    assert_eq!(emit_number(number(DecimalValue::NegativeInfinity)), "(-1/0)");
}

#[test]
fn not_a_number_ignores_its_exponent() {
    let number = NumberExpression::Decimal(DecimalNumber {
        value: DecimalValue::NotANumber,
        exponent: Some(3),
        is_uppercase: Some(true),
    });
    assert_eq!(emit_number(number), "(0/0)");
}

#[test]
fn not_a_number_is_one_fragment() {
    let mut generator = DenseLuaGenerator::new(4);
    generator.push_str("a");
    generator.push_char('=');
    generator.write_number(&NumberExpression::Decimal(DecimalNumber {
        value: DecimalValue::NotANumber,
        exponent: None,
        is_uppercase: None,
    }));
    assert_eq!(generator.into_string(), "a=\n(0/0)");
}

#[test]
fn decimal_numbers() {
    let number = |text: &str, exponent, is_uppercase| {
        NumberExpression::Decimal(DecimalNumber {
            value: DecimalValue::Finite(text.to_string()),
            exponent,
            is_uppercase,
        })
    };
    assert_eq!(emit_number(number("1", None, None)), "1");
    assert_eq!(emit_number(number("0.5", None, None)), "0.5");
    assert_eq!(emit_number(number("-12.25", None, Some(true))), "-12.25");
    assert_eq!(emit_number(number("1", Some(10), None)), "1e10");
    assert_eq!(emit_number(number("1", Some(10), Some(false))), "1e10");
    assert_eq!(emit_number(number("1", Some(10), Some(true))), "1E10");
    assert_eq!(emit_number(number("1.5", Some(-3), None)), "1.5e-3");
    assert_eq!(emit_number(number("2", Some(0), None)), "2e0");
    assert_eq!(
        emit_number(number("1", Some(i64::MAX), None)),
        "1e9223372036854775807"
    );
    assert_eq!(
        emit_number(number("1", Some(i64::MIN), Some(true))),
        "1E-9223372036854775808"
    );
}

#[test]
fn hexadecimal_numbers() {
    let number = |integer, exponent, is_x_uppercase, is_exponent_uppercase| {
        NumberExpression::Hex(HexNumber {
            integer,
            exponent,
            is_x_uppercase,
            is_exponent_uppercase,
        })
    };
    assert_eq!(emit_number(number(0, None, false, None)), "0x0");
    assert_eq!(emit_number(number(9, None, false, None)), "0x9");
    assert_eq!(emit_number(number(10, None, false, None)), "0xa");
    assert_eq!(emit_number(number(255, None, false, None)), "0xff");
    assert_eq!(emit_number(number(255, None, true, None)), "0Xff");
    assert_eq!(emit_number(number(0xdead_beef, None, false, None)), "0xdeadbeef");
    assert_eq!(emit_number(number(0x1234_5678_9abc_def0, None, false, None)), "0x123456789abcdef0");
    assert_eq!(emit_number(number(u64::MAX, None, false, None)), "0xffffffffffffffff");
    assert_eq!(emit_number(number(1, Some(4), false, None)), "0x1p4");
    assert_eq!(emit_number(number(1, Some(4), false, Some(false))), "0x1p4");
    assert_eq!(emit_number(number(1, Some(4), true, Some(true))), "0X1P4");
    assert_eq!(emit_number(number(16, Some(0), false, None)), "0x10p0");
    assert_eq!(emit_number(number(1, Some(u32::MAX), false, None)), "0x1p4294967295");
}

#[test]
fn binary_numbers() {
    let number =
        |value, is_b_uppercase| NumberExpression::Binary(BinaryNumber { value, is_b_uppercase });
    assert_eq!(emit_number(number(0, false)), "0b0");
    assert_eq!(emit_number(number(1, false)), "0b1");
    assert_eq!(emit_number(number(2, false)), "0b10");
    assert_eq!(emit_number(number(5, true)), "0B101");
    assert_eq!(emit_number(number(255, false)), "0b11111111");
    assert_eq!(emit_number(number(u64::MAX, false)), format!("0b{}", "1".repeat(64)));
}

#[test]
fn number_after_a_word_gets_a_space() {
    let statement = Statement::Assign(AssignStatement {
        variables: vec![Variable::Identifier(name("a"))],
        values: vec![binary(
            BinaryOperator::And,
            var("b"),
            Expression::Number(NumberExpression::Hex(HexNumber {
                integer: 16,
                exponent: None,
                is_x_uppercase: false,
                is_exponent_uppercase: None,
            })),
        )],
    });
    assert_eq!(emit_statement(statement), "a=b and 0x10");
}

#[test]
fn binary_operators_are_written_as_in_lua() {
    for (operator, text, expression) in [
        (BinaryOperator::And, "and", "a and b"),
        (BinaryOperator::Or, "or", "a or b"),
        (BinaryOperator::Equal, "==", "a==b"),
        (BinaryOperator::NotEqual, "~=", "a~=b"),
        (BinaryOperator::LowerThan, "<", "a<b"),
        (BinaryOperator::LowerOrEqualThan, "<=", "a<=b"),
        (BinaryOperator::GreaterThan, ">", "a>b"),
        (BinaryOperator::GreaterOrEqualThan, ">=", "a>=b"),
        (BinaryOperator::Plus, "+", "a+b"),
        (BinaryOperator::Minus, "-", "a-b"),
        (BinaryOperator::Asterisk, "*", "a*b"),
        (BinaryOperator::Slash, "/", "a/b"),
        (BinaryOperator::Percent, "%", "a%b"),
        (BinaryOperator::Caret, "^", "a^b"),
        (BinaryOperator::Concat, "..", "a..b"),
    ] {
        assert_eq!(operator.to_str(), text);
        assert_eq!(emit_expression(binary(operator, var("a"), var("b"))), expression);
    }
}

#[test]
fn left_operand_that_binds_less_tightly_gets_parentheses() {
    let sum = binary(BinaryOperator::Plus, var("a"), var("b"));
    assert_eq!(emit_expression(binary(BinaryOperator::Asterisk, sum, var("c"))), "(a+b)*c");
}

#[test]
fn right_operand_that_binds_less_tightly_gets_parentheses() {
    let sum = binary(BinaryOperator::Plus, var("b"), var("c"));
    assert_eq!(emit_expression(binary(BinaryOperator::Asterisk, var("a"), sum)), "a*(b+c)");
}

#[test]
fn operand_that_binds_tighter_gets_no_parentheses() {
    let product = binary(BinaryOperator::Asterisk, var("a"), var("b"));
    assert_eq!(emit_expression(binary(BinaryOperator::Plus, product, var("c"))), "a*b+c");
    let product = binary(BinaryOperator::Asterisk, var("b"), var("c"));
    assert_eq!(emit_expression(binary(BinaryOperator::Plus, var("a"), product)), "a+b*c");
}

#[test]
fn operators_that_group_from_the_left() {
    let left = binary(BinaryOperator::Minus, var("a"), var("b"));
    assert_eq!(emit_expression(binary(BinaryOperator::Minus, left, var("c"))), "a-b-c");
    let right = binary(BinaryOperator::Minus, var("b"), var("c"));
    assert_eq!(emit_expression(binary(BinaryOperator::Minus, var("a"), right)), "a-(b-c)");
}

#[test]
fn operators_that_group_from_the_right() {
    let left = binary(BinaryOperator::Caret, var("a"), var("b"));
    assert_eq!(emit_expression(binary(BinaryOperator::Caret, left, var("c"))), "(a^b)^c");
    let right = binary(BinaryOperator::Caret, var("b"), var("c"));
    assert_eq!(emit_expression(binary(BinaryOperator::Caret, var("a"), right)), "a^b^c");

    let left = binary(BinaryOperator::Concat, var("a"), var("b"));
    assert_eq!(emit_expression(binary(BinaryOperator::Concat, left, var("c"))), "(a..b)..c");
    let right = binary(BinaryOperator::Concat, var("b"), var("c"));
    assert_eq!(emit_expression(binary(BinaryOperator::Concat, var("a"), right)), "a..b..c");
}

#[test]
fn unary_operand_on_the_left_of_a_power_gets_parentheses() {
    let minus = unary(UnaryOperator::Minus, var("a"));
    assert_eq!(emit_expression(binary(BinaryOperator::Caret, minus, var("b"))), "(-a)^b");
    let minus = unary(UnaryOperator::Minus, var("a"));
    assert_eq!(emit_expression(binary(BinaryOperator::Asterisk, minus, var("b"))), "-a*b");
    let minus = unary(UnaryOperator::Minus, var("b"));
    assert_eq!(emit_expression(binary(BinaryOperator::Caret, var("a"), minus)), "a^-b");
}

#[test]
fn if_expression_on_the_left_of_an_operator_gets_parentheses() {
    let if_expression = || {
        Expression::If(Box::new(IfExpression {
            condition: var("a"),
            result: decimal("1"),
            else_result: decimal("2"),
            branches: Vec::new(),
        }))
    };
    assert_eq!(
        emit_expression(binary(BinaryOperator::Plus, if_expression(), var("b"))),
        "(if a then 1 else 2)+b"
    );
    assert_eq!(
        emit_expression(binary(BinaryOperator::Plus, var("b"), if_expression())),
        "b+if a then 1 else 2"
    );
}

#[test]
fn unary_operators() {
    assert_eq!(emit_expression(unary(UnaryOperator::Length, var("a"))), "#a");
    assert_eq!(emit_expression(unary(UnaryOperator::Minus, var("a"))), "-a");
    assert_eq!(emit_expression(unary(UnaryOperator::Not, var("a"))), "not a");
    assert_eq!(
        emit_expression(unary(UnaryOperator::Not, unary(UnaryOperator::Not, var("a")))),
        "not not a"
    );
}

#[test]
fn unary_operand_with_a_binary_operator_gets_parentheses() {
    let sum = binary(BinaryOperator::Plus, var("a"), var("b"));
    assert_eq!(emit_expression(unary(UnaryOperator::Minus, sum)), "-(a+b)");
    let power = binary(BinaryOperator::Caret, var("a"), var("b"));
    assert_eq!(emit_expression(unary(UnaryOperator::Minus, power)), "-a^b");
    let and = binary(BinaryOperator::And, var("a"), var("b"));
    assert_eq!(emit_expression(unary(UnaryOperator::Not, and)), "not(a and b)");
}

#[test]
fn minus_after_a_binary_minus_gets_a_space() {
    let expression =
        binary(BinaryOperator::Minus, var("a"), unary(UnaryOperator::Minus, var("b")));
    assert_eq!(emit_expression(expression), "a- -b");
}

#[test]
fn concat_after_a_number_gets_a_space() {
    assert_eq!(
        emit_expression(binary(BinaryOperator::Concat, decimal("1"), var("a"))),
        "1 ..a"
    );
    assert_eq!(
        emit_expression(binary(BinaryOperator::Concat, decimal("1.5"), decimal("2"))),
        "1.5 ..2"
    );
    assert_eq!(
        emit_expression(binary(BinaryOperator::Concat, var("a"), decimal("1"))),
        "a..1"
    );
}

#[test]
fn statement_ending_in_a_parenthesis_before_a_parenthese_gets_a_semicolon() {
    let first = Statement::Call(call(Prefix::Identifier(name("f")), Vec::new()));
    let second = Statement::Call(call(Prefix::Parenthese(parenthese(var("g"))), Vec::new()));
    assert_eq!(emit_block(&block(vec![first, second])), "f();(g)()");
}

#[test]
fn assignment_of_a_name_before_a_parenthese_gets_a_semicolon() {
    let second = || {
        Statement::Assign(AssignStatement {
            variables: vec![Variable::Field(Box::new(FieldExpression {
                prefix: Prefix::Parenthese(parenthese(var("g"))),
                field: name("x"),
            }))],
            values: vec![decimal("1")],
        })
    };
    assert_eq!(emit_block(&block(vec![local("a", var("b")), second()])), "local a=b;(g).x=1");
    assert_eq!(emit_block(&block(vec![assign("a", var("b")), second()])), "a=b;(g).x=1");
    assert_eq!(
        emit_block(&block(vec![local("a", decimal("1")), second()])),
        "local a=1(g).x=1"
    );
}

#[test]
fn operand_in_parentheses_before_a_parenthese_gets_a_semicolon() {
    let value = binary(
        BinaryOperator::Asterisk,
        var("a"),
        binary(BinaryOperator::Plus, var("b"), decimal("1")),
    );
    let second = Statement::Call(call(Prefix::Parenthese(parenthese(var("g"))), Vec::new()));
    assert_eq!(emit_block(&block(vec![local("x", value), second])), "local x=a*(b+1);(g)()");
}

#[test]
fn statements_get_no_semicolon_when_the_next_begins_with_a_name() {
    let first = Statement::Call(call(Prefix::Identifier(name("f")), Vec::new()));
    let second = Statement::Call(call(Prefix::Identifier(name("g")), Vec::new()));
    assert_eq!(emit_block(&block(vec![first, second])), "f()g()");
}

#[test]
fn statements_get_no_semicolon_when_the_first_ends_with_a_keyword() {
    let first = Statement::Do(DoStatement { block: empty_block() });
    let second = Statement::Call(call(Prefix::Parenthese(parenthese(var("g"))), Vec::new()));
    assert_eq!(emit_block(&block(vec![first, second])), "do end(g)()");
}

#[test]
fn repeat_condition_before_a_parenthese_gets_a_semicolon() {
    let first =
        Statement::Repeat(RepeatStatement { block: empty_block(), condition: var("done") });
    let second = Statement::CompoundAssign(CompoundAssignStatement {
        operator: CompoundOperator::Plus,
        variable: Variable::Index(Box::new(IndexExpression {
            prefix: Prefix::Parenthese(parenthese(var("t"))),
            index: decimal("1"),
        })),
        value: decimal("2"),
    });
    assert_eq!(emit_block(&block(vec![first, second])), "repeat until done;(t)[1]+=2");
}

#[test]
fn block_writes_the_last_statement_after_the_statements() {
    let block = Block {
        statements: vec![local("a", decimal("1")), local("b", decimal("2"))],
        last_statement: Some(LastStatement::Return(ReturnStatement {
            expressions: vec![binary(BinaryOperator::Plus, var("a"), var("b"))],
        })),
    };
    assert_eq!(emit_block(&block), "local a=1 local b=2 return a+b");
}

#[test]
fn block_is_empty_without_statements() {
    assert!(empty_block().is_empty());
    assert!(!break_block().is_empty());
    assert!(!block(vec![local("a", decimal("1"))]).is_empty());
}

#[test]
fn generator_can_be_used_for_several_nodes() {
    let mut generator = DenseLuaGenerator::new(80);
    generator.write_identifier(&name("a"));
    generator.write_string(&string("'b'"));
    generator.write_expression(&var("c"));
    generator.write_variable(&Variable::Identifier(name("d")));
    generator.write_prefix(&Prefix::Identifier(name("e")));
    generator.write_arguments(&Arguments::Tuple(TupleArguments { values: Vec::new() }));
    generator.write_table(&TableExpression { entries: Vec::new() });
    assert_eq!(generator.into_string(), "a'b'c d e(){}");
}

#[test]
fn callee_and_parenthesis_can_exceed_a_budget_that_the_callee_fills() {
    let statement = Statement::Call(call(Prefix::Identifier(name("f")), Vec::new()));
    assert_eq!(emit_block_with(1, &block(vec![statement])), "\nf(\n)");
}

#[test]
fn budget_of_zero_breaks_before_each_fragment() {
    let block = block(vec![local("x", decimal("1"))]);
    assert_eq!(emit_block_with(0, &block), "\nlocal\nx\n=\n1");
}

#[test]
fn output_holds_the_characters_of_the_fragments_whatever_the_budget() {
    let block = block(vec![
        local("first", long_sum(12)),
        Statement::Call(call(Prefix::Identifier(name("print")), vec![var("first"), long_sum(5)])),
        Statement::While(WhileStatement { block: break_block(), condition: Expression::True }),
    ]);
    let visible = |text: &str| -> String {
        text.chars().filter(|character| *character != ' ' && *character != '\n').collect()
    };
    let expected = visible(&emit_block_with(1000, &block));
    assert!(expected.starts_with("localfirst=value0+value1+"));
    assert!(expected.ends_with("whiletruedobreakend"));
    for column_span in 0..60 {
        assert_eq!(visible(&emit_block_with(column_span, &block)), expected, "{}", column_span);
    }
}

#[test]
fn fragments_are_kept_whole_whatever_the_budget() {
    let block = block(vec![local(
        "value",
        Expression::Call(Box::new(call(
            Prefix::Identifier(name("compute")),
            vec![decimal("10"), binary(BinaryOperator::Concat, decimal("1"), var("b"))],
        ))),
    )]);
    let fragments = ["local", "value", "=", "compute(", "10", ",", "1", "..", "b", ")"];
    for column_span in 0..40 {
        let text = emit_block_with(column_span, &block);
        let mut rest = text.as_str();
        for fragment in fragments {
            rest = rest.trim_start_matches(|character| character == ' ' || character == '\n');
            assert!(rest.starts_with(fragment), "{} {:?} {:?}", column_span, text, fragment);
            rest = &rest[fragment.len()..];
        }
        assert_eq!(rest, "", "{}", column_span);
    }
}

#[test]
fn no_line_exceeds_the_budget_with_a_line_break_in_a_fragment() {
    let literal = "[[first line\nsecond]]";
    let block = block(vec![
        local("text", Expression::String(string(literal))),
        Statement::Call(call(Prefix::Identifier(name("print")), vec![var("text")])),
    ]);
    let longest_fragment = literal.chars().count();
    for column_span in 0..40 {
        let text = emit_block_with(column_span, &block);
        assert!(text.contains(literal));
        for line in text.lines() {
            assert!(
                line.chars().count() <= column_span.max(longest_fragment),
                "{} {:?}",
                column_span,
                line
            );
        }
    }
}
