use pseudocode::ast::{
    Assign, Bounds, DataTypes, Declare, Expression, Literal, LiteralType, Ops, Real, Span, Spanned,
    Statement, Token,
};
use pseudocode::lexer::lexer;
use pseudocode::parser::{expression, parser, Expected, SyntaxError};

fn parse(source: &str) -> Result<Vec<Spanned<Statement>>, Vec<SyntaxError>> {
    parser(&lexer(source).unwrap())
}

fn statements_of(source: &str) -> Vec<Statement> {
    parse(source).unwrap().into_iter().map(|(statement, _)| statement).collect()
}

/// The first error of a program.
fn error_of(source: &str) -> SyntaxError {
    parse(source).unwrap_err().remove(0)
}

fn expression_of(source: &str) -> Spanned<Expression> {
    let tokens = lexer(source).unwrap();
    let (found, end) = expression(&tokens, 0).unwrap();
    assert_eq!(end, tokens.len());
    found
}

fn at(start: usize, end: usize) -> Span {
    Span { start, end }
}

fn integer(value: isize, start: usize, end: usize) -> Spanned<Expression> {
    (Expression::Value(Literal::Integer(value)), at(start, end))
}

fn variable(name: &str, start: usize, end: usize) -> Spanned<Expression> {
    (Expression::Variable(name.to_string()), at(start, end))
}

fn operate(
    op: Ops,
    left: Spanned<Expression>,
    right: Spanned<Expression>,
) -> Spanned<Expression> {
    let span = at(left.1.start, right.1.end);
    (Expression::Operate(op, Box::new(left), Box::new(right)), span)
}

#[test]
fn products_bind_tighter_than_sums() {
    assert_eq!(
        expression_of("1 + 2 * 3"),
        operate(
            Ops::Plus,
            integer(1, 0, 1),
            operate(Ops::Multiply, integer(2, 4, 5), integer(3, 8, 9))
        )
    );
    assert_eq!(
        expression_of("1 * 2 + 3"),
        operate(
            Ops::Plus,
            operate(Ops::Multiply, integer(1, 0, 1), integer(2, 4, 5)),
            integer(3, 8, 9)
        )
    );
    assert_eq!(
        expression_of("8 DIV 2 MOD 3"),
        operate(
            Ops::Mod,
            operate(Ops::Div, integer(8, 0, 1), integer(2, 6, 7)),
            integer(3, 12, 13)
        )
    );
}

#[test]
fn sums_bind_tighter_than_comparisons() {
    assert_eq!(
        expression_of("a + 1 < b - 2"),
        operate(
            Ops::LessThan,
            operate(Ops::Plus, variable("a", 0, 1), integer(1, 4, 5)),
            operate(Ops::Minus, variable("b", 8, 9), integer(2, 12, 13))
        )
    );
    assert_eq!(
        expression_of("a < b AND c"),
        operate(
            Ops::And,
            operate(Ops::LessThan, variable("a", 0, 1), variable("b", 4, 5)),
            variable("c", 10, 11)
        )
    );
}

#[test]
fn operators_of_one_tier_fold_from_the_left() {
    assert_eq!(
        expression_of("1 - 2 - 3"),
        operate(
            Ops::Minus,
            operate(Ops::Minus, integer(1, 0, 1), integer(2, 4, 5)),
            integer(3, 8, 9)
        )
    );
    assert_eq!(
        expression_of("a & b & c"),
        operate(
            Ops::Concatenate,
            operate(Ops::Concatenate, variable("a", 0, 1), variable("b", 4, 5)),
            variable("c", 8, 9)
        )
    );
}

#[test]
fn brackets_group() {
    assert_eq!(
        expression_of("(1 + 2) * 3"),
        operate(
            Ops::Multiply,
            operate(Ops::Plus, integer(1, 1, 2), integer(2, 5, 6)),
            integer(3, 10, 11)
        )
    );
}

#[test]
fn prefixes_fold_from_the_right() {
    assert_eq!(
        expression_of("- - 1"),
        (
            Expression::Negative(Box::new((
                Expression::Negative(Box::new(integer(1, 4, 5))),
                at(2, 5)
            ))),
            at(0, 5)
        )
    );
    assert_eq!(
        expression_of("NOT NOT a"),
        (
            Expression::Not(Box::new((
                Expression::Not(Box::new(variable("a", 8, 9))),
                at(4, 9)
            ))),
            at(0, 9)
        )
    );
    assert_eq!(
        expression_of("-a * b"),
        operate(
            Ops::Multiply,
            (Expression::Negative(Box::new(variable("a", 1, 2))), at(0, 2)),
            variable("b", 5, 6)
        )
    );
}

#[test]
fn not_binds_to_the_atom_after_it() {
    assert_eq!(
        expression_of("NOT a = b"),
        operate(
            Ops::Equal,
            (Expression::Not(Box::new(variable("a", 4, 5))), at(0, 5)),
            variable("b", 8, 9)
        )
    );
}

#[test]
fn not_is_never_between_two_operands() {
    let error = error_of("OUTPUT a NOT b");
    assert_eq!(error.expected, Expected::LineEnd);
    assert_eq!(error.found, Some(Token::Operator(Ops::Not)));
    assert_eq!(error.span, at(9, 12));
    let error = error_of("OUTPUT - NOT a");
    assert_eq!(error.expected, Expected::Expression);
    assert_eq!(error.found, Some(Token::Operator(Ops::Not)));
}

#[test]
fn atoms() {
    assert_eq!(
        expression_of("1.5"),
        (Expression::Value(Literal::Real(Real::new("1.5".to_string()))), at(0, 3))
    );
    assert_eq!(
        expression_of("\"text\""),
        (Expression::Value(Literal::String("text".to_string())), at(0, 6))
    );
    assert_eq!(expression_of("TRUE"), (Expression::Value(Literal::Bool(true)), at(0, 4)));
    assert_eq!(
        expression_of("a[i + 1]"),
        (
            Expression::ArrayIndex(
                "a".to_string(),
                Box::new(operate(Ops::Plus, variable("i", 2, 3), integer(1, 6, 7)))
            ),
            at(0, 8)
        )
    );
    assert_eq!(
        expression_of("F(1, x)"),
        (
            Expression::FunctionCall(
                "F".to_string(),
                vec![integer(1, 2, 3), variable("x", 5, 6)]
            ),
            at(0, 7)
        )
    );
    assert_eq!(
        expression_of("NUM_TO_STR(1)"),
        (
            Expression::FunctionCall("NUM_TO_STR".to_string(), vec![integer(1, 11, 12)]),
            at(0, 13)
        )
    );
    assert_eq!(
        expression_of("F()"),
        (Expression::FunctionCall("F".to_string(), vec![]), at(0, 3))
    );
}

#[test]
fn integers_that_do_not_fit() {
    let error = error_of("OUTPUT 99999999999999999999999999");
    assert_eq!(error.expected, Expected::Integer);
    assert_eq!(error.span, at(7, 33));
    let error = error_of("DECLARE a : ARRAY[1:99999999999999999999999999] OF INTEGER");
    assert_eq!(error.expected, Expected::Count);
}

#[test]
fn declarations() {
    assert_eq!(
        parse("DECLARE x : REAL"),
        Ok(vec![(
            Statement::Declare(Declare::Literal("x".to_string(), LiteralType::Real)),
            at(0, 16)
        )])
    );
    assert_eq!(
        statements_of("DECLARE a : ARRAY[1:5] OF STRING"),
        vec![Statement::Declare(Declare::Array(
            "a".to_string(),
            Bounds { lower: 1, upper: 5 },
            LiteralType::String
        ))]
    );
    assert_eq!(error_of("DECLARE 1 : REAL").expected, Expected::Identifier);
    assert_eq!(error_of("DECLARE x REAL").expected, Expected::Colon);
    assert_eq!(error_of("DECLARE x : y").expected, Expected::LiteralType);
    assert_eq!(error_of("DECLARE a : ARRAY[1,5] OF STRING").expected, Expected::Colon);
    assert_eq!(error_of("DECLARE a : ARRAY[1:5] STRING").expected, Expected::Of);
    assert_eq!(error_of("DECLARE a : ARRAY[1:5] OF ARRAY").expected, Expected::LiteralType);
    assert_eq!(error_of("DECLARE a : ARRAY 1:5 OF REAL").expected, Expected::OpenSquare);
    assert_eq!(error_of("DECLARE a : ARRAY[x:5] OF REAL").expected, Expected::Count);
    assert_eq!(error_of("DECLARE a : ARRAY[1:5 OF REAL").expected, Expected::CloseSquare);
}

#[test]
fn assignments_and_calls() {
    assert_eq!(
        statements_of("x <- 1\na[2] <- 3\nshow(4)"),
        vec![
            Statement::Assign(Assign::Literal("x".to_string(), integer(1, 5, 6))),
            Statement::Assign(Assign::Array(
                "a".to_string(),
                integer(2, 9, 10),
                integer(3, 15, 16)
            )),
            Statement::ProcedureCall("show".to_string(), vec![integer(4, 22, 23)]),
        ]
    );
    assert_eq!(error_of("x 1").expected, Expected::Arrow);
    assert_eq!(error_of("a[1] 2").expected, Expected::Arrow);
    assert_eq!(error_of("a[1 <- 2").expected, Expected::CloseSquare);
    assert_eq!(error_of("STR_TO_NUM(\"1\")").expected, Expected::Statement);
}

#[test]
fn output_and_input() {
    assert_eq!(
        statements_of("OUTPUT 1, x\nINPUT x"),
        vec![
            Statement::Out(vec![integer(1, 7, 8), variable("x", 10, 11)]),
            Statement::In("x".to_string()),
        ]
    );
    assert_eq!(error_of("OUTPUT").expected, Expected::Expression);
    assert_eq!(error_of("OUTPUT 1,").expected, Expected::Expression);
    assert_eq!(error_of("INPUT 1").expected, Expected::Identifier);
}

#[test]
fn if_with_and_without_else() {
    let strip = |statement: Statement| match statement {
        Statement::If(_, then_block, else_block) => {
            (then_block.len(), else_block.map(|block| block.len()))
        }
        other => panic!("no IF: {:?}", other),
    };
    let mut found = statements_of("IF a THEN\nOUTPUT 1\nOUTPUT 2\nENDIF");
    assert_eq!(strip(found.remove(0)), (2, None));
    let mut found = statements_of("IF a\nTHEN\n\nOUTPUT 1\nELSE\nOUTPUT 2\nOUTPUT 3\n\nENDIF\n");
    assert_eq!(strip(found.remove(0)), (1, Some(2)));
    let mut found = statements_of("IF a THEN OUTPUT 1\nELSE OUTPUT 2\nENDIF");
    assert_eq!(strip(found.remove(0)), (1, Some(1)));
    assert_eq!(error_of("IF a\nOUTPUT 1\nENDIF").expected, Expected::Then);
    assert_eq!(error_of("IF a THEN\nENDIF").expected, Expected::Statement);
    assert_eq!(error_of("IF a THEN\nOUTPUT 1\n").expected, Expected::EndIf);
    assert_eq!(error_of("IF a THEN\nOUTPUT 1\nELSE\nENDIF").expected, Expected::Statement);
    assert_eq!(error_of("IF a THEN\nOUTPUT 1 ENDIF").expected, Expected::LineEnd);
}

#[test]
fn a_statement_reaches_from_its_first_token_to_its_last() {
    let source = "IF a THEN\n  OUTPUT 1\nENDIF\nx <- 2\n";
    let found = parse(source).unwrap();
    assert_eq!(found[0].1, at(0, 26));
    assert_eq!(found[1].1, at(27, 33));
    match &found[0].0 {
        Statement::If(condition, then_block, None) => {
            assert_eq!(condition, &variable("a", 3, 4));
            assert_eq!(
                then_block,
                &vec![(Statement::Out(vec![integer(1, 19, 20)]), at(12, 20))]
            );
        }
        other => panic!("no IF: {:?}", other),
    }
}

#[test]
fn loops() {
    assert_eq!(
        statements_of("FOR i <- 1 TO 3\nOUTPUT i\nNEXT i\nFOR i <- 1 TO 3\nOUTPUT i\nENDFOR"),
        vec![
            Statement::For(
                "i".to_string(),
                integer(1, 9, 10),
                integer(3, 14, 15),
                vec![(Statement::Out(vec![variable("i", 23, 24)]), at(16, 24))]
            ),
            Statement::For(
                "i".to_string(),
                integer(1, 41, 42),
                integer(3, 46, 47),
                vec![(Statement::Out(vec![variable("i", 55, 56)]), at(48, 56))]
            ),
        ]
    );
    assert_eq!(
        statements_of("WHILE a DO\nx <- 1\nENDWHILE"),
        vec![Statement::While(
            variable("a", 6, 7),
            vec![(
                Statement::Assign(Assign::Literal("x".to_string(), integer(1, 16, 17))),
                at(11, 17)
            )]
        )]
    );
    assert_eq!(
        statements_of("REPEAT\nx <- 1\nUNTIL a"),
        vec![Statement::Repeat(
            vec![(
                Statement::Assign(Assign::Literal("x".to_string(), integer(1, 12, 13))),
                at(7, 13)
            )],
            variable("a", 20, 21)
        )]
    );
    assert_eq!(error_of("FOR i <- 1 TO 3 OUTPUT i\nNEXT").expected, Expected::LineEnd);
    assert_eq!(error_of("FOR i <- 1 3\nOUTPUT i\nNEXT").expected, Expected::To);
    assert_eq!(error_of("FOR i <- 1 TO 3\nOUTPUT i\nENDWHILE").expected, Expected::EndFor);
    assert_eq!(error_of("WHILE a\nOUTPUT 1\nENDWHILE").expected, Expected::Do);
    assert_eq!(error_of("WHILE a DO\nOUTPUT 1\nNEXT").expected, Expected::EndWhile);
    assert_eq!(error_of("REPEAT OUTPUT 1\nUNTIL a").expected, Expected::LineEnd);
    assert_eq!(error_of("REPEAT\nOUTPUT 1\nENDIF").expected, Expected::Until);
}

#[test]
fn the_name_after_the_end_of_a_for_loop_is_not_checked() {
    assert_eq!(
        statements_of("FOR i <- 1 TO 3\nOUTPUT i\nNEXT j").len(),
        1
    );
}

#[test]
fn return_with_and_without_a_value() {
    assert_eq!(
        statements_of("RETURN\nRETURN 1"),
        vec![Statement::Return(None), Statement::Return(Some(integer(1, 14, 15)))]
    );
}

#[test]
fn a_statement_ends_with_its_line() {
    let error = error_of("OUTPUT 1 OUTPUT 2");
    assert_eq!(error.expected, Expected::LineEnd);
    assert_eq!(error.found, Some(Token::Out));
    assert_eq!(error.span, at(9, 15));
    let error = error_of("\nOUTPUT 1");
    assert_eq!(error.expected, Expected::Statement);
    assert_eq!(error.found, Some(Token::NewLine));
}

#[test]
fn an_error_at_the_end_of_the_program() {
    let error = error_of("x <-");
    assert_eq!(error.expected, Expected::Expression);
    assert_eq!(error.found, None);
    assert_eq!(error.span, at(4, 4));
    assert_eq!(error_of("f(1").expected, Expected::CloseBracket);
    assert_eq!(error_of("OUTPUT (1").expected, Expected::CloseBracket);
    assert_eq!(error_of("OUTPUT STR_TO_NUM").expected, Expected::OpenBracket);
}

#[test]
fn the_parser_goes_on_with_the_next_line() {
    let errors = parse("OUTPUT )\nOUTPUT 1\nx 2 3\ny <- 4\nz <-").unwrap_err();
    let places: Vec<(usize, Expected, Span)> =
        errors.iter().map(|error| (error.index, error.expected, error.span)).collect();
    assert_eq!(
        places,
        vec![
            (1, Expected::Expression, at(7, 8)),
            (7, Expected::Arrow, at(20, 21)),
            (16, Expected::Expression, at(35, 35)),
        ]
    );
    assert_eq!(errors[0].found, Some(Token::CloseBracket));
    assert_eq!(errors[2].found, None);
}

#[test]
fn one_error_in_one_statement() {
    let errors = parse("OUTPUT 1 +\nOUTPUT 2").unwrap_err();
    assert_eq!(errors.len(), 1);
    assert_eq!(errors[0].expected, Expected::Expression);
    assert_eq!(errors[0].found, Some(Token::NewLine));
    assert_eq!(errors[0].index, 3);
}

#[test]
fn copies_are_equal() {
    let source = "DECLARE a : ARRAY[1:3] OF INTEGER\nIF F(1, a[2]) > -3 THEN\nx <- NOT y\nELSE\n\
                  FOR i <- 1 TO 3\nOUTPUT i, \"!\"\nNEXT\nENDIF\nREPEAT\nRETURN 1.5\nUNTIL TRUE";
    let program = parse(source).unwrap();
    assert_eq!(program.len(), 3);
    for (statement, _) in &program {
        assert_eq!(&statement.clone(), statement);
    }
    assert_eq!(expression_of("a[1] + F(2)").0.clone(), expression_of("a[1] + F(2)").0);
}

#[test]
fn no_tokens_are_no_statements() {
    assert_eq!(parse(""), Ok(vec![]));
    assert_eq!(parser(&vec![]), Ok(vec![]));
}

#[test]
fn the_type_of_data_is_part_of_the_token() {
    assert_eq!(
        statements_of("DECLARE b : BOOLEAN"),
        vec![Statement::Declare(Declare::Literal("b".to_string(), LiteralType::Boolean))]
    );
    assert_eq!(DataTypes::from(LiteralType::Real), DataTypes::Literal(LiteralType::Real));
}
