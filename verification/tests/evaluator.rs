use pseudocode::ast::{
    Bounds, DataTypes, Declare, Execution, Expression, Literal, LiteralType, Ops, Real, Request,
    Span, Spanned, Statement, Variable,
};
use pseudocode::evaluate::{
    assign_array, assign_literal, evaluate, evaluate_expression, get_literal, get_variable,
    index_array, negate, not, operate, Scope, State,
};
use pseudocode::host::Host;
use pseudocode::run::{interpret, parse_and_run, start, Failure};

const STEPS: usize = 100_000;

fn float_of(text: &str) -> f64 {
    text.parse().unwrap()
}

fn number(value: &Literal) -> f64 {
    match value {
        Literal::Integer(n) => *n as f64,
        Literal::Real(x) => float_of(&x.text),
        other => panic!("no number: {:?}", other),
    }
}

fn answer(request: &Request, inputs: &mut Vec<String>) -> Literal {
    match request {
        Request::Input => {
            if inputs.is_empty() {
                Literal::String(String::new())
            } else {
                Literal::String(inputs.remove(0))
            }
        }
        Request::Operate(op, a, b) => {
            let (x, y) = (number(a), number(b));
            match op {
                Ops::Plus => Literal::Real(Real::new(format!("{}", x + y))),
                Ops::Minus => Literal::Real(Real::new(format!("{}", x - y))),
                Ops::Multiply => Literal::Real(Real::new(format!("{}", x * y))),
                Ops::Divide => Literal::Real(Real::new(format!("{}", x / y))),
                Ops::Div => Literal::Integer((x / y) as isize),
                other => panic!("no arithmetic: {:?}", other),
            }
        }
        Request::Negative(x) => Literal::Real(Real::new(format!("{}", -float_of(&x.text)))),
        Request::Display(x) => Literal::String(format!("{}", float_of(&x.text))),
        Request::Random(low, _) => Literal::Integer(*low),
    }
}

/// Runs a program to its end, answering what it asks for.
fn run_with(source: &str, lines: &[&str]) -> (Result<(), Failure>, Vec<String>) {
    let mut host = Host::new(STEPS);
    let mut inputs: Vec<String> = lines.iter().map(|line| line.to_string()).collect();
    loop {
        host.rewind(STEPS);
        match parse_and_run(source, &mut host) {
            Err(Failure::Runtime(Execution::Waiting(request), _)) => {
                let given = answer(&request, &mut inputs);
                host.answer(given);
            }
            other => return (other, host.output.clone()),
        }
    }
}

fn output_of(source: &str) -> Vec<String> {
    let (result, output) = run_with(source, &[]);
    assert_eq!(result, Ok(()));
    output
}

fn error_of(source: &str) -> Execution {
    match run_with(source, &[]).0 {
        Err(Failure::Runtime(error, _)) => error,
        other => panic!("no runtime error: {:?}", other),
    }
}

fn array_type() -> DataTypes {
    DataTypes::Array
}

fn literal(t: LiteralType) -> DataTypes {
    DataTypes::Literal(t)
}

#[test]
fn declared_and_not_assigned() {
    assert_eq!(
        error_of("DECLARE x : INTEGER\nOUTPUT x"),
        Execution::NotAssigned("x".to_string())
    );
    assert_eq!(
        error_of("DECLARE name : STRING\nOUTPUT name"),
        Execution::NotAssigned("name".to_string())
    );
    assert_eq!(
        error_of("DECLARE r : REAL\nOUTPUT r"),
        Execution::NotAssigned("r".to_string())
    );
    assert_eq!(
        error_of("DECLARE b : BOOLEAN\nOUTPUT b"),
        Execution::NotAssigned("b".to_string())
    );
}

#[test]
fn not_assigned_has_the_place_of_the_variable() {
    let mut host = Host::new(STEPS);
    let result = parse_and_run("DECLARE x : INTEGER\nOUTPUT x", &mut host);
    assert_eq!(
        result,
        Err(Failure::Runtime(
            Execution::NotAssigned("x".to_string()),
            Span { start: 27, end: 28 }
        ))
    );
    assert!(host.output.is_empty());
}

#[test]
fn never_declared() {
    assert_eq!(error_of("OUTPUT x"), Execution::NotFound("x".to_string()));
    assert_eq!(error_of("x <- 1"), Execution::NotFound("x".to_string()));
    assert_eq!(error_of("INPUT x"), Execution::NotFound("x".to_string()));
}

#[test]
fn declare_assign_output() {
    assert_eq!(output_of("DECLARE x : INTEGER\nx <- 10\nOUTPUT x"), vec!["10"]);
}

#[test]
fn assignment_of_another_type() {
    assert_eq!(
        error_of("DECLARE x : INTEGER\nx <- \"ten\""),
        Execution::IncorrectType(literal(LiteralType::Integer), literal(LiteralType::String))
    );
    assert_eq!(
        error_of("DECLARE s : STRING\ns <- TRUE"),
        Execution::IncorrectType(literal(LiteralType::String), literal(LiteralType::Boolean))
    );
}

#[test]
fn array_bounds() {
    let declare = "DECLARE a : ARRAY[1:5] OF INTEGER\n";
    assert_eq!(
        error_of(&format!("{}a[0] <- 1", declare)),
        Execution::OutOfBounds("a".to_string(), 0)
    );
    assert_eq!(
        error_of(&format!("{}a[6] <- 1", declare)),
        Execution::OutOfBounds("a".to_string(), 6)
    );
    assert_eq!(output_of(&format!("{}a[3] <- 1\nOUTPUT a[3]", declare)), vec!["1"]);
    assert_eq!(
        error_of(&format!("{}a[3] <- 1\nOUTPUT a[2]", declare)),
        Execution::IndexNotAssigned("a".to_string(), 2)
    );
    assert_eq!(
        error_of(&format!("{}OUTPUT a[0]", declare)),
        Execution::OutOfBounds("a".to_string(), 0)
    );
    assert_eq!(
        error_of(&format!("{}a[1 - 2] <- 1", declare)),
        Execution::NegativeIndex("a".to_string(), -1)
    );
    assert_eq!(
        error_of(&format!("{}OUTPUT a[0 - 7]", declare)),
        Execution::NegativeIndex("a".to_string(), -7)
    );
    assert_eq!(
        error_of(&format!("{}a[TRUE] <- 1", declare)),
        Execution::IncorrectType(literal(LiteralType::Integer), literal(LiteralType::Boolean))
    );
    assert_eq!(
        error_of(&format!("{}a[1] <- \"one\"", declare)),
        Execution::IncorrectType(literal(LiteralType::Integer), literal(LiteralType::String))
    );
}

#[test]
fn bounds_are_checked_before_the_type() {
    assert_eq!(
        error_of("DECLARE a : ARRAY[1:5] OF INTEGER\na[9] <- \"nine\""),
        Execution::OutOfBounds("a".to_string(), 9)
    );
}

#[test]
fn invalid_bounds() {
    assert_eq!(
        error_of("DECLARE a : ARRAY[5:1] OF INTEGER"),
        Execution::InvalidBounds(Bounds { lower: 5, upper: 1 })
    );
    assert_eq!(
        error_of("DECLARE a : ARRAY[3:3] OF INTEGER"),
        Execution::InvalidBounds(Bounds { lower: 3, upper: 3 })
    );
    assert_eq!(output_of("DECLARE a : ARRAY[3:4] OF INTEGER\nOUTPUT LEN(a)"), vec!["2"]);
}

#[test]
fn arithmetic() {
    assert_eq!(output_of("OUTPUT 7 / 2"), vec!["3.5"]);
    assert_eq!(output_of("OUTPUT 7 DIV 2"), vec!["3"]);
    assert_eq!(output_of("OUTPUT 7 MOD 2"), vec!["1"]);
    assert_eq!(output_of("OUTPUT 7 + 2"), vec!["9"]);
    assert_eq!(output_of("OUTPUT 7 - 9"), vec!["-2"]);
    assert_eq!(output_of("OUTPUT 7 * 2"), vec!["14"]);
    assert_eq!(output_of("OUTPUT (0 - 7) DIV 2"), vec!["-3"]);
    assert_eq!(output_of("OUTPUT (0 - 7) MOD 2"), vec!["-1"]);
    assert_eq!(output_of("OUTPUT 7 MOD (0 - 2)"), vec!["1"]);
    assert_eq!(output_of("OUTPUT 6 / 3"), vec!["2"]);
}

#[test]
fn arithmetic_on_real_numbers() {
    assert_eq!(output_of("OUTPUT 1.5 + 2.25"), vec!["3.75"]);
    assert_eq!(output_of("OUTPUT 1.5 - 2.0"), vec!["-0.5"]);
    assert_eq!(output_of("OUTPUT 1.5 * 2.0"), vec!["3"]);
    assert_eq!(output_of("OUTPUT 1.0 / 4.0"), vec!["0.25"]);
    assert_eq!(output_of("OUTPUT 7.5 DIV 2.0"), vec!["3"]);
    assert_eq!(output_of("OUTPUT -1.5"), vec!["-1.5"]);
    assert_eq!(output_of("OUTPUT 1.50"), vec!["1.5"]);
    assert_eq!(output_of("DECLARE r : REAL\nr <- 7 / 2\nOUTPUT r, \" \", r + r"), vec!["3.5 7"]);
}

#[test]
fn no_rule_for_mixed_operands() {
    assert_eq!(
        error_of("OUTPUT 1 + 1.5"),
        Execution::BinaryNotSupported(
            Ops::Plus,
            literal(LiteralType::Integer),
            literal(LiteralType::Real)
        )
    );
    assert_eq!(
        error_of("OUTPUT 1.5 MOD 2.5"),
        Execution::BinaryNotSupported(
            Ops::Mod,
            literal(LiteralType::Real),
            literal(LiteralType::Real)
        )
    );
    assert_eq!(
        error_of("OUTPUT 1.5 > 2.5"),
        Execution::BinaryNotSupported(
            Ops::GreaterThan,
            literal(LiteralType::Real),
            literal(LiteralType::Real)
        )
    );
    assert_eq!(
        error_of("OUTPUT \"a\" + \"b\""),
        Execution::BinaryNotSupported(
            Ops::Plus,
            literal(LiteralType::String),
            literal(LiteralType::String)
        )
    );
    assert_eq!(
        error_of("OUTPUT \"a\" >= \"b\""),
        Execution::BinaryNotSupported(
            Ops::GreaterThanEqual,
            literal(LiteralType::String),
            literal(LiteralType::String)
        )
    );
    assert_eq!(
        error_of("OUTPUT TRUE <= FALSE"),
        Execution::BinaryNotSupported(
            Ops::LessThanEqual,
            literal(LiteralType::Boolean),
            literal(LiteralType::Boolean)
        )
    );
    assert_eq!(
        error_of("OUTPUT 1 AND 2"),
        Execution::BinaryNotSupported(
            Ops::And,
            literal(LiteralType::Integer),
            literal(LiteralType::Integer)
        )
    );
    assert_eq!(
        error_of("OUTPUT 1 & 2"),
        Execution::BinaryNotSupported(
            Ops::Concatenate,
            literal(LiteralType::Integer),
            literal(LiteralType::Integer)
        )
    );
}

#[test]
fn division_by_zero() {
    assert_eq!(error_of("OUTPUT 1 DIV 0"), Execution::DivisionByZero);
    assert_eq!(error_of("OUTPUT 1 MOD 0"), Execution::DivisionByZero);
}

#[test]
fn integers_wrap_round() {
    let mut host = Host::new(STEPS);
    let most = Literal::Integer(isize::MAX);
    let least = Literal::Integer(isize::MIN);
    let one = Literal::Integer(1);
    assert_eq!(operate(&Ops::Plus, &most, &one, &mut host), Ok(Literal::Integer(isize::MIN)));
    assert_eq!(operate(&Ops::Minus, &least, &one, &mut host), Ok(Literal::Integer(isize::MAX)));
    assert_eq!(
        operate(&Ops::Multiply, &most, &Literal::Integer(2), &mut host),
        Ok(Literal::Integer(-2))
    );
    assert_eq!(
        operate(&Ops::Div, &least, &Literal::Integer(-1), &mut host),
        Ok(Literal::Integer(isize::MIN))
    );
    assert_eq!(
        operate(&Ops::Mod, &least, &Literal::Integer(-1), &mut host),
        Ok(Literal::Integer(0))
    );
    assert_eq!(negate(&least, &mut host), Ok(Literal::Integer(isize::MIN)));
    assert_eq!(negate(&one, &mut host), Ok(Literal::Integer(-1)));
}

#[test]
fn comparisons() {
    assert_eq!(output_of("OUTPUT 1 < 2, 2 < 1, 1 <= 1, 2 >= 3, 1 = 1, 1 <> 1"), vec![
        "truefalsetruefalsetruefalse"
    ]);
    assert_eq!(output_of("OUTPUT \"abc\" < \"abd\", \"abc\" < \"ab\", \"ab\" < \"abc\""), vec![
        "truefalsetrue"
    ]);
    assert_eq!(output_of("OUTPUT \"b\" > \"a\", \"a\" = \"a\", \"a\" <> \"a\""), vec![
        "truetruefalse"
    ]);
    assert_eq!(output_of("OUTPUT TRUE > FALSE, FALSE < TRUE, TRUE = TRUE, TRUE <> TRUE"), vec![
        "truetruetruefalse"
    ]);
    assert_eq!(output_of("OUTPUT TRUE AND FALSE, TRUE OR FALSE, NOT TRUE"), vec![
        "falsetruefalse"
    ]);
    assert_eq!(output_of("OUTPUT \"ab\" & \"cd\""), vec!["abcd"]);
}

#[test]
fn prefixes() {
    assert_eq!(output_of("OUTPUT -5, - -5"), vec!["-55"]);
    assert_eq!(
        error_of("OUTPUT -TRUE"),
        Execution::UnaryNotSupported(Ops::Minus, literal(LiteralType::Boolean))
    );
    assert_eq!(
        error_of("OUTPUT NOT 1"),
        Execution::UnaryNotSupported(Ops::Not, literal(LiteralType::Integer))
    );
    assert_eq!(not(&Literal::Bool(false)), Ok(Literal::Bool(true)));
}

#[test]
fn for_counts_up() {
    assert_eq!(
        output_of("DECLARE i : INTEGER\nFOR i <- 1 TO 3\nOUTPUT i\nNEXT i"),
        vec!["1", "2", "3"]
    );
    assert_eq!(
        output_of("DECLARE i : INTEGER\nFOR i <- 3 TO 1\nOUTPUT i\nNEXT i\nOUTPUT \"done\""),
        vec!["done"]
    );
    assert_eq!(
        output_of("DECLARE i : INTEGER\nFOR i <- 2 TO 2\nOUTPUT i\nENDFOR"),
        vec!["2"]
    );
    assert_eq!(
        output_of("DECLARE i : INTEGER\nFOR i <- 0 - 1 TO 1\nOUTPUT i\nENDFOR"),
        vec!["-1", "0", "1"]
    );
}

#[test]
fn for_needs_an_integer_variable() {
    assert_eq!(
        error_of("FOR i <- 1 TO 3\nOUTPUT i\nNEXT i"),
        Execution::NotFound("i".to_string())
    );
    assert_eq!(
        error_of("DECLARE i : STRING\nFOR i <- 1 TO 3\nOUTPUT i\nNEXT i"),
        Execution::IncorrectType(literal(LiteralType::Integer), literal(LiteralType::String))
    );
    assert_eq!(
        error_of("DECLARE i : ARRAY[1:2] OF INTEGER\nFOR i <- 1 TO 3\nOUTPUT 1\nNEXT i"),
        Execution::IncorrectType(literal(LiteralType::Integer), array_type())
    );
    assert_eq!(
        error_of("DECLARE i : INTEGER\nFOR i <- TRUE TO 3\nOUTPUT i\nNEXT i"),
        Execution::IncorrectType(literal(LiteralType::Integer), literal(LiteralType::Boolean))
    );
    assert_eq!(
        error_of("DECLARE i : INTEGER\nFOR i <- 1 TO \"3\"\nOUTPUT i\nNEXT i"),
        Execution::IncorrectType(literal(LiteralType::Integer), literal(LiteralType::String))
    );
}

#[test]
fn repeat_runs_at_least_once() {
    assert_eq!(output_of("REPEAT\nOUTPUT \"once\"\nUNTIL TRUE"), vec!["once"]);
    assert_eq!(
        output_of("DECLARE n : INTEGER\nn <- 0\nREPEAT\nn <- n + 1\nOUTPUT n\nUNTIL n >= 3"),
        vec!["1", "2", "3"]
    );
    assert_eq!(
        error_of("REPEAT\nOUTPUT 1\nUNTIL 1"),
        Execution::IncorrectType(literal(LiteralType::Boolean), literal(LiteralType::Integer))
    );
}

#[test]
fn repeat_runs_once_without_steps() {
    let mut host = Host::new(0);
    assert_eq!(interpret("REPEAT\nOUTPUT \"once\"\nUNTIL TRUE", &mut host), Ok(()));
    assert_eq!(host.output, vec!["once"]);
}

#[test]
fn while_loops() {
    assert_eq!(
        output_of("DECLARE n : INTEGER\nn <- 3\nWHILE n > 0 DO\nOUTPUT n\nn <- n - 1\nENDWHILE"),
        vec!["3", "2", "1"]
    );
    assert_eq!(output_of("WHILE FALSE DO\nOUTPUT 1\nENDWHILE\nOUTPUT 2"), vec!["2"]);
    assert_eq!(
        error_of("WHILE 1 DO\nOUTPUT 1\nENDWHILE"),
        Execution::IncorrectType(literal(LiteralType::Boolean), literal(LiteralType::Integer))
    );
}

#[test]
fn a_loop_without_end_uses_up_the_steps() {
    let mut host = Host::new(10);
    let result = interpret("WHILE TRUE DO\nOUTPUT 1\nENDWHILE", &mut host);
    assert_eq!(
        result,
        Err(Failure::Runtime(Execution::StepLimit, Span { start: 0, end: 31 }))
    );
    assert_eq!(host.output.len(), 11);
    assert_eq!(host.steps, 0);
}

#[test]
fn conditions() {
    assert_eq!(output_of("IF 1 < 2 THEN\nOUTPUT \"yes\"\nELSE\nOUTPUT \"no\"\nENDIF"), vec!["yes"]);
    assert_eq!(output_of("IF 2 < 1 THEN\nOUTPUT \"yes\"\nELSE\nOUTPUT \"no\"\nENDIF"), vec!["no"]);
    assert_eq!(output_of("IF 2 < 1 THEN\nOUTPUT \"yes\"\nENDIF\nOUTPUT \"end\""), vec!["end"]);
    assert_eq!(
        error_of("IF 1 THEN\nOUTPUT \"yes\"\nENDIF"),
        Execution::IncorrectType(literal(LiteralType::Boolean), literal(LiteralType::Integer))
    );
}

#[test]
fn a_block_has_a_scope_of_its_own() {
    assert_eq!(
        error_of("IF TRUE THEN\nDECLARE x : INTEGER\nx <- 1\nENDIF\nOUTPUT x"),
        Execution::NotFound("x".to_string())
    );
    assert_eq!(
        output_of(
            "DECLARE i : INTEGER\nFOR i <- 1 TO 2\nDECLARE x : INTEGER\nx <- i\nOUTPUT x\nNEXT i"
        ),
        vec!["1", "2"]
    );
}

#[test]
fn no_name_is_bound_twice() {
    assert_eq!(
        error_of("DECLARE x : INTEGER\nDECLARE x : STRING"),
        Execution::AlreadyDeclared("x".to_string())
    );
    assert_eq!(
        error_of("DECLARE x : INTEGER\nIF TRUE THEN\nDECLARE x : INTEGER\nENDIF"),
        Execution::AlreadyDeclared("x".to_string())
    );
    assert_eq!(
        error_of("DECLARE x : INTEGER\nDECLARE x : ARRAY[1:2] OF INTEGER"),
        Execution::AlreadyDeclared("x".to_string())
    );
}

#[test]
fn len_of_an_array() {
    assert_eq!(output_of("DECLARE a : ARRAY[1:5] OF INTEGER\nOUTPUT LEN(a)"), vec!["5"]);
    assert_eq!(output_of("DECLARE a : ARRAY[0:9] OF STRING\nOUTPUT LEN(a) + 1"), vec!["11"]);
    assert_eq!(
        error_of("DECLARE x : INTEGER\nOUTPUT LEN(x)"),
        Execution::IncorrectType(array_type(), literal(LiteralType::Integer))
    );
    assert_eq!(
        error_of("OUTPUT LEN(\"abc\")"),
        Execution::IncorrectType(array_type(), literal(LiteralType::String))
    );
    assert_eq!(error_of("OUTPUT LEN(a)"), Execution::NotFound("a".to_string()));
    assert_eq!(
        error_of("OUTPUT LEN()"),
        Execution::IncorrectNumberArguments("LEN".to_string(), 1, 0)
    );
    assert_eq!(
        error_of("DECLARE a : ARRAY[1:5] OF INTEGER\nOUTPUT LEN(a, a)"),
        Execution::IncorrectNumberArguments("LEN".to_string(), 1, 2)
    );
}

#[test]
fn arrays_and_values_are_not_mixed() {
    assert_eq!(
        error_of("DECLARE a : ARRAY[1:5] OF INTEGER\nOUTPUT a"),
        Execution::IncorrectType(literal(LiteralType::Integer), array_type())
    );
    assert_eq!(
        error_of("DECLARE a : ARRAY[1:5] OF INTEGER\na <- 1"),
        Execution::IncorrectType(literal(LiteralType::Integer), array_type())
    );
    assert_eq!(
        error_of("DECLARE x : INTEGER\nx[1] <- 1"),
        Execution::IncorrectType(array_type(), literal(LiteralType::Integer))
    );
    assert_eq!(
        error_of("DECLARE x : STRING\nOUTPUT x[1]"),
        Execution::IncorrectType(array_type(), literal(LiteralType::String))
    );
    assert_eq!(
        error_of("DECLARE a : ARRAY[1:5] OF STRING\nINPUT a"),
        Execution::IncorrectType(literal(LiteralType::String), array_type())
    );
}

#[test]
fn input_is_assigned_without_its_line_end() {
    let (result, output) = run_with(
        "DECLARE name : STRING\nINPUT name\nOUTPUT \"Hello \", name, \"!\"",
        &["World\r\n"],
    );
    assert_eq!(result, Ok(()));
    assert_eq!(output, vec!["Hello World!"]);
}

#[test]
fn input_needs_a_string() {
    assert_eq!(
        error_of("DECLARE n : INTEGER\nINPUT n"),
        Execution::IncorrectType(literal(LiteralType::String), literal(LiteralType::Integer))
    );
}

#[test]
fn input_waits_for_its_line() {
    let mut host = Host::new(STEPS);
    let source = "DECLARE s : STRING\nOUTPUT \"name?\"\nINPUT s\nOUTPUT s";
    assert_eq!(
        interpret(source, &mut host),
        Err(Failure::Runtime(Execution::Waiting(Request::Input), Span { start: 34, end: 41 }))
    );
    assert_eq!(host.output, vec!["name?"]);
    host.answer(Literal::String("Ada\n".to_string()));
    host.rewind(STEPS);
    assert_eq!(interpret(source, &mut host), Ok(()));
    assert_eq!(host.output, vec!["name?", "Ada"]);
    assert_eq!(host.used, 1);
}

#[test]
fn an_answer_of_the_wrong_type_is_refused() {
    let mut host = Host::new(STEPS);
    host.answer(Literal::Integer(1));
    assert_eq!(
        interpret("DECLARE s : STRING\nINPUT s", &mut host),
        Err(Failure::Runtime(Execution::BadAnswer(Request::Input), Span { start: 19, end: 26 }))
    );
    let mut host = Host::new(STEPS);
    host.answer(Literal::Integer(9));
    assert_eq!(
        interpret("OUTPUT RANDOMBETWEEN(1, 5)", &mut host),
        Err(Failure::Runtime(
            Execution::BadAnswer(Request::Random(1, 5)),
            Span { start: 7, end: 26 }
        ))
    );
}

#[test]
fn output_written_before_an_error_stays() {
    let (result, output) = run_with("OUTPUT 1\nOUTPUT 2\nOUTPUT x\nOUTPUT 3", &[]);
    assert_eq!(
        result,
        Err(Failure::Runtime(Execution::NotFound("x".to_string()), Span { start: 25, end: 26 }))
    );
    assert_eq!(output, vec!["1", "2"]);
}

#[test]
fn return_is_for_callables() {
    assert_eq!(error_of("RETURN"), Execution::CanNotCallReturn);
    assert_eq!(error_of("RETURN 1"), Execution::CanNotCallReturn);
}

fn spanned<T>(value: T) -> Spanned<T> {
    (value, Span { start: 0, end: 0 })
}

#[test]
fn return_ends_the_block() {
    let program = vec![
        spanned(Statement::Declare(Declare::Literal("x".to_string(), LiteralType::Integer))),
        spanned(Statement::Return(Some(spanned(Expression::Value(Literal::Integer(1)))))),
        spanned(Statement::Out(vec![spanned(Expression::Value(Literal::Integer(2)))])),
    ];
    let mut host = Host::new(STEPS);
    let state = evaluate(&program, start(), true, &mut host).unwrap();
    assert!(state.scopes.is_empty());
    assert!(host.output.is_empty());
}

#[test]
fn return_without_a_value_keeps_the_scope() {
    let program = vec![
        spanned(Statement::Declare(Declare::Literal("x".to_string(), LiteralType::Integer))),
        spanned(Statement::Return(None)),
    ];
    let mut host = Host::new(STEPS);
    let state = evaluate(&program, start(), true, &mut host).unwrap();
    assert_eq!(state.scopes.len(), 1);
    assert_eq!(
        get_variable(&state, &"x".to_string()),
        Ok(&Variable::Literal { literal_type: LiteralType::Integer, value: None, is_mutable: true })
    );
}

#[test]
fn procedures_are_not_supported() {
    assert_eq!(error_of("show(1, 2)"), Execution::NotSupported("show".to_string()));
}

#[test]
fn constants_are_not_assigned() {
    let state = State {
        functions: vec![],
        scopes: vec![Scope {
            variables: vec![(
                "pi".to_string(),
                Variable::Literal {
                    literal_type: LiteralType::Integer,
                    value: Some(Literal::Integer(3)),
                    is_mutable: false,
                },
            )],
        }],
    };
    assert_eq!(get_literal(&state, &"pi".to_string()), Ok(Literal::Integer(3)));
    assert_eq!(
        assign_literal(state, &"pi".to_string(), Literal::Integer(4)),
        Err(Execution::AssignToConstant("pi".to_string()))
    );
}

#[test]
fn the_innermost_scope_is_searched_first() {
    let bind = |value: isize| Scope {
        variables: vec![(
            "x".to_string(),
            Variable::Literal {
                literal_type: LiteralType::Integer,
                value: Some(Literal::Integer(value)),
                is_mutable: true,
            },
        )],
    };
    let state = State { functions: vec![], scopes: vec![bind(1), bind(2)] };
    assert_eq!(get_literal(&state, &"x".to_string()), Ok(Literal::Integer(2)));
    let state = assign_literal(state, &"x".to_string(), Literal::Integer(5)).unwrap();
    assert_eq!(state.scopes[0], bind(1));
    assert_eq!(state.scopes[1], bind(5));
}

#[test]
fn slots_of_an_array() {
    let state = State {
        functions: vec![],
        scopes: vec![Scope {
            variables: vec![(
                "a".to_string(),
                Variable::Array {
                    literal_type: LiteralType::Integer,
                    bounds: Bounds { lower: 2, upper: 4 },
                    values: vec![None, None, None],
                },
            )],
        }],
    };
    let name = "a".to_string();
    let state = assign_array(state, &name, 3, Literal::Integer(7)).unwrap();
    assert_eq!(index_array(&state, &name, 3), Ok(Literal::Integer(7)));
    assert_eq!(index_array(&state, &name, 2), Err(Execution::IndexNotAssigned(name.clone(), 2)));
    assert_eq!(index_array(&state, &name, 1), Err(Execution::OutOfBounds(name.clone(), 1)));
    assert_eq!(index_array(&state, &name, 5), Err(Execution::OutOfBounds(name.clone(), 5)));
    assert_eq!(
        state.scopes[0].variables[0].1,
        Variable::Array {
            literal_type: LiteralType::Integer,
            bounds: Bounds { lower: 2, upper: 4 },
            values: vec![None, Some(Literal::Integer(7)), None],
        }
    );
}

#[test]
fn a_copy_of_a_state_is_equal() {
    let program = vec![
        spanned(Statement::Declare(Declare::Literal("x".to_string(), LiteralType::Integer))),
        spanned(Statement::Declare(Declare::Array(
            "a".to_string(),
            Bounds { lower: 1, upper: 2 },
            LiteralType::String,
        ))),
        spanned(Statement::Return(None)),
    ];
    let mut host = Host::new(STEPS);
    let state = evaluate(&program, start(), true, &mut host).unwrap();
    let copy = state.clone();
    assert_eq!(copy, state);
    assert_eq!(copy.scopes[0].variables.len(), 2);
    assert_eq!(copy.functions.len(), 3);
}

#[test]
fn expressions_take_answers_from_left_to_right() {
    let mut host = Host::new(STEPS);
    host.answer(Literal::Real(Real::new("3.5".to_string())));
    host.answer(Literal::Real(Real::new("7".to_string())));
    let half = spanned(Expression::Operate(
        Ops::Divide,
        Box::new(spanned(Expression::Value(Literal::Integer(7)))),
        Box::new(spanned(Expression::Value(Literal::Integer(2)))),
    ));
    let twice = spanned(Expression::Operate(
        Ops::Plus,
        Box::new(half),
        Box::new(spanned(Expression::Value(Literal::Real(Real::new("3.5".to_string()))))),
    ));
    let state = start();
    assert_eq!(
        evaluate_expression(&twice, &state, &mut host),
        Ok(Literal::Real(Real::new("7".to_string())))
    );
    assert_eq!(host.used, 2);
}

#[test]
fn the_same_program_runs_the_same_way_twice() {
    let source = "DECLARE i : INTEGER\nFOR i <- 1 TO 4\nOUTPUT i * i, \" \", i / 2\nNEXT i";
    let first = run_with(source, &[]);
    let second = run_with(source, &[]);
    assert_eq!(first.0, Ok(()));
    assert_eq!(first, second);
    assert_eq!(first.1, vec!["1 0.5", "4 1", "9 1.5", "16 2"]);
}

#[test]
fn the_same_answers_give_the_same_run() {
    let source = "OUTPUT RANDOMBETWEEN(1, 1000000), RANDOMBETWEEN(1, 1000000)";
    let mut first = Host::new(STEPS);
    assert_eq!(parse_and_run(source, &mut first), Ok(()));
    assert_eq!(first.answers.len(), 2);
    let mut second = Host::new(STEPS);
    for drawn in &first.answers {
        second.answer(drawn.clone());
    }
    assert_eq!(interpret(source, &mut second), Ok(()));
    assert_eq!(first.output, second.output);
}
