use pseudocode::appendix::{built_ins, call, num_to_str, randombetween, str_to_num};
use pseudocode::ast::{
    DataTypes, Execution, Function, Literal, LiteralType, Native, Real, Request,
};
use pseudocode::host::Host;
use pseudocode::run::{parse_and_run, Failure};

fn text(value: &str) -> Literal {
    Literal::String(value.to_string())
}

fn wrong(expected: LiteralType, received: LiteralType) -> Execution {
    Execution::IncorrectType(DataTypes::Literal(expected), DataTypes::Literal(received))
}

#[test]
fn the_registry() {
    assert_eq!(
        built_ins(),
        vec![
            ("STR_TO_NUM".to_string(), Function::BuiltIn(Native::StrToNum)),
            ("NUM_TO_STR".to_string(), Function::BuiltIn(Native::NumToStr)),
            ("RANDOMBETWEEN".to_string(), Function::BuiltIn(Native::RandomBetween)),
        ]
    );
    assert_eq!(Native::StrToNum.title(), "STR_TO_NUM");
}

#[test]
fn string_to_number() {
    assert_eq!(str_to_num(vec![text("42")]), Ok(Literal::Integer(42)));
    assert_eq!(str_to_num(vec![text("-7")]), Ok(Literal::Integer(-7)));
    assert_eq!(str_to_num(vec![text("seven")]), Err(Execution::CanNotParse(String::new())));
    assert_eq!(str_to_num(vec![text("")]), Err(Execution::CanNotParse(String::new())));
    assert_eq!(str_to_num(vec![text("1.5")]), Err(Execution::CanNotParse(String::new())));
    assert_eq!(
        str_to_num(vec![Literal::Integer(1)]),
        Err(wrong(LiteralType::String, LiteralType::Integer))
    );
    assert_eq!(
        str_to_num(vec![]),
        Err(Execution::IncorrectNumberArguments("STR_TO_NUM".to_string(), 1, 0))
    );
    assert_eq!(
        str_to_num(vec![text("1"), text("2")]),
        Err(Execution::IncorrectNumberArguments("STR_TO_NUM".to_string(), 1, 2))
    );
}

#[test]
fn number_to_string() {
    let mut host = Host::new(0);
    assert_eq!(num_to_str(vec![Literal::Integer(-12)], &mut host), Ok(text("-12")));
    assert_eq!(
        num_to_str(vec![text("12")], &mut host),
        Err(wrong(LiteralType::Integer, LiteralType::String))
    );
    assert_eq!(
        num_to_str(vec![Literal::Bool(true)], &mut host),
        Err(wrong(LiteralType::Integer, LiteralType::Boolean))
    );
    assert_eq!(
        num_to_str(vec![], &mut host),
        Err(Execution::IncorrectNumberArguments("NUM_TO_STR".to_string(), 1, 0))
    );
    let half = Real::new("0.50".to_string());
    assert_eq!(
        num_to_str(vec![Literal::Real(half.clone())], &mut host),
        Err(Execution::Waiting(Request::Display(half.clone())))
    );
    host.answer(text("0.5"));
    assert_eq!(num_to_str(vec![Literal::Real(half)], &mut host), Ok(text("0.5")));
    assert_eq!(host.used, 1);
}

#[test]
fn random_between_asks_the_host() {
    let mut host = Host::new(0);
    let range = || vec![Literal::Integer(1), Literal::Integer(7)];
    assert_eq!(
        randombetween(range(), &mut host),
        Err(Execution::Waiting(Request::Random(1, 7)))
    );
    host.answer(Literal::Integer(6));
    host.answer(Literal::Integer(7));
    host.answer(Literal::Integer(0));
    host.answer(text("3"));
    assert_eq!(randombetween(range(), &mut host), Ok(Literal::Integer(6)));
    assert_eq!(
        randombetween(range(), &mut host),
        Err(Execution::BadAnswer(Request::Random(1, 7)))
    );
    assert_eq!(
        randombetween(range(), &mut host),
        Err(Execution::BadAnswer(Request::Random(1, 7)))
    );
    assert_eq!(
        randombetween(range(), &mut host),
        Err(Execution::BadAnswer(Request::Random(1, 7)))
    );
    assert_eq!(host.used, 4);
}

#[test]
fn random_between_checks_its_arguments() {
    let mut host = Host::new(0);
    assert_eq!(
        randombetween(vec![Literal::Integer(3), Literal::Integer(3)], &mut host),
        Err(Execution::EmptyRange(3, 3))
    );
    assert_eq!(
        randombetween(vec![Literal::Integer(3), Literal::Integer(1)], &mut host),
        Err(Execution::EmptyRange(3, 1))
    );
    assert_eq!(
        randombetween(vec![text("1"), Literal::Integer(3)], &mut host),
        Err(wrong(LiteralType::Integer, LiteralType::String))
    );
    assert_eq!(
        randombetween(vec![Literal::Integer(1), Literal::Bool(true)], &mut host),
        Err(wrong(LiteralType::Integer, LiteralType::Boolean))
    );
    assert_eq!(
        randombetween(vec![Literal::Integer(1)], &mut host),
        Err(Execution::IncorrectNumberArguments("RANDOMBETWEEN".to_string(), 2, 1))
    );
    assert_eq!(host.used, 0);
}

#[test]
fn calls_by_kind() {
    let mut host = Host::new(0);
    assert_eq!(call(Native::StrToNum, vec![text("5")], &mut host), Ok(Literal::Integer(5)));
    assert_eq!(call(Native::NumToStr, vec![Literal::Integer(5)], &mut host), Ok(text("5")));
    assert_eq!(
        call(Native::RandomBetween, vec![Literal::Integer(5), Literal::Integer(6)], &mut host),
        Err(Execution::Waiting(Request::Random(5, 6)))
    );
}

#[test]
fn built_ins_in_a_program() {
    let mut host = Host::new(100);
    let source = "OUTPUT STR_TO_NUM(\"20\") + 1, NUM_TO_STR(3) & \"!\"";
    assert_eq!(parse_and_run(source, &mut host), Ok(()));
    assert_eq!(host.output, vec!["213!"]);
    let mut host = Host::new(100);
    assert_eq!(
        parse_and_run("OUTPUT MISSING(1)", &mut host),
        Err(Failure::Runtime(
            Execution::NotFound("MISSING".to_string()),
            pseudocode::ast::Span { start: 7, end: 17 }
        ))
    );
}

#[test]
fn numbers_are_drawn_from_the_range() {
    let mut host = Host::new(100);
    let source = "DECLARE i : INTEGER\nFOR i <- 1 TO 40\nOUTPUT RANDOMBETWEEN(10, 13)\nNEXT i";
    assert_eq!(parse_and_run(source, &mut host), Ok(()));
    assert_eq!(host.output.len(), 40);
    assert_eq!(host.answers.len(), 40);
    for (line, drawn) in host.output.iter().zip(host.answers.iter()) {
        let value: isize = line.parse().unwrap();
        assert!((10..13).contains(&value), "{}", value);
        assert_eq!(drawn, &Literal::Integer(value));
    }
}

#[test]
fn draws_differ() {
    let mut host = Host::new(100);
    let source = "DECLARE i : INTEGER\nFOR i <- 1 TO 40\nOUTPUT RANDOMBETWEEN(0, 1000000000)\nNEXT i";
    assert_eq!(parse_and_run(source, &mut host), Ok(()));
    let first = &host.output[0];
    assert!(host.output.iter().any(|line| line != first));
    assert!(host.output.iter().any(|line| line != "0"));
}

#[test]
fn recorded_draws_are_kept() {
    let mut host = Host::new(100);
    host.answer(Literal::Integer(4));
    let source = "OUTPUT RANDOMBETWEEN(1, 7), \" \", RANDOMBETWEEN(100, 101)";
    assert_eq!(parse_and_run(source, &mut host), Ok(()));
    assert_eq!(host.output, vec!["4 100"]);
    assert_eq!(host.answers, vec![Literal::Integer(4), Literal::Integer(100)]);
}

#[test]
fn an_empty_range_is_an_error() {
    let mut host = Host::new(100);
    assert_eq!(
        parse_and_run("OUTPUT RANDOMBETWEEN(5, 5)", &mut host),
        Err(Failure::Runtime(
            Execution::EmptyRange(5, 5),
            pseudocode::ast::Span { start: 7, end: 26 }
        ))
    );
}
