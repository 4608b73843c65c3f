use pseudocode::ast::{
    match_literal, Bounds, DataTypes, Execution, Literal, LiteralType, Ops, Real, Request,
    Variable,
};

#[test]
fn names_of_types() {
    assert_eq!(LiteralType::Integer.describe(), "integer");
    assert_eq!(LiteralType::Real.describe(), "real");
    assert_eq!(LiteralType::String.describe(), "string");
    assert_eq!(LiteralType::Boolean.describe(), "boolean");
    assert_eq!(DataTypes::Literal(LiteralType::Real).describe(), "real literal");
    assert_eq!(DataTypes::Array.describe(), "array");
}

#[test]
fn names_of_operators() {
    let names = [
        (Ops::Plus, "plus"),
        (Ops::Minus, "minues"),
        (Ops::Divide, "divide"),
        (Ops::Multiply, "multiply"),
        (Ops::Concatenate, "concatenate"),
        (Ops::GreaterThan, "greater than"),
        (Ops::LessThan, "less than"),
        (Ops::GreaterThanEqual, "greater than or equal"),
        (Ops::LessThanEqual, "less than or equal"),
        (Ops::Equal, "equal"),
        (Ops::NotEqual, "not equal"),
        (Ops::Mod, "modulo"),
        (Ops::Div, "integer divide"),
        (Ops::And, "and"),
        (Ops::Or, "or"),
        (Ops::Not, "not"),
    ];
    for (op, name) in names {
        assert_eq!(op.describe(), name);
    }
}

#[test]
fn operators_of_symbols() {
    let symbols = [
        ("+", Ops::Plus),
        ("-", Ops::Minus),
        ("/", Ops::Divide),
        ("*", Ops::Multiply),
        ("&", Ops::Concatenate),
        (">", Ops::GreaterThan),
        ("<", Ops::LessThan),
        (">=", Ops::GreaterThanEqual),
        ("<=", Ops::LessThanEqual),
        ("=", Ops::Equal),
        ("<>", Ops::NotEqual),
    ];
    for (symbol, op) in symbols {
        assert_eq!(Ops::from_symbol(symbol), Some(op));
    }
    assert_eq!(Ops::from_symbol("MOD"), None);
    assert_eq!(Ops::from_symbol("=="), None);
    assert_eq!(Ops::from_symbol(""), None);
}

#[test]
fn tiers_of_operators() {
    let all = [
        Ops::Plus,
        Ops::Minus,
        Ops::Divide,
        Ops::Multiply,
        Ops::Concatenate,
        Ops::GreaterThan,
        Ops::LessThan,
        Ops::GreaterThanEqual,
        Ops::LessThanEqual,
        Ops::Equal,
        Ops::NotEqual,
        Ops::Mod,
        Ops::Div,
        Ops::And,
        Ops::Or,
        Ops::Not,
    ];
    let products: Vec<Ops> = all.iter().copied().filter(|op| op.product()).collect();
    let sums: Vec<Ops> = all.iter().copied().filter(|op| op.sum()).collect();
    let compares: Vec<Ops> = all.iter().copied().filter(|op| op.compare()).collect();
    assert_eq!(products, vec![Ops::Divide, Ops::Multiply, Ops::Mod, Ops::Div]);
    assert_eq!(sums, vec![Ops::Plus, Ops::Minus, Ops::Concatenate]);
    assert_eq!(
        compares,
        vec![
            Ops::GreaterThan,
            Ops::LessThan,
            Ops::GreaterThanEqual,
            Ops::LessThanEqual,
            Ops::Equal,
            Ops::NotEqual,
            Ops::And,
            Ops::Or,
        ]
    );
}

#[test]
fn bounds_in_words() {
    assert_eq!(Bounds { lower: 1, upper: 5 }.describe(), "lower: 1, upper: 5");
}

#[test]
fn errors_in_words() {
    let integer = DataTypes::Literal(LiteralType::Integer);
    let string = DataTypes::Literal(LiteralType::String);
    let name = || "x".to_string();
    let messages = [
        (Execution::NotFound(name()), "variable x not found"),
        (Execution::NotAssigned(name()), "variable x not assigned"),
        (
            Execution::IncorrectType(integer, string),
            "Incorrect type, expected integer literal but received string literal",
        ),
        (
            Execution::BinaryNotSupported(Ops::Plus, integer, DataTypes::Array),
            "Binary operator \"plus\" is not supported between types integer literal and array",
        ),
        (
            Execution::UnaryNotSupported(Ops::Not, string),
            "Unary operator \"not\" is not supported on type string literal",
        ),
        (Execution::AlreadyDeclared(name()), "Variable x is already declared"),
        (
            Execution::IncorrectNumberArguments("LEN".to_string(), 1, 2),
            "Incorrect numer of arguments for \"LEN\", expected 1 but received 2",
        ),
        (
            Execution::CanNotCallReturn,
            "Can not call return outside of a function or procedure",
        ),
        (Execution::CanNotParse("abc".to_string()), "Can not parse string abc as number"),
        (Execution::AssignToConstant(name()), "Can not assign value to constant \"x\""),
        (
            Execution::InvalidBounds(Bounds { lower: 5, upper: 1 }),
            "Invalid bounds lower: 5, upper: 1",
        ),
        (Execution::OutOfBounds(name(), 6), "Index x is out of bounds for array 6"),
        (Execution::NegativeIndex(name(), -1), "Index x is out of bounds for array -1"),
        (Execution::IndexNotAssigned(name(), 2), "Index x not assigned for array 2"),
        (Execution::DivisionByZero, "Can not divide by zero"),
        (Execution::EmptyRange(3, 1), "There is no integer from 3 to 1"),
        (
            Execution::NotSupported("show".to_string()),
            "Calling the procedure \"show\" is not supported",
        ),
        (Execution::StepLimit, "The program has run for too long"),
        (Execution::Waiting(Request::Input), "Waiting for a line of input"),
        (
            Execution::Waiting(Request::Random(1, 7)),
            "Waiting for a random integer from 1 to 7",
        ),
        (
            Execution::Waiting(Request::Operate(
                Ops::Divide,
                Literal::Integer(7),
                Literal::Integer(2),
            )),
            "Waiting for divide of 7 and 2",
        ),
        (
            Execution::Waiting(Request::Negative(Real::new("1.5".to_string()))),
            "Waiting for the negative of 1.5",
        ),
        (
            Execution::BadAnswer(Request::Display(Real::new("1.5".to_string()))),
            "The host gave a wrong answer for the text of 1.5",
        ),
    ];
    for (error, message) in messages {
        assert_eq!(error.message(), message);
    }
}

#[test]
fn values_in_words() {
    assert_eq!(Literal::Integer(-3).describe(), "-3");
    assert_eq!(Literal::Bool(true).describe(), "true");
    assert_eq!(Literal::Bool(false).describe(), "false");
    assert_eq!(Literal::String("a b".to_string()).describe(), "a b");
    assert_eq!(Literal::Real(Real::new("2.50".to_string())).describe(), "2.50");
}

#[test]
fn types_of_values() {
    assert_eq!(Literal::Integer(1).literal_type(), LiteralType::Integer);
    assert_eq!(LiteralType::from(&Literal::Bool(true)), LiteralType::Boolean);
    assert_eq!(
        Literal::String(String::new()).data_type(),
        DataTypes::Literal(LiteralType::String)
    );
    assert_eq!(
        Literal::Real(Real::new("1".to_string())).literal_type(),
        LiteralType::Real
    );
    assert_eq!(
        Variable::from(&LiteralType::Real),
        Variable::Literal { literal_type: LiteralType::Real, value: None, is_mutable: true }
    );
    assert_eq!(Variable::declared(LiteralType::Real), Variable::from(&LiteralType::Real));
}

#[test]
fn types_that_match() {
    assert_eq!(
        match_literal(&LiteralType::Integer, &LiteralType::Integer),
        Ok(LiteralType::Integer)
    );
    assert_eq!(
        match_literal(&LiteralType::Integer, &LiteralType::String),
        Err(Execution::IncorrectType(
            DataTypes::Literal(LiteralType::Integer),
            DataTypes::Literal(LiteralType::String)
        ))
    );
}

#[test]
fn answers_to_requests() {
    let half = || Literal::Real(Real::new("0.5".to_string()));
    assert!(Request::Input.accepts(&Literal::String("line".to_string())));
    assert!(!Request::Input.accepts(&Literal::Integer(1)));
    assert!(Request::Random(1, 3).accepts(&Literal::Integer(1)));
    assert!(Request::Random(1, 3).accepts(&Literal::Integer(2)));
    assert!(!Request::Random(1, 3).accepts(&Literal::Integer(3)));
    assert!(!Request::Random(1, 3).accepts(&Literal::Integer(0)));
    assert!(!Request::Random(1, 3).accepts(&half()));
    let divide = Request::Operate(Ops::Divide, Literal::Integer(1), Literal::Integer(2));
    assert!(divide.accepts(&half()));
    assert!(!divide.accepts(&Literal::Integer(0)));
    let whole = Request::Operate(Ops::Div, half(), half());
    assert!(whole.accepts(&Literal::Integer(1)));
    assert!(!whole.accepts(&half()));
    assert_eq!(whole.answer_type(), LiteralType::Integer);
    assert!(Request::Negative(Real::new("1".to_string())).accepts(&half()));
    assert!(Request::Display(Real::new("1".to_string())).accepts(&Literal::String("1".to_string())));
}
