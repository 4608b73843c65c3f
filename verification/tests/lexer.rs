use pseudocode::ast::{DataTypes, LiteralType, Ops, Span, Token};
use pseudocode::lexer::{lexer, next_token, LexError};

fn tokens_of(source: &str) -> Vec<Token> {
    lexer(source).unwrap().into_iter().map(|(token, _)| token).collect()
}

fn identifier(name: &str) -> Token {
    Token::Identifier(name.to_string())
}

fn integer(text: &str) -> Token {
    Token::Integer(text.to_string())
}

#[test]
fn a_declaration() {
    assert_eq!(
        lexer("DECLARE x : INTEGER").unwrap(),
        vec![
            (Token::Declare, Span { start: 0, end: 7 }),
            (identifier("x"), Span { start: 8, end: 9 }),
            (Token::Colon, Span { start: 10, end: 11 }),
            (
                Token::DataType(DataTypes::Literal(LiteralType::Integer)),
                Span { start: 12, end: 19 }
            ),
        ]
    );
}

#[test]
fn reserved_words() {
    assert_eq!(
        tokens_of("OUTPUT INPUT RETURN IF ENDIF THEN ELSE FOR ENDFOR TO NEXT"),
        vec![
            Token::Out,
            Token::In,
            Token::Return,
            Token::If,
            Token::EndIf,
            Token::Then,
            Token::Else,
            Token::For,
            Token::EndFor,
            Token::To,
            Token::Next,
        ]
    );
    assert_eq!(
        tokens_of("WHILE ENDWHILE DO REPEAT UNTIL OF"),
        vec![Token::While, Token::EndWhile, Token::Do, Token::Repeat, Token::Until, Token::Of]
    );
    assert_eq!(
        tokens_of("INTEGER REAL STRING BOOLEAN ARRAY"),
        vec![
            Token::DataType(DataTypes::Literal(LiteralType::Integer)),
            Token::DataType(DataTypes::Literal(LiteralType::Real)),
            Token::DataType(DataTypes::Literal(LiteralType::String)),
            Token::DataType(DataTypes::Literal(LiteralType::Boolean)),
            Token::DataType(DataTypes::Array),
        ]
    );
    assert_eq!(tokens_of("TRUE FALSE"), vec![Token::Boolean(true), Token::Boolean(false)]);
}

#[test]
fn words_that_only_start_like_reserved_words() {
    assert_eq!(
        tokens_of("ORDER NOTHING ANDY MODE DIVIDE TRUEST IFS declare"),
        vec![
            identifier("ORDER"),
            identifier("NOTHING"),
            identifier("ANDY"),
            identifier("MODE"),
            identifier("DIVIDE"),
            identifier("TRUEST"),
            identifier("IFS"),
            identifier("declare"),
        ]
    );
}

#[test]
fn names_of_built_ins_hold_an_underscore() {
    assert_eq!(
        tokens_of("STR_TO_NUM RANDOMBETWEEN _x x1 a_1"),
        vec![
            Token::BuiltIn("STR_TO_NUM".to_string()),
            identifier("RANDOMBETWEEN"),
            Token::BuiltIn("_x".to_string()),
            identifier("x1"),
            Token::BuiltIn("a_1".to_string()),
        ]
    );
}

#[test]
fn numbers() {
    assert_eq!(
        tokens_of("12 3.25 007 1.50"),
        vec![
            integer("12"),
            Token::Real("3.25".to_string()),
            integer("007"),
            Token::Real("1.50".to_string()),
        ]
    );
    assert_eq!(
        lexer("1."),
        Err(vec![LexError { span: Span { start: 1, end: 2 }, found: '.' }])
    );
    assert_eq!(tokens_of("12abc"), vec![integer("12"), identifier("abc")]);
}

#[test]
fn strings() {
    assert_eq!(
        lexer("\"a b\" \"\""),
        Ok(vec![
            (Token::String("a b".to_string()), Span { start: 0, end: 5 }),
            (Token::String(String::new()), Span { start: 6, end: 8 }),
        ])
    );
    assert_eq!(tokens_of("\"// no comment\""), vec![Token::String("// no comment".to_string())]);
    assert_eq!(
        lexer("\"open"),
        Err(vec![LexError { span: Span { start: 0, end: 1 }, found: '"' }])
    );
    assert_eq!(
        lexer("\"one\ntwo\""),
        Err(vec![
            LexError { span: Span { start: 0, end: 1 }, found: '"' },
            LexError { span: Span { start: 8, end: 9 }, found: '"' },
        ])
    );
}

#[test]
fn operators_take_the_longest_match() {
    let operator = |op: Ops| Token::Operator(op);
    assert_eq!(
        tokens_of("+ - / * & >= <= <> > < ="),
        vec![
            operator(Ops::Plus),
            operator(Ops::Minus),
            operator(Ops::Divide),
            operator(Ops::Multiply),
            operator(Ops::Concatenate),
            operator(Ops::GreaterThanEqual),
            operator(Ops::LessThanEqual),
            operator(Ops::NotEqual),
            operator(Ops::GreaterThan),
            operator(Ops::LessThan),
            operator(Ops::Equal),
        ]
    );
    assert_eq!(
        tokens_of("MOD DIV AND OR NOT"),
        vec![
            operator(Ops::Mod),
            operator(Ops::Div),
            operator(Ops::And),
            operator(Ops::Or),
            operator(Ops::Not),
        ]
    );
    assert_eq!(
        tokens_of("a>=b"),
        vec![identifier("a"), operator(Ops::GreaterThanEqual), identifier("b")]
    );
    assert_eq!(
        tokens_of("a=>b"),
        vec![identifier("a"), operator(Ops::Equal), operator(Ops::GreaterThan), identifier("b")]
    );
}

#[test]
fn arrows() {
    assert_eq!(tokens_of("x <- 1"), vec![identifier("x"), Token::Arrow, integer("1")]);
    assert_eq!(tokens_of("x \u{2190} 1"), vec![identifier("x"), Token::Arrow, integer("1")]);
    assert_eq!(tokens_of("x<-1"), vec![identifier("x"), Token::Arrow, integer("1")]);
    assert_eq!(
        lexer("x \u{2190} 1").unwrap()[2],
        (integer("1"), Span { start: 4, end: 5 })
    );
}

#[test]
fn punctuation() {
    assert_eq!(
        tokens_of("a[1](2),:"),
        vec![
            identifier("a"),
            Token::OpenSquare,
            integer("1"),
            Token::CloseSquare,
            Token::OpenBracket,
            integer("2"),
            Token::CloseBracket,
            Token::Comma,
            Token::Colon,
        ]
    );
}

#[test]
fn line_breaks_collapse() {
    assert_eq!(
        lexer("a\n\n\nb\r\nc"),
        Ok(vec![
            (identifier("a"), Span { start: 0, end: 1 }),
            (Token::NewLine, Span { start: 1, end: 4 }),
            (identifier("b"), Span { start: 4, end: 5 }),
            (Token::NewLine, Span { start: 5, end: 7 }),
            (identifier("c"), Span { start: 7, end: 8 }),
        ])
    );
    assert_eq!(
        tokens_of("a\n  \nb"),
        vec![identifier("a"), Token::NewLine, Token::NewLine, identifier("b")]
    );
    assert_eq!(tokens_of("a\n"), vec![identifier("a"), Token::NewLine]);
}

#[test]
fn indentation_is_passed_over() {
    assert_eq!(
        lexer("  \ta \t b  "),
        Ok(vec![
            (identifier("a"), Span { start: 3, end: 4 }),
            (identifier("b"), Span { start: 7, end: 8 }),
        ])
    );
}

#[test]
fn comments_end_the_line() {
    assert_eq!(
        lexer("a // one\nb"),
        Ok(vec![
            (identifier("a"), Span { start: 0, end: 1 }),
            (Token::NewLine, Span { start: 1, end: 9 }),
            (identifier("b"), Span { start: 9, end: 10 }),
        ])
    );
    assert_eq!(
        tokens_of("a // one\n   // two\n\n  b"),
        vec![identifier("a"), Token::NewLine, identifier("b")]
    );
    assert_eq!(tokens_of("a // to the end"), vec![identifier("a"), Token::NewLine]);
    assert_eq!(tokens_of("a / b"), vec![
        identifier("a"),
        Token::Operator(Ops::Divide),
        identifier("b")
    ]);
}

#[test]
fn comments_at_the_start_are_no_tokens() {
    assert_eq!(
        lexer("// first\n  // second\nx"),
        Ok(vec![(identifier("x"), Span { start: 21, end: 22 })])
    );
    assert_eq!(tokens_of("\nx"), vec![Token::NewLine, identifier("x")]);
    assert_eq!(tokens_of(""), Vec::<Token>::new());
    assert_eq!(tokens_of("   "), Vec::<Token>::new());
    assert_eq!(tokens_of("// only a comment"), Vec::<Token>::new());
}

#[test]
fn every_unexpected_character_is_reported() {
    assert_eq!(
        lexer("a ? b # c"),
        Err(vec![
            LexError { span: Span { start: 2, end: 3 }, found: '?' },
            LexError { span: Span { start: 6, end: 7 }, found: '#' },
        ])
    );
    assert_eq!(
        lexer("x \u{a0} y"),
        Err(vec![LexError { span: Span { start: 2, end: 3 }, found: '\u{a0}' }])
    );
}

#[test]
fn places_count_characters() {
    assert_eq!(
        lexer("\"\u{e9}\u{e9}\" x"),
        Ok(vec![
            (Token::String("\u{e9}\u{e9}".to_string()), Span { start: 0, end: 4 }),
            (identifier("x"), Span { start: 5, end: 6 }),
        ])
    );
}

#[test]
fn one_token_at_a_place() {
    let chars: Vec<char> = "ab <- 12".chars().collect();
    assert_eq!(next_token(&chars, 0), Some((identifier("ab"), 2)));
    assert_eq!(next_token(&chars, 2), None);
    assert_eq!(next_token(&chars, 3), Some((Token::Arrow, 5)));
    assert_eq!(next_token(&chars, 6), Some((integer("12"), 8)));
    assert_eq!(next_token(&chars, 7), Some((integer("2"), 8)));
    assert_eq!(next_token(&chars, 8), None);
    assert_eq!(next_token(&chars, 80), None);
}

#[test]
fn the_empty_token_ends_a_line() {
    assert_eq!(Token::default(), Token::NewLine);
}
