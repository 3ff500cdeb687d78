use carbide::lexer::CarbideLexer;
use carbide::nodes::{Expression, LiteralValue, Statement};
use carbide::operators::UnaryOperators;
use carbide::parser::CarbideParser;
use carbide::tokens::Tokens;

/// The kinds of the tokens of `src`, which must scan without a diagnostic.
fn kinds(src: &str) -> Vec<Tokens<'_>> {
    let mut lexer = CarbideLexer::from_src(src);
    let tokens = lexer.lex_strict().expect("Parse should be valid");
    tokens.into_iter().map(|t| t.token_type).collect()
}

/// The number that a float token stands for.
fn float_of(kind: &Tokens) -> f64 {
    match kind {
        Tokens::FloatLiteral(text) => text.parse::<f64>().expect("a float literal is a number"),
        other => panic!("expected a float literal, found {:?}", other),
    }
}

/// The integer that the source `src` denotes: a literal, or the negation
/// of a literal after a minus.
fn integer_of(src: &str) -> i64 {
    let tokens = CarbideLexer::from_src(src).lex_strict().expect("Parse should be valid");
    let mut parser = CarbideParser::new(tokens);
    match parser.parse_expression().expect("Parse should be valid") {
        Expression::Literal(LiteralValue::Int(value)) => value,
        Expression::UnaryOp { operator: UnaryOperators::Negate, operand } => match *operand {
            Expression::Literal(LiteralValue::Int(value)) => -value,
            other => panic!("expected an integer, found {:?}", other),
        },
        other => panic!("expected an integer, found {:?}", other),
    }
}

/// The float that the source `src` denotes: a literal, or the negation of
/// a literal after a minus.
fn float_denoted(src: &str) -> f64 {
    let tokens = CarbideLexer::from_src(src).lex_strict().expect("Parse should be valid");
    let mut parser = CarbideParser::new(tokens);
    let number = |text: &str| text.parse::<f64>().expect("a float literal is a number");
    match parser.parse_expression().expect("Parse should be valid") {
        Expression::Literal(LiteralValue::Float(text)) => number(&text),
        Expression::UnaryOp { operator: UnaryOperators::Negate, operand } => match *operand {
            Expression::Literal(LiteralValue::Float(text)) => -number(&text),
            other => panic!("expected a float, found {:?}", other),
        },
        other => panic!("expected a float, found {:?}", other),
    }
}

#[test]
fn valid_neg_int() {
    assert_eq!(-1230, integer_of(r#"-1230"#))
}

#[test]
fn valid_neg_float() {
    assert_eq!(-2.3, float_denoted(r#"-2.3"#))
}

#[test]
fn number_parse_int_valid_negative() {
    assert_eq!(integer_of(r#"-100"#), -100);
}

#[test]
fn number_parse_float_valid_negative() {
    assert_eq!(float_denoted(r#"-100.5"#), -100.5);
}

#[test]
fn literals_int_valid_negative() {
    assert_eq!(integer_of(r#"-100"#), -100);
}

#[test]
fn literals_float_valid_negative() {
    assert_eq!(float_denoted(r#"-100.5"#), -100.5);
}

#[test]
fn number_tests_valid_int() {
    assert_eq!(vec![Tokens::IntLiteral(1230)], kinds(r#"1230"#))
}

#[test]
fn number_tests_valid_float() {
    let tokens = kinds(r#"4.2"#);
    assert_eq!(tokens.len(), 1);
    assert_eq!(4.2, float_of(&tokens[0]))
}

#[test]
fn parser_tests_valid_string() {
    assert_eq!(
        vec![Tokens::StringLiteral("Hello World!".to_string())],
        kinds(r#""Hello World!""#)
    )
}

#[test]
fn valid_string_newline() {
    assert_eq!(
        vec![Tokens::StringLiteral("Hello \n".to_string())],
        kinds(r#""Hello \n""#)
    )
}

#[test]
fn valid_string_escaped_quote() {
    assert_eq!(
        vec![Tokens::StringLiteral("Hello \"".to_string())],
        kinds(r#""Hello \"""#)
    )
}

#[test]
fn invalid_string() {
    let mut lexer = CarbideLexer::from_src(r#""Hello "#);
    lexer.lex_strict().expect_err("Expected parsing to fail");
    assert!(CarbideLexer::from_src(r#""Hello "#).lex().tokens.is_empty())
}

#[test]
fn invalid_string_escape() {
    let mut lexer = CarbideLexer::from_src(r#""Hello \""#);
    lexer.lex_strict().expect_err("Expected parsing to fail");
    assert!(CarbideLexer::from_src(r#""Hello \""#).lex().tokens.is_empty())
}

#[test]
fn number_parse_int_valid_positive() {
    assert_eq!(kinds(r#"100"#), vec![Tokens::IntLiteral(100)]);
}

#[test]
fn number_parse_float_valid_positive() {
    let tokens = kinds(r#"100.5"#);
    assert_eq!(tokens.len(), 1);
    assert_eq!(float_of(&tokens[0]), 100.5);
}

#[test]
fn literals_int_valid_positive() {
    assert_eq!(kinds(r#"100"#), vec![Tokens::IntLiteral(100)]);
}

#[test]
fn literals_float_valid_positive() {
    let tokens = kinds(r#"100.5"#);
    assert_eq!(tokens.len(), 1);
    assert_eq!(float_of(&tokens[0]), 100.5);
}

#[test]
fn literals_valid_string() {
    assert_eq!(
        kinds(r#""Hello World!""#),
        vec![Tokens::StringLiteral("Hello World!".to_string())]
    );
}

#[test]
fn literals_valid_string_escaped() {
    assert_eq!(
        kinds(r#" "\\ \n" "#),
        vec![Tokens::StringLiteral("\\ \n".to_string())]
    );
}

#[test]
fn literals_invalid_string_extra_single_quote() {
    assert_eq!(kinds(r#" "'" "#), vec![Tokens::StringLiteral("'".to_string())]);
}

#[test]
fn valid_bools() {
    let tokens = CarbideLexer::from_src(r#"true false"#).lex().tokens;
    let result = CarbideParser::new(tokens).parse();
    assert!(result.is_ok());
    assert_eq!(
        result.ast,
        vec![
            Statement::Expression(Expression::Literal(LiteralValue::Bool(true))),
            Statement::Expression(Expression::Literal(LiteralValue::Bool(false))),
        ]
    );
}

#[test]
fn string_parse_valid_string() {
    assert_eq!(
        kinds(r#""Hello World!""#),
        vec![Tokens::StringLiteral("Hello World!".to_string())]
    );
}

#[test]
fn string_parse_valid_string_escaped() {
    assert_eq!(
        kinds(r#""\\ \n""#),
        vec![Tokens::StringLiteral("\\ \n".to_string())]
    );
}

#[test]
fn string_parse_invalid_string_extra_single_quote() {
    assert_eq!(kinds(r#" "'" "#), vec![Tokens::StringLiteral("'".to_string())]);
}
