use carbide::lexer::CarbideLexer;
use carbide::nodes::{Expression, LiteralValue, Statement};
use carbide::parser::{CarbideParser, ParseResult};

fn parse_delimiters(src: &'_ str) -> (CarbideParser<'_>, ParseResult<'_>) {
    let mut lexer = CarbideLexer::from_src(src);
    let result = lexer.lex();
    assert!(result.is_ok(), "Lexer failed for '{}'", src);

    let mut parser = CarbideParser::new(result.tokens);
    let result = parser.parse();
    (parser, result)
}

#[test]
fn block() {
    let (_, result) = parse_delimiters("{ let my_var = 0; }");
    assert!(result.is_ok());
    assert_eq!(
        result.ast,
        vec![Statement::Block(vec![Statement::LetDeclaration {
            name: "my_var".to_string(),
            initializer: Some(Expression::Literal(LiteralValue::Int(0))),
            type_annotation: None
        }])]
    );
}

#[test]
fn empty_block() {
    let (_, result) = parse_delimiters("{  }");
    assert!(result.is_ok());
    assert_eq!(result.ast, vec![Statement::Block(vec![])]);
}

#[test]
fn valid_array() {
    let (_, result) = parse_delimiters("[0,0,0,0];");

    assert!(result.is_ok());

    assert_eq!(
        result.ast,
        vec![Statement::Expression(Expression::Array(vec![
            Expression::Literal(LiteralValue::Int(0)),
            Expression::Literal(LiteralValue::Int(0)),
            Expression::Literal(LiteralValue::Int(0)),
            Expression::Literal(LiteralValue::Int(0))
        ]))]
    );
}

