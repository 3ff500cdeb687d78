use carbide::cursor::SourceLocation;
use carbide::error::CarbideError;
use carbide::keywords::Keywords;
use carbide::lexer::CarbideLexer;
use carbide::nodes::{
    Expression, LiteralValue, Parameter, Program, Statement, StringPart, Type,
};
use carbide::operators::{BinaryOperators, UnaryOperators};
use carbide::parse_errors::CarbideParserError;
use carbide::parser::{CarbideParser, ParseResult};
use carbide::tokens::{Token, Tokens};

fn loc(line: u64, column: u64, offset: u64) -> SourceLocation {
    SourceLocation { line, column, offset }
}

fn parse_text(src: &str) -> ParseResult<'_> {
    let result = CarbideLexer::from_src(src).lex();
    assert!(result.is_ok(), "the scanner failed on '{}'", src);
    CarbideParser::new(result.tokens).parse()
}

fn parse_one_expression(src: &str) -> Expression {
    let result = CarbideLexer::from_src(src).lex();
    assert!(result.is_ok(), "the scanner failed on '{}'", src);
    let mut parser = CarbideParser::new(result.tokens);
    parser.parse_expression().expect("an expression")
}

fn number(value: i64) -> Expression {
    Expression::Literal(LiteralValue::Int(value))
}

fn name(text: &str) -> Expression {
    Expression::Identifier(text.to_string())
}

fn binary(left: Expression, operator: BinaryOperators, right: Expression) -> Expression {
    Expression::BinaryOp { left: Box::new(left), operator, right: Box::new(right) }
}

#[test]
fn multiplication_binds_tighter_than_addition() {
    assert_eq!(
        parse_one_expression("1 + 2 * 3"),
        binary(
            number(1),
            BinaryOperators::Plus,
            binary(number(2), BinaryOperators::Star, number(3))
        )
    );
    assert_ne!(
        parse_one_expression("1 + 2 * 3"),
        binary(
            binary(number(1), BinaryOperators::Plus, number(2)),
            BinaryOperators::Star,
            number(3)
        )
    );
}

#[test]
fn binary_operators_associate_to_the_left() {
    assert_eq!(
        parse_one_expression("1 - 2 - 3"),
        binary(
            binary(number(1), BinaryOperators::Minus, number(2)),
            BinaryOperators::Minus,
            number(3)
        )
    );
    assert_eq!(
        parse_one_expression("8 / 4 % 3 * 2"),
        binary(
            binary(
                binary(number(8), BinaryOperators::Slash, number(4)),
                BinaryOperators::Percent,
                number(3)
            ),
            BinaryOperators::Star,
            number(2)
        )
    );
}

#[test]
fn every_precedence_level_has_its_place() {
    assert_eq!(
        parse_one_expression("a || b && c == d < e + f * !g"),
        binary(
            name("a"),
            BinaryOperators::Or,
            binary(
                name("b"),
                BinaryOperators::And,
                binary(
                    name("c"),
                    BinaryOperators::EqEq,
                    binary(
                        name("d"),
                        BinaryOperators::Less,
                        binary(
                            name("e"),
                            BinaryOperators::Plus,
                            binary(
                                name("f"),
                                BinaryOperators::Star,
                                Expression::UnaryOp {
                                    operator: UnaryOperators::Not,
                                    operand: Box::new(name("g")),
                                }
                            )
                        )
                    )
                )
            )
        )
    );
    assert_eq!(
        parse_one_expression("a != b >= c"),
        binary(
            name("a"),
            BinaryOperators::NotEq,
            binary(name("b"), BinaryOperators::GreaterEq, name("c"))
        )
    );
    assert_eq!(
        parse_one_expression("a <= b > c"),
        binary(
            binary(name("a"), BinaryOperators::LessEq, name("b")),
            BinaryOperators::Greater,
            name("c")
        )
    );
}

#[test]
fn a_minus_before_an_operand_negates() {
    assert_eq!(
        parse_one_expression("-x - -1"),
        binary(
            Expression::UnaryOp {
                operator: UnaryOperators::Negate,
                operand: Box::new(name("x")),
            },
            BinaryOperators::Minus,
            Expression::UnaryOp {
                operator: UnaryOperators::Negate,
                operand: Box::new(number(1)),
            }
        )
    );
    assert_eq!(
        parse_one_expression("!!x"),
        Expression::UnaryOp {
            operator: UnaryOperators::Not,
            operand: Box::new(Expression::UnaryOp {
                operator: UnaryOperators::Not,
                operand: Box::new(name("x")),
            }),
        }
    );
}

#[test]
fn assignment_needs_an_assignable_target() {
    let result = parse_text("5 = 3;");
    assert_eq!(
        result.errors,
        vec![Box::new(CarbideParserError::InvalidAssignmentTarget(loc(1, 4, 3)))]
    );
    assert!(result.ast.is_empty());

    let result = parse_text("x = 3;");
    assert!(result.is_ok());
    assert_eq!(
        result.ast,
        vec![Statement::Expression(Expression::Assignment {
            target: Box::new(name("x")),
            value: Box::new(number(3)),
        })]
    );

    let result = parse_text("(x) = 3; a + b = 1;");
    assert_eq!(result.errors.len(), 2);
    assert!(result.ast.is_empty());
}

#[test]
fn assignment_associates_to_the_right() {
    assert_eq!(
        parse_one_expression("a = b.c = d[0] = f() = 1"),
        Expression::Assignment {
            target: Box::new(name("a")),
            value: Box::new(Expression::Assignment {
                target: Box::new(Expression::MemberAccess {
                    target: Box::new(name("b")),
                    member: "c".to_string(),
                }),
                value: Box::new(Expression::Assignment {
                    target: Box::new(Expression::Index {
                        target: Box::new(name("d")),
                        index: Box::new(number(0)),
                    }),
                    value: Box::new(Expression::Assignment {
                        target: Box::new(Expression::Call {
                            callee: Box::new(name("f")),
                            arguments: vec![],
                        }),
                        value: Box::new(number(1)),
                    }),
                }),
            }),
        }
    );
}

#[test]
fn calls_indexings_and_members_chain_from_the_left() {
    assert_eq!(
        parse_one_expression("a.b(c, 1)[d].e"),
        Expression::MemberAccess {
            target: Box::new(Expression::Index {
                target: Box::new(Expression::Call {
                    callee: Box::new(Expression::MemberAccess {
                        target: Box::new(name("a")),
                        member: "b".to_string(),
                    }),
                    arguments: vec![name("c"), number(1)],
                }),
                index: Box::new(name("d")),
            }),
            member: "e".to_string(),
        }
    );
}

#[test]
fn a_function_parses_end_to_end() {
    let result = parse_text("fn add(a: int, b: int) -> int { return a + b; }");
    assert!(result.is_ok());
    assert_eq!(
        result.ast,
        vec![Statement::FunctionDeclaration {
            name: "add".to_string(),
            parameters: vec![
                Parameter {
                    name: "a".to_string(),
                    type_annotation: Some(Type::named("int")),
                },
                Parameter {
                    name: "b".to_string(),
                    type_annotation: Some(Type::named("int")),
                },
            ],
            return_type: Some(Type::named("int")),
            body: vec![Statement::Return(Some(binary(
                name("a"),
                BinaryOperators::Plus,
                name("b")
            )))],
        }]
    );
}

#[test]
fn an_interpolated_string_holds_parsed_expressions() {
    assert_eq!(
        parse_one_expression("\"Hello {name}!\""),
        Expression::InterpolatedString {
            parts: vec![
                StringPart::Text("Hello ".to_string()),
                StringPart::Expression(Box::new(name("name"))),
                StringPart::Text("!".to_string()),
            ],
        }
    );
    assert_eq!(
        parse_one_expression("\"{a + 1}{f(b)[0]}\""),
        Expression::InterpolatedString {
            parts: vec![
                StringPart::Expression(Box::new(binary(
                    name("a"),
                    BinaryOperators::Plus,
                    number(1)
                ))),
                StringPart::Expression(Box::new(Expression::Index {
                    target: Box::new(Expression::Call {
                        callee: Box::new(name("f")),
                        arguments: vec![name("b")],
                    }),
                    index: Box::new(number(0)),
                })),
            ],
        }
    );
}

#[test]
fn a_fragment_that_fails_is_reported_at_the_string() {
    let result = parse_text("let s = \"a {1 +} b\";");
    assert_eq!(
        result.errors,
        vec![Box::new(CarbideParserError::InvalidAssignmentTarget(loc(1, 20, 19)))]
    );

    let tokens = CarbideLexer::from_src("  \"a {1 +} b\"").lex().tokens;
    let mut parser = CarbideParser::new(tokens);
    assert_eq!(
        parser.parse_expression(),
        Err(Box::new(CarbideParserError::ExpectedExpression(loc(1, 14, 13))))
    );

    let tokens = CarbideLexer::from_src("\"{@}\"").lex().tokens;
    let mut parser = CarbideParser::new(tokens);
    assert_eq!(
        parser.parse_expression(),
        Err(Box::new(CarbideParserError::ExpectedExpression(loc(1, 6, 5))))
    );

    let tokens = CarbideLexer::from_src("\"{}\"").lex().tokens;
    let mut parser = CarbideParser::new(tokens);
    assert_eq!(
        parser.parse_expression(),
        Err(Box::new(CarbideParserError::ExpectedExpression(loc(1, 5, 4))))
    );
}

#[test]
fn literals_of_every_radix_become_integers() {
    assert_eq!(parse_one_expression("0xFF"), number(255));
    assert_eq!(parse_one_expression("0b1010"), number(10));
    assert_eq!(parse_one_expression("42"), number(42));
    assert_eq!(
        parse_one_expression("3.14"),
        Expression::Literal(LiteralValue::Float("3.14".to_string()))
    );
    assert_eq!(
        parse_one_expression("\"a\\tb\""),
        Expression::Literal(LiteralValue::String("a\tb".to_string()))
    );
    assert_eq!(
        parse_one_expression("true"),
        Expression::Literal(LiteralValue::Bool(true))
    );
    assert_eq!(
        parse_one_expression("false"),
        Expression::Literal(LiteralValue::Bool(false))
    );
    assert_eq!(
        parse_one_expression("(x)"),
        Expression::Grouped(Box::new(name("x")))
    );
    assert_eq!(parse_one_expression("[]"), Expression::Array(vec![]));
}

#[test]
fn array_types_nest() {
    let result = parse_text("let m: [[int]] = [[1]];");
    assert!(result.is_ok());
    assert_eq!(
        result.ast,
        vec![Statement::LetDeclaration {
            name: "m".to_string(),
            type_annotation: Some(Type::Array(Box::new(Type::Array(Box::new(
                Type::named("int")
            ))))),
            initializer: Some(Expression::Array(vec![Expression::Array(vec![number(1)])])),
        }]
    );
}

#[test]
fn a_bare_return_is_a_diagnostic() {
    let tokens = CarbideLexer::from_src("return;").lex().tokens;
    let found = tokens[1].clone();
    let mut parser = CarbideParser::new(tokens);
    assert_eq!(
        parser.parse_return(),
        Err(Box::new(CarbideParserError::UnexpectedToken {
            expected: "expression".to_string(),
            found,
        }))
    );

    let tokens = CarbideLexer::from_src("return 1;").lex().tokens;
    let mut parser = CarbideParser::new(tokens);
    assert_eq!(parser.parse_return(), Ok(Statement::Return(Some(number(1)))));

    let mut parser = CarbideParser::new(Vec::new());
    assert_eq!(
        parser.parse_return(),
        Err(Box::new(CarbideParserError::UnexpectedEOF(loc(1, 1, 0))))
    );
}

#[test]
fn the_semicolon_may_be_left_out_at_the_top_level_only() {
    let result = parse_text("x = 3");
    assert!(result.is_ok());
    assert_eq!(result.ast.len(), 1);

    let result = parse_text("f() g()");
    assert!(result.is_ok());
    assert_eq!(result.ast.len(), 2);

    let result = parse_text("{ f() }");
    assert_eq!(result.errors.len(), 1);
    match &*result.errors[0] {
        CarbideParserError::UnexpectedToken { expected, found } => {
            assert_eq!(expected, ";");
            assert_eq!(found.token_type, Tokens::RightBrace);
        }
        other => panic!("unexpected diagnostic {:?}", other),
    }
}

#[test]
fn the_parser_resumes_at_the_next_statement() {
    let result = parse_text("let = 5; let y = 1; let 2 let z;");
    assert_eq!(result.errors.len(), 2);
    assert_eq!(
        result.ast,
        vec![
            Statement::LetDeclaration {
                name: "y".to_string(),
                type_annotation: None,
                initializer: Some(number(1)),
            },
            Statement::LetDeclaration {
                name: "z".to_string(),
                type_annotation: None,
                initializer: None,
            },
        ]
    );
}

#[test]
fn the_tokens_may_end_too_early() {
    let result = parse_text("let x = (1 + 2");
    assert_eq!(result.errors.len(), 1);
    assert_eq!(
        *result.errors[0],
        CarbideParserError::InvalidAssignmentTarget(loc(1, 15, 14))
    );

    let result = parse_text("fn f(");
    assert_eq!(
        result.errors,
        vec![Box::new(CarbideParserError::UnexpectedEOF(loc(1, 6, 5)))]
    );

    let result = parse_text("fn f() -> int");
    assert_eq!(
        result.errors,
        vec![Box::new(CarbideParserError::UnexpectedEOF(loc(1, 14, 13)))]
    );

    let result = parse_text("fn f() 1");
    assert_eq!(result.errors.len(), 1);
    match &*result.errors[0] {
        CarbideParserError::UnexpectedToken { expected, found } => {
            assert_eq!(expected, "function body");
            assert_eq!(found.token_type, Tokens::IntLiteral(1));
        }
        other => panic!("unexpected diagnostic {:?}", other),
    }
}

#[test]
fn trees_and_results_can_be_copied() {
    let result = parse_text(
        "fn f(a: [int], b) -> int { let s = \"x{a[0]}\"; return g(a, -b) + 1.5; } 5 = 3; [1, 2];",
    );
    assert_eq!(result.errors.len(), 1);
    assert_eq!(result.ast.len(), 2);
    let copy = result.clone();
    assert_eq!(copy.ast, result.ast);
    assert_eq!(copy.errors, result.errors);
    assert_eq!(Program::new(result.ast.clone()).clone().statements, result.ast);
    let error = carbide::nodes::CarbideASTError::ExpectedGot("a".to_string(), "b".to_string());
    assert_eq!(error.message(), "Expected `a` got `b`");
    assert_eq!(error.clone(), error);
}

#[test]
fn parsing_twice_gives_the_same_diagnostics() {
    let src = "let = 1; 5 = 3; fn (";
    let first = parse_text(src);
    let second = parse_text(src);
    assert_eq!(first.errors.len(), 3);
    assert_eq!(first.errors, second.errors);
    assert_eq!(first.ast, second.ast);
}

#[test]
fn strict_parsing_fails_with_the_first_diagnostic() {
    let tokens = CarbideLexer::from_src("5 = 3; let = 1;").lex().tokens;
    let mut parser = CarbideParser::new(tokens);
    assert_eq!(
        parser.parse_strict(),
        Err(Box::new(CarbideParserError::InvalidAssignmentTarget(loc(1, 4, 3))))
    );
    let tokens = CarbideLexer::from_src("let a = 1;").lex().tokens;
    let mut parser = CarbideParser::new(tokens);
    let program = Program::new(parser.parse_strict().expect("no diagnostic"));
    assert_eq!(program.statements.len(), 1);
}

#[test]
fn parser_codes_and_messages() {
    let at = loc(2, 7, 30);
    let token = Token::new(
        Tokens::Identifier("x\"y"),
        loc(1, 5, 4),
        loc(1, 8, 7),
        4..7,
        "x\"y",
    );
    let cases: Vec<(CarbideParserError, u32, String)> = vec![
        (
            CarbideParserError::UnexpectedEOF(at),
            1001,
            "Unexpected end of file at [2:7]".to_string(),
        ),
        (
            CarbideParserError::UnexpectedToken {
                expected: ";".to_string(),
                found: token.clone(),
            },
            1002,
            "Expected ;, but found <Tokens::Identifier(\"x\\\"y\")@1:5..1:8 `x\"y`>".to_string(),
        ),
        (
            CarbideParserError::ExpectedIdentifier(token.clone()),
            1010,
            "Expected identifier, but found <Tokens::Identifier(\"x\\\"y\")@1:5..1:8 `x\"y`>"
                .to_string(),
        ),
        (
            CarbideParserError::ExpectedExpression(at),
            1011,
            "Expected expression at [2:7]".to_string(),
        ),
        (
            CarbideParserError::TooManyParameters(at),
            1020,
            "Too many parameters in function declaration at [2:7]".to_string(),
        ),
        (
            CarbideParserError::TooManyArguments(at),
            1021,
            "Too many arguments in function call at [2:7]".to_string(),
        ),
        (
            CarbideParserError::InvalidAssignmentTarget(at),
            1030,
            "Invalid assignment target at [2:7]".to_string(),
        ),
        (
            CarbideParserError::BreakOutsideLoop(at),
            1040,
            "Break statement outside of loop at [2:7]".to_string(),
        ),
        (
            CarbideParserError::ContinueOutsideLoop(at),
            1041,
            "Continue statement outside of loop at [2:7]".to_string(),
        ),
        (
            CarbideParserError::ReturnOutsideFunction(at),
            1042,
            "Return statement outside of function at [2:7]".to_string(),
        ),
        (
            CarbideParserError::CastFailed("9".to_string(), "usize".to_string()),
            1000,
            "Cast `9` as `usize` failed!".to_string(),
        ),
    ];
    for (error, code, message) in cases {
        assert_eq!(error.code().0, code);
        assert!(error.code().0 >= 1000);
        assert_eq!(error.message(), message);
        assert_eq!(error.help().is_some(), code != 1000);
        assert_eq!(error.clone(), error);
    }
}

#[test]
fn tokens_show_their_kind_place_and_text() {
    let tokens = CarbideLexer::from_src("let s\n= \"a\\n{b}\" 12 0.5 <= ! ;").lex().tokens;
    let shown: Vec<String> = tokens.iter().map(|t| t.to_string()).collect();
    assert_eq!(
        shown,
        vec![
            "<Tokens::Keyword(Let)@1:1..1:4 `let`>",
            "<Tokens::Identifier(\"s\")@1:5..1:6 `s`>",
            "<Tokens::BinaryOperator(Eq)@2:1..2:2 `=`>",
            "<Tokens::InterpolatedString([Text(\"a\\n\"), Interpolation(\"b\")])@2:3..2:11 `\"a\\n{b}\"`>",
            "<Tokens::IntLiteral(12)@2:12..2:14 `12`>",
            "<Tokens::FloatLiteral(0.5)@2:15..2:18 `0.5`>",
            "<Tokens::BinaryOperator(LessEq)@2:19..2:21 `<=`>",
            "<Tokens::UnaryOperator(Not)@2:22..2:23 `!`>",
            "<Tokens::Semicolon@2:24..2:25 `;`>",
        ]
    );
    assert_eq!(tokens[3].location_str(), "2:3");
    assert_eq!(tokens[3].line(), 2);
    assert_eq!(tokens[3].column(), 3);
    assert_eq!(
        Tokens::IntLiteral(i64::MIN).describe(),
        "IntLiteral(-9223372036854775808)"
    );
    assert_eq!(Tokens::Keyword(Keywords::Return).describe(), "Keyword(Return)");
}
