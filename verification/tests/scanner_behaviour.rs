use carbide::cursor::SourceLocation;
use carbide::error::CarbideError;
use carbide::keywords::Keywords;
use carbide::lex_errors::CarbideLexerError;
use carbide::lexer::CarbideLexer;
use carbide::operators::{BinaryOperators, UnaryOperators};
use carbide::tokens::{StringPart, TokenKind, Tokens};

fn loc(line: u64, column: u64, offset: u64) -> SourceLocation {
    SourceLocation { line, column, offset }
}

#[test]
fn every_token_is_the_slice_its_span_names() {
    let src = "let s = \"h\u{e9}llo {n}\";\n/* \u{4e16}\u{754c} */ fn f(a: int) -> int { return a + 0x1F; }";
    let mut lexer = CarbideLexer::from_src(src);
    let result = lexer.lex();
    assert!(result.is_ok());
    assert_eq!(result.tokens.len(), 21);
    for token in result.tokens.iter() {
        let start = token.span.start as usize;
        let end = token.span.end as usize;
        assert_eq!(&src[start..end], token.src);
        assert_eq!(token.start.offset, token.span.start);
        assert_eq!(token.end.offset, token.span.end);
    }
}

#[test]
fn tokens_come_in_order_of_position() {
    let src = "a\n  bb \"x\ny\" c\n\n(d)";
    let mut lexer = CarbideLexer::from_src(src);
    let result = lexer.lex();
    assert!(result.is_ok());
    let tokens = result.tokens;
    assert_eq!(tokens.len(), 7);
    for pair in tokens.windows(2) {
        assert!(pair[0].span.end <= pair[1].span.start);
        let before = (pair[0].end.line, pair[0].end.column);
        let after = (pair[1].start.line, pair[1].start.column);
        assert!(before <= after);
    }
    assert_eq!(tokens[1].start, loc(2, 3, 4));
    assert_eq!(tokens[2].start, loc(2, 6, 7));
    assert_eq!(tokens[2].end, loc(3, 3, 12));
    assert_eq!(tokens[4].start, loc(5, 1, 16));
}

#[test]
fn columns_count_characters_and_offsets_count_bytes() {
    let src = "/*\u{e9}\u{4e16}*/x";
    let mut lexer = CarbideLexer::from_src(src);
    let result = lexer.lex();
    assert!(result.is_ok());
    assert_eq!(result.tokens.len(), 1);
    assert_eq!(result.tokens[0].start, loc(1, 7, 9));
    assert_eq!(result.tokens[0].end, loc(1, 8, 10));
}

#[test]
fn one_illegal_character_gives_one_diagnostic() {
    let src = "let x = @ 5;";
    let mut lexer = CarbideLexer::from_src(src);
    let result = lexer.lex();
    assert_eq!(
        result.errors,
        vec![CarbideLexerError::UnexpectedChar('@', loc(1, 9, 8))]
    );
    let kinds: Vec<&Tokens> = result.tokens.iter().map(|t| &t.token_type).collect();
    assert_eq!(
        kinds,
        vec![
            &Tokens::Keyword(Keywords::Let),
            &Tokens::Identifier("x"),
            &Tokens::BinaryOperator(BinaryOperators::Eq),
            &Tokens::IntLiteral(5),
            &Tokens::Semicolon,
        ]
    );
}

#[test]
fn nested_comments_balance() {
    let mut lexer = CarbideLexer::from_src("let /* a /* b /* c */ d */ e */ x = 5");
    let result = lexer.lex();
    assert!(result.is_ok());
    let kinds: Vec<&Tokens> = result.tokens.iter().map(|t| &t.token_type).collect();
    assert_eq!(
        kinds,
        vec![
            &Tokens::Keyword(Keywords::Let),
            &Tokens::Identifier("x"),
            &Tokens::BinaryOperator(BinaryOperators::Eq),
            &Tokens::IntLiteral(5),
        ]
    );

    let mut lexer = CarbideLexer::from_src("let /* a /* b */ c");
    let result = lexer.lex();
    assert_eq!(
        result.errors,
        vec![CarbideLexerError::UnclosedComment(loc(1, 5, 4))]
    );
    assert_eq!(result.tokens.len(), 1);
    assert_eq!(result.tokens[0].token_type, Tokens::Keyword(Keywords::Let));
}

#[test]
fn interpolation_splits_into_parts() {
    let mut lexer = CarbideLexer::from_src("\"Hello {name}!\"");
    let result = lexer.lex();
    assert!(result.is_ok());
    assert_eq!(result.tokens.len(), 1);
    assert_eq!(
        result.tokens[0].token_type,
        Tokens::InterpolatedString(vec![
            StringPart::Text("Hello ".to_string()),
            StringPart::Interpolation("name".to_string()),
            StringPart::Text("!".to_string()),
        ])
    );
}

#[test]
fn interpolation_keeps_nested_braces_and_decodes_text() {
    let mut lexer = CarbideLexer::from_src(r#""a\n{ {x} }\{b{y}""#);
    let result = lexer.lex();
    assert!(result.is_ok());
    assert_eq!(
        result.tokens[0].token_type,
        Tokens::InterpolatedString(vec![
            StringPart::Text("a\n".to_string()),
            StringPart::Interpolation(" {x} ".to_string()),
            StringPart::Text("\\{b".to_string()),
            StringPart::Interpolation("y".to_string()),
        ])
    );
}

#[test]
fn an_escaped_brace_alone_makes_no_interpolation() {
    let mut lexer = CarbideLexer::from_src(r#""a\{b""#);
    let result = lexer.lex();
    assert!(result.is_ok());
    assert_eq!(
        result.tokens[0].token_type,
        Tokens::StringLiteral("a\\{b".to_string())
    );
}

#[test]
fn unmatched_brace_is_reported_at_the_string() {
    let mut lexer = CarbideLexer::from_src("x \"a {b\" y");
    let result = lexer.lex();
    assert_eq!(
        result.errors,
        vec![CarbideLexerError::UnmatchedBrace(loc(1, 3, 2))]
    );
    let kinds: Vec<&Tokens> = result.tokens.iter().map(|t| &t.token_type).collect();
    assert_eq!(kinds, vec![&Tokens::Identifier("x"), &Tokens::Identifier("y")]);
}

#[test]
fn unknown_escapes_are_kept() {
    assert_eq!(CarbideLexer::unescape_string(r"a\qb\"), "a\\qb\\");
    assert_eq!(CarbideLexer::unescape_string(r#"\n\t\r\\\"\'\0"#), "\n\t\r\\\"'\0");
}

#[test]
fn scanning_twice_gives_the_same_diagnostics() {
    let src = "let \u{e9} = 0x; \"open";
    let first = CarbideLexer::from_src(src).lex();
    let second = CarbideLexer::from_src(src).lex();
    assert_eq!(first.errors, second.errors);
    assert_eq!(first.tokens, second.tokens);
    assert_eq!(
        first.errors,
        vec![
            CarbideLexerError::NonASCIIChar('\u{e9}', loc(1, 5, 4)),
            CarbideLexerError::InvalidHexLiteral("0x".to_string(), loc(1, 9, 9)),
            CarbideLexerError::UnclosedString(loc(1, 13, 13)),
        ]
    );
}

#[test]
fn a_second_scan_of_one_scanner_finds_nothing() {
    let mut lexer = CarbideLexer::from_src("a b");
    assert_eq!(lexer.lex().tokens.len(), 2);
    let again = lexer.lex();
    assert!(again.is_ok());
    assert!(again.tokens.is_empty());
}

#[test]
fn numbers_too_large_are_diagnosed() {
    let result = CarbideLexer::from_src("9223372036854775808").lex();
    assert_eq!(
        result.errors,
        vec![CarbideLexerError::InvalidIntegerLiteral(
            "9223372036854775808".to_string(),
            loc(1, 1, 0)
        )]
    );
    let result = CarbideLexer::from_src("0x8000000000000000").lex();
    assert_eq!(
        result.errors,
        vec![CarbideLexerError::InvalidHexLiteral(
            "8000000000000000".to_string(),
            loc(1, 1, 0)
        )]
    );
    let result = CarbideLexer::from_src("0x7fffffffffffffff 0b101 0b").lex();
    assert_eq!(result.tokens[0].token_type, Tokens::HexLiteral(i64::MAX));
    assert_eq!(result.tokens[1].token_type, Tokens::BinaryLiteral(5));
    assert_eq!(
        result.errors,
        vec![CarbideLexerError::InvalidBinaryLiteral(
            "0b".to_string(),
            loc(1, 26, 25)
        )]
    );
    let long_binary = format!("0b1{}", "0".repeat(63));
    let result = CarbideLexer::from_src(&long_binary).lex();
    assert_eq!(
        result.errors,
        vec![CarbideLexerError::InvalidBinaryLiteral(
            long_binary[2..].to_string(),
            loc(1, 1, 0)
        )]
    );
}

#[test]
fn a_second_point_ends_the_number() {
    let result = CarbideLexer::from_src("1.2.3").lex();
    assert!(result.is_ok());
    let kinds: Vec<&Tokens> = result.tokens.iter().map(|t| &t.token_type).collect();
    assert_eq!(
        kinds,
        vec![&Tokens::FloatLiteral("1.2"), &Tokens::Period, &Tokens::IntLiteral(3)]
    );
}

#[test]
fn arrows_and_two_character_operators_win() {
    let result = CarbideLexer::from_src("-> => <= >= && || == != = < > - * / % + !").lex();
    assert!(result.is_ok());
    let kinds: Vec<TokenKind> = result.tokens.iter().map(|t| t.token_type.kind()).collect();
    assert_eq!(
        kinds,
        vec![
            TokenKind::ThinArrow,
            TokenKind::FatArrow,
            TokenKind::BinaryOperator(BinaryOperators::LessEq),
            TokenKind::BinaryOperator(BinaryOperators::GreaterEq),
            TokenKind::BinaryOperator(BinaryOperators::And),
            TokenKind::BinaryOperator(BinaryOperators::Or),
            TokenKind::BinaryOperator(BinaryOperators::EqEq),
            TokenKind::BinaryOperator(BinaryOperators::NotEq),
            TokenKind::BinaryOperator(BinaryOperators::Eq),
            TokenKind::BinaryOperator(BinaryOperators::Less),
            TokenKind::BinaryOperator(BinaryOperators::Greater),
            TokenKind::BinaryOperator(BinaryOperators::Minus),
            TokenKind::BinaryOperator(BinaryOperators::Star),
            TokenKind::BinaryOperator(BinaryOperators::Slash),
            TokenKind::BinaryOperator(BinaryOperators::Percent),
            TokenKind::BinaryOperator(BinaryOperators::Plus),
            TokenKind::UnaryOperator(UnaryOperators::Not),
        ]
    );
}

#[test]
fn half_an_operator_is_an_unexpected_character() {
    let result = CarbideLexer::from_src("a & b").lex();
    assert_eq!(
        result.errors,
        vec![CarbideLexerError::UnexpectedChar('&', loc(1, 3, 2))]
    );
    assert_eq!(result.tokens.len(), 2);
}

#[test]
fn recovery_skips_to_the_next_start_of_a_token() {
    let result = CarbideLexer::from_src("a @#$\"b c").lex();
    assert_eq!(
        result.errors,
        vec![CarbideLexerError::UnexpectedChar('@', loc(1, 3, 2))]
    );
    let kinds: Vec<&Tokens> = result.tokens.iter().map(|t| &t.token_type).collect();
    assert_eq!(
        kinds,
        vec![&Tokens::Identifier("a"), &Tokens::Identifier("b"), &Tokens::Identifier("c")]
    );
}

#[test]
fn strict_scanning_fails_with_the_first_diagnostic() {
    let mut lexer = CarbideLexer::from_src("a @ b # c");
    assert_eq!(
        lexer.lex_strict(),
        Err(CarbideLexerError::UnexpectedChar('@', loc(1, 3, 2)))
    );
    let mut lexer = CarbideLexer::from_src("a b");
    let tokens = lexer.lex_strict().expect("no diagnostic");
    assert_eq!(tokens.len(), 2);
}

#[test]
fn spelling_tables_answer_both_ways() {
    for op in BinaryOperators::ALL.iter() {
        assert_eq!(BinaryOperators::try_from(op.as_str()), Ok(*op));
        assert!(BinaryOperators::starts_with(op.as_str().chars().next().unwrap()));
    }
    for op in UnaryOperators::ALL.iter() {
        assert_eq!(UnaryOperators::try_from(op.as_str()), Ok(*op));
    }
    for keyword in Keywords::ALL.iter() {
        assert_eq!(Keywords::try_from(keyword.as_str()), Ok(*keyword));
    }
    assert_eq!(UnaryOperators::Negate.as_str(), "-");
    assert_eq!(
        BinaryOperators::try_from("=>"),
        Err(CarbideLexerError::CastBinaryOpFailed("=>".to_string()))
    );
    assert_eq!(
        UnaryOperators::try_from("-"),
        Err(CarbideLexerError::CastUnaryOpFailed("-".to_string()))
    );
    assert_eq!(
        Keywords::try_from("lets"),
        Err(CarbideLexerError::CastKeywordFailed("lets".to_string()))
    );
    assert!(!BinaryOperators::starts_with('~'));
    assert!(UnaryOperators::starts_with('!'));
    assert!(!UnaryOperators::starts_with('-'));
    assert_eq!(Tokens::from_char('~'), Some(Tokens::Tilde));
    assert_eq!(Tokens::from_char('@'), None);
    assert!(Tokens::starts_with('.'));
    assert!(!Tokens::starts_with('"'));
}

#[test]
fn scanner_codes_and_messages() {
    let at = loc(3, 14, 40);
    let cases: Vec<(CarbideLexerError, u32, &str, Option<&str>)> = vec![
        (
            CarbideLexerError::NonASCIIChar('\u{e9}', at),
            1,
            "Non ASCII char `\u{e9}` at [3:14]",
            Some("Only ASCII characters are allowed"),
        ),
        (
            CarbideLexerError::UnexpectedEOF(at),
            2,
            "Unexpected end of input at [3:14]",
            None,
        ),
        (
            CarbideLexerError::UnexpectedChar('@', at),
            3,
            "Unexpected character `@` at [3:14]",
            Some("This character is not valid in this context"),
        ),
        (
            CarbideLexerError::UnclosedString(at),
            4,
            "Unclosed string at [3:14]",
            Some("Strings must be closed with a quote"),
        ),
        (
            CarbideLexerError::UnmatchedBrace(at),
            5,
            "Unmatched brace in interpolated string at [3:14]",
            Some("Each '{' needs a matching '}'"),
        ),
        (
            CarbideLexerError::InvalidFloatLiteral("1.".to_string(), at),
            6,
            "Invalid float literal `1.` at [3:14]",
            Some("Floats can only have one decimal point"),
        ),
        (
            CarbideLexerError::InvalidIntegerLiteral("99".to_string(), at),
            6,
            "Invalid integer literal `99` at [3:14]",
            Some("Integer is invalid"),
        ),
        (
            CarbideLexerError::InvalidHexLiteral("0x".to_string(), at),
            6,
            "Invalid hex literal `0x` at [3:14]",
            Some("Hex literals must have at least one digit"),
        ),
        (
            CarbideLexerError::InvalidBinaryLiteral("0b".to_string(), at),
            6,
            "Invalid binary literal `0b` at [3:14]",
            Some("Binary literals must have at least one digit"),
        ),
        (
            CarbideLexerError::UnclosedComment(at),
            0,
            "Unclosed comment at [3:14]",
            Some("Block comments must be closed with '*/'"),
        ),
        (
            CarbideLexerError::CastKeywordFailed("x".to_string()),
            0,
            "Failed to cast `x` as a keyword",
            None,
        ),
        (
            CarbideLexerError::CastBinaryOpFailed("x".to_string()),
            0,
            "Failed to cast `x` as a binary operator",
            None,
        ),
        (
            CarbideLexerError::CastUnaryOpFailed("x".to_string()),
            0,
            "Failed to cast `x` as a unary operator",
            None,
        ),
    ];
    for (error, code, message, help) in cases {
        assert_eq!(error.code().0, code);
        assert!(error.code().0 < 1000);
        assert_eq!(error.message(), message);
        assert_eq!(error.help(), help);
        assert_eq!(error.clone(), error);
    }
}

#[test]
fn a_failed_cast_names_the_number() {
    let error = u8::try_from(300u32).unwrap_err();
    let error = CarbideLexerError::CastIntFailed("300".to_string(), "u8".to_string(), error);
    assert_eq!(
        error.message(),
        format!("Failed to cast `300` as `u8`: {:#?}", u8::try_from(300u32).unwrap_err())
    );
    assert_eq!(error.code().0, 0);
}

/// A small generator of texts over the characters that matter to the
/// scanner.
fn sample_text(seed: &mut u64, length: usize) -> String {
    let pool: Vec<char> = "ab_1 0x.\"\\{}/*\n\t=!<>&|+-()[];:,~@#\u{e9}\u{4e16}f".chars().collect();
    let mut text = String::new();
    for _ in 0..length {
        *seed = seed.wrapping_mul(6364136223846793005).wrapping_add(1442695040888963407);
        text.push(pool[((*seed >> 33) as usize) % pool.len()]);
    }
    text
}

#[test]
fn any_text_scans_and_parses_to_the_end() {
    let mut seed: u64 = 17;
    for round in 0..3000 {
        let src = sample_text(&mut seed, 1 + round % 40);
        let mut lexer = CarbideLexer::from_src(&src);
        let result = lexer.lex();
        assert!(lexer.is_eof());
        let mut last_end = 0u64;
        let mut last_place = (1u64, 1u64);
        for token in result.tokens.iter() {
            let start = token.span.start as usize;
            let end = token.span.end as usize;
            assert!(start < end && end <= src.len());
            assert_eq!(&src[start..end], token.src);
            assert!(last_end <= token.span.start);
            assert!(last_place <= (token.start.line, token.start.column));
            last_end = token.span.end;
            last_place = (token.end.line, token.end.column);
        }
        let again = CarbideLexer::from_src(&src).lex();
        assert_eq!(again.tokens, result.tokens);
        assert_eq!(again.errors, result.errors);
        for error in result.errors.iter() {
            assert!(error.code().0 < 1000);
            assert!(error.report("sample.cb", &src).is_ok());
        }
        let count = result.tokens.len();
        let parsed = carbide::parser::CarbideParser::new(result.tokens).parse();
        assert!(parsed.ast.len() + parsed.errors.len() <= count);
        for error in parsed.errors.iter() {
            assert!(error.code().0 >= 1000);
            assert!(error.report("sample.cb", &src).is_ok());
        }
    }
}
