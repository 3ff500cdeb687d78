use carbide::codes::{ErrCode, E0003, E1042};
use carbide::cursor::SourceLocation;
use carbide::error::{CarbideError, ErrorSpan, LabelColor, ReportData};
use carbide::lex_errors::{usize_from, CarbideLexerError};
use carbide::lexer::CarbideLexer;
use carbide::parse_errors::CarbideParserError;
use carbide::parser::CarbideParser;
use carbide::reporter::ErrorReporter;

fn loc(line: u64, column: u64, offset: u64) -> SourceLocation {
    SourceLocation { line, column, offset }
}

fn spans(report: &ReportData) -> Vec<(usize, usize, LabelColor, String)> {
    report
        .labels
        .iter()
        .map(|l| (l.span.start(), l.span.end(), l.color, l.message.clone()))
        .collect()
}

#[test]
fn codes_are_shown_in_four_digits() {
    assert_eq!(ErrCode(0).to_string(), "E0000");
    assert_eq!(ErrCode(E0003).to_string(), "E0003");
    assert_eq!(ErrCode(E1042).to_string(), "E1042");
    assert_eq!(ErrCode(123456).to_string(), "E123456");
    assert_eq!(loc(12, 345, 6).to_string(), "12:345");
}

#[test]
fn a_span_never_ends_before_it_starts() {
    let span = ErrorSpan::new("a.cb", 5, 3);
    assert_eq!((span.start(), span.end()), (5, 5));
    assert_eq!(span.source(), "a.cb");
    let span = ErrorSpan::new("a.cb", 3, 5);
    assert_eq!((span.start(), span.end()), (3, 5));
    assert_eq!(span.clone(), span);
}

#[test]
fn a_character_report_spans_the_character() {
    let error = CarbideLexerError::NonASCIIChar('\u{4e16}', loc(1, 5, 4));
    let report = error.report("a.cb", "let \u{4e16} = 1;").expect("a report");
    assert_eq!(report.code, "E0001");
    assert_eq!(report.message, "Non ASCII char `\u{4e16}` at [1:5]");
    assert_eq!((report.span.start(), report.span.end()), (4, 7));
    assert_eq!(report.span.source(), "a.cb");
    assert_eq!(
        spans(&report),
        vec![(4, 7, LabelColor::BrightRed, "Remove '\u{4e16}'".to_string())]
    );
    assert_eq!(
        report.help.as_deref(),
        Some("Only ASCII characters are allowed in source code")
    );
    assert_eq!(report.note, None);

    let error = CarbideLexerError::UnexpectedChar('@', loc(1, 9, 8));
    let report = error.report("a.cb", "let x = @ 5;").expect("a report");
    assert_eq!(
        spans(&report),
        vec![(8, 9, LabelColor::BrightRed, "Remove '@'".to_string())]
    );
    assert_eq!(
        report.help.as_deref(),
        Some("This character is not valid in this context")
    );
}

#[test]
fn an_unclosed_string_report_points_at_the_end_of_the_line() {
    let src = "let s = \"abc\nlet t = 1;";
    let errors = CarbideLexer::from_src(src).lex().errors;
    assert_eq!(errors, vec![CarbideLexerError::UnclosedString(loc(1, 9, 8))]);
    let report = errors[0].report("a.cb", src).expect("a report");
    assert_eq!(report.code, "E0004");
    assert_eq!(
        spans(&report),
        vec![
            (8, 9, LabelColor::BrightRed, "String starts here".to_string()),
            (12, 13, LabelColor::Green, "Add closing \" here".to_string()),
        ]
    );
    let report = errors[0].report("a.cb", "let s = \"abc").expect("a report");
    assert_eq!(spans(&report)[1].0, 12);
    let report = errors[0].report("a.cb", "short").expect("a report");
    assert_eq!(spans(&report)[1].0, 5);
}

#[test]
fn the_other_scanner_reports() {
    let src = "let /* x";
    let error = CarbideLexerError::UnclosedComment(loc(1, 5, 4));
    let report = error.report("a.cb", src).expect("a report");
    assert_eq!(report.code, "E0000");
    assert_eq!(
        spans(&report),
        vec![
            (4, 6, LabelColor::BrightRed, "Block comment starts here".to_string()),
            (8, 8, LabelColor::Green, "Add '*/' here".to_string()),
        ]
    );
    assert_eq!(
        report.help.as_deref(),
        Some("Block comments must be closed with '*/'")
    );

    let error = CarbideLexerError::InvalidHexLiteral("0x".to_string(), loc(1, 1, 0));
    let report = error.report("a.cb", "0x").expect("a report");
    assert_eq!(
        spans(&report),
        vec![(0, 2, LabelColor::BrightRed, "Add hex digits after '0x'".to_string())]
    );
    assert_eq!(
        report.help.as_deref(),
        Some("Hex literals must have at least one digit (0-9, a-f, A-F)")
    );
    assert_eq!(report.note, None);

    let error = CarbideLexerError::InvalidBinaryLiteral("0b".to_string(), loc(1, 3, 2));
    let report = error.report("a.cb", "  0b").expect("a report");
    assert_eq!(
        spans(&report),
        vec![(2, 4, LabelColor::BrightRed, "Add binary digits after '0b'".to_string())]
    );
    assert_eq!(
        report.note.as_deref(),
        Some("Examples: 0b1010, 0b11111111, 0b0")
    );

    let error = CarbideLexerError::UnmatchedBrace(loc(1, 1, 0));
    let report = error.report("a.cb", "\"{\"").expect("a report");
    assert_eq!(
        spans(&report),
        vec![(0, 1, LabelColor::BrightRed, "Add closing '}' for this '{'".to_string())]
    );
    assert_eq!(
        report.note.as_deref(),
        Some("String interpolation syntax: \"Hello {name}\"")
    );

    let error = CarbideLexerError::UnexpectedEOF(loc(1, 1, 0));
    let report = error.report("a.cb", "").expect("a report");
    assert_eq!(
        spans(&report),
        vec![(0, 0, LabelColor::BrightRed, "File ends unexpectedly here".to_string())]
    );
    let error = CarbideLexerError::UnexpectedEOF(loc(1, 4, 3));
    let report = error.report("a.cb", "abc").expect("a report");
    assert_eq!((report.span.start(), report.span.end()), (2, 3));

    let error = CarbideLexerError::InvalidFloatLiteral("1.2".to_string(), loc(1, 1, 0));
    let report = error.report("a.cb", "1.2").expect("a report");
    assert_eq!(
        spans(&report),
        vec![(0, 3, LabelColor::BrightRed, "Fix the float format".to_string())]
    );
    assert_eq!(report.note.as_deref(), Some("Valid examples: 3.14, 0.5, 1.0"));

    let error = CarbideLexerError::InvalidIntegerLiteral("99".to_string(), loc(1, 2, 1));
    let report = error.report("a.cb", " 99").expect("a report");
    assert_eq!(
        spans(&report),
        vec![(1, 3, LabelColor::BrightRed, "Fix the integer format".to_string())]
    );
    assert_eq!(
        report.help.as_deref(),
        Some("Integer is too large or has invalid characters")
    );
    assert_eq!(report.note.as_deref(), Some("Valid examples: 42, 0, 123"));

    let error = CarbideLexerError::CastKeywordFailed("x".to_string());
    let report = error.report("a.cb", "x").expect("a report");
    assert_eq!(
        spans(&report),
        vec![(0, 1, LabelColor::BrightRed, "Error occurred here".to_string())]
    );
    assert_eq!(report.help, None);
    assert_eq!(report.message, "Failed to cast `x` as a keyword");
}

#[test]
fn offsets_are_used_as_they_fit() {
    assert_eq!(usize_from(17), Ok(17));
    let error = CarbideLexerError::UnexpectedChar('@', loc(1, 1, u64::MAX));
    match usize::try_from(u64::MAX) {
        Ok(offset) => {
            let report = error.report("a.cb", "@").expect("a report");
            assert_eq!((report.span.start(), report.span.end()), (offset, usize::MAX));
        }
        Err(_) => {
            let failure = error.report("a.cb", "@").expect_err("no report");
            assert_eq!(
                failure.message(),
                format!(
                    "Failed to cast `{}` as `usize`: {:#?}",
                    u64::MAX,
                    usize::try_from(u64::MAX).unwrap_err()
                )
            );
        }
    }
}

#[test]
fn parser_reports() {
    let src = "let x = 5 3;";
    let tokens = CarbideLexer::from_src(src).lex().tokens;
    let result = CarbideParser::new(tokens).parse();
    assert_eq!(result.errors.len(), 1);
    let report = result.errors[0].report("a.cb", src).expect("a report");
    assert_eq!(report.code, "E1002");
    assert_eq!(report.message, "Unexpected token `3`");
    assert_eq!(
        spans(&report),
        vec![(10, 11, LabelColor::BrightRed, "Expected `;` here".to_string())]
    );
    assert_eq!(
        report.note.as_deref(),
        Some("Found token of type `IntLiteral(3)`")
    );
    assert_eq!(
        report.help.as_deref(),
        Some("Check for missing operators, delimiters, or keywords.")
    );

    let src = "5 = 3;";
    let error = CarbideParserError::InvalidAssignmentTarget(loc(1, 2, 1));
    let report = error.report("a.cb", src).expect("a report");
    assert_eq!(report.code, "E1030");
    assert_eq!(report.message, "Invalid assignment target");
    assert_eq!(
        spans(&report),
        vec![(0, 1, LabelColor::BrightRed, "`5` cannot be assigned to".to_string())]
    );
    assert_eq!(
        report.note.as_deref(),
        Some("Only variables or properties can be assigned.")
    );
    let report = error.report("a.cb", "\u{e9} = 3;").expect("a report");
    assert_eq!(spans(&report)[0].3, "`` cannot be assigned to");
    let report = error.report("a.cb", "").expect("a report");
    assert_eq!(spans(&report)[0].3, "`` cannot be assigned to");

    let error = CarbideParserError::UnexpectedEOF(loc(1, 6, 5));
    let report = error.report("a.cb", "fn f(").expect("a report");
    assert_eq!(report.message, "Unexpected end of file");
    assert_eq!(
        spans(&report),
        vec![(
            4,
            5,
            LabelColor::BrightRed,
            "File ended here, but more code was expected".to_string()
        )]
    );
    assert_eq!(
        report.note.as_deref(),
        Some("Try closing unclosed blocks, strings, or parentheses.")
    );

    let error = CarbideParserError::ExpectedExpression(loc(1, 1, 0));
    let report = error.report("a.cb", "").expect("a report");
    assert_eq!(report.message, "Expected expression");
    assert_eq!(
        spans(&report),
        vec![(0, 0, LabelColor::BrightRed, "An expression is missing here".to_string())]
    );

    let error = CarbideParserError::TooManyArguments(loc(1, 3, 2));
    let report = error.report("a.cb", "f(").expect("a report");
    assert_eq!(report.message, "Too many arguments in function call");
    assert_eq!(
        spans(&report),
        vec![(1, 2, LabelColor::BrightRed, "Exceeded allowed limit".to_string())]
    );
    assert_eq!(report.note, None);

    let error = CarbideParserError::BreakOutsideLoop(loc(1, 3, 2));
    let report = error.report("a.cb", "ab").expect("a report");
    assert_eq!(report.message, "`break` outside of loop");
    assert_eq!(spans(&report)[0].3, "Not allowed in this context");
    assert_eq!(
        report.help.as_deref(),
        Some("`break` can only appear inside a loop.")
    );

    let error = CarbideParserError::CastFailed("9".to_string(), "usize".to_string());
    let report = error.report("a.cb", "ab").expect("a report");
    assert_eq!(report.code, "E1000");
    assert_eq!(report.message, "Cast `9` as `usize` failed!");
    assert_eq!(
        spans(&report),
        vec![(0, 1, LabelColor::BrightRed, "Error occurred here".to_string())]
    );
    assert_eq!(report.help, None);
}

#[test]
fn an_expected_identifier_report_shows_what_was_found() {
    let tokens = CarbideLexer::from_src("let 12").lex().tokens;
    let error = CarbideParserError::ExpectedIdentifier(tokens[1].clone());
    let report = error.report("a.cb", "let 12").expect("a report");
    assert_eq!(report.code, "E1010");
    assert_eq!(report.message, "Expected identifier");
    assert_eq!(
        spans(&report),
        vec![(4, 6, LabelColor::BrightRed, "Found `12` instead".to_string())]
    );
}

#[test]
fn the_reporter_keeps_one_text_per_name() {
    let mut reporter = ErrorReporter::new();
    assert_eq!(reporter.source("a.cb"), "");
    reporter.add_source("a.cb", "let s = \"abc\nx");
    reporter.add_source("b.cb", "other");
    assert_eq!(reporter.source("a.cb"), "let s = \"abc\nx");
    assert_eq!(reporter.source("b.cb"), "other");
    reporter.add_source("a.cb", "let s = \"abcdef");
    assert_eq!(reporter.source("a.cb"), "let s = \"abcdef");
    assert_eq!(reporter.source("b.cb"), "other");
    assert_eq!(ErrorReporter::default().source("a.cb"), "");

    let error = CarbideLexerError::UnclosedString(loc(1, 9, 8));
    let report = reporter.build_report("a.cb", &error).expect("a report");
    assert_eq!(spans(&report)[1].0, 15);
    let report = reporter.build_report("missing.cb", &error).expect("a report");
    assert_eq!(spans(&report)[1].0, 0);
    assert_eq!(report.span.source(), "missing.cb");

    let errors = vec![
        CarbideLexerError::UnclosedString(loc(1, 9, 8)),
        CarbideLexerError::UnexpectedChar('@', loc(1, 2, 1)),
    ];
    let reports = reporter.build_reports("a.cb", &errors).expect("reports");
    assert_eq!(reports.len(), 2);
    assert_eq!(reports[0].code, "E0004");
    assert_eq!(reports[1].code, "E0003");
}
