//! The diagnostics of the parser.

use crate::codes::{
    ErrCode, E1000, E1001, E1002, E1010, E1011, E1020, E1021, E1030, E1040, E1041, E1042,
};
use crate::cursor::{byte_len, SourceLocation};
use crate::error::{span_of, CarbideError, ErrorSpan, ErrorSpanView, ReportData, ReportView};
use crate::lex_errors::{labelled_report, plain_at, report_with_label};
use crate::text::{decimal, decimal_string, push_text};
use crate::tokens::{Token, TokenView};
use vstd::prelude::*;
use vstd::string::StringSliceAdditionalSpecFns;
use vstd::utf8::{decode_utf8, encode_utf8, encode_utf8_decode_utf8, is_char_boundary};

verus! {

/// What can go wrong while parsing.
#[derive(Debug, PartialEq)]
pub enum CarbideParserError<'a> {
    /// The tokens ended where more were needed.
    UnexpectedEOF(SourceLocation),
    /// A token other than the one that was needed.
    UnexpectedToken { expected: String, found: Token<'a> },
    /// A token where an identifier was needed.
    ExpectedIdentifier(Token<'a>),
    /// No expression where one was needed.
    ExpectedExpression(SourceLocation),
    /// The left side of an assignment cannot be assigned to.
    InvalidAssignmentTarget(SourceLocation),
    /// A function declaration with too many parameters.
    TooManyParameters(SourceLocation),
    /// A call with too many arguments.
    TooManyArguments(SourceLocation),
    /// `break` outside a loop.
    BreakOutsideLoop(SourceLocation),
    /// `continue` outside a loop.
    ContinueOutsideLoop(SourceLocation),
    /// `return` outside a function.
    ReturnOutsideFunction(SourceLocation),
    /// A number that does not fit the integer type it is to be held in.
    CastFailed(String, String),
}

/// The mathematical value of a [`CarbideParserError`].
pub enum ParserErrorView {
    UnexpectedEOF(SourceLocation),
    UnexpectedToken { expected: Seq<char>, found: TokenView },
    ExpectedIdentifier(TokenView),
    ExpectedExpression(SourceLocation),
    InvalidAssignmentTarget(SourceLocation),
    TooManyParameters(SourceLocation),
    TooManyArguments(SourceLocation),
    BreakOutsideLoop(SourceLocation),
    ContinueOutsideLoop(SourceLocation),
    ReturnOutsideFunction(SourceLocation),
    CastFailed(Seq<char>, Seq<char>),
}

impl View for CarbideParserError<'_> {
    type V = ParserErrorView;

    open spec fn view(&self) -> ParserErrorView {
        match self {
            CarbideParserError::UnexpectedEOF(l) => ParserErrorView::UnexpectedEOF(*l),
            CarbideParserError::UnexpectedToken { expected, found } => {
                ParserErrorView::UnexpectedToken { expected: expected@, found: found@ }
            },
            CarbideParserError::ExpectedIdentifier(t) => ParserErrorView::ExpectedIdentifier(t@),
            CarbideParserError::ExpectedExpression(l) => ParserErrorView::ExpectedExpression(*l),
            CarbideParserError::InvalidAssignmentTarget(l) => {
                ParserErrorView::InvalidAssignmentTarget(*l)
            },
            CarbideParserError::TooManyParameters(l) => ParserErrorView::TooManyParameters(*l),
            CarbideParserError::TooManyArguments(l) => ParserErrorView::TooManyArguments(*l),
            CarbideParserError::BreakOutsideLoop(l) => ParserErrorView::BreakOutsideLoop(*l),
            CarbideParserError::ContinueOutsideLoop(l) => ParserErrorView::ContinueOutsideLoop(*l),
            CarbideParserError::ReturnOutsideFunction(l) => ParserErrorView::ReturnOutsideFunction(
                *l,
            ),
            CarbideParserError::CastFailed(v, t) => ParserErrorView::CastFailed(v@, t@),
        }
    }
}

impl<'a> Clone for CarbideParserError<'a> {
    fn clone(&self) -> (r: Self)
        ensures
            r@ == self@,
    {
        match self {
            CarbideParserError::UnexpectedEOF(l) => CarbideParserError::UnexpectedEOF(*l),
            CarbideParserError::UnexpectedToken { expected, found } => {
                CarbideParserError::UnexpectedToken {
                    expected: expected.clone(),
                    found: found.clone(),
                }
            },
            CarbideParserError::ExpectedIdentifier(t) => CarbideParserError::ExpectedIdentifier(
                t.clone(),
            ),
            CarbideParserError::ExpectedExpression(l) => CarbideParserError::ExpectedExpression(*l),
            CarbideParserError::InvalidAssignmentTarget(l) => {
                CarbideParserError::InvalidAssignmentTarget(*l)
            },
            CarbideParserError::TooManyParameters(l) => CarbideParserError::TooManyParameters(*l),
            CarbideParserError::TooManyArguments(l) => CarbideParserError::TooManyArguments(*l),
            CarbideParserError::BreakOutsideLoop(l) => CarbideParserError::BreakOutsideLoop(*l),
            CarbideParserError::ContinueOutsideLoop(l) => CarbideParserError::ContinueOutsideLoop(
                *l,
            ),
            CarbideParserError::ReturnOutsideFunction(l) => {
                CarbideParserError::ReturnOutsideFunction(*l)
            },
            CarbideParserError::CastFailed(v, t) => CarbideParserError::CastFailed(
                v.clone(),
                t.clone(),
            ),
        }
    }
}

/// The values of a sequence of boxed parser diagnostics.
pub open spec fn failures_view(errors: Seq<Box<CarbideParserError<'_>>>) -> Seq<ParserErrorView> {
    Seq::new(errors.len(), |i: int| errors[i]@)
}

/// A copy of a list of boxed parser diagnostics.
pub fn clone_failures<'a>(errors: &Vec<Box<CarbideParserError<'a>>>) -> (r: Vec<
    Box<CarbideParserError<'a>>,
>)
    ensures
        failures_view(r@) == failures_view(errors@),
{
    let mut list: Vec<Box<CarbideParserError<'a>>> = Vec::new();
    let mut i: usize = 0;
    while i < errors.len()
        invariant
            i <= errors.len(),
            list.len() == i,
            forall|k: int| 0 <= k < i ==> list[k]@ == errors[k]@,
        decreases errors.len() - i,
    {
        let copy: CarbideParserError<'a> = (*errors[i]).clone();
        list.push(Box::new(copy));
        i += 1;
    }
    assert(failures_view(list@) =~= failures_view(errors@));
    list
}

/// `n` as a `usize`, held at `usize::MAX` where it does not fit.
pub open spec fn clamp_usize(n: u64) -> usize {
    if n > usize::MAX {
        usize::MAX
    } else {
        n as usize
    }
}

/// The text of `src` between the byte offsets `start` and `end`, or the
/// empty text where they do not cut out whole characters of `src`.
pub open spec fn snippet(src: Seq<char>, start: int, end: int) -> Seq<char> {
    let bytes = encode_utf8(src);
    if 0 <= start <= end <= bytes.len() && is_char_boundary(bytes, start) && is_char_boundary(
        bytes,
        end,
    ) {
        decode_utf8(bytes.subrange(start, end))
    } else {
        Seq::empty()
    }
}

/// The one-byte span that ends at `offset`.
pub open spec fn span_before(file: Seq<char>, offset: usize) -> ErrorSpanView {
    span_of(
        file,
        if offset == 0 {
            0
        } else {
            offset - 1
        },
        offset as int,
    )
}

/// The span of a token.
pub open spec fn span_of_token(file: Seq<char>, t: TokenView) -> ErrorSpanView {
    span_of(file, clamp_usize(t.span.start) as int, clamp_usize(t.span.end) as int)
}

impl ParserErrorView {
    /// The location that the diagnostic is anchored at, where it holds one.
    pub open spec fn location(self) -> Option<SourceLocation> {
        match self {
            ParserErrorView::UnexpectedEOF(l) => Some(l),
            ParserErrorView::ExpectedExpression(l) => Some(l),
            ParserErrorView::InvalidAssignmentTarget(l) => Some(l),
            ParserErrorView::TooManyParameters(l) => Some(l),
            ParserErrorView::TooManyArguments(l) => Some(l),
            ParserErrorView::BreakOutsideLoop(l) => Some(l),
            ParserErrorView::ContinueOutsideLoop(l) => Some(l),
            ParserErrorView::ReturnOutsideFunction(l) => Some(l),
            _ => None,
        }
    }

    /// The stable code.
    pub open spec fn code(self) -> ErrCode {
        match self {
            ParserErrorView::UnexpectedEOF(_) => ErrCode(E1001),
            ParserErrorView::UnexpectedToken { .. } => ErrCode(E1002),
            ParserErrorView::ExpectedIdentifier(_) => ErrCode(E1010),
            ParserErrorView::ExpectedExpression(_) => ErrCode(E1011),
            ParserErrorView::TooManyParameters(_) => ErrCode(E1020),
            ParserErrorView::TooManyArguments(_) => ErrCode(E1021),
            ParserErrorView::InvalidAssignmentTarget(_) => ErrCode(E1030),
            ParserErrorView::BreakOutsideLoop(_) => ErrCode(E1040),
            ParserErrorView::ContinueOutsideLoop(_) => ErrCode(E1041),
            ParserErrorView::ReturnOutsideFunction(_) => ErrCode(E1042),
            ParserErrorView::CastFailed(_, _) => ErrCode(E1000),
        }
    }

    /// The message.
    pub open spec fn message(self) -> Seq<char> {
        match self {
            ParserErrorView::UnexpectedEOF(l) => plain_at("Unexpected end of file at ["@, l),
            ParserErrorView::UnexpectedToken { expected, found } => "Expected "@ + expected
                + ", but found "@ + found.text(),
            ParserErrorView::ExpectedIdentifier(t) => "Expected identifier, but found "@
                + t.text(),
            ParserErrorView::ExpectedExpression(l) => plain_at("Expected expression at ["@, l),
            ParserErrorView::InvalidAssignmentTarget(l) => plain_at(
                "Invalid assignment target at ["@,
                l,
            ),
            ParserErrorView::TooManyParameters(l) => plain_at(
                "Too many parameters in function declaration at ["@,
                l,
            ),
            ParserErrorView::TooManyArguments(l) => plain_at(
                "Too many arguments in function call at ["@,
                l,
            ),
            ParserErrorView::BreakOutsideLoop(l) => plain_at(
                "Break statement outside of loop at ["@,
                l,
            ),
            ParserErrorView::ContinueOutsideLoop(l) => plain_at(
                "Continue statement outside of loop at ["@,
                l,
            ),
            ParserErrorView::ReturnOutsideFunction(l) => plain_at(
                "Return statement outside of function at ["@,
                l,
            ),
            ParserErrorView::CastFailed(v, t) => "Cast `"@ + v + "` as `"@ + t + "` failed!"@,
        }
    }

    /// The advice, if any.
    pub open spec fn help(self) -> Option<Seq<char>> {
        match self {
            ParserErrorView::UnexpectedEOF(_) => Some(
                "Try closing any unclosed parentheses, braces, or quotes."@,
            ),
            ParserErrorView::UnexpectedToken { .. } => Some(
                "Check for missing operators, delimiters, or keywords."@,
            ),
            ParserErrorView::ExpectedIdentifier(_) => Some(
                "Identifiers must start with a letter or underscore."@,
            ),
            ParserErrorView::ExpectedExpression(_) => Some(
                "You might have forgotten to include a value or expression."@,
            ),
            ParserErrorView::InvalidAssignmentTarget(_) => Some(
                "Only variables or fields can appear on the left side of an assignment."@,
            ),
            ParserErrorView::TooManyParameters(_) => Some(
                "Reduce the number of parameters to fit within the allowed limit."@,
            ),
            ParserErrorView::TooManyArguments(_) => Some(
                "Reduce the number of arguments to match the function signature."@,
            ),
            ParserErrorView::BreakOutsideLoop(_) => Some("`break` can only appear inside a loop."@),
            ParserErrorView::ContinueOutsideLoop(_) => Some(
                "`continue` can only appear inside a loop."@,
            ),
            ParserErrorView::ReturnOutsideFunction(_) => Some(
                "`return` can only appear inside a function."@,
            ),
            ParserErrorView::CastFailed(_, _) => None,
        }
    }

    /// The headline of the report.
    pub open spec fn headline(self) -> Seq<char> {
        match self {
            ParserErrorView::UnexpectedEOF(_) => "Unexpected end of file"@,
            ParserErrorView::UnexpectedToken { expected, found } => "Unexpected token `"@
                + found.src + seq!['`'],
            ParserErrorView::ExpectedIdentifier(_) => "Expected identifier"@,
            ParserErrorView::ExpectedExpression(_) => "Expected expression"@,
            ParserErrorView::InvalidAssignmentTarget(_) => "Invalid assignment target"@,
            ParserErrorView::TooManyParameters(_) => "Too many parameters in function declaration"@,
            ParserErrorView::TooManyArguments(_) => "Too many arguments in function call"@,
            ParserErrorView::BreakOutsideLoop(_) => "`break` outside of loop"@,
            ParserErrorView::ContinueOutsideLoop(_) => "`continue` outside of loop"@,
            ParserErrorView::ReturnOutsideFunction(_) => "`return` outside of function"@,
            ParserErrorView::CastFailed(_, _) => self.message(),
        }
    }

    /// The primary span of the report, given that the diagnostic's offset
    /// fits `usize`.
    pub open spec fn span(self, file: Seq<char>) -> ErrorSpanView {
        match self {
            ParserErrorView::UnexpectedToken { expected, found } => span_of_token(file, found),
            ParserErrorView::ExpectedIdentifier(found) => span_of_token(file, found),
            ParserErrorView::CastFailed(_, _) => span_of(file, 0, 1),
            _ => span_before(file, self.location().unwrap().offset as usize),
        }
    }

    /// The label on the primary span.
    pub open spec fn label(self, file: Seq<char>, src: Seq<char>) -> Seq<char> {
        match self {
            ParserErrorView::UnexpectedEOF(_) => "File ended here, but more code was expected"@,
            ParserErrorView::UnexpectedToken { expected, found } => "Expected `"@ + expected
                + "` here"@,
            ParserErrorView::ExpectedIdentifier(found) => "Found `"@ + found.src + "` instead"@,
            ParserErrorView::ExpectedExpression(_) => "An expression is missing here"@,
            ParserErrorView::InvalidAssignmentTarget(_) => seq!['`'] + snippet(
                src,
                self.span(file).start as int,
                if self.span(file).end as int <= encode_utf8(src).len() {
                    self.span(file).end as int
                } else {
                    encode_utf8(src).len() as int
                },
            ) + "` cannot be assigned to"@,
            ParserErrorView::TooManyParameters(_) => "Exceeded allowed limit"@,
            ParserErrorView::TooManyArguments(_) => "Exceeded allowed limit"@,
            ParserErrorView::BreakOutsideLoop(_) => "Not allowed in this context"@,
            ParserErrorView::ContinueOutsideLoop(_) => "Not allowed in this context"@,
            ParserErrorView::ReturnOutsideFunction(_) => "Not allowed in this context"@,
            ParserErrorView::CastFailed(_, _) => "Error occurred here"@,
        }
    }

    /// The further remark of the report, if any.
    pub open spec fn note(self) -> Option<Seq<char>> {
        match self {
            ParserErrorView::UnexpectedEOF(_) => Some(
                "Try closing unclosed blocks, strings, or parentheses."@,
            ),
            ParserErrorView::UnexpectedToken { expected, found } => Some(
                "Found token of type `"@ + found.token_type.describe() + seq!['`'],
            ),
            ParserErrorView::ExpectedIdentifier(_) => Some(
                "Identifiers must start with a letter or underscore."@,
            ),
            ParserErrorView::ExpectedExpression(_) => Some(
                "Try adding a value, literal, or variable."@,
            ),
            ParserErrorView::InvalidAssignmentTarget(_) => Some(
                "Only variables or properties can be assigned."@,
            ),
            _ => None,
        }
    }

    /// The report, or `None` where the diagnostic's offset does not fit
    /// `usize`.
    pub open spec fn report(self, file: Seq<char>, src: Seq<char>) -> Option<ReportView> {
        if self.location() matches Some(l) && l.offset > usize::MAX {
            None
        } else {
            Some(
                report_with_label(
                    self.code(),
                    self.headline(),
                    self.span(file),
                    self.label(file, src),
                    self.help(),
                    self.note(),
                ),
            )
        }
    }
}

/// The codes of the two stages lie in ranges apart: every scanner code is
/// below 1000, every parser code from 1000 on.
pub proof fn lemma_codes_of_stages_differ(
    scanner: crate::lex_errors::LexerErrorView,
    parser: ParserErrorView,
)
    ensures
        scanner.code().is_lexer_code(),
        parser.code().is_parser_code(),
        scanner.code() != parser.code(),
{
}

/// `n` as a `usize`, held at `usize::MAX` where it does not fit.
pub fn clamped(n: u64) -> (r: usize)
    ensures
        r == clamp_usize(n),
{
    match usize::try_from(n) {
        Ok(v) => v,
        Err(_) => usize::MAX,
    }
}

/// The text of `src` between the byte offsets `start` and `end`, or the
/// empty text where they do not cut out whole characters of `src`.
pub fn take_snippet<'s>(src: &'s str, start: usize, end: usize) -> (r: &'s str)
    ensures
        r@ == snippet(src@, start as int, end as int),
{
    let len = byte_len(src);
    if start <= end && end <= len && src.is_char_boundary(start) && src.is_char_boundary(end) {
        let (head, _) = src.split_at(end);
        proof {
            vstd::utf8::encode_utf8_valid_utf8(src@);
            vstd::utf8::valid_utf8_split(src.spec_bytes(), end as int);
            assert(head.spec_bytes() =~= src.spec_bytes().subrange(0, end as int));
            lemma_boundary_of_prefix(src.spec_bytes(), start as int, end as int);
        }
        let (_, piece) = head.split_at(start);
        proof {
            assert(piece.spec_bytes() =~= src.spec_bytes().subrange(start as int, end as int));
            encode_utf8_decode_utf8(piece@);
        }
        piece
    } else {
        proof {
            reveal_strlit("");
        }
        ""
    }
}

/// A character boundary of a text is one of each of its prefixes that
/// reaches it and ends at a boundary itself.
proof fn lemma_boundary_of_prefix(bytes: Seq<u8>, start: int, end: int)
    requires
        vstd::utf8::valid_utf8(bytes),
        0 <= start <= end <= bytes.len(),
        is_char_boundary(bytes, start),
        is_char_boundary(bytes, end),
    ensures
        is_char_boundary(bytes.subrange(0, end), start),
{
    vstd::utf8::valid_utf8_split(bytes, end);
    let head = bytes.subrange(0, end);
    if start == end {
        vstd::utf8::is_char_boundary_start_end_of_seq(head);
    } else {
        vstd::utf8::is_char_boundary_iff_not_is_continuation_byte(bytes, start);
        vstd::utf8::is_char_boundary_iff_not_is_continuation_byte(head, start);
    }
}

/// The message `head` and the location.
fn located_message(head: &str, loc: &SourceLocation) -> (m: String)
    ensures
        m@ == plain_at(head@, *loc),
{
    let mut out = head.to_owned();
    let shown = loc.to_string();
    push_text(&mut out, shown.as_str());
    out.push(']');
    assert(out@ =~= plain_at(head@, *loc));
    out
}

/// The text `head`, `body`, `tail`.
fn framed(head: &str, body: &str, tail: &str) -> (m: String)
    ensures
        m@ == head@ + body@ + tail@,
{
    let mut out = head.to_owned();
    push_text(&mut out, body);
    push_text(&mut out, tail);
    out
}

/// The span of a token.
fn token_span(file: &str, found: &Token<'_>) -> (s: ErrorSpan)
    ensures
        s@ == span_of_token(file@, found@),
{
    ErrorSpan::new(file, clamped(found.span.start), clamped(found.span.end))
}

impl<'a> CarbideParserError<'a> {
    /// The location that the diagnostic is anchored at, where it holds one.
    pub fn location(&self) -> (r: Option<SourceLocation>)
        ensures
            r == self@.location(),
    {
        match self {
            CarbideParserError::UnexpectedEOF(l) => Some(*l),
            CarbideParserError::ExpectedExpression(l) => Some(*l),
            CarbideParserError::InvalidAssignmentTarget(l) => Some(*l),
            CarbideParserError::TooManyParameters(l) => Some(*l),
            CarbideParserError::TooManyArguments(l) => Some(*l),
            CarbideParserError::BreakOutsideLoop(l) => Some(*l),
            CarbideParserError::ContinueOutsideLoop(l) => Some(*l),
            CarbideParserError::ReturnOutsideFunction(l) => Some(*l),
            _ => None,
        }
    }

    /// The headline of the report.
    fn headline(&self) -> (m: String)
        ensures
            m@ == self@.headline(),
    {
        match self {
            CarbideParserError::UnexpectedEOF(_) => "Unexpected end of file".to_owned(),
            CarbideParserError::UnexpectedToken { expected, found } => {
                let mut out = "Unexpected token `".to_owned();
                push_text(&mut out, found.src);
                out.push('`');
                assert(out@ =~= self@.headline());
                out
            },
            CarbideParserError::ExpectedIdentifier(_) => "Expected identifier".to_owned(),
            CarbideParserError::ExpectedExpression(_) => "Expected expression".to_owned(),
            CarbideParserError::InvalidAssignmentTarget(_) => {
                "Invalid assignment target".to_owned()
            },
            CarbideParserError::TooManyParameters(_) => {
                "Too many parameters in function declaration".to_owned()
            },
            CarbideParserError::TooManyArguments(_) => {
                "Too many arguments in function call".to_owned()
            },
            CarbideParserError::BreakOutsideLoop(_) => "`break` outside of loop".to_owned(),
            CarbideParserError::ContinueOutsideLoop(_) => "`continue` outside of loop".to_owned(),
            CarbideParserError::ReturnOutsideFunction(_) => {
                "`return` outside of function".to_owned()
            },
            CarbideParserError::CastFailed(_, _) => self.message(),
        }
    }

    /// The primary span of the report. `offset` is the offset of the
    /// diagnostic's location, where it holds one.
    fn span(&self, file: &str, offset: usize) -> (s: ErrorSpan)
        requires
            self@.location() matches Some(l) ==> l.offset == offset,
        ensures
            s@ == self@.span(file@),
    {
        match self {
            CarbideParserError::UnexpectedToken { expected, found } => token_span(file, found),
            CarbideParserError::ExpectedIdentifier(found) => token_span(file, found),
            CarbideParserError::CastFailed(_, _) => ErrorSpan::new(file, 0, 1),
            _ => ErrorSpan::new(file, offset.saturating_sub(1), offset),
        }
    }

    /// The label on the primary span `span`.
    fn label(&self, span: &ErrorSpan, src: &str) -> (m: String)
        requires
            span@ == self@.span(span@.source_id),
        ensures
            m@ == self@.label(span@.source_id, src@),
    {
        match self {
            CarbideParserError::UnexpectedEOF(_) => {
                "File ended here, but more code was expected".to_owned()
            },
            CarbideParserError::UnexpectedToken { expected, found } => framed(
                "Expected `",
                expected.as_str(),
                "` here",
            ),
            CarbideParserError::ExpectedIdentifier(found) => framed(
                "Found `",
                found.src,
                "` instead",
            ),
            CarbideParserError::ExpectedExpression(_) => {
                "An expression is missing here".to_owned()
            },
            CarbideParserError::InvalidAssignmentTarget(_) => {
                let len = byte_len(src);
                let end = if span.end() <= len {
                    span.end()
                } else {
                    len
                };
                let mut out = String::new();
                out.push('`');
                push_text(&mut out, take_snippet(src, span.start(), end));
                push_text(&mut out, "` cannot be assigned to");
                assert(out@ =~= self@.label(span@.source_id, src@));
                out
            },
            CarbideParserError::TooManyParameters(_) | CarbideParserError::TooManyArguments(_) => {
                "Exceeded allowed limit".to_owned()
            },
            CarbideParserError::BreakOutsideLoop(_)
            | CarbideParserError::ContinueOutsideLoop(_)
            | CarbideParserError::ReturnOutsideFunction(_) => {
                "Not allowed in this context".to_owned()
            },
            CarbideParserError::CastFailed(_, _) => "Error occurred here".to_owned(),
        }
    }

    /// The further remark of the report, if any.
    fn note(&self) -> (r: Option<String>)
        ensures
            crate::error::option_text(r) == self@.note(),
    {
        match self {
            CarbideParserError::UnexpectedEOF(_) => Some(
                "Try closing unclosed blocks, strings, or parentheses.".to_owned(),
            ),
            CarbideParserError::UnexpectedToken { expected, found } => {
                let kind = found.token_type.describe();
                let mut out = "Found token of type `".to_owned();
                push_text(&mut out, kind.as_str());
                out.push('`');
                assert(out@ =~= "Found token of type `"@ + found@.token_type.describe() + seq![
                    '`',
                ]);
                Some(out)
            },
            CarbideParserError::ExpectedIdentifier(_) => Some(
                "Identifiers must start with a letter or underscore.".to_owned(),
            ),
            CarbideParserError::ExpectedExpression(_) => Some(
                "Try adding a value, literal, or variable.".to_owned(),
            ),
            CarbideParserError::InvalidAssignmentTarget(_) => Some(
                "Only variables or properties can be assigned.".to_owned(),
            ),
            _ => None,
        }
    }
}

impl<'a> CarbideError for CarbideParserError<'a> {
    open spec fn code_of(&self) -> ErrCode {
        self@.code()
    }

    open spec fn message_text(&self) -> Seq<char> {
        self@.message()
    }

    open spec fn help_text(&self) -> Option<Seq<char>> {
        self@.help()
    }

    open spec fn report_of(&self, file: Seq<char>, src: Seq<char>) -> Option<ReportView> {
        self@.report(file, src)
    }

    fn code(&self) -> (c: ErrCode) {
        match self {
            CarbideParserError::UnexpectedEOF(_) => ErrCode(E1001),
            CarbideParserError::UnexpectedToken { .. } => ErrCode(E1002),
            CarbideParserError::ExpectedIdentifier(_) => ErrCode(E1010),
            CarbideParserError::ExpectedExpression(_) => ErrCode(E1011),
            CarbideParserError::TooManyParameters(_) => ErrCode(E1020),
            CarbideParserError::TooManyArguments(_) => ErrCode(E1021),
            CarbideParserError::InvalidAssignmentTarget(_) => ErrCode(E1030),
            CarbideParserError::BreakOutsideLoop(_) => ErrCode(E1040),
            CarbideParserError::ContinueOutsideLoop(_) => ErrCode(E1041),
            CarbideParserError::ReturnOutsideFunction(_) => ErrCode(E1042),
            CarbideParserError::CastFailed(_, _) => ErrCode(E1000),
        }
    }

    fn message(&self) -> (m: String) {
        match self {
            CarbideParserError::UnexpectedEOF(l) => located_message(
                "Unexpected end of file at [",
                l,
            ),
            CarbideParserError::UnexpectedToken { expected, found } => {
                let mut out = framed("Expected ", expected.as_str(), ", but found ");
                let shown = found.to_string();
                push_text(&mut out, shown.as_str());
                out
            },
            CarbideParserError::ExpectedIdentifier(t) => {
                let mut out = "Expected identifier, but found ".to_owned();
                let shown = t.to_string();
                push_text(&mut out, shown.as_str());
                out
            },
            CarbideParserError::ExpectedExpression(l) => located_message(
                "Expected expression at [",
                l,
            ),
            CarbideParserError::InvalidAssignmentTarget(l) => located_message(
                "Invalid assignment target at [",
                l,
            ),
            CarbideParserError::TooManyParameters(l) => located_message(
                "Too many parameters in function declaration at [",
                l,
            ),
            CarbideParserError::TooManyArguments(l) => located_message(
                "Too many arguments in function call at [",
                l,
            ),
            CarbideParserError::BreakOutsideLoop(l) => located_message(
                "Break statement outside of loop at [",
                l,
            ),
            CarbideParserError::ContinueOutsideLoop(l) => located_message(
                "Continue statement outside of loop at [",
                l,
            ),
            CarbideParserError::ReturnOutsideFunction(l) => located_message(
                "Return statement outside of function at [",
                l,
            ),
            CarbideParserError::CastFailed(v, t) => {
                let mut out = framed("Cast `", v.as_str(), "` as `");
                push_text(&mut out, t.as_str());
                push_text(&mut out, "` failed!");
                out
            },
        }
    }

    fn report(&self, file: &str, src: &str) -> (r: Result<ReportData, Self>)
        ensures
            r matches Err(e) ==> self@.location() matches Some(l) && e@
                == ParserErrorView::CastFailed(decimal(l.offset as nat), "usize"@),
    {
        let offset: usize = match self.location() {
            Some(l) => match usize::try_from(l.offset) {
                Ok(o) => o,
                Err(_) => {
                    return Err(
                        CarbideParserError::CastFailed(
                            decimal_string(l.offset),
                            "usize".to_owned(),
                        ),
                    );
                },
            },
            None => 0,
        };
        let span = self.span(file, offset);
        let label = self.label(&span, src);
        let note = self.note();
        let d = labelled_report(
            self.code(),
            self.headline(),
            span,
            label.as_str(),
            self.help(),
            match &note {
                Some(n) => Some(n.as_str()),
                None => None,
            },
        );
        Ok(d)
    }

    fn help(&self) -> (h: Option<&'static str>) {
        match self {
            CarbideParserError::UnexpectedEOF(_) => Some(
                "Try closing any unclosed parentheses, braces, or quotes.",
            ),
            CarbideParserError::UnexpectedToken { .. } => Some(
                "Check for missing operators, delimiters, or keywords.",
            ),
            CarbideParserError::ExpectedIdentifier(_) => Some(
                "Identifiers must start with a letter or underscore.",
            ),
            CarbideParserError::ExpectedExpression(_) => Some(
                "You might have forgotten to include a value or expression.",
            ),
            CarbideParserError::InvalidAssignmentTarget(_) => Some(
                "Only variables or fields can appear on the left side of an assignment.",
            ),
            CarbideParserError::TooManyParameters(_) => Some(
                "Reduce the number of parameters to fit within the allowed limit.",
            ),
            CarbideParserError::TooManyArguments(_) => Some(
                "Reduce the number of arguments to match the function signature.",
            ),
            CarbideParserError::BreakOutsideLoop(_) => Some(
                "`break` can only appear inside a loop.",
            ),
            CarbideParserError::ContinueOutsideLoop(_) => Some(
                "`continue` can only appear inside a loop.",
            ),
            CarbideParserError::ReturnOutsideFunction(_) => Some(
                "`return` can only appear inside a function.",
            ),
            CarbideParserError::CastFailed(_, _) => None,
        }
    }
}

} // verus!
