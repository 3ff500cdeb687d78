//! The diagnostics of the scanner.

use core::num::TryFromIntError;
use crate::codes::{ErrCode, E0000, E0001, E0002, E0003, E0004, E0005, E0006};
use crate::cursor::{byte_len, char_width, utf8_width, SourceLocation};
use crate::error::{
    option_text, span_of, CarbideError, ErrorSpan, LabelColor, ReportData, ReportLabel,
    ReportLabelView, ReportView,
};
use crate::text::{decimal, decimal_string, push_text};
use vstd::prelude::*;
use vstd::utf8::encode_utf8;

verus! {

/// What can go wrong while scanning.
#[derive(Debug, PartialEq, Eq)]
pub enum CarbideLexerError {
    /// A character outside ASCII, where it is not allowed.
    NonASCIIChar(char, SourceLocation),
    /// The input ended inside a token.
    UnexpectedEOF(SourceLocation),
    /// A character that starts no token.
    UnexpectedChar(char, SourceLocation),
    /// A float literal that is not a number.
    InvalidFloatLiteral(String, SourceLocation),
    /// An integer literal that is too large.
    InvalidIntegerLiteral(String, SourceLocation),
    /// A hexadecimal literal without digits, or too large.
    InvalidHexLiteral(String, SourceLocation),
    /// A binary literal without digits, or too large.
    InvalidBinaryLiteral(String, SourceLocation),
    /// A number that does not fit the integer type it is to be held in.
    CastIntFailed(String, String, TryFromIntError),
    /// A word that is no keyword.
    CastKeywordFailed(String),
    /// A spelling that is no binary operator.
    CastBinaryOpFailed(String),
    /// A spelling that is no unary operator.
    CastUnaryOpFailed(String),
    /// A block comment without its end.
    UnclosedComment(SourceLocation),
    /// A string without its closing quote.
    UnclosedString(SourceLocation),
    /// An interpolation without its closing brace.
    UnmatchedBrace(SourceLocation),
}

/// The mathematical value of a [`CarbideLexerError`].
pub enum LexerErrorView {
    NonASCIIChar(char, SourceLocation),
    UnexpectedEOF(SourceLocation),
    UnexpectedChar(char, SourceLocation),
    InvalidFloatLiteral(Seq<char>, SourceLocation),
    InvalidIntegerLiteral(Seq<char>, SourceLocation),
    InvalidHexLiteral(Seq<char>, SourceLocation),
    InvalidBinaryLiteral(Seq<char>, SourceLocation),
    CastIntFailed(Seq<char>, Seq<char>),
    CastKeywordFailed(Seq<char>),
    CastBinaryOpFailed(Seq<char>),
    CastUnaryOpFailed(Seq<char>),
    UnclosedComment(SourceLocation),
    UnclosedString(SourceLocation),
    UnmatchedBrace(SourceLocation),
}

impl View for CarbideLexerError {
    type V = LexerErrorView;

    open spec fn view(&self) -> LexerErrorView {
        match self {
            CarbideLexerError::NonASCIIChar(c, l) => LexerErrorView::NonASCIIChar(*c, *l),
            CarbideLexerError::UnexpectedEOF(l) => LexerErrorView::UnexpectedEOF(*l),
            CarbideLexerError::UnexpectedChar(c, l) => LexerErrorView::UnexpectedChar(*c, *l),
            CarbideLexerError::InvalidFloatLiteral(t, l) => LexerErrorView::InvalidFloatLiteral(
                t@,
                *l,
            ),
            CarbideLexerError::InvalidIntegerLiteral(t, l) => LexerErrorView::InvalidIntegerLiteral(
                t@,
                *l,
            ),
            CarbideLexerError::InvalidHexLiteral(t, l) => LexerErrorView::InvalidHexLiteral(t@, *l),
            CarbideLexerError::InvalidBinaryLiteral(t, l) => LexerErrorView::InvalidBinaryLiteral(
                t@,
                *l,
            ),
            CarbideLexerError::CastIntFailed(v, t, _) => LexerErrorView::CastIntFailed(v@, t@),
            CarbideLexerError::CastKeywordFailed(t) => LexerErrorView::CastKeywordFailed(t@),
            CarbideLexerError::CastBinaryOpFailed(t) => LexerErrorView::CastBinaryOpFailed(t@),
            CarbideLexerError::CastUnaryOpFailed(t) => LexerErrorView::CastUnaryOpFailed(t@),
            CarbideLexerError::UnclosedComment(l) => LexerErrorView::UnclosedComment(*l),
            CarbideLexerError::UnclosedString(l) => LexerErrorView::UnclosedString(*l),
            CarbideLexerError::UnmatchedBrace(l) => LexerErrorView::UnmatchedBrace(*l),
        }
    }
}

impl Clone for CarbideLexerError {
    fn clone(&self) -> (r: Self)
        ensures
            r@ == self@,
    {
        match self {
            CarbideLexerError::NonASCIIChar(c, l) => CarbideLexerError::NonASCIIChar(*c, *l),
            CarbideLexerError::UnexpectedEOF(l) => CarbideLexerError::UnexpectedEOF(*l),
            CarbideLexerError::UnexpectedChar(c, l) => CarbideLexerError::UnexpectedChar(*c, *l),
            CarbideLexerError::InvalidFloatLiteral(t, l) => CarbideLexerError::InvalidFloatLiteral(
                t.clone(),
                *l,
            ),
            CarbideLexerError::InvalidIntegerLiteral(t, l) => {
                CarbideLexerError::InvalidIntegerLiteral(t.clone(), *l)
            },
            CarbideLexerError::InvalidHexLiteral(t, l) => CarbideLexerError::InvalidHexLiteral(
                t.clone(),
                *l,
            ),
            CarbideLexerError::InvalidBinaryLiteral(t, l) => {
                CarbideLexerError::InvalidBinaryLiteral(t.clone(), *l)
            },
            CarbideLexerError::CastIntFailed(v, t, e) => CarbideLexerError::CastIntFailed(
                v.clone(),
                t.clone(),
                *e,
            ),
            CarbideLexerError::CastKeywordFailed(t) => CarbideLexerError::CastKeywordFailed(
                t.clone(),
            ),
            CarbideLexerError::CastBinaryOpFailed(t) => CarbideLexerError::CastBinaryOpFailed(
                t.clone(),
            ),
            CarbideLexerError::CastUnaryOpFailed(t) => CarbideLexerError::CastUnaryOpFailed(
                t.clone(),
            ),
            CarbideLexerError::UnclosedComment(l) => CarbideLexerError::UnclosedComment(*l),
            CarbideLexerError::UnclosedString(l) => CarbideLexerError::UnclosedString(*l),
            CarbideLexerError::UnmatchedBrace(l) => CarbideLexerError::UnmatchedBrace(*l),
        }
    }
}

/// `head`, then `body` between backquotes, then the location in brackets.
pub open spec fn quoted_at(head: Seq<char>, body: Seq<char>, loc: SourceLocation) -> Seq<char> {
    head + seq!['`'] + body + "` at ["@ + loc.text() + seq![']']
}

/// `head`, then the location in brackets.
pub open spec fn plain_at(head: Seq<char>, loc: SourceLocation) -> Seq<char> {
    head + loc.text() + seq![']']
}

/// `n` plus `m`, held at `usize::MAX` where the sum does not fit.
pub open spec fn add_capped(n: usize, m: int) -> usize {
    if n + m > usize::MAX {
        usize::MAX
    } else {
        (n + m) as usize
    }
}

/// The offset of the first line feed of `bytes` at or after `from`, or the
/// length of `bytes` if there is none.
pub open spec fn line_end(bytes: Seq<u8>, from: int) -> int
    decreases bytes.len() - from,
{
    if from < 0 || from >= bytes.len() {
        bytes.len() as int
    } else if bytes[from] == 10u8 {
        from
    } else {
        line_end(bytes, from + 1)
    }
}

/// A report with the label `label` on its primary span.
pub open spec fn report_with_label(
    code: ErrCode,
    message: Seq<char>,
    span: crate::error::ErrorSpanView,
    label: Seq<char>,
    help: Option<Seq<char>>,
    note: Option<Seq<char>>,
) -> ReportView {
    ReportView {
        span,
        code: code.text(),
        message,
        labels: seq![ReportLabelView { span, message: label, color: LabelColor::BrightRed }],
        help,
        note,
    }
}

/// A report with a label on its primary span and a second label that
/// shows where to repair.
pub open spec fn report_with_suggestion(
    code: ErrCode,
    message: Seq<char>,
    span: crate::error::ErrorSpanView,
    label: Seq<char>,
    repair: crate::error::ErrorSpanView,
    advice: Seq<char>,
    help: Option<Seq<char>>,
) -> ReportView {
    ReportView {
        span,
        code: code.text(),
        message,
        labels: seq![
            ReportLabelView { span, message: label, color: LabelColor::BrightRed },
            ReportLabelView { span: repair, message: advice, color: LabelColor::Green },
        ],
        help,
        note: None,
    }
}

impl LexerErrorView {
    /// The location that the diagnostic is anchored at, if it has one.
    pub open spec fn location(self) -> Option<SourceLocation> {
        match self {
            LexerErrorView::NonASCIIChar(_, l) => Some(l),
            LexerErrorView::UnexpectedEOF(l) => Some(l),
            LexerErrorView::UnexpectedChar(_, l) => Some(l),
            LexerErrorView::InvalidFloatLiteral(_, l) => Some(l),
            LexerErrorView::InvalidIntegerLiteral(_, l) => Some(l),
            LexerErrorView::InvalidHexLiteral(_, l) => Some(l),
            LexerErrorView::InvalidBinaryLiteral(_, l) => Some(l),
            LexerErrorView::UnclosedComment(l) => Some(l),
            LexerErrorView::UnclosedString(l) => Some(l),
            LexerErrorView::UnmatchedBrace(l) => Some(l),
            _ => None,
        }
    }

    /// The stable code.
    pub open spec fn code(self) -> ErrCode {
        match self {
            LexerErrorView::NonASCIIChar(_, _) => ErrCode(E0001),
            LexerErrorView::UnexpectedEOF(_) => ErrCode(E0002),
            LexerErrorView::UnexpectedChar(_, _) => ErrCode(E0003),
            LexerErrorView::UnclosedString(_) => ErrCode(E0004),
            LexerErrorView::UnmatchedBrace(_) => ErrCode(E0005),
            LexerErrorView::InvalidFloatLiteral(_, _) => ErrCode(E0006),
            LexerErrorView::InvalidIntegerLiteral(_, _) => ErrCode(E0006),
            LexerErrorView::InvalidHexLiteral(_, _) => ErrCode(E0006),
            LexerErrorView::InvalidBinaryLiteral(_, _) => ErrCode(E0006),
            _ => ErrCode(E0000),
        }
    }

    /// The message.
    pub open spec fn message(self) -> Seq<char> {
        match self {
            LexerErrorView::NonASCIIChar(c, l) => quoted_at("Non ASCII char "@, seq![c], l),
            LexerErrorView::UnexpectedEOF(l) => plain_at("Unexpected end of input at ["@, l),
            LexerErrorView::UnexpectedChar(c, l) => quoted_at(
                "Unexpected character "@,
                seq![c],
                l,
            ),
            LexerErrorView::InvalidFloatLiteral(t, l) => quoted_at("Invalid float literal "@, t, l),
            LexerErrorView::InvalidIntegerLiteral(t, l) => quoted_at(
                "Invalid integer literal "@,
                t,
                l,
            ),
            LexerErrorView::InvalidHexLiteral(t, l) => quoted_at("Invalid hex literal "@, t, l),
            LexerErrorView::InvalidBinaryLiteral(t, l) => quoted_at(
                "Invalid binary literal "@,
                t,
                l,
            ),
            LexerErrorView::CastIntFailed(v, t) => "Failed to cast `"@ + v + "` as `"@ + t
                + "`: TryFromIntError(\n    (),\n)"@,
            LexerErrorView::CastKeywordFailed(t) => "Failed to cast `"@ + t + "` as a keyword"@,
            LexerErrorView::CastBinaryOpFailed(t) => "Failed to cast `"@ + t
                + "` as a binary operator"@,
            LexerErrorView::CastUnaryOpFailed(t) => "Failed to cast `"@ + t
                + "` as a unary operator"@,
            LexerErrorView::UnclosedComment(l) => plain_at("Unclosed comment at ["@, l),
            LexerErrorView::UnclosedString(l) => plain_at("Unclosed string at ["@, l),
            LexerErrorView::UnmatchedBrace(l) => plain_at(
                "Unmatched brace in interpolated string at ["@,
                l,
            ),
        }
    }

    /// The advice, if any.
    pub open spec fn help(self) -> Option<Seq<char>> {
        match self {
            LexerErrorView::UnclosedString(_) => Some("Strings must be closed with a quote"@),
            LexerErrorView::UnexpectedChar(_, _) => Some(
                "This character is not valid in this context"@,
            ),
            LexerErrorView::NonASCIIChar(_, _) => Some("Only ASCII characters are allowed"@),
            LexerErrorView::UnmatchedBrace(_) => Some("Each '{' needs a matching '}'"@),
            LexerErrorView::UnclosedComment(_) => Some("Block comments must be closed with '*/'"@),
            LexerErrorView::InvalidHexLiteral(_, _) => Some(
                "Hex literals must have at least one digit"@,
            ),
            LexerErrorView::InvalidBinaryLiteral(_, _) => Some(
                "Binary literals must have at least one digit"@,
            ),
            LexerErrorView::InvalidFloatLiteral(_, _) => Some(
                "Floats can only have one decimal point"@,
            ),
            LexerErrorView::InvalidIntegerLiteral(_, _) => Some("Integer is invalid"@),
            _ => None,
        }
    }

    /// The report, given that the diagnostic's offset fits `usize`.
    pub open spec fn report_at(self, file: Seq<char>, src: Seq<char>) -> ReportView {
        let code = self.code();
        let message = self.message();
        let len = encode_utf8(src).len() as int;
        match self {
            LexerErrorView::NonASCIIChar(c, l) => {
                let o = l.offset as usize;
                report_with_label(
                    code,
                    message,
                    span_of(file, o as int, add_capped(o, char_width(c) as int) as int),
                    "Remove '"@ + seq![c] + seq!['\''],
                    Some("Only ASCII characters are allowed in source code"@),
                    None,
                )
            },
            LexerErrorView::UnexpectedChar(c, l) => {
                let o = l.offset as usize;
                report_with_label(
                    code,
                    message,
                    span_of(file, o as int, add_capped(o, char_width(c) as int) as int),
                    "Remove '"@ + seq![c] + seq!['\''],
                    Some("This character is not valid in this context"@),
                    None,
                )
            },
            LexerErrorView::UnclosedString(l) => {
                let o = l.offset as usize;
                let end = line_end(encode_utf8(src), o as int) as usize;
                report_with_suggestion(
                    code,
                    message,
                    span_of(file, o as int, add_capped(o, 1) as int),
                    "String starts here"@,
                    span_of(file, end as int, add_capped(end, 1) as int),
                    "Add closing \" here"@,
                    Some("Strings must be closed with a quote"@),
                )
            },
            LexerErrorView::InvalidHexLiteral(t, l) => {
                let o = l.offset as usize;
                report_with_label(
                    code,
                    message,
                    span_of(file, o as int, add_capped(o, encode_utf8(t).len() as int) as int),
                    "Add hex digits after '0x'"@,
                    Some("Hex literals must have at least one digit (0-9, a-f, A-F)"@),
                    None,
                )
            },
            LexerErrorView::InvalidBinaryLiteral(t, l) => {
                let o = l.offset as usize;
                report_with_label(
                    code,
                    message,
                    span_of(file, o as int, add_capped(o, encode_utf8(t).len() as int) as int),
                    "Add binary digits after '0b'"@,
                    Some("Binary literals must have at least one digit (0 or 1)"@),
                    Some("Examples: 0b1010, 0b11111111, 0b0"@),
                )
            },
            LexerErrorView::UnmatchedBrace(l) => {
                let o = l.offset as usize;
                report_with_label(
                    code,
                    message,
                    span_of(file, o as int, add_capped(o, 1) as int),
                    "Add closing '}' for this '{'"@,
                    Some("Each '{' in string interpolation needs a matching '}'"@),
                    Some("String interpolation syntax: \"Hello {name}\""@),
                )
            },
            LexerErrorView::UnclosedComment(l) => {
                let o = l.offset as usize;
                report_with_suggestion(
                    code,
                    message,
                    span_of(file, o as int, add_capped(o, 2) as int),
                    "Block comment starts here"@,
                    span_of(file, len, len),
                    "Add '*/' here"@,
                    Some("Block comments must be closed with '*/'"@),
                )
            },
            LexerErrorView::UnexpectedEOF(l) => {
                let o = l.offset as usize;
                report_with_label(
                    code,
                    message,
                    span_of(
                        file,
                        if o == 0 {
                            0
                        } else {
                            o - 1
                        },
                        o as int,
                    ),
                    "File ends unexpectedly here"@,
                    Some("Check for unclosed strings, comments, or brackets"@),
                    None,
                )
            },
            LexerErrorView::InvalidFloatLiteral(t, l) => {
                let o = l.offset as usize;
                report_with_label(
                    code,
                    message,
                    span_of(file, o as int, add_capped(o, encode_utf8(t).len() as int) as int),
                    "Fix the float format"@,
                    Some("Floats can only have one decimal point"@),
                    Some("Valid examples: 3.14, 0.5, 1.0"@),
                )
            },
            LexerErrorView::InvalidIntegerLiteral(t, l) => {
                let o = l.offset as usize;
                report_with_label(
                    code,
                    message,
                    span_of(file, o as int, add_capped(o, encode_utf8(t).len() as int) as int),
                    "Fix the integer format"@,
                    Some("Integer is too large or has invalid characters"@),
                    Some("Valid examples: 42, 0, 123"@),
                )
            },
            _ => report_with_label(
                code,
                message,
                span_of(file, 0, 1),
                "Error occurred here"@,
                None,
                None,
            ),
        }
    }

    /// The report, or `None` where the diagnostic's offset does not fit
    /// `usize`.
    pub open spec fn report(self, file: Seq<char>, src: Seq<char>) -> Option<ReportView> {
        match self.location() {
            Some(l) => if l.offset <= usize::MAX {
                Some(self.report_at(file, src))
            } else {
                None
            },
            None => Some(self.report_at(file, src)),
        }
    }
}

/// The value of an optional string slice.
pub open spec fn option_str(t: Option<&str>) -> Option<Seq<char>> {
    match t {
        Some(s) => Some(s@),
        None => None,
    }
}

/// An owned copy of an optional string slice.
pub fn own_option(t: Option<&str>) -> (r: Option<String>)
    ensures
        option_text(r) == option_str(t),
{
    match t {
        Some(s) => Some(s.to_owned()),
        None => None,
    }
}

/// Builds a report with one label, on its primary span.
pub fn labelled_report(
    code: ErrCode,
    message: String,
    span: ErrorSpan,
    label: &str,
    help: Option<&str>,
    note: Option<&str>,
) -> (d: ReportData)
    ensures
        d@ == report_with_label(
            code,
            message@,
            span@,
            label@,
            option_str(help),
            option_str(note),
        ),
{
    let first = ReportLabel {
        span: span.clone(),
        message: label.to_owned(),
        color: LabelColor::BrightRed,
    };
    let mut labels: Vec<ReportLabel> = Vec::new();
    labels.push(first);
    let d = ReportData {
        span,
        code: code.to_string(),
        message,
        labels,
        help: own_option(help),
        note: own_option(note),
    };
    assert(d@.labels =~= seq![first@]);
    d
}

/// Builds a report with a label on its primary span and a second label
/// that shows where to repair.
pub fn suggestion_report(
    code: ErrCode,
    message: String,
    span: ErrorSpan,
    label: &str,
    repair: ErrorSpan,
    advice: &str,
    help: Option<&str>,
) -> (d: ReportData)
    ensures
        d@ == report_with_suggestion(
            code,
            message@,
            span@,
            label@,
            repair@,
            advice@,
            option_str(help),
        ),
{
    let first = ReportLabel {
        span: span.clone(),
        message: label.to_owned(),
        color: LabelColor::BrightRed,
    };
    let second = ReportLabel { span: repair, message: advice.to_owned(), color: LabelColor::Green };
    let mut labels: Vec<ReportLabel> = Vec::new();
    labels.push(first);
    labels.push(second);
    let d = ReportData {
        span,
        code: code.to_string(),
        message,
        labels,
        help: own_option(help),
        note: None,
    };
    assert(d@.labels =~= seq![first@, second@]);
    d
}

/// `n` plus `m`, held at `usize::MAX` where the sum does not fit.
pub fn capped_add(n: usize, m: usize) -> (r: usize)
    ensures
        r == add_capped(n, m as int),
{
    n.saturating_add(m)
}

/// The offset of the first line feed of `src` at or after the byte offset
/// `from`, or the length of `src` in bytes if there is none.
pub fn find_line_end(src: &str, from: usize) -> (r: usize)
    ensures
        r == line_end(encode_utf8(src@), from as int),
{
    broadcast use vstd::slice::group_slice_axioms;

    let bytes = src.as_bytes();
    let n = bytes.len();
    let mut k: usize = from;
    while k < n
        invariant
            n == bytes@.len(),
            bytes@ == encode_utf8(src@),
            from <= k,
            line_end(bytes@, k as int) == line_end(bytes@, from as int),
        decreases n - k,
    {
        if bytes[k] == 10u8 {
            return k;
        }
        k += 1;
    }
    n
}

/// `v` as a `usize`, or the diagnostic that says it does not fit.
pub fn usize_from(v: u64) -> (r: Result<usize, CarbideLexerError>)
    ensures
        match r {
            Ok(n) => n == v,
            Err(e) => v > usize::MAX && e@ == LexerErrorView::CastIntFailed(
                decimal(v as nat),
                "usize"@,
            ),
        },
{
    match usize::try_from(v) {
        Ok(n) => Ok(n),
        Err(e) => Err(CarbideLexerError::CastIntFailed(decimal_string(v), "usize".to_owned(), e)),
    }
}

/// The message `head`, `body` between backquotes, and the location.
fn quoted_message(head: &str, body: &str, loc: &SourceLocation) -> (m: String)
    ensures
        m@ == quoted_at(head@, body@, *loc),
{
    let mut out = head.to_owned();
    out.push('`');
    push_text(&mut out, body);
    push_text(&mut out, "` at [");
    let shown = loc.to_string();
    push_text(&mut out, shown.as_str());
    out.push(']');
    assert(out@ =~= quoted_at(head@, body@, *loc));
    out
}

/// The message `head` and the location.
fn plain_message(head: &str, loc: &SourceLocation) -> (m: String)
    ensures
        m@ == plain_at(head@, *loc),
{
    let mut out = head.to_owned();
    let shown = loc.to_string();
    push_text(&mut out, shown.as_str());
    out.push(']');
    assert(out@ =~= plain_at(head@, *loc));
    out
}

/// The message `head`, `body`, `tail`.
fn framed_message(head: &str, body: &str, tail: &str) -> (m: String)
    ensures
        m@ == head@ + body@ + tail@,
{
    let mut out = head.to_owned();
    push_text(&mut out, body);
    push_text(&mut out, tail);
    out
}

/// The one-character string of `c`.
fn char_string(c: char) -> (s: String)
    ensures
        s@ == seq![c],
{
    let mut s = String::new();
    s.push(c);
    assert(s@ =~= seq![c]);
    s
}

impl CarbideLexerError {
    /// The location that the diagnostic is anchored at, if it has one.
    pub fn location(&self) -> (r: Option<SourceLocation>)
        ensures
            r == self@.location(),
    {
        match self {
            CarbideLexerError::NonASCIIChar(_, l) => Some(*l),
            CarbideLexerError::UnexpectedEOF(l) => Some(*l),
            CarbideLexerError::UnexpectedChar(_, l) => Some(*l),
            CarbideLexerError::InvalidFloatLiteral(_, l) => Some(*l),
            CarbideLexerError::InvalidIntegerLiteral(_, l) => Some(*l),
            CarbideLexerError::InvalidHexLiteral(_, l) => Some(*l),
            CarbideLexerError::InvalidBinaryLiteral(_, l) => Some(*l),
            CarbideLexerError::UnclosedComment(l) => Some(*l),
            CarbideLexerError::UnclosedString(l) => Some(*l),
            CarbideLexerError::UnmatchedBrace(l) => Some(*l),
            _ => None,
        }
    }

    /// The report on a diagnostic about a character.
    fn char_report(&self, file: &str, c: char, o: usize, help: &str) -> (d: ReportData)
        ensures
            d@ == report_with_label(
                self@.code(),
                self@.message(),
                span_of(file@, o as int, add_capped(o, char_width(c) as int) as int),
                "Remove '"@ + seq![c] + seq!['\''],
                Some(help@),
                None,
            ),
    {
        let shown = char_string(c);
        let label = framed_message("Remove '", shown.as_str(), "'");
        proof {
            reveal_strlit("'");
            assert("'"@ =~= seq!['\'']);
        }
        labelled_report(
            self.code(),
            self.message(),
            ErrorSpan::new(file, o, capped_add(o, utf8_width(c))),
            label.as_str(),
            Some(help),
            None,
        )
    }

    /// The report on a diagnostic about a literal.
    fn literal_report(
        &self,
        file: &str,
        text: &String,
        o: usize,
        label: &str,
        help: &str,
        note: Option<&str>,
    ) -> (d: ReportData)
        ensures
            d@ == report_with_label(
                self@.code(),
                self@.message(),
                span_of(file@, o as int, add_capped(o, encode_utf8(text@).len() as int) as int),
                label@,
                Some(help@),
                option_str(note),
            ),
    {
        labelled_report(
            self.code(),
            self.message(),
            ErrorSpan::new(file, o, capped_add(o, byte_len(text.as_str()))),
            label,
            Some(help),
            note,
        )
    }
}

impl CarbideError for CarbideLexerError {
    open spec fn code_of(&self) -> ErrCode {
        self@.code()
    }

    open spec fn message_text(&self) -> Seq<char> {
        self@.message()
    }

    open spec fn help_text(&self) -> Option<Seq<char>> {
        self@.help()
    }

    open spec fn report_of(&self, file: Seq<char>, src: Seq<char>) -> Option<ReportView> {
        self@.report(file, src)
    }

    fn code(&self) -> (c: ErrCode) {
        match self {
            CarbideLexerError::NonASCIIChar(_, _) => ErrCode(E0001),
            CarbideLexerError::UnexpectedEOF(_) => ErrCode(E0002),
            CarbideLexerError::UnexpectedChar(_, _) => ErrCode(E0003),
            CarbideLexerError::UnclosedString(_) => ErrCode(E0004),
            CarbideLexerError::UnmatchedBrace(_) => ErrCode(E0005),
            CarbideLexerError::InvalidFloatLiteral(_, _)
            | CarbideLexerError::InvalidIntegerLiteral(_, _)
            | CarbideLexerError::InvalidHexLiteral(_, _)
            | CarbideLexerError::InvalidBinaryLiteral(_, _) => ErrCode(E0006),
            _ => ErrCode(E0000),
        }
    }

    fn message(&self) -> (m: String) {
        match self {
            CarbideLexerError::NonASCIIChar(c, l) => {
                let shown = char_string(*c);
                quoted_message("Non ASCII char ", shown.as_str(), l)
            },
            CarbideLexerError::UnexpectedEOF(l) => plain_message("Unexpected end of input at [", l),
            CarbideLexerError::UnexpectedChar(c, l) => {
                let shown = char_string(*c);
                quoted_message("Unexpected character ", shown.as_str(), l)
            },
            CarbideLexerError::InvalidFloatLiteral(t, l) => quoted_message(
                "Invalid float literal ",
                t.as_str(),
                l,
            ),
            CarbideLexerError::InvalidIntegerLiteral(t, l) => quoted_message(
                "Invalid integer literal ",
                t.as_str(),
                l,
            ),
            CarbideLexerError::InvalidHexLiteral(t, l) => quoted_message(
                "Invalid hex literal ",
                t.as_str(),
                l,
            ),
            CarbideLexerError::InvalidBinaryLiteral(t, l) => quoted_message(
                "Invalid binary literal ",
                t.as_str(),
                l,
            ),
            CarbideLexerError::CastIntFailed(v, t, _) => {
                let mut out = framed_message("Failed to cast `", v.as_str(), "` as `");
                push_text(&mut out, t.as_str());
                push_text(&mut out, "`: TryFromIntError(\n    (),\n)");
                out
            },
            CarbideLexerError::CastKeywordFailed(t) => framed_message(
                "Failed to cast `",
                t.as_str(),
                "` as a keyword",
            ),
            CarbideLexerError::CastBinaryOpFailed(t) => framed_message(
                "Failed to cast `",
                t.as_str(),
                "` as a binary operator",
            ),
            CarbideLexerError::CastUnaryOpFailed(t) => framed_message(
                "Failed to cast `",
                t.as_str(),
                "` as a unary operator",
            ),
            CarbideLexerError::UnclosedComment(l) => plain_message("Unclosed comment at [", l),
            CarbideLexerError::UnclosedString(l) => plain_message("Unclosed string at [", l),
            CarbideLexerError::UnmatchedBrace(l) => plain_message(
                "Unmatched brace in interpolated string at [",
                l,
            ),
        }
    }

    fn report(&self, file: &str, src: &str) -> (r: Result<ReportData, Self>)
        ensures
            r matches Err(e) ==> self@.location() matches Some(l) && e@
                == LexerErrorView::CastIntFailed(decimal(l.offset as nat), "usize"@),
    {
        let o: usize = match self.location() {
            Some(l) => match usize_from(l.offset) {
                Ok(o) => o,
                Err(e) => {
                    return Err(e);
                },
            },
            None => 0,
        };
        let d = match self {
            CarbideLexerError::NonASCIIChar(c, _) => self.char_report(
                file,
                *c,
                o,
                "Only ASCII characters are allowed in source code",
            ),
            CarbideLexerError::UnexpectedChar(c, _) => self.char_report(
                file,
                *c,
                o,
                "This character is not valid in this context",
            ),
            CarbideLexerError::UnclosedString(_) => {
                let end = find_line_end(src, o);
                suggestion_report(
                    self.code(),
                    self.message(),
                    ErrorSpan::new(file, o, capped_add(o, 1)),
                    "String starts here",
                    ErrorSpan::new(file, end, capped_add(end, 1)),
                    "Add closing \" here",
                    Some("Strings must be closed with a quote"),
                )
            },
            CarbideLexerError::InvalidHexLiteral(t, _) => self.literal_report(
                file,
                t,
                o,
                "Add hex digits after '0x'",
                "Hex literals must have at least one digit (0-9, a-f, A-F)",
                None,
            ),
            CarbideLexerError::InvalidBinaryLiteral(t, _) => self.literal_report(
                file,
                t,
                o,
                "Add binary digits after '0b'",
                "Binary literals must have at least one digit (0 or 1)",
                Some("Examples: 0b1010, 0b11111111, 0b0"),
            ),
            CarbideLexerError::UnmatchedBrace(_) => labelled_report(
                self.code(),
                self.message(),
                ErrorSpan::new(file, o, capped_add(o, 1)),
                "Add closing '}' for this '{'",
                Some("Each '{' in string interpolation needs a matching '}'"),
                Some("String interpolation syntax: \"Hello {name}\""),
            ),
            CarbideLexerError::UnclosedComment(_) => {
                let len = byte_len(src);
                suggestion_report(
                    self.code(),
                    self.message(),
                    ErrorSpan::new(file, o, capped_add(o, 2)),
                    "Block comment starts here",
                    ErrorSpan::new(file, len, len),
                    "Add '*/' here",
                    Some("Block comments must be closed with '*/'"),
                )
            },
            CarbideLexerError::UnexpectedEOF(_) => labelled_report(
                self.code(),
                self.message(),
                ErrorSpan::new(file, o.saturating_sub(1), o),
                "File ends unexpectedly here",
                Some("Check for unclosed strings, comments, or brackets"),
                None,
            ),
            CarbideLexerError::InvalidFloatLiteral(t, _) => self.literal_report(
                file,
                t,
                o,
                "Fix the float format",
                "Floats can only have one decimal point",
                Some("Valid examples: 3.14, 0.5, 1.0"),
            ),
            CarbideLexerError::InvalidIntegerLiteral(t, _) => self.literal_report(
                file,
                t,
                o,
                "Fix the integer format",
                "Integer is too large or has invalid characters",
                Some("Valid examples: 42, 0, 123"),
            ),
            _ => labelled_report(
                self.code(),
                self.message(),
                ErrorSpan::new(file, 0, 1),
                "Error occurred here",
                None,
                None,
            ),
        };
        Ok(d)
    }

    fn help(&self) -> (h: Option<&'static str>) {
        match self {
            CarbideLexerError::UnclosedString(_) => Some("Strings must be closed with a quote"),
            CarbideLexerError::UnexpectedChar(_, _) => Some(
                "This character is not valid in this context",
            ),
            CarbideLexerError::NonASCIIChar(_, _) => Some("Only ASCII characters are allowed"),
            CarbideLexerError::UnmatchedBrace(_) => Some("Each '{' needs a matching '}'"),
            CarbideLexerError::UnclosedComment(_) => Some(
                "Block comments must be closed with '*/'",
            ),
            CarbideLexerError::InvalidHexLiteral(_, _) => Some(
                "Hex literals must have at least one digit",
            ),
            CarbideLexerError::InvalidBinaryLiteral(_, _) => Some(
                "Binary literals must have at least one digit",
            ),
            CarbideLexerError::InvalidFloatLiteral(_, _) => Some(
                "Floats can only have one decimal point",
            ),
            CarbideLexerError::InvalidIntegerLiteral(_, _) => Some("Integer is invalid"),
            _ => None,
        }
    }
}

} // verus!
