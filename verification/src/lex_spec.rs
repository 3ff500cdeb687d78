//! What scanning means: the tokens and diagnostics of a source text, as
//! functions of its sequence of characters.
//!
//! Positions count characters. Where a function goes on from the position
//! that a step has reached, it tests first that the step has stayed in the
//! text and has gone forward: this is what shows that the functions are
//! well defined. The tests never fail, as `lex_laws` shows.

use core::ops::Range;
use crate::cursor::{char_at, location_at};
use crate::keywords::Keywords;
use crate::lex_errors::LexerErrorView;
use crate::operators::{BinaryOperators, UnaryOperators};
use crate::text::{
    char_is_binary_digit, char_is_digit, char_is_hex_digit, char_is_ident_continue, char_is_letter,
    char_is_space, is_ascii_char, is_binary_digit, is_digit, is_hex_digit, is_ident_continue,
    is_ident_start, is_letter, is_space,
};
use crate::tokens::{punctuation, StringPartView, Tokens, TokensView, TokenView};
use vstd::prelude::*;

verus! {

/// A set of characters that the scanner consumes a run of.
#[derive(Debug, Clone, Copy, PartialEq, Eq, Structural)]
pub enum CharClass {
    /// Decimal digits.
    Digit,
    /// Hexadecimal digits.
    HexDigit,
    /// The digits `0` and `1`.
    BinaryDigit,
    /// Letters, digits and the underscore.
    IdentContinue,
    /// Everything but the line feed.
    NotNewline,
    /// Everything that cannot start a token, nor a comment, nor separate
    /// tokens: what recovery skips.
    Unstartable,
}

/// Whether a token, a comment or whitespace can start with `c`: the
/// characters at which recovery stops.
pub open spec fn can_resume(c: char) -> bool {
    is_space(c) || is_letter(c) || c == '_' || is_digit(c) || BinaryOperators::can_start(c)
        || UnaryOperators::can_start(c) || punctuation(c).is_some() || c == '/'
}

impl CharClass {
    /// Whether `c` belongs to the class.
    pub open spec fn holds(self, c: char) -> bool {
        match self {
            CharClass::Digit => is_digit(c),
            CharClass::HexDigit => is_hex_digit(c),
            CharClass::BinaryDigit => is_binary_digit(c),
            CharClass::IdentContinue => is_ident_continue(c),
            CharClass::NotNewline => c != '\n',
            CharClass::Unstartable => !can_resume(c),
        }
    }

    /// Whether `c` belongs to the class.
    pub fn test(self, c: char) -> (b: bool)
        ensures
            b == self.holds(c),
    {
        match self {
            CharClass::Digit => char_is_digit(c),
            CharClass::HexDigit => char_is_hex_digit(c),
            CharClass::BinaryDigit => char_is_binary_digit(c),
            CharClass::IdentContinue => char_is_ident_continue(c),
            CharClass::NotNewline => c != '\n',
            CharClass::Unstartable => !(char_is_space(c) || char_is_letter(c) || c == '_'
                || char_is_digit(c) || BinaryOperators::starts_with(c)
                || UnaryOperators::starts_with(c) || Tokens::starts_with(c) || c == '/'),
        }
    }
}

/// The end of the longest run of characters of `class` that starts at `i`.
pub open spec fn run_end(s: Seq<char>, i: int, class: CharClass) -> int
    decreases s.len() - i,
{
    if 0 <= i < s.len() && class.holds(s[i]) {
        run_end(s, i + 1, class)
    } else {
        i
    }
}

/// A run ends between its start and the end of the text.
pub proof fn lemma_run_end_bounds(s: Seq<char>, i: int, class: CharClass)
    requires
        0 <= i <= s.len(),
    ensures
        i <= run_end(s, i, class) <= s.len(),
    decreases s.len() - i,
{
    if i < s.len() && class.holds(s[i]) {
        lemma_run_end_bounds(s, i + 1, class);
    }
}

/// Whether the two characters `a`, `b` stand at position `i`.
pub open spec fn pair_at(s: Seq<char>, i: int, a: char, b: char) -> bool {
    char_at(s, i) == Some(a) && char_at(s, i + 1) == Some(b)
}

/// The position after the block comment whose body is scanned from `i` on at
/// nesting depth `depth`, or `None` if the text ends inside the comment.
/// Each further `/*` deepens the nesting, each `*/` closes one level.
pub open spec fn comment_end(s: Seq<char>, i: int, depth: nat) -> Option<int>
    decreases s.len() - i,
{
    if depth == 0 {
        Some(i)
    } else if i < 0 || i >= s.len() {
        None
    } else if pair_at(s, i, '/', '*') {
        comment_end(s, i + 2, depth + 1)
    } else if pair_at(s, i, '*', '/') {
        comment_end(s, i + 2, (depth - 1) as nat)
    } else {
        comment_end(s, i + 1, depth)
    }
}

/// A comment ends between the place from which it is scanned and the end

/// of the text.
pub proof fn lemma_comment_end_bounds(s: Seq<char>, i: int, depth: nat)
    requires
        0 <= i <= s.len(),
    ensures
        comment_end(s, i, depth) matches Some(j) ==> i <= j <= s.len(),
    decreases s.len() - i,
{
    if depth == 0 {
    } else if i >= s.len() {
    } else if pair_at(s, i, '/', '*') {
        lemma_comment_end_bounds(s, i + 2, depth + 1);
    } else if pair_at(s, i, '*', '/') {
        lemma_comment_end_bounds(s, i + 2, (depth - 1) as nat);
    } else {
        lemma_comment_end_bounds(s, i + 1, depth);
    }
}

/// Skips whitespace and comments from `i` on. `Ok` holds the position of
/// the next character that is neither; `Err` holds the position at which a
/// block comment starts that is never closed.
pub open spec fn skip_trivia(s: Seq<char>, i: int) -> Result<int, int>
    decreases s.len() - i,
{
    if i < 0 || i >= s.len() {
        Ok(i)
    } else if is_space(s[i]) {
        skip_trivia(s, i + 1)
    } else if pair_at(s, i, '/', '/') {
        let j = run_end(s, i + 2, CharClass::NotNewline);
        if i < j <= s.len() {
            skip_trivia(s, j)
        } else {
            Ok(i)
        }
    } else if pair_at(s, i, '/', '*') {
        match comment_end(s, i + 2, 1) {
            Some(j) => if i < j <= s.len() {
                skip_trivia(s, j)
            } else {
                Ok(i)
            },
            None => Err(i),
        }
    } else {
        Ok(i)
    }
}

/// Skipping goes forward and stays in the text; an unclosed comment starts

/// inside the text.
pub proof fn lemma_skip_trivia_bounds(s: Seq<char>, i: int)
    requires
        0 <= i <= s.len(),
    ensures
        match skip_trivia(s, i) {
            Ok(j) => i <= j <= s.len(),
            Err(c) => i <= c < s.len(),
        },
    decreases s.len() - i,
{
    if i >= s.len() {
    } else if is_space(s[i]) {
        lemma_skip_trivia_bounds(s, i + 1);
    } else if pair_at(s, i, '/', '/') {
        lemma_run_end_bounds(s, i + 2, CharClass::NotNewline);
        lemma_skip_trivia_bounds(s, run_end(s, i + 2, CharClass::NotNewline));
    } else if pair_at(s, i, '/', '*') {
        lemma_comment_end_bounds(s, i + 2, 1);
        match comment_end(s, i + 2, 1) {
            Some(j) => {
                lemma_skip_trivia_bounds(s, j);
            },
            None => {},
        }
    }
}

/// Where scanning resumes after a diagnostic raised with the cursor at
/// `i`: at least one character on, and then at the first character that
/// can start a token, a comment or whitespace.
pub open spec fn recover(s: Seq<char>, i: int) -> int {
    if 0 <= i < s.len() {
        run_end(s, i + 1, CharClass::Unstartable)
    } else {
        i
    }
}

/// Recovery goes forward and stays in the text, and inside the text it

/// steps over at least one character.
pub proof fn lemma_recover_bounds(s: Seq<char>, i: int)
    requires
        0 <= i <= s.len(),
    ensures
        i <= recover(s, i) <= s.len(),
        i < s.len() ==> i < recover(s, i),
{
    if i < s.len() {
        lemma_run_end_bounds(s, i + 1, CharClass::Unstartable);
    }
}

/// The value of the digit `c` in a radix up to 16.
pub open spec fn digit_value(c: char) -> int {
    if is_digit(c) {
        c as int - '0' as int
    } else if 'a' <= c <= 'f' {
        c as int - 'a' as int + 10
    } else if 'A' <= c <= 'F' {
        c as int - 'A' as int + 10
    } else {
        0
    }
}

/// The number that the digits `t` write in the given radix.
pub open spec fn digits_value(t: Seq<char>, radix: int) -> int
    decreases t.len(),
{
    if t.len() == 0 {
        0
    } else {
        digits_value(t.drop_last(), radix) * radix + digit_value(t.last())
    }
}

/// The number that the digits `t` write, where it fits an `i64`.
pub open spec fn parse_digits(t: Seq<char>, radix: int) -> Option<i64> {
    if digits_value(t, radix) <= i64::MAX {
        Some(digits_value(t, radix) as i64)
    } else {
        None
    }
}

/// What the escape `\c` stands for. An escape that is not known stands for
/// itself, backslash included.
pub open spec fn escape(c: char) -> Seq<char> {
    if c == 'n' {
        seq!['\n']
    } else if c == 't' {
        seq!['\t']
    } else if c == 'r' {
        seq!['\r']
    } else if c == '\\' {
        seq!['\\']
    } else if c == '"' {
        seq!['"']
    } else if c == '\'' {
        seq!['\'']
    } else if c == '0' {
        seq!['\0']
    } else {
        seq!['\\', c]
    }
}

/// The text `t` from position `i` on, with its escapes decoded.
pub open spec fn unescape_from(t: Seq<char>, i: int) -> Seq<char>
    decreases t.len() - i,
{
    if i < 0 || i >= t.len() {
        Seq::empty()
    } else if t[i] == '\\' {
        if i + 1 < t.len() {
            escape(t[i + 1]) + unescape_from(t, i + 2)
        } else {
            seq!['\\']
        }
    } else {
        seq![t[i]] + unescape_from(t, i + 1)
    }
}

/// The text `t` with its escapes decoded.
pub open spec fn unescape(t: Seq<char>) -> Seq<char> {
    unescape_from(t, 0)
}

/// The position of the quote that closes the string whose content is
/// scanned from `i` on, or `None` if the text ends first. A backslash
/// takes the character after it along.
pub open spec fn string_close(s: Seq<char>, i: int) -> Option<int>
    decreases s.len() - i,
{
    if i < 0 || i >= s.len() {
        None
    } else if s[i] == '"' {
        Some(i)
    } else if s[i] == '\\' {
        if i + 1 < s.len() {
            string_close(s, i + 2)
        } else {
            None
        }
    } else {
        string_close(s, i + 1)
    }
}

/// Whether an unescaped `{` stands in the string content between `i` and
/// the closing quote.
pub open spec fn string_has_brace(s: Seq<char>, i: int) -> bool
    decreases s.len() - i,
{
    if i < 0 || i >= s.len() {
        false
    } else if s[i] == '"' {
        false
    } else if s[i] == '\\' {
        i + 1 < s.len() && string_has_brace(s, i + 2)
    } else if s[i] == '{' {
        true
    } else {
        string_has_brace(s, i + 1)
    }
}

/// The quote that closes a string stands inside the text, at or after the

/// place from which the string is scanned.
pub proof fn lemma_string_close_bounds(s: Seq<char>, i: int)
    requires
        0 <= i,
    ensures
        string_close(s, i) matches Some(q) ==> i <= q < s.len() && s[q] == '"',
    decreases s.len() - i,
{
    if i >= s.len() {
    } else if s[i] == '"' {
    } else if s[i] == '\\' {
        if i + 1 < s.len() {
            lemma_string_close_bounds(s, i + 2);
        }
    } else {
        lemma_string_close_bounds(s, i + 1);
    }
}

/// The end of the run of literal text that starts at `i` in the content of
/// an interpolated string: the position of the next unescaped `{`, or the
/// end of the content.
pub open spec fn text_run_end(raw: Seq<char>, i: int) -> int
    decreases raw.len() - i,
{
    if i < 0 || i >= raw.len() {
        raw.len() as int
    } else if raw[i] == '\\' {
        if i + 1 < raw.len() {
            text_run_end(raw, i + 2)
        } else {
            raw.len() as int
        }
    } else if raw[i] == '{' {
        i
    } else {
        text_run_end(raw, i + 1)
    }
}

/// A run of literal text ends at the end of the content or at a `{`.
pub proof fn lemma_text_run_end_bounds(raw: Seq<char>, i: int)
    requires
        0 <= i <= raw.len(),
    ensures
        i <= text_run_end(raw, i) <= raw.len(),
        text_run_end(raw, i) < raw.len() ==> raw[text_run_end(raw, i)] == '{',
    decreases raw.len() - i,
{
    if i >= raw.len() {
    } else if raw[i] == '\\' {
        if i + 1 < raw.len() {
            lemma_text_run_end_bounds(raw, i + 2);
        }
    } else if raw[i] == '{' {
    } else {
        lemma_text_run_end_bounds(raw, i + 1);
    }
}

/// The position of the `}` that closes an interpolation whose code is
/// scanned from `i` on at nesting depth `depth`, or `None` if the content
/// ends first.
pub open spec fn brace_close(raw: Seq<char>, i: int, depth: nat) -> Option<int>
    decreases raw.len() - i,
{
    if i < 0 || i >= raw.len() || depth == 0 {
        None
    } else if raw[i] == '{' {
        brace_close(raw, i + 1, depth + 1)
    } else if raw[i] == '}' {
        if depth == 1 {
            Some(i)
        } else {
            brace_close(raw, i + 1, (depth - 1) as nat)
        }
    } else {
        brace_close(raw, i + 1, depth)
    }
}

/// The brace that closes an interpolation stands inside the content, at

/// or after the place from which the interpolation is scanned.
pub proof fn lemma_brace_close_bounds(raw: Seq<char>, i: int, depth: nat)
    requires
        0 <= i,
    ensures
        brace_close(raw, i, depth) matches Some(c) ==> i <= c < raw.len(),
    decreases raw.len() - i,
{
    if i >= raw.len() || depth == 0 {
    } else if raw[i] == '{' {
        lemma_brace_close_bounds(raw, i + 1, depth + 1);
    } else if raw[i] == '}' {
        if depth != 1 {
            lemma_brace_close_bounds(raw, i + 1, (depth - 1) as nat);
        }
    } else {
        lemma_brace_close_bounds(raw, i + 1, depth);
    }
}

/// `parts` and, unless it is empty, the literal text `text`.
pub open spec fn with_text(parts: Seq<StringPartView>, text: Seq<char>) -> Seq<StringPartView> {
    if text.len() > 0 {
        parts.push(StringPartView::Text(text))
    } else {
        parts
    }
}

/// The parts of the interpolated string content `raw` from `i` on, after
/// the parts `done`: runs of literal text with their escapes decoded, and
/// the raw code between balanced braces. `None` where a `{` is never
/// closed.
pub open spec fn split_parts(raw: Seq<char>, i: int, done: Seq<StringPartView>) -> Option<
    Seq<StringPartView>,
>
    decreases raw.len() - i,
{
    if i < 0 || i >= raw.len() {
        Some(done)
    } else {
        let e = text_run_end(raw, i);
        if e < i || e > raw.len() {
            None
        } else if e == raw.len() {
            Some(with_text(done, unescape(raw.subrange(i, e))))
        } else {
            let parts = with_text(done, unescape(raw.subrange(i, e)));
            match brace_close(raw, e + 1, 1) {
                None => None,
                Some(c) => if e < c < raw.len() {
                    split_parts(
                        raw,
                        c + 1,
                        parts.push(StringPartView::Interpolation(raw.subrange(e + 1, c))),
                    )
                } else {
                    None
                },
            }
        }
    }
}

/// The parts of the interpolated string content `raw`.
pub open spec fn interpolation_parts(raw: Seq<char>) -> Option<Seq<StringPartView>> {
    split_parts(raw, 0, Seq::empty())
}

/// The token of kind `kind` that spans the characters from `a` to `b`.
pub open spec fn token_at(s: Seq<char>, kind: TokensView, a: int, b: int) -> TokenView {
    TokenView {
        token_type: kind,
        start: location_at(s, a),
        end: location_at(s, b),
        span: Range { start: location_at(s, a).offset, end: location_at(s, b).offset },
        src: s.subrange(a, b),
    }
}

/// What the scanner finds at one position.
pub enum Scan {
    /// A token, and the position after it.
    Token(TokenView, int),
    /// A diagnostic, and the position at which the cursor stood when it was
    /// raised.
    Error(LexerErrorView, int),
}

/// The identifier or keyword that starts at `i`.
pub open spec fn scan_identifier(s: Seq<char>, i: int) -> Scan {
    let j = run_end(s, i, CharClass::IdentContinue);
    let text = s.subrange(i, j);
    let kind = match Keywords::lookup(text) {
        Some(k) => TokensView::Keyword(k),
        None => TokensView::Identifier(text),
    };
    Scan::Token(token_at(s, kind, i, j), j)
}

/// The number after a radix prefix at `i`: a run of digits of `class`, which
/// may neither be empty nor exceed an `i64`.
pub open spec fn scan_radix(s: Seq<char>, i: int, class: CharClass) -> Scan {
    let j = run_end(s, i + 2, class);
    let digits = s.subrange(i + 2, j);
    let (radix, prefix) = if class == CharClass::HexDigit {
        (16int, "0x"@)
    } else {
        (2int, "0b"@)
    };
    let fault = |text: Seq<char>|
        if class == CharClass::HexDigit {
            LexerErrorView::InvalidHexLiteral(text, location_at(s, i))
        } else {
            LexerErrorView::InvalidBinaryLiteral(text, location_at(s, i))
        };
    if digits.len() == 0 {
        Scan::Error(fault(prefix), j)
    } else {
        match parse_digits(digits, radix) {
            Some(v) => Scan::Token(
                token_at(
                    s,
                    if class == CharClass::HexDigit {
                        TokensView::HexLiteral(v)
                    } else {
                        TokensView::BinaryLiteral(v)
                    },
                    i,
                    j,
                ),
                j,
            ),
            None => Scan::Error(fault(digits), j),
        }
    }
}

/// The number that starts at `i`: a hexadecimal literal after `0x`, a
/// binary literal after `0b`, else decimal digits with at most one point.
/// A second point ends the number and is left for the next token.
pub open spec fn scan_number(s: Seq<char>, i: int) -> Scan {
    if pair_at(s, i, '0', 'x') {
        scan_radix(s, i, CharClass::HexDigit)
    } else if pair_at(s, i, '0', 'b') {
        scan_radix(s, i, CharClass::BinaryDigit)
    } else {
        let whole = run_end(s, i, CharClass::Digit);
        if char_at(s, whole) == Some('.') {
            let j = run_end(s, whole + 1, CharClass::Digit);
            Scan::Token(token_at(s, TokensView::FloatLiteral(s.subrange(i, j)), i, j), j)
        } else {
            match parse_digits(s.subrange(i, whole), 10) {
                Some(v) => Scan::Token(token_at(s, TokensView::IntLiteral(v), i, whole), whole),
                None => Scan::Error(
                    LexerErrorView::InvalidIntegerLiteral(s.subrange(i, whole), location_at(s, i)),
                    whole,
                ),
            }
        }
    }
}

/// The token that the two characters `text` spell: a binary operator, a
/// unary operator or an arrow.
pub open spec fn two_char_token(text: Seq<char>) -> Option<TokensView> {
    match BinaryOperators::lookup(text) {
        Some(op) => Some(TokensView::BinaryOperator(op)),
        None => match UnaryOperators::lookup(text) {
            Some(op) => Some(TokensView::UnaryOperator(op)),
            None => if text == "->"@ {
                Some(TokensView::ThinArrow)
            } else if text == "=>"@ {
                Some(TokensView::FatArrow)
            } else {
                None
            },
        },
    }
}

/// The operator that the one character `text` spells.
pub open spec fn one_char_operator(text: Seq<char>) -> Option<TokensView> {
    match BinaryOperators::lookup(text) {
        Some(op) => Some(TokensView::BinaryOperator(op)),
        None => match UnaryOperators::lookup(text) {
            Some(op) => Some(TokensView::UnaryOperator(op)),
            None => None,
        },
    }
}

/// The operator or arrow that starts at `i`: the two-character spelling
/// where there is one, else the one-character spelling.
pub open spec fn scan_operator(s: Seq<char>, i: int) -> Scan {
    let two = if i + 1 < s.len() {
        two_char_token(s.subrange(i, i + 2))
    } else {
        None
    };
    match two {
        Some(kind) => Scan::Token(token_at(s, kind, i, i + 2), i + 2),
        None => match one_char_operator(s.subrange(i, i + 1)) {
            Some(kind) => Scan::Token(token_at(s, kind, i, i + 1), i + 1),
            None => Scan::Error(LexerErrorView::UnexpectedChar(s[i], location_at(s, i)), i + 1),
        },
    }
}

/// The string that starts with the quote at `i`.
pub open spec fn scan_string(s: Seq<char>, i: int) -> Scan {
    match string_close(s, i + 1) {
        None => Scan::Error(LexerErrorView::UnclosedString(location_at(s, i)), s.len() as int),
        Some(q) => {
            let raw = s.subrange(i + 1, q);
            if string_has_brace(s, i + 1) {
                match interpolation_parts(raw) {
                    Some(parts) => Scan::Token(
                        token_at(s, TokensView::InterpolatedString(parts), i, q + 1),
                        q + 1,
                    ),
                    None => Scan::Error(
                        LexerErrorView::UnmatchedBrace(location_at(s, i)),
                        q + 1,
                    ),
                }
            } else {
                Scan::Token(
                    token_at(s, TokensView::StringLiteral(unescape(raw)), i, q + 1),
                    q + 1,
                )
            }
        },
    }
}

/// What the scanner finds at position `i`, where a character stands that
/// is neither whitespace nor the start of a comment.
pub open spec fn scan_token(s: Seq<char>, i: int) -> Scan
    recommends
        0 <= i < s.len(),
{
    let c = s[i];
    if !is_ascii_char(c) {
        Scan::Error(LexerErrorView::NonASCIIChar(c, location_at(s, i)), i)
    } else if is_ident_start(c) {
        scan_identifier(s, i)
    } else if c == '"' {
        scan_string(s, i)
    } else if is_digit(c) {
        scan_number(s, i)
    } else if BinaryOperators::can_start(c) || UnaryOperators::can_start(c) {
        scan_operator(s, i)
    } else {
        match punctuation(c) {
            Some(kind) => Scan::Token(token_at(s, kind, i, i + 1), i + 1),
            None => Scan::Error(LexerErrorView::UnexpectedChar(c, location_at(s, i)), i),
        }
    }
}

/// The tokens and the diagnostics of a scan.
pub struct LexOutput {
    pub tokens: Seq<TokenView>,
    pub errors: Seq<LexerErrorView>,
}

/// The scan of `s` from `i` on, after the tokens and diagnostics of `done`.
pub open spec fn lex_from(s: Seq<char>, i: int, done: LexOutput) -> LexOutput
    decreases s.len() - i,
{
    if i < 0 || i >= s.len() {
        done
    } else {
        match skip_trivia(s, i) {
            Err(c) => LexOutput {
                tokens: done.tokens,
                errors: done.errors.push(LexerErrorView::UnclosedComment(location_at(s, c))),
            },
            Ok(j) => if j < i || j >= s.len() {
                done
            } else {
                match scan_token(s, j) {
                    Scan::Token(t, next) => if i < next <= s.len() {
                        lex_from(s, next, LexOutput { tokens: done.tokens.push(t), ..done })
                    } else {
                        done
                    },
                    Scan::Error(e, at) => if i < recover(s, at) <= s.len() {
                        lex_from(
                            s,
                            recover(s, at),
                            LexOutput { errors: done.errors.push(e), ..done },
                        )
                    } else {
                        done
                    },
                }
            },
        }
    }
}

/// The scan of `s` from `i` on.
pub open spec fn lex_rest(s: Seq<char>, i: int) -> LexOutput {
    lex_from(s, i, LexOutput { tokens: Seq::empty(), errors: Seq::empty() })
}

/// The scan of the whole of `s`.
pub open spec fn lex_all(s: Seq<char>) -> LexOutput {
    lex_rest(s, 0)
}

} // verus!
