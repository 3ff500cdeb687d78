//! The scanner: source text to tokens and diagnostics.

use crate::cursor::{char_at, location_at, Mark, SourceCursor, SourceLocation};
use crate::keywords::Keywords;
use crate::lex_errors::{CarbideLexerError, LexerErrorView};
use crate::lex_laws::{in_order, lemma_tokens_are_slices, lemma_tokens_in_order, slice_of_source};
use crate::lex_spec::{
    brace_close, comment_end, digit_value, digits_value, interpolation_parts,
    lemma_brace_close_bounds, lemma_comment_end_bounds, lemma_recover_bounds, lemma_run_end_bounds,
    lemma_skip_trivia_bounds, lex_from, lex_rest, pair_at, parse_digits, recover, run_end,
    scan_identifier, scan_number, scan_operator, scan_radix, scan_string, scan_token, skip_trivia,
    split_parts, string_close, string_has_brace, text_run_end, token_at, two_char_token, unescape,
    unescape_from, with_text, CharClass, LexOutput, Scan,
};
use crate::operators::{BinaryOperators, UnaryOperators};
use crate::text::{
    char_is_ascii, char_is_digit, char_is_ident_start, char_is_space, is_digit, is_ident_start,
    str_eq,
};
use crate::tokens::{
    parts_view, punctuation, tokens_view, StringPart, StringPartView, Token, Tokens, TokenView,
};
use vstd::prelude::*;

verus! {

/// The values of a sequence of scanner diagnostics.
pub open spec fn errors_view(errors: Seq<CarbideLexerError>) -> Seq<LexerErrorView> {
    errors.map_values(|e: CarbideLexerError| e@)
}

proof fn lemma_errors_view_push(errors: Seq<CarbideLexerError>, e: CarbideLexerError)
    ensures
        errors_view(errors.push(e)) == errors_view(errors).push(e@),
{
    assert(errors_view(errors.push(e)) =~= errors_view(errors).push(e@));
}

proof fn lemma_tokens_view_push(tokens: Seq<Token<'_>>, t: Token<'_>)
    ensures
        tokens_view(tokens.push(t)) == tokens_view(tokens).push(t@),
{
    assert(tokens_view(tokens.push(t)) =~= tokens_view(tokens).push(t@));
}

/// The tokens and the diagnostics of a scan.
#[derive(Debug)]
pub struct LexResult<'a> {
    pub tokens: Vec<Token<'a>>,
    pub errors: Vec<CarbideLexerError>,
}

impl View for LexResult<'_> {
    type V = LexOutput;

    open spec fn view(&self) -> LexOutput {
        LexOutput { tokens: tokens_view(self.tokens@), errors: errors_view(self.errors@) }
    }
}

impl LexResult<'_> {
    /// Whether the scan raised no diagnostic.
    pub fn is_ok(&self) -> (b: bool)
        ensures
            b == (self@.errors.len() == 0),
    {
        self.errors.len() == 0
    }

    /// Whether the scan raised a diagnostic.
    pub fn has_errors(&self) -> (b: bool)
        ensures
            b == (self@.errors.len() > 0),
    {
        self.errors.len() > 0
    }
}

/// Whether the outcome `r` of scanning one token, with the cursor left at
/// `at`, is what `scan` says.
pub open spec fn scanned(r: Result<Token<'_>, CarbideLexerError>, at: int, scan: Scan) -> bool {
    match r {
        Ok(t) => scan == Scan::Token(t@, at),
        Err(e) => scan == Scan::Error(e@, at),
    }
}

/// The value of the digit `c`.
fn digit_of(c: char) -> (d: i64)
    ensures
        d == digit_value(c),
        0 <= d < 16,
{
    if char_is_digit(c) {
        (c as u32 - '0' as u32) as i64
    } else if 'a' <= c && c <= 'f' {
        (c as u32 - 'a' as u32 + 10) as i64
    } else if 'A' <= c && c <= 'F' {
        (c as u32 - 'A' as u32 + 10) as i64
    } else {
        0
    }
}

proof fn lemma_digits_value_prefix(t: Seq<char>, k: int, radix: int)
    requires
        0 <= k <= t.len(),
        radix >= 1,
    ensures
        0 <= digits_value(t.take(k), radix) <= digits_value(t, radix),
    decreases t.len() - k,
{
    if k == t.len() {
        assert(t.take(k) =~= t);
        lemma_digits_value_nonnegative(t, radix);
    } else {
        lemma_digits_value_prefix(t, k + 1, radix);
        assert(t.take(k + 1).drop_last() =~= t.take(k));
        lemma_digits_value_nonnegative(t.take(k), radix);
        let v = digits_value(t.take(k), radix);
        assert(v <= v * radix) by (nonlinear_arith)
            requires
                v >= 0,
                radix >= 1,
        ;
    }
}

proof fn lemma_digits_value_nonnegative(t: Seq<char>, radix: int)
    requires
        radix >= 1,
    ensures
        0 <= digits_value(t, radix),
    decreases t.len(),
{
    if t.len() > 0 {
        lemma_digits_value_nonnegative(t.drop_last(), radix);
        let v = digits_value(t.drop_last(), radix);
        assert(0 <= v * radix) by (nonlinear_arith)
            requires
                v >= 0,
                radix >= 1,
        ;
    }
}

/// The number that the digits `digits` write in radix 2, 10 or 16, where
/// it fits an `i64`.
fn parse_radix(digits: &str, radix: u32) -> (r: Option<i64>)
    requires
        radix == 2 || radix == 10 || radix == 16,
    ensures
        r == parse_digits(digits@, radix as int),
{
    let mut cur = SourceCursor::new(digits);
    let mut acc: i64 = 0;
    loop
        invariant
            cur.wf(),
            cur.text() == digits@,
            radix == 2 || radix == 10 || radix == 16,
            acc == digits_value(digits@.take(cur.index()), radix as int),
            0 <= acc,
        ensures
            cur.index() == digits@.len(),
            acc == digits_value(digits@, radix as int),
        decreases digits@.len() - cur.index(),
    {
        proof {
            cur.lemma_index_in_range();
        }
        let ghost k = cur.index();
        match cur.next() {
            None => {
                assert(digits@.take(k) =~= digits@);
                break ;
            },
            Some(c) => {
                let d = digit_of(c);
                proof {
                    assert(digits@.take(k + 1).drop_last() =~= digits@.take(k));
                    lemma_digits_value_prefix(digits@, k + 1, radix as int);
                }
                let shifted = match acc.checked_mul(radix as i64) {
                    Some(v) => v,
                    None => {
                        return None;
                    },
                };
                acc = match shifted.checked_add(d) {
                    Some(v) => v,
                    None => {
                        return None;
                    },
                };
            },
        }
    }
    Some(acc)
}

/// The string of the two characters `a`, `b`.
fn pair_string(a: char, b: char) -> (s: String)
    ensures
        s@ == seq![a, b],
{
    let mut s = String::new();
    s.push(a);
    s.push(b);
    assert(s@ =~= seq![a, b]);
    s
}

/// The scanner: a cursor over the source text.
pub struct CarbideLexer<'a> {
    cursor: SourceCursor<'a>,
}

impl<'a> CarbideLexer<'a> {
    /// The source text, as its sequence of characters.
    pub closed spec fn source(&self) -> Seq<char> {
        self.cursor.text()
    }

    /// The position of the scanner, counted in characters.
    pub closed spec fn index(&self) -> int {
        self.cursor.index()
    }

    /// The scanner's invariant.
    pub closed spec fn wf(&self) -> bool {
        self.cursor.wf()
    }

    /// The scanner stands inside its source.
    pub proof fn lemma_index_in_range(&self)
        requires
            self.wf(),
        ensures
            0 <= self.index() <= self.source().len() <= usize::MAX,
            vstd::utf8::encode_utf8(self.source()).len() <= usize::MAX,
    {
        self.cursor.lemma_index_in_range();
    }

    /// A scanner at the start of `src`.
    pub fn from_src(src: &'a str) -> (lexer: Self)
        ensures
            lexer.wf(),
            lexer.source() == src@,
            lexer.index() == 0,
    {
        CarbideLexer { cursor: SourceCursor::new(src) }
    }

    /// The location of the scanner.
    pub fn current_location(&self) -> (loc: SourceLocation)
        requires
            self.wf(),
        ensures
            loc == location_at(self.source(), self.index()),
    {
        self.cursor.location()
    }

    /// Whether the scanner stands at the end of the source.
    pub fn is_eof(&self) -> (b: bool)
        requires
            self.wf(),
        ensures
            b == (self.index() >= self.source().len()),
    {
        self.cursor.is_eof()
    }

    /// The character under the scanner.
    pub fn peek(&self) -> (r: Option<char>)
        requires
            self.wf(),
        ensures
            r == char_at(self.source(), self.index()),
    {
        self.cursor.peek()
    }

    /// Steps over the character under the scanner and returns it.
    pub fn next(&mut self) -> (r: Option<char>)
        requires
            old(self).wf(),
        ensures
            final(self).wf(),
            final(self).source() == old(self).source(),
            r == char_at(old(self).source(), old(self).index()),
            final(self).index() == if r is Some {
                old(self).index() + 1
            } else {
                old(self).index()
            },
    {
        self.cursor.next()
    }

    /// Whether the characters `a`, `b` stand under the scanner.
    fn at_pair(&self, a: char, b: char) -> (r: bool)
        requires
            self.wf(),
        ensures
            r == pair_at(self.source(), self.index(), a, b),
    {
        match self.cursor.peek() {
            Some(c) => c == a && match self.cursor.peek_second() {
                Some(d) => d == b,
                None => false,
            },
            None => false,
        }
    }

    /// Steps over the longest run of characters of `class`.
    pub fn consume_while(&mut self, class: CharClass)
        requires
            old(self).wf(),
        ensures
            final(self).wf(),
            final(self).source() == old(self).source(),
            final(self).index() == run_end(old(self).source(), old(self).index(), class),
            old(self).index() <= final(self).index() <= final(self).source().len(),
    {
        loop
            invariant
                self.wf(),
                self.source() == old(self).source(),
                old(self).index() <= self.index(),
                run_end(self.source(), self.index(), class) == run_end(
                    old(self).source(),
                    old(self).index(),
                    class,
                ),
            ensures
                self.wf(),
                self.source() == old(self).source(),
                self.index() == run_end(old(self).source(), old(self).index(), class),
                old(self).index() <= self.index() <= self.source().len(),
            decreases self.source().len() - self.index(),
        {
            proof {
                self.lemma_index_in_range();
            }
            match self.peek() {
                Some(c) => {
                    if class.test(c) {
                        self.next();
                    } else {
                        break ;
                    }
                },
                None => {
                    break ;
                },
            }
        }
    }

    /// Steps over a block comment, nested comments included. The scanner
    /// stands at its opening `/*`.
    fn skip_nested_comment(&mut self) -> (r: Result<(), CarbideLexerError>)
        requires
            old(self).wf(),
            pair_at(old(self).source(), old(self).index(), '/', '*'),
        ensures
            final(self).wf(),
            final(self).source() == old(self).source(),
            match comment_end(old(self).source(), old(self).index() + 2, 1) {
                Some(j) => r is Ok && final(self).index() == j,
                None => r matches Err(e) && e@ == LexerErrorView::UnclosedComment(
                    location_at(old(self).source(), old(self).index()),
                ) && final(self).index() == final(self).source().len(),
            },
    {
        proof {
            self.lemma_index_in_range();
        }
        let start_loc = self.current_location();
        self.next();
        self.next();
        let mut depth: usize = 1;
        let ghost s = self.source();
        let ghost i = old(self).index();
        loop
            invariant
                self.wf(),
                self.source() == s,
                s == old(self).source(),
                i == old(self).index(),
                0 <= i,
                i + 2 <= self.index() <= s.len(),
                depth <= self.index() - i,
                comment_end(s, self.index(), depth as nat) == comment_end(s, i + 2, 1),
            ensures
                self.wf(),
                self.source() == s,
                comment_end(s, self.index(), depth as nat) == comment_end(s, i + 2, 1),
                depth == 0 || self.index() >= s.len(),
                self.index() <= s.len(),
            decreases s.len() - self.index(),
        {
            proof {
                self.lemma_index_in_range();
            }
            if self.is_eof() || depth == 0 {
                break ;
            }
            if self.at_pair('/', '*') {
                self.next();
                self.next();
                proof {
                    self.lemma_index_in_range();
                }
                depth = depth + 1;
            } else if self.at_pair('*', '/') {
                self.next();
                self.next();
                depth = depth - 1;
            } else {
                self.next();
            }
        }
        if depth > 0 {
            return Err(CarbideLexerError::UnclosedComment(start_loc));
        }
        Ok(())
    }

    /// Steps over whitespace and comments.
    pub fn skip_whitespace_and_comments(&mut self) -> (r: Result<(), CarbideLexerError>)
        requires
            old(self).wf(),
        ensures
            final(self).wf(),
            final(self).source() == old(self).source(),
            match skip_trivia(old(self).source(), old(self).index()) {
                Ok(j) => r is Ok && final(self).index() == j,
                Err(c) => r matches Err(e) && e@ == LexerErrorView::UnclosedComment(
                    location_at(old(self).source(), c),
                ) && final(self).index() == final(self).source().len(),
            },
    {
        let ghost s = self.source();
        let ghost i = old(self).index();
        loop
            invariant
                self.wf(),
                self.source() == s,
                s == old(self).source(),
                i == old(self).index(),
                skip_trivia(s, self.index()) == skip_trivia(s, i),
            ensures
                self.wf(),
                self.source() == s,
                skip_trivia(s, i) == Ok::<int, int>(self.index()),
            decreases s.len() - self.index(),
        {
            proof {
                self.lemma_index_in_range();
            }
            let ghost here = self.index();
            match self.peek() {
                None => {
                    break ;
                },
                Some(ch) => {
                    if char_is_space(ch) {
                        self.next();
                    } else if self.at_pair('/', '/') {
                        self.next();
                        self.next();
                        self.consume_while(CharClass::NotNewline);
                    } else if self.at_pair('/', '*') {
                        proof {
                            lemma_comment_end_bounds(s, here + 2, 1);
                        }
                        match self.skip_nested_comment() {
                            Ok(()) => {},
                            Err(e) => {
                                return Err(e);
                            },
                        }
                    } else {
                        break ;
                    }
                },
            }
        }
        Ok(())
    }

    /// After a diagnostic: steps over one character and then on to the
    /// next character that can start a token, a comment or whitespace.
    pub fn recover_from_error(&mut self)
        requires
            old(self).wf(),
        ensures
            final(self).wf(),
            final(self).source() == old(self).source(),
            final(self).index() == recover(old(self).source(), old(self).index()),
    {
        proof {
            self.lemma_index_in_range();
        }
        match self.next() {
            None => {},
            Some(_) => {
                self.consume_while(CharClass::Unstartable);
            },
        }
    }

    /// The token of kind `kind` from the mark `start` to the scanner.
    fn token_from(&self, kind: Tokens<'a>, start: &Mark) -> (t: Token<'a>)
        requires
            self.wf(),
            start.at(self.source(), start.index@),
            start.index@ <= self.index(),
        ensures
            t@ == token_at(self.source(), kind@, start.index@, self.index()),
    {
        let end = self.current_location();
        Token {
            token_type: kind,
            start: start.loc,
            end,
            span: start.loc.offset..end.offset,
            src: self.cursor.slice_from(start),
        }
    }

    /// Scans the identifier or keyword under the scanner.
    fn lex_identifier(&mut self, start: &Mark) -> (t: Token<'a>)
        requires
            old(self).wf(),
            start.at(old(self).source(), old(self).index()),
            old(self).index() < old(self).source().len(),
            is_ident_start(old(self).source()[old(self).index()]),
        ensures
            final(self).wf(),
            final(self).source() == old(self).source(),
            final(self).index() > old(self).index(),
            scan_identifier(old(self).source(), old(self).index()) == Scan::Token(
                t@,
                final(self).index(),
            ),
    {
        proof {
            lemma_run_end_bounds(self.source(), self.index() + 1, CharClass::IdentContinue);
        }
        self.consume_while(CharClass::IdentContinue);
        let slice = self.cursor.slice_from(start);
        let kind = match Keywords::try_from(slice) {
            Ok(keyword) => Tokens::Keyword(keyword),
            Err(_) => Tokens::Identifier(slice),
        };
        self.token_from(kind, start)
    }

    /// Scans the digits of a literal after its radix prefix.
    fn lex_radix(&mut self, start: &Mark, class: CharClass) -> (r: Result<
        Token<'a>,
        CarbideLexerError,
    >)
        requires
            old(self).wf(),
            start.at(old(self).source(), old(self).index()),
            old(self).index() + 1 < old(self).source().len(),
            class == CharClass::HexDigit || class == CharClass::BinaryDigit,
        ensures
            final(self).wf(),
            final(self).source() == old(self).source(),
            final(self).index() > old(self).index(),
            scanned(r, final(self).index(), scan_radix(old(self).source(), old(self).index(), class)),
    {
        self.next();
        self.next();
        let digits_start = self.cursor.mark();
        self.consume_while(class);
        let digits = self.cursor.slice_from(&digits_start);
        let hex = match class {
            CharClass::HexDigit => true,
            _ => false,
        };
        if digits.is_empty() {
            return Err(
                if hex {
                    CarbideLexerError::InvalidHexLiteral("0x".to_owned(), start.loc)
                } else {
                    CarbideLexerError::InvalidBinaryLiteral("0b".to_owned(), start.loc)
                },
            );
        }
        match parse_radix(
            digits,
            if hex {
                16
            } else {
                2
            },
        ) {
            Some(v) => Ok(
                self.token_from(
                    if hex {
                        Tokens::HexLiteral(v)
                    } else {
                        Tokens::BinaryLiteral(v)
                    },
                    start,
                ),
            ),
            None => Err(
                if hex {
                    CarbideLexerError::InvalidHexLiteral(digits.to_owned(), start.loc)
                } else {
                    CarbideLexerError::InvalidBinaryLiteral(digits.to_owned(), start.loc)
                },
            ),
        }
    }

    /// Scans the number under the scanner.
    fn lex_number(&mut self, start: &Mark) -> (r: Result<Token<'a>, CarbideLexerError>)
        requires
            old(self).wf(),
            start.at(old(self).source(), old(self).index()),
            old(self).index() < old(self).source().len(),
            is_digit(old(self).source()[old(self).index()]),
        ensures
            final(self).wf(),
            final(self).source() == old(self).source(),
            final(self).index() > old(self).index(),
            scanned(r, final(self).index(), scan_number(old(self).source(), old(self).index())),
    {
        if self.at_pair('0', 'x') {
            return self.lex_radix(start, CharClass::HexDigit);
        }
        if self.at_pair('0', 'b') {
            return self.lex_radix(start, CharClass::BinaryDigit);
        }
        proof {
            lemma_run_end_bounds(self.source(), self.index() + 1, CharClass::Digit);
        }
        self.consume_while(CharClass::Digit);
        match self.peek() {
            Some('.') => {
                self.next();
                self.consume_while(CharClass::Digit);
                let slice = self.cursor.slice_from(start);
                Ok(self.token_from(Tokens::FloatLiteral(slice), start))
            },
            _ => {
                let slice = self.cursor.slice_from(start);
                match parse_radix(slice, 10) {
                    Some(v) => Ok(self.token_from(Tokens::IntLiteral(v), start)),
                    None => Err(
                        CarbideLexerError::InvalidIntegerLiteral(slice.to_owned(), start.loc),
                    ),
                }
            },
        }
    }

    /// The token that the two characters `text` spell, if any.
    fn pair_token(text: &str) -> (r: Option<Tokens<'a>>)
        ensures
            match r {
                Some(kind) => two_char_token(text@) == Some(kind@),
                None => two_char_token(text@) is None,
            },
    {
        match BinaryOperators::try_from(text) {
            Ok(op) => Some(Tokens::BinaryOperator(op)),
            Err(_) => match UnaryOperators::try_from(text) {
                Ok(op) => Some(Tokens::UnaryOperator(op)),
                Err(_) => if str_eq(text, "->") {
                    Some(Tokens::ThinArrow)
                } else if str_eq(text, "=>") {
                    Some(Tokens::FatArrow)
                } else {
                    None
                },
            },
        }
    }

    /// Scans the operator or arrow under the scanner: the two-character
    /// spelling first, then the one-character spelling.
    fn lex_operator(&mut self, start: &Mark) -> (r: Result<Token<'a>, CarbideLexerError>)
        requires
            old(self).wf(),
            start.at(old(self).source(), old(self).index()),
            old(self).index() < old(self).source().len(),
        ensures
            final(self).wf(),
            final(self).source() == old(self).source(),
            final(self).index() > old(self).index(),
            scanned(r, final(self).index(), scan_operator(old(self).source(), old(self).index())),
    {
        let ghost s = self.source();
        let ghost i = self.index();
        let first_ch = match self.next() {
            Some(c) => c,
            None => {
                return Err(CarbideLexerError::UnexpectedEOF(start.loc));
            },
        };
        match self.peek() {
            Some(second_ch) => {
                let two = pair_string(first_ch, second_ch);
                assert(two@ =~= s.subrange(i, i + 2));
                match Self::pair_token(two.as_str()) {
                    Some(kind) => {
                        self.next();
                        return Ok(self.token_from(kind, start));
                    },
                    None => {},
                }
            },
            None => {},
        }
        let slice = self.cursor.slice_from(start);
        match BinaryOperators::try_from(slice) {
            Ok(op) => Ok(self.token_from(Tokens::BinaryOperator(op), start)),
            Err(_) => match UnaryOperators::try_from(slice) {
                Ok(op) => Ok(self.token_from(Tokens::UnaryOperator(op), start)),
                Err(_) => Err(CarbideLexerError::UnexpectedChar(first_ch, start.loc)),
            },
        }
    }

    /// Scans the punctuation token under the scanner, if there is one.
    fn lex_single_char(&mut self, start: &Mark) -> (r: Option<Token<'a>>)
        requires
            old(self).wf(),
            start.at(old(self).source(), old(self).index()),
            old(self).index() < old(self).source().len(),
        ensures
            final(self).wf(),
            final(self).source() == old(self).source(),
            match punctuation(old(self).source()[old(self).index()]) {
                Some(kind) => r matches Some(t) && t@ == token_at(
                    old(self).source(),
                    kind,
                    old(self).index(),
                    old(self).index() + 1,
                ) && final(self).index() == old(self).index() + 1,
                None => r is None && final(self).index() == old(self).index(),
            },
    {
        match self.peek() {
            Some(ch) => match Tokens::from_char(ch) {
                Some(kind) => {
                    self.next();
                    Some(self.token_from(kind, start))
                },
                None => None,
            },
            None => None,
        }
    }

    /// Decodes the escapes of `raw`: `\n \t \r \\ \" \' \0`. An escape
    /// that is not known is kept as it stands.
    pub fn unescape_string(raw: &str) -> (r: String)
        ensures
            r@ == unescape(raw@),
    {
        let mut result = String::new();
        let mut cur = SourceCursor::new(raw);
        loop
            invariant
                cur.wf(),
                cur.text() == raw@,
                result@ + unescape_from(raw@, cur.index()) == unescape(raw@),
            ensures
                result@ == unescape(raw@),
            decreases raw@.len() - cur.index(),
        {
            proof {
                cur.lemma_index_in_range();
            }
            let ghost before = result@;
            let ghost k = cur.index();
            match cur.next() {
                None => {
                    assert(result@ + Seq::<char>::empty() =~= result@);
                    break ;
                },
                Some(ch) => {
                    if ch == '\\' {
                        match cur.next() {
                            Some(next_ch) => {
                                if next_ch == 'n' {
                                    result.push('\n');
                                } else if next_ch == 't' {
                                    result.push('\t');
                                } else if next_ch == 'r' {
                                    result.push('\r');
                                } else if next_ch == '\\' {
                                    result.push('\\');
                                } else if next_ch == '"' {
                                    result.push('"');
                                } else if next_ch == '\'' {
                                    result.push('\'');
                                } else if next_ch == '0' {
                                    result.push('\0');
                                } else {
                                    result.push('\\');
                                    result.push(next_ch);
                                }
                                assert(result@ =~= before + crate::lex_spec::escape(next_ch));
                                assert(result@ + unescape_from(raw@, k + 2) =~= before
                                    + unescape_from(raw@, k));
                            },
                            None => {
                                result.push('\\');
                                assert(result@ + unescape_from(raw@, k + 1) =~= before
                                    + unescape_from(raw@, k));
                            },
                        }
                    } else {
                        result.push(ch);
                        assert(result@ + unescape_from(raw@, k + 1) =~= before + unescape_from(
                            raw@,
                            k,
                        ));
                    }
                },
            }
        }
        result
    }

    /// Splits the content `raw` of an interpolated string into its parts.
    /// `loc` is the location of the string, at which an unclosed `{` is
    /// reported.
    pub fn lex_interpolated_string(raw: &str, loc: SourceLocation) -> (r: Result<
        Vec<StringPart>,
        CarbideLexerError,
    >)
        ensures
            match interpolation_parts(raw@) {
                Some(parts) => r matches Ok(v) && parts_view(v@) == parts,
                None => r matches Err(e) && e@ == LexerErrorView::UnmatchedBrace(loc),
            },
    {
        let mut parts: Vec<StringPart> = Vec::new();
        let mut cur = SourceCursor::new(raw);
        assert(parts_view(parts@) =~= Seq::<StringPartView>::empty());
        loop
            invariant
                cur.wf(),
                cur.text() == raw@,
                split_parts(raw@, cur.index(), parts_view(parts@)) == interpolation_parts(raw@),
            ensures
                interpolation_parts(raw@) == Some(parts_view(parts@)),
            decreases raw@.len() - cur.index(),
        {
            proof {
                cur.lemma_index_in_range();
            }
            if cur.is_eof() {
                break ;
            }
            let ghost i = cur.index();
            let ghost done = parts_view(parts@);
            let text_start = cur.mark();
            loop
                invariant
                    cur.wf(),
                    cur.text() == raw@,
                    0 <= i <= cur.index() <= raw@.len(),
                    text_run_end(raw@, cur.index()) == text_run_end(raw@, i),
                ensures
                    cur.wf(),
                    cur.text() == raw@,
                    cur.index() == text_run_end(raw@, i),
                    i <= cur.index() <= raw@.len(),
                decreases raw@.len() - cur.index(),
            {
                match cur.peek() {
                    None => {
                        break ;
                    },
                    Some(c) => {
                        if c == '\\' {
                            cur.next();
                            cur.next();
                        } else if c == '{' {
                            break ;
                        } else {
                            cur.next();
                        }
                    },
                }
            }
            let text = cur.slice_from(&text_start);
            let unescaped = Self::unescape_string(text);
            if !unescaped.as_str().is_empty() {
                parts.push(StringPart::Text(unescaped));
            }
            assert(parts_view(parts@) =~= with_text(
                done,
                unescape(raw@.subrange(i, text_run_end(raw@, i))),
            ));
            if cur.is_eof() {
                break ;
            }
            let ghost e = cur.index();
            let ghost with = parts_view(parts@);
            proof {
                lemma_brace_close_bounds(raw@, e + 1, 1);
            }
            cur.next();
            let code_start = cur.mark();
            let mut depth: usize = 1;
            loop
                invariant
                    cur.wf(),
                    cur.text() == raw@,
                    0 <= e,
                    e + 1 <= cur.index() <= raw@.len(),
                    1 <= depth <= cur.index() - e,
                    brace_close(raw@, cur.index(), depth as nat) == brace_close(raw@, e + 1, 1),
                    brace_close(raw@, e + 1, 1) is None ==> interpolation_parts(raw@) is None,
                ensures
                    cur.wf(),
                    cur.text() == raw@,
                    brace_close(raw@, e + 1, 1) == Some(cur.index()),
                    e + 1 <= cur.index() < raw@.len(),
                decreases raw@.len() - cur.index(),
            {
                proof {
                    cur.lemma_index_in_range();
                }
                match cur.peek() {
                    None => {
                        return Err(CarbideLexerError::UnmatchedBrace(loc));
                    },
                    Some(c) => {
                        if c == '{' {
                            cur.next();
                            depth = depth + 1;
                        } else if c == '}' {
                            if depth == 1 {
                                break ;
                            }
                            cur.next();
                            depth = depth - 1;
                        } else {
                            cur.next();
                        }
                    },
                }
            }
            let code = cur.slice_from(&code_start);
            parts.push(StringPart::Interpolation(code.to_owned()));
            assert(parts_view(parts@) =~= with.push(
                StringPartView::Interpolation(raw@.subrange(e + 1, cur.index())),
            ));
            cur.next();
        }
        Ok(parts)
    }

    /// Scans the string that starts with the quote under the scanner.
    fn lex_string(&mut self, start: &Mark) -> (r: Result<Token<'a>, CarbideLexerError>)
        requires
            old(self).wf(),
            start.at(old(self).source(), old(self).index()),
            old(self).index() < old(self).source().len(),
            old(self).source()[old(self).index()] == '"',
        ensures
            final(self).wf(),
            final(self).source() == old(self).source(),
            final(self).index() > old(self).index(),
            scanned(r, final(self).index(), scan_string(old(self).source(), old(self).index())),
    {
        let ghost s = self.source();
        let ghost i = self.index();
        proof {
            self.lemma_index_in_range();
        }
        self.next();
        let content_start = self.cursor.mark();
        let mut has_interpolation = false;
        loop
            invariant
                self.wf(),
                self.source() == s,
                s == old(self).source(),
                i == old(self).index(),
                start.loc == location_at(s, i),
                0 <= i,
                i + 1 <= self.index() <= s.len(),
                string_close(s, self.index()) == string_close(s, i + 1),
                (has_interpolation || string_has_brace(s, self.index())) == string_has_brace(
                    s,
                    i + 1,
                ),
            ensures
                self.wf(),
                self.source() == s,
                string_close(s, i + 1) == Some(self.index()),
                i + 1 <= self.index() < s.len(),
                has_interpolation == string_has_brace(s, i + 1),
            decreases s.len() - self.index(),
        {
            match self.peek() {
                None => {
                    return Err(CarbideLexerError::UnclosedString(start.loc));
                },
                Some(ch) => {
                    if ch == '"' {
                        break ;
                    } else if ch == '\\' {
                        self.next();
                        self.next();
                    } else if ch == '{' {
                        has_interpolation = true;
                        self.next();
                    } else {
                        self.next();
                    }
                },
            }
        }
        let raw_string = self.cursor.slice_from(&content_start);
        self.next();
        if has_interpolation {
            match Self::lex_interpolated_string(raw_string, start.loc) {
                Ok(parts) => Ok(self.token_from(Tokens::InterpolatedString(parts), start)),
                Err(e) => Err(e),
            }
        } else {
            let content = Self::unescape_string(raw_string);
            Ok(self.token_from(Tokens::StringLiteral(content), start))
        }
    }

    /// Scans the rest of the source into tokens, with error recovery: a
    /// diagnostic is recorded, the scanner resynchronises and goes on.
    pub fn lex(&mut self) -> (result: LexResult<'a>)
        requires
            old(self).wf(),
        ensures
            final(self).wf(),
            final(self).source() == old(self).source(),
            final(self).index() >= final(self).source().len(),
            result@ == lex_rest(old(self).source(), old(self).index()),
            old(self).index() == 0 ==> forall|k: int|
                0 <= k < result@.tokens.len() ==> slice_of_source(
                    old(self).source(),
                    #[trigger] result@.tokens[k],
                ),
            old(self).index() == 0 ==> forall|k: int|
                0 <= k < result@.tokens.len() - 1 ==> in_order(
                    #[trigger] result@.tokens[k],
                    result@.tokens[k + 1],
                ),
    {
        let mut tokens: Vec<Token<'a>> = Vec::new();
        let mut errors: Vec<CarbideLexerError> = Vec::new();
        let ghost s = self.source();
        let ghost goal = lex_rest(s, self.index());
        assert(tokens_view(tokens@) =~= Seq::<TokenView>::empty());
        assert(errors_view(errors@) =~= Seq::<LexerErrorView>::empty());
        loop
            invariant
                self.wf(),
                self.source() == s,
                goal == lex_from(
                    s,
                    self.index(),
                    (LexOutput { tokens: tokens_view(tokens@), errors: errors_view(errors@) }),
                ),
            ensures
                self.wf(),
                self.source() == s,
                self.index() >= s.len(),
                goal == (LexOutput { tokens: tokens_view(tokens@), errors: errors_view(errors@) }),
            decreases s.len() - self.index(),
        {
            proof {
                self.lemma_index_in_range();
                lemma_skip_trivia_bounds(s, self.index());
            }
            if self.is_eof() {
                break ;
            }
            match self.skip_whitespace_and_comments() {
                Ok(()) => {},
                Err(e) => {
                    proof {
                        lemma_errors_view_push(errors@, e);
                    }
                    errors.push(e);
                    self.recover_from_error();
                    continue ;
                },
            }
            if self.is_eof() {
                break ;
            }
            let ghost j = self.index();
            proof {
                lemma_recover_bounds(s, j);
                lemma_recover_bounds(s, j + 1);
                lemma_recover_bounds(s, s.len() as int);
            }
            let start = self.cursor.mark();
            let ch = match self.peek() {
                Some(c) => c,
                None => {
                    break ;
                },
            };
            let found: Result<Token<'a>, CarbideLexerError> = if !char_is_ascii(ch) {
                Err(CarbideLexerError::NonASCIIChar(ch, start.loc))
            } else if char_is_ident_start(ch) {
                Ok(self.lex_identifier(&start))
            } else if ch == '"' {
                self.lex_string(&start)
            } else if char_is_digit(ch) {
                self.lex_number(&start)
            } else if BinaryOperators::starts_with(ch) || UnaryOperators::starts_with(ch) {
                self.lex_operator(&start)
            } else {
                match self.lex_single_char(&start) {
                    Some(token) => Ok(token),
                    None => Err(CarbideLexerError::UnexpectedChar(ch, start.loc)),
                }
            };
            match found {
                Ok(token) => {
                    proof {
                        assert(scan_token(s, j) == Scan::Token(token@, self.index()));
                        self.lemma_index_in_range();
                        lemma_tokens_view_push(tokens@, token);
                    }
                    tokens.push(token);
                },
                Err(e) => {
                    let ghost at = self.index();
                    proof {
                        assert(scan_token(s, j) == Scan::Error(e@, at));
                        self.lemma_index_in_range();
                        lemma_recover_bounds(s, at);
                        lemma_errors_view_push(errors@, e);
                    }
                    errors.push(e);
                    self.recover_from_error();
                },
            }
        }
        let result = LexResult { tokens, errors };
        proof {
            self.lemma_index_in_range();
            if old(self).index() == 0 {
                assert forall|k: int| 0 <= k < result@.tokens.len() implies slice_of_source(
                    s,
                    #[trigger] result@.tokens[k],
                ) by {
                    lemma_tokens_are_slices(s, k);
                }
                assert forall|k: int| 0 <= k < result@.tokens.len() - 1 implies in_order(
                    #[trigger] result@.tokens[k],
                    result@.tokens[k + 1],
                ) by {
                    lemma_tokens_in_order(s, k);
                }
            }
        }
        result
    }

    /// Scans the rest of the source and fails with the first diagnostic, if
    /// there is one; the tokens are then discarded.
    pub fn lex_strict(&mut self) -> (r: Result<Vec<Token<'a>>, CarbideLexerError>)
        requires
            old(self).wf(),
        ensures
            final(self).wf(),
            final(self).source() == old(self).source(),
            final(self).index() >= final(self).source().len(),
            ({
                let out = lex_rest(old(self).source(), old(self).index());
                match r {
                    Ok(tokens) => out.errors.len() == 0 && tokens_view(tokens@) == out.tokens,
                    Err(e) => out.errors.len() > 0 && e@ == out.errors[0],
                }
            }),
    {
        let mut result = self.lex();
        if result.errors.len() > 0 {
            Err(result.errors.remove(0))
        } else {
            Ok(result.tokens)
        }
    }
}

} // verus!
