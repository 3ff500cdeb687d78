//! Tokens: the scanner's unit of output.

use core::ops::Range;
pub use crate::cursor::SourceLocation;
use crate::keywords::Keywords;
use crate::operators::{BinaryOperators, UnaryOperators};
use crate::text::{debug_quoted, push_quoted, push_signed_decimal, push_text, signed_decimal};
use vstd::prelude::*;

verus! {

/// A piece of an interpolated string.
#[derive(Debug, PartialEq)]
pub enum StringPart {
    /// Literal text, with its escapes decoded.
    Text(String),
    /// The raw code between the braces of a placeholder like `{name}`.
    Interpolation(String),
}

/// The mathematical value of a [`StringPart`].
pub enum StringPartView {
    Text(Seq<char>),
    Interpolation(Seq<char>),
}

impl View for StringPart {
    type V = StringPartView;

    open spec fn view(&self) -> StringPartView {
        match self {
            StringPart::Text(t) => StringPartView::Text(t@),
            StringPart::Interpolation(t) => StringPartView::Interpolation(t@),
        }
    }
}

impl Clone for StringPart {
    fn clone(&self) -> (r: Self)
        ensures
            r@ == self@,
    {
        match self {
            StringPart::Text(t) => StringPart::Text(t.clone()),
            StringPart::Interpolation(t) => StringPart::Interpolation(t.clone()),
        }
    }
}

/// The values of the parts of an interpolated string.
pub open spec fn parts_view(parts: Seq<StringPart>) -> Seq<StringPartView> {
    parts.map_values(|p: StringPart| p@)
}

/// A copy of the parts of an interpolated string.
pub fn clone_parts(parts: &Vec<StringPart>) -> (r: Vec<StringPart>)
    ensures
        parts_view(r@) == parts_view(parts@),
{
    let mut out: Vec<StringPart> = Vec::new();
    let mut i: usize = 0;
    while i < parts.len()
        invariant
            i <= parts.len(),
            out@.len() == i,
            forall|k: int| 0 <= k < i ==> out@[k]@ == parts@[k]@,
        decreases parts.len() - i,
    {
        out.push(parts[i].clone());
        i += 1;
    }
    assert(parts_view(out@) =~= parts_view(parts@));
    out
}

/// What a token is.
#[derive(Debug, PartialEq)]
pub enum Tokens<'a> {
    /// Integer literal, like `100`
    IntLiteral(i64),
    /// Float literal, like `0.5`, held as it is written
    FloatLiteral(&'a str),
    /// A hexadecimal literal, like `0xFF`
    HexLiteral(i64),
    /// A binary literal, like `0b1010`
    BinaryLiteral(i64),
    /// A string literal, like `"Hello World"`
    StringLiteral(String),
    /// An interpolated string with `{}`, like `"Hello {name}"`
    InterpolatedString(Vec<StringPart>),
    /// An identifier, like `my_ident`
    Identifier(&'a str),
    /// A keyword, like `let` or `fn`
    Keyword(Keywords),
    /// A binary operator, like `!=`
    BinaryOperator(BinaryOperators),
    /// A unary operator, like `!`
    UnaryOperator(UnaryOperators),
    /// A type identifier, like `string`
    TypeIdentifier(&'a str),
    ThinArrow,
    FatArrow,
    LeftParen,
    RightParen,
    LeftBracket,
    RightBracket,
    LeftBrace,
    RightBrace,
    Semicolon,
    Colon,
    Period,
    Comma,
    Tilde,
}

/// The mathematical value of a [`Tokens`].
pub enum TokensView {
    IntLiteral(i64),
    FloatLiteral(Seq<char>),
    HexLiteral(i64),
    BinaryLiteral(i64),
    StringLiteral(Seq<char>),
    InterpolatedString(Seq<StringPartView>),
    Identifier(Seq<char>),
    Keyword(Keywords),
    BinaryOperator(BinaryOperators),
    UnaryOperator(UnaryOperators),
    TypeIdentifier(Seq<char>),
    ThinArrow,
    FatArrow,
    LeftParen,
    RightParen,
    LeftBracket,
    RightBracket,
    LeftBrace,
    RightBrace,
    Semicolon,
    Colon,
    Period,
    Comma,
    Tilde,
}

impl View for Tokens<'_> {
    type V = TokensView;

    open spec fn view(&self) -> TokensView {
        match self {
            Tokens::IntLiteral(n) => TokensView::IntLiteral(*n),
            Tokens::FloatLiteral(t) => TokensView::FloatLiteral(t@),
            Tokens::HexLiteral(n) => TokensView::HexLiteral(*n),
            Tokens::BinaryLiteral(n) => TokensView::BinaryLiteral(*n),
            Tokens::StringLiteral(t) => TokensView::StringLiteral(t@),
            Tokens::InterpolatedString(parts) => TokensView::InterpolatedString(
                parts_view(parts@),
            ),
            Tokens::Identifier(t) => TokensView::Identifier(t@),
            Tokens::Keyword(k) => TokensView::Keyword(*k),
            Tokens::BinaryOperator(op) => TokensView::BinaryOperator(*op),
            Tokens::UnaryOperator(op) => TokensView::UnaryOperator(*op),
            Tokens::TypeIdentifier(t) => TokensView::TypeIdentifier(t@),
            Tokens::ThinArrow => TokensView::ThinArrow,
            Tokens::FatArrow => TokensView::FatArrow,
            Tokens::LeftParen => TokensView::LeftParen,
            Tokens::RightParen => TokensView::RightParen,
            Tokens::LeftBracket => TokensView::LeftBracket,
            Tokens::RightBracket => TokensView::RightBracket,
            Tokens::LeftBrace => TokensView::LeftBrace,
            Tokens::RightBrace => TokensView::RightBrace,
            Tokens::Semicolon => TokensView::Semicolon,
            Tokens::Colon => TokensView::Colon,
            Tokens::Period => TokensView::Period,
            Tokens::Comma => TokensView::Comma,
            Tokens::Tilde => TokensView::Tilde,
        }
    }
}

impl<'a> Clone for Tokens<'a> {
    fn clone(&self) -> (r: Self)
        ensures
            r@ == self@,
    {
        match self {
            Tokens::IntLiteral(n) => Tokens::IntLiteral(*n),
            Tokens::FloatLiteral(t) => Tokens::FloatLiteral(*t),
            Tokens::HexLiteral(n) => Tokens::HexLiteral(*n),
            Tokens::BinaryLiteral(n) => Tokens::BinaryLiteral(*n),
            Tokens::StringLiteral(t) => Tokens::StringLiteral(t.clone()),
            Tokens::InterpolatedString(parts) => Tokens::InterpolatedString(clone_parts(parts)),
            Tokens::Identifier(t) => Tokens::Identifier(*t),
            Tokens::Keyword(k) => Tokens::Keyword(*k),
            Tokens::BinaryOperator(op) => Tokens::BinaryOperator(*op),
            Tokens::UnaryOperator(op) => Tokens::UnaryOperator(*op),
            Tokens::TypeIdentifier(t) => Tokens::TypeIdentifier(*t),
            Tokens::ThinArrow => Tokens::ThinArrow,
            Tokens::FatArrow => Tokens::FatArrow,
            Tokens::LeftParen => Tokens::LeftParen,
            Tokens::RightParen => Tokens::RightParen,
            Tokens::LeftBracket => Tokens::LeftBracket,
            Tokens::RightBracket => Tokens::RightBracket,
            Tokens::LeftBrace => Tokens::LeftBrace,
            Tokens::RightBrace => Tokens::RightBrace,
            Tokens::Semicolon => Tokens::Semicolon,
            Tokens::Colon => Tokens::Colon,
            Tokens::Period => Tokens::Period,
            Tokens::Comma => Tokens::Comma,
            Tokens::Tilde => Tokens::Tilde,
        }
    }
}

/// What a token is, without what it holds: the tag that the parser looks
/// ahead at. Keywords and operators are tags themselves.
#[derive(Debug, Clone, Copy, PartialEq, Eq, Structural)]
pub enum TokenKind {
    IntLiteral,
    FloatLiteral,
    HexLiteral,
    BinaryLiteral,
    StringLiteral,
    InterpolatedString,
    Identifier,
    Keyword(Keywords),
    BinaryOperator(BinaryOperators),
    UnaryOperator(UnaryOperators),
    TypeIdentifier,
    ThinArrow,
    FatArrow,
    LeftParen,
    RightParen,
    LeftBracket,
    RightBracket,
    LeftBrace,
    RightBrace,
    Semicolon,
    Colon,
    Period,
    Comma,
    Tilde,
}

impl TokensView {
    /// The tag of the token.
    pub open spec fn kind(self) -> TokenKind {
        match self {
            TokensView::IntLiteral(_) => TokenKind::IntLiteral,
            TokensView::FloatLiteral(_) => TokenKind::FloatLiteral,
            TokensView::HexLiteral(_) => TokenKind::HexLiteral,
            TokensView::BinaryLiteral(_) => TokenKind::BinaryLiteral,
            TokensView::StringLiteral(_) => TokenKind::StringLiteral,
            TokensView::InterpolatedString(_) => TokenKind::InterpolatedString,
            TokensView::Identifier(_) => TokenKind::Identifier,
            TokensView::Keyword(k) => TokenKind::Keyword(k),
            TokensView::BinaryOperator(op) => TokenKind::BinaryOperator(op),
            TokensView::UnaryOperator(op) => TokenKind::UnaryOperator(op),
            TokensView::TypeIdentifier(_) => TokenKind::TypeIdentifier,
            TokensView::ThinArrow => TokenKind::ThinArrow,
            TokensView::FatArrow => TokenKind::FatArrow,
            TokensView::LeftParen => TokenKind::LeftParen,
            TokensView::RightParen => TokenKind::RightParen,
            TokensView::LeftBracket => TokenKind::LeftBracket,
            TokensView::RightBracket => TokenKind::RightBracket,
            TokensView::LeftBrace => TokenKind::LeftBrace,
            TokensView::RightBrace => TokenKind::RightBrace,
            TokensView::Semicolon => TokenKind::Semicolon,
            TokensView::Colon => TokenKind::Colon,
            TokensView::Period => TokenKind::Period,
            TokensView::Comma => TokenKind::Comma,
            TokensView::Tilde => TokenKind::Tilde,
        }
    }
}

impl<'a> Tokens<'a> {
    /// The tag of the token.
    pub fn kind(&self) -> (k: TokenKind)
        ensures
            k == self@.kind(),
    {
        match self {
            Tokens::IntLiteral(_) => TokenKind::IntLiteral,
            Tokens::FloatLiteral(_) => TokenKind::FloatLiteral,
            Tokens::HexLiteral(_) => TokenKind::HexLiteral,
            Tokens::BinaryLiteral(_) => TokenKind::BinaryLiteral,
            Tokens::StringLiteral(_) => TokenKind::StringLiteral,
            Tokens::InterpolatedString(_) => TokenKind::InterpolatedString,
            Tokens::Identifier(_) => TokenKind::Identifier,
            Tokens::Keyword(k) => TokenKind::Keyword(*k),
            Tokens::BinaryOperator(op) => TokenKind::BinaryOperator(*op),
            Tokens::UnaryOperator(op) => TokenKind::UnaryOperator(*op),
            Tokens::TypeIdentifier(_) => TokenKind::TypeIdentifier,
            Tokens::ThinArrow => TokenKind::ThinArrow,
            Tokens::FatArrow => TokenKind::FatArrow,
            Tokens::LeftParen => TokenKind::LeftParen,
            Tokens::RightParen => TokenKind::RightParen,
            Tokens::LeftBracket => TokenKind::LeftBracket,
            Tokens::RightBracket => TokenKind::RightBracket,
            Tokens::LeftBrace => TokenKind::LeftBrace,
            Tokens::RightBrace => TokenKind::RightBrace,
            Tokens::Semicolon => TokenKind::Semicolon,
            Tokens::Colon => TokenKind::Colon,
            Tokens::Period => TokenKind::Period,
            Tokens::Comma => TokenKind::Comma,
            Tokens::Tilde => TokenKind::Tilde,
        }
    }
}

/// The punctuation token that the character `c` is, if it is one.
pub open spec fn punctuation(c: char) -> Option<TokensView> {
    if c == '(' {
        Some(TokensView::LeftParen)
    } else if c == ')' {
        Some(TokensView::RightParen)
    } else if c == '[' {
        Some(TokensView::LeftBracket)
    } else if c == ']' {
        Some(TokensView::RightBracket)
    } else if c == '{' {
        Some(TokensView::LeftBrace)
    } else if c == '}' {
        Some(TokensView::RightBrace)
    } else if c == ';' {
        Some(TokensView::Semicolon)
    } else if c == ':' {
        Some(TokensView::Colon)
    } else if c == '.' {
        Some(TokensView::Period)
    } else if c == ',' {
        Some(TokensView::Comma)
    } else if c == '~' {
        Some(TokensView::Tilde)
    } else {
        None
    }
}

impl<'a> Tokens<'a> {
    /// The punctuation token that `ch` is, if it is one.
    pub fn from_char(ch: char) -> (r: Option<Self>)
        ensures
            match r {
                Some(t) => punctuation(ch) == Some(t@),
                None => punctuation(ch) is None,
            },
    {
        if ch == '(' {
            Some(Tokens::LeftParen)
        } else if ch == ')' {
            Some(Tokens::RightParen)
        } else if ch == '[' {
            Some(Tokens::LeftBracket)
        } else if ch == ']' {
            Some(Tokens::RightBracket)
        } else if ch == '{' {
            Some(Tokens::LeftBrace)
        } else if ch == '}' {
            Some(Tokens::RightBrace)
        } else if ch == ';' {
            Some(Tokens::Semicolon)
        } else if ch == ':' {
            Some(Tokens::Colon)
        } else if ch == '.' {
            Some(Tokens::Period)
        } else if ch == ',' {
            Some(Tokens::Comma)
        } else if ch == '~' {
            Some(Tokens::Tilde)
        } else {
            None
        }
    }

    /// Whether `ch` is a punctuation token.
    pub fn starts_with(ch: char) -> (b: bool)
        ensures
            b == punctuation(ch).is_some(),
    {
        ch == '(' || ch == ')' || ch == '[' || ch == ']' || ch == '{' || ch == '}' || ch == ';'
            || ch == ':' || ch == '.' || ch == ',' || ch == '~'
    }
}

/// `name`, and `body` in round brackets.
pub open spec fn tagged(name: Seq<char>, body: Seq<char>) -> Seq<char> {
    name + seq!['('] + body + seq![')']
}

impl StringPartView {
    /// The part as debugging output shows it.
    pub open spec fn describe(self) -> Seq<char> {
        match self {
            StringPartView::Text(t) => tagged("Text"@, debug_quoted(t)),
            StringPartView::Interpolation(t) => tagged("Interpolation"@, debug_quoted(t)),
        }
    }
}

/// The parts from `i` on as debugging output lists them, each but the
/// first after a comma and a space.
pub open spec fn describe_parts(parts: Seq<StringPartView>, i: int) -> Seq<char>
    decreases parts.len() - i,
{
    if i < 0 || i >= parts.len() {
        Seq::empty()
    } else if i == 0 {
        parts[i].describe() + describe_parts(parts, i + 1)
    } else {
        ", "@ + parts[i].describe() + describe_parts(parts, i + 1)
    }
}

impl TokensView {
    /// The token kind as debugging output shows it: the variant's name and,
    /// in round brackets, what it holds.
    pub open spec fn describe(self) -> Seq<char> {
        match self {
            TokensView::IntLiteral(n) => tagged("IntLiteral"@, signed_decimal(n as int)),
            TokensView::FloatLiteral(t) => tagged("FloatLiteral"@, t),
            TokensView::HexLiteral(n) => tagged("HexLiteral"@, signed_decimal(n as int)),
            TokensView::BinaryLiteral(n) => tagged("BinaryLiteral"@, signed_decimal(n as int)),
            TokensView::StringLiteral(t) => tagged("StringLiteral"@, debug_quoted(t)),
            TokensView::InterpolatedString(parts) => tagged(
                "InterpolatedString"@,
                seq!['['] + describe_parts(parts, 0) + seq![']'],
            ),
            TokensView::Identifier(t) => tagged("Identifier"@, debug_quoted(t)),
            TokensView::Keyword(k) => tagged("Keyword"@, k.name()),
            TokensView::BinaryOperator(op) => tagged("BinaryOperator"@, op.name()),
            TokensView::UnaryOperator(op) => tagged("UnaryOperator"@, op.name()),
            TokensView::TypeIdentifier(t) => tagged("TypeIdentifier"@, debug_quoted(t)),
            TokensView::ThinArrow => "ThinArrow"@,
            TokensView::FatArrow => "FatArrow"@,
            TokensView::LeftParen => "LeftParen"@,
            TokensView::RightParen => "RightParen"@,
            TokensView::LeftBracket => "LeftBracket"@,
            TokensView::RightBracket => "RightBracket"@,
            TokensView::LeftBrace => "LeftBrace"@,
            TokensView::RightBrace => "RightBrace"@,
            TokensView::Semicolon => "Semicolon"@,
            TokensView::Colon => "Colon"@,
            TokensView::Period => "Period"@,
            TokensView::Comma => "Comma"@,
            TokensView::Tilde => "Tilde"@,
        }
    }
}

impl TokenView {
    /// The token as it is shown in messages.
    pub open spec fn text(self) -> Seq<char> {
        "<Tokens::"@ + self.token_type.describe() + seq!['@'] + self.start.text() + ".."@
            + self.end.text() + " `"@ + self.src + "`>"@
    }
}

/// `name`, and `body` in round brackets.
pub fn tagged_string(name: &str, body: &str) -> (r: String)
    ensures
        r@ == tagged(name@, body@),
{
    let mut out = name.to_owned();
    out.push('(');
    push_text(&mut out, body);
    out.push(')');
    assert(out@ =~= tagged(name@, body@));
    out
}

/// `name`, and in round brackets `n` in decimal.
fn tagged_number(name: &str, n: i64) -> (r: String)
    ensures
        r@ == tagged(name@, signed_decimal(n as int)),
{
    let mut body = String::new();
    push_signed_decimal(&mut body, n);
    assert(body@ =~= signed_decimal(n as int));
    tagged_string(name, body.as_str())
}

/// `name`, and in round brackets `text` as debugging output shows it.
fn tagged_quoted(name: &str, text: &str) -> (r: String)
    ensures
        r@ == tagged(name@, debug_quoted(text@)),
{
    let mut body = String::new();
    push_quoted(&mut body, text);
    assert(body@ =~= debug_quoted(text@));
    tagged_string(name, body.as_str())
}

impl StringPart {
    /// The part as debugging output shows it.
    pub fn describe(&self) -> (r: String)
        ensures
            r@ == self@.describe(),
    {
        match self {
            StringPart::Text(t) => tagged_quoted("Text", t.as_str()),
            StringPart::Interpolation(t) => tagged_quoted("Interpolation", t.as_str()),
        }
    }
}

/// The parts as debugging output lists them.
fn describe_part_list(parts: &Vec<StringPart>) -> (r: String)
    ensures
        r@ == describe_parts(parts_view(parts@), 0),
{
    let mut out = String::new();
    let ghost views = parts_view(parts@);
    let n = parts.len();
    let mut i: usize = n;
    assert(out@ =~= describe_parts(views, n as int));
    while i > 0
        invariant
            i <= n,
            n == parts.len(),
            views == parts_view(parts@),
            out@ == describe_parts(views, i as int),
        decreases i,
    {
        i -= 1;
        let mut item = if i == 0 {
            String::new()
        } else {
            ", ".to_owned()
        };
        let shown = parts[i].describe();
        push_text(&mut item, shown.as_str());
        push_text(&mut item, out.as_str());
        assert(item@ =~= describe_parts(views, i as int));
        out = item;
    }
    out
}

impl<'a> Tokens<'a> {
    /// The token kind as debugging output shows it.
    pub fn describe(&self) -> (r: String)
        ensures
            r@ == self@.describe(),
    {
        match self {
            Tokens::IntLiteral(n) => tagged_number("IntLiteral", *n),
            Tokens::FloatLiteral(t) => tagged_string("FloatLiteral", t),
            Tokens::HexLiteral(n) => tagged_number("HexLiteral", *n),
            Tokens::BinaryLiteral(n) => tagged_number("BinaryLiteral", *n),
            Tokens::StringLiteral(t) => tagged_quoted("StringLiteral", t.as_str()),
            Tokens::InterpolatedString(parts) => {
                let mut body = String::new();
                body.push('[');
                let listed = describe_part_list(parts);
                push_text(&mut body, listed.as_str());
                body.push(']');
                assert(body@ =~= seq!['['] + describe_parts(parts_view(parts@), 0) + seq![']']);
                tagged_string("InterpolatedString", body.as_str())
            },
            Tokens::Identifier(t) => tagged_quoted("Identifier", t),
            Tokens::Keyword(k) => tagged_string("Keyword", k.variant_name()),
            Tokens::BinaryOperator(op) => tagged_string("BinaryOperator", op.variant_name()),
            Tokens::UnaryOperator(op) => tagged_string("UnaryOperator", op.variant_name()),
            Tokens::TypeIdentifier(t) => tagged_quoted("TypeIdentifier", t),
            Tokens::ThinArrow => "ThinArrow".to_owned(),
            Tokens::FatArrow => "FatArrow".to_owned(),
            Tokens::LeftParen => "LeftParen".to_owned(),
            Tokens::RightParen => "RightParen".to_owned(),
            Tokens::LeftBracket => "LeftBracket".to_owned(),
            Tokens::RightBracket => "RightBracket".to_owned(),
            Tokens::LeftBrace => "LeftBrace".to_owned(),
            Tokens::RightBrace => "RightBrace".to_owned(),
            Tokens::Semicolon => "Semicolon".to_owned(),
            Tokens::Colon => "Colon".to_owned(),
            Tokens::Period => "Period".to_owned(),
            Tokens::Comma => "Comma".to_owned(),
            Tokens::Tilde => "Tilde".to_owned(),
        }
    }
}

/// A half-open range of byte offsets.
pub type Span = Range<u64>;

/// A classified, located slice of the source text.
#[derive(Debug, PartialEq)]
pub struct Token<'a> {
    pub token_type: Tokens<'a>,
    pub start: SourceLocation,
    pub end: SourceLocation,
    pub span: Span,
    pub src: &'a str,
}

/// The mathematical value of a [`Token`].
pub struct TokenView {
    pub token_type: TokensView,
    pub start: SourceLocation,
    pub end: SourceLocation,
    pub span: Span,
    pub src: Seq<char>,
}

impl View for Token<'_> {
    type V = TokenView;

    open spec fn view(&self) -> TokenView {
        TokenView {
            token_type: self.token_type@,
            start: self.start,
            end: self.end,
            span: self.span,
            src: self.src@,
        }
    }
}

impl<'a> Clone for Token<'a> {
    fn clone(&self) -> (r: Self)
        ensures
            r@ == self@,
    {
        Token {
            token_type: self.token_type.clone(),
            start: self.start,
            end: self.end,
            span: self.span.start..self.span.end,
            src: self.src,
        }
    }
}

/// The length of the longest code fragment among `parts`, plus one; zero
/// where no part is a fragment.
pub open spec fn parts_depth(parts: Seq<StringPartView>) -> nat
    decreases parts.len(),
{
    if parts.len() == 0 {
        0
    } else {
        let rest = parts_depth(parts.drop_last());
        match parts.last() {
            StringPartView::Interpolation(code) => if code.len() + 1 > rest {
                code.len() + 1
            } else {
                rest
            },
            StringPartView::Text(_) => rest,
        }
    }
}

/// The length of the longest code fragment in the token, plus one.
pub open spec fn token_depth(t: TokensView) -> nat {
    match t {
        TokensView::InterpolatedString(parts) => parts_depth(parts),
        _ => 0,
    }
}

/// The length of the longest code fragment in any of the tokens, plus one.
/// A fragment is scanned and parsed on its own, and its tokens hold
/// shorter fragments only: this is what bounds the nesting.
pub open spec fn tokens_depth(ts: Seq<TokenView>) -> nat
    decreases ts.len(),
{
    if ts.len() == 0 {
        0
    } else {
        let rest = tokens_depth(ts.drop_last());
        if token_depth(ts.last().token_type) > rest {
            token_depth(ts.last().token_type)
        } else {
            rest
        }
    }
}

/// The values of a sequence of tokens.
pub open spec fn tokens_view(tokens: Seq<Token<'_>>) -> Seq<TokenView> {
    tokens.map_values(|t: Token| t@)
}

impl<'a> Token<'a> {
    /// A token of the given parts.
    pub fn new(
        token_type: Tokens<'a>,
        start: SourceLocation,
        end: SourceLocation,
        span: Span,
        src: &'a str,
    ) -> (t: Self)
        ensures
            t.token_type == token_type,
            t.start == start,
            t.end == end,
            t.span == span,
            t.src == src,
    {
        Token { token_type, start, end, span, src }
    }

    /// The line on which the token starts.
    pub fn line(&self) -> (n: u64)
        ensures
            n == self.start.line,
    {
        self.start.line
    }

    /// The column at which the token starts.
    pub fn column(&self) -> (n: u64)
        ensures
            n == self.start.column,
    {
        self.start.column
    }

    /// The token as it is shown in messages: its kind, where it starts and
    /// ends, and its text.
    pub fn to_string(&self) -> (s: String)
        ensures
            s@ == self@.text(),
    {
        let mut out = "<Tokens::".to_owned();
        let kind = self.token_type.describe();
        push_text(&mut out, kind.as_str());
        out.push('@');
        let start = self.start.to_string();
        push_text(&mut out, start.as_str());
        push_text(&mut out, "..");
        let end = self.end.to_string();
        push_text(&mut out, end.as_str());
        push_text(&mut out, " `");
        push_text(&mut out, self.src);
        push_text(&mut out, "`>");
        assert(out@ =~= self@.text());
        out
    }

    /// The place where the token starts, as `line:column`.
    pub fn location_str(&self) -> (s: String)
        ensures
            s@ == self.start.text(),
    {
        self.start.to_string()
    }
}

} // verus!
