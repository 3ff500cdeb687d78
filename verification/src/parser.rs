//! The parser: tokens to a syntax tree and diagnostics, by recursive
//! descent.

use crate::cursor::SourceLocation;
use crate::keywords::Keywords;
use crate::lex_laws::{lemma_lex_depth, lemma_parts_depth_bounds, lemma_tokens_depth_bounds};
use crate::lexer::CarbideLexer;
use crate::nodes::{
    clone_statements, expressions_view, lemma_array_model, lemma_call_model, lemma_statements_model,
    lemma_string_parts_model, option_expression_view, option_type_view, parameters_view,
    statements_view, string_parts_view, Expression, ExpressionView, LiteralValue, Parameter,
    ParameterView, PartView, Statement, StatementView, StringPart, Type, TypeView,
};
use crate::operators::{BinaryOperators, UnaryOperators};
use crate::parse_errors::{clone_failures, failures_view, CarbideParserError, ParserErrorView};
use crate::parse_spec::{
    binary_level, binary_tail, block_items, boundary_from, call_tail, check_at, current_location,
    depth_measure, done, expect_at, expression_list, fail, finish_call, identifier_name,
    lemma_boundary_from_bounds, list_items, operator_at, parse_annotation, parse_assignment,
    parse_binary, parse_block, parse_call, parse_expression, parse_expression_statement, parse_from,
    parse_function, parse_initializer, parse_let, parse_parameter_list, parse_parameters,
    parse_parts, parse_primary, parse_rest, parse_return, parse_return_type, parse_statement,
    parse_type, parse_unary, prefix_at, synchronize, unexpected, Parsed, ParseOutput,
};
use crate::text::str_eq;
use crate::tokens::{parts_depth, parts_view, tokens_view, Token, TokenKind, Tokens, TokenView};
use vstd::prelude::*;

verus! {

/// A parser diagnostic as the parser hands it on.
pub type Failure<'a> = Box<CarbideParserError<'a>>;

/// The statements and the diagnostics of a parse.
#[derive(Debug)]
pub struct ParseResult<'a> {
    pub ast: Vec<Statement>,
    pub errors: Vec<Failure<'a>>,
}

impl View for ParseResult<'_> {
    type V = ParseOutput;

    open spec fn view(&self) -> ParseOutput {
        ParseOutput { ast: statements_view(self.ast@), errors: failures_view(self.errors@) }
    }
}

impl<'a> Clone for ParseResult<'a> {
    fn clone(&self) -> (r: Self)
        ensures
            r@ == self@,
    {
        ParseResult { ast: clone_statements(&self.ast), errors: clone_failures(&self.errors) }
    }
}

impl ParseResult<'_> {
    /// Whether the parse raised no diagnostic.
    pub fn is_ok(&self) -> (b: bool)
        ensures
            b == (self@.errors.len() == 0),
    {
        self.errors.len() == 0
    }

    /// Whether the parse raised a diagnostic.
    pub fn has_errors(&self) -> (b: bool)
        ensures
            b == (self@.errors.len() > 0),
    {
        self.errors.len() > 0
    }
}

/// What the outcome `r` of a parsing step says, with the parser then at
/// `next`.
pub open spec fn outcome<T: View>(r: Result<T, Failure<'_>>, next: int) -> Parsed<T::V> {
    match r {
        Ok(v) => done(v@, next),
        Err(e) => fail(e@, next),
    }
}

/// What the outcome `r` of a step that yields no value says.
pub open spec fn unit_outcome(r: Result<(), Failure<'_>>, found: TokenView, next: int) -> Parsed<
    TokenView,
> {
    match r {
        Ok(_) => done(found, next),
        Err(e) => fail(e@, next),
    }
}

/// What the outcome `r` of parsing a list of expressions says.
pub open spec fn list_outcome(r: Result<Vec<Expression>, Failure<'_>>, next: int) -> Parsed<
    Seq<ExpressionView>,
> {
    match r {
        Ok(v) => done(expressions_view(v@), next),
        Err(e) => fail(e@, next),
    }
}

/// What the outcome `r` of parsing a list of statements says.
pub open spec fn block_outcome(r: Result<Vec<Statement>, Failure<'_>>, next: int) -> Parsed<
    Seq<StatementView>,
> {
    match r {
        Ok(v) => done(statements_view(v@), next),
        Err(e) => fail(e@, next),
    }
}

/// What the outcome `r` of parsing a parameter list says.
pub open spec fn parameters_outcome(r: Result<Vec<Parameter>, Failure<'_>>, next: int) -> Parsed<
    Seq<ParameterView>,
> {
    match r {
        Ok(v) => done(parameters_view(v@), next),
        Err(e) => fail(e@, next),
    }
}

/// What the outcome `r` of parsing an optional type says.
pub open spec fn annotation_outcome(r: Result<Option<Type>, Failure<'_>>, next: int) -> Parsed<
    Option<TypeView>,
> {
    match r {
        Ok(v) => done(option_type_view(v), next),
        Err(e) => fail(e@, next),
    }
}

/// What the outcome `r` of parsing an optional expression says.
pub open spec fn initializer_outcome(r: Result<Option<Expression>, Failure<'_>>, next: int)
    -> Parsed<Option<ExpressionView>> {
    match r {
        Ok(v) => done(option_expression_view(v), next),
        Err(e) => fail(e@, next),
    }
}

proof fn lemma_expressions_push(items: Seq<Expression>, e: Expression)
    ensures
        expressions_view(items.push(e)) == expressions_view(items).push(e@),
{
    assert(expressions_view(items.push(e)) =~= expressions_view(items).push(e@));
}

proof fn lemma_statements_push(items: Seq<Statement>, s: Statement)
    ensures
        statements_view(items.push(s)) == statements_view(items).push(s@),
{
    assert(statements_view(items.push(s)) =~= statements_view(items).push(s@));
}

proof fn lemma_parameters_push(items: Seq<Parameter>, p: Parameter)
    ensures
        parameters_view(items.push(p)) == parameters_view(items).push(p@),
{
    assert(parameters_view(items.push(p)) =~= parameters_view(items).push(p@));
}

proof fn lemma_string_parts_push(items: Seq<StringPart>, p: StringPart)
    ensures
        string_parts_view(items.push(p)) == string_parts_view(items).push(p@),
{
    assert(string_parts_view(items.push(p)) =~= string_parts_view(items).push(p@));
}

proof fn lemma_failures_push(items: Seq<Failure<'_>>, e: Failure<'_>)
    ensures
        failures_view(items.push(e)) == failures_view(items).push(e@),
{
    assert(failures_view(items.push(e)) =~= failures_view(items).push(e@));
}

/// The parser: the tokens and a position among them.
pub struct CarbideParser<'a> {
    tokens: Vec<Token<'a>>,
    pos: usize,
}

impl<'a> CarbideParser<'a> {
    /// The tokens, as their values.
    pub closed spec fn tokens(&self) -> Seq<TokenView> {
        tokens_view(self.tokens@)
    }

    /// The position of the parser among its tokens.
    pub closed spec fn position(&self) -> int {
        self.pos as int
    }

    /// The parser's invariant: it stands among its tokens or right after
    /// them.
    pub closed spec fn wf(&self) -> bool {
        self.pos <= self.tokens.len()
    }

    /// The parser stands among its tokens or right after them.
    pub proof fn lemma_position_in_range(&self)
        requires
            self.wf(),
        ensures
            0 <= self.position() <= self.tokens().len(),
    {
    }

    /// A parser at the start of `tokens`.
    pub fn new(tokens: Vec<Token<'a>>) -> (parser: Self)
        ensures
            parser.wf(),
            parser.tokens() == tokens_view(tokens@),
            parser.position() == 0,
    {
        CarbideParser { tokens, pos: 0 }
    }

    /// Whether the parser stands after the last token.
    fn is_eof(&self) -> (b: bool)
        requires
            self.wf(),
        ensures
            b == (self.position() >= self.tokens().len()),
    {
        self.pos >= self.tokens.len()
    }

    /// The token under the parser.
    fn peek(&self) -> (r: Option<&Token<'a>>)
        requires
            self.wf(),
        ensures
            match r {
                Some(t) => self.position() < self.tokens().len() && t@
                    == self.tokens()[self.position()],
                None => self.position() >= self.tokens().len(),
            },
    {
        if self.pos < self.tokens.len() {
            Some(&self.tokens[self.pos])
        } else {
            None
        }
    }

    /// The token before the parser.
    fn last(&self) -> (r: Option<&Token<'a>>)
        requires
            self.wf(),
        ensures
            match r {
                Some(t) => self.position() >= 1 && t@ == self.tokens()[self.position() - 1],
                None => self.position() == 0,
            },
    {
        if self.pos >= 1 {
            Some(&self.tokens[self.pos - 1])
        } else {
            None
        }
    }

    /// The token `n` tokens after the one under the parser.
    #[allow(dead_code)]
    fn peek_ahead(&self, n: usize) -> (r: Option<&Token<'a>>)
        requires
            self.wf(),
        ensures
            match r {
                Some(t) => self.position() + n < self.tokens().len() && t@
                    == self.tokens()[self.position() + n],
                None => self.position() + n >= self.tokens().len(),
            },
    {
        if n < self.tokens.len() - self.pos {
            Some(&self.tokens[self.pos + n])
        } else {
            None
        }
    }

    /// The tag of the token under the parser.
    fn peek_kind(&self) -> (r: Option<TokenKind>)
        requires
            self.wf(),
        ensures
            match r {
                Some(k) => self.position() < self.tokens().len()
                    && self.tokens()[self.position()].token_type.kind() == k,
                None => self.position() >= self.tokens().len(),
            },
    {
        match self.peek() {
            Some(t) => Some(t.token_type.kind()),
            None => None,
        }
    }

    /// Steps over the token under the parser, if there is one.
    fn advance(&mut self) -> (moved: bool)
        requires
            old(self).wf(),
        ensures
            final(self).wf(),
            final(self).tokens() == old(self).tokens(),
            moved == (old(self).position() < old(self).tokens().len()),
            final(self).position() == if moved {
                old(self).position() + 1
            } else {
                old(self).position()
            },
    {
        if self.pos < self.tokens.len() {
            self.pos = self.pos + 1;
            true
        } else {
            false
        }
    }

    /// The location that a diagnostic raised now names.
    fn current_location(&self) -> (loc: SourceLocation)
        requires
            self.wf(),
        ensures
            loc == current_location(self.tokens(), self.position()),
    {
        if self.pos < self.tokens.len() {
            self.tokens[self.pos].end
        } else if self.tokens.len() > 0 {
            self.tokens[self.tokens.len() - 1].end
        } else {
            SourceLocation { line: 1, column: 1, offset: 0 }
        }
    }

    /// Whether a token of kind `kind` stands under the parser.
    fn check(&self, kind: TokenKind) -> (b: bool)
        requires
            self.wf(),
        ensures
            b == check_at(self.tokens(), self.position(), kind),
    {
        match self.peek_kind() {
            Some(k) => k == kind,
            None => false,
        }
    }

    /// Steps over the token under the parser if it is of kind `kind`.
    fn match_token(&mut self, kind: TokenKind) -> (b: bool)
        requires
            old(self).wf(),
        ensures
            final(self).wf(),
            final(self).tokens() == old(self).tokens(),
            b == check_at(old(self).tokens(), old(self).position(), kind),
            final(self).position() == if b {
                old(self).position() + 1
            } else {
                old(self).position()
            },
    {
        if self.check(kind) {
            self.advance();
            true
        } else {
            false
        }
    }

    /// The diagnostic for the token under the parser, which is not what was
    /// expected.
    fn unexpected(&self, expected: &str) -> (e: Failure<'a>)
        requires
            self.wf(),
        ensures
            e@ == unexpected(self.tokens(), self.position(), expected@),
    {
        match self.peek() {
            Some(token) => Box::new(
                CarbideParserError::UnexpectedToken {
                    expected: expected.to_owned(),
                    found: token.clone(),
                },
            ),
            None => Box::new(CarbideParserError::UnexpectedEOF(self.current_location())),
        }
    }

    /// Steps over the token under the parser, which must be of kind
    /// `kind`; `expected` names it in the diagnostic.
    fn expect(&mut self, kind: TokenKind, expected: &str) -> (r: Result<(), Failure<'a>>)
        requires
            old(self).wf(),
        ensures
            final(self).wf(),
            final(self).tokens() == old(self).tokens(),
            old(self).position() <= final(self).position(),
            match r {
                Ok(_) => final(self).position() == old(self).position() + 1 && expect_at(
                    old(self).tokens(),
                    old(self).position(),
                    kind,
                    expected@,
                ) == done(old(self).tokens()[old(self).position()], final(self).position()),
                Err(e) => expect_at(old(self).tokens(), old(self).position(), kind, expected@)
                    == fail::<TokenView>(e@, final(self).position()),
            },
    {
        if self.check(kind) {
            self.advance();
            Ok(())
        } else {
            Err(self.unexpected(expected))
        }
    }

    /// Steps over the identifier under the parser and returns its name;
    /// `expected` names what was expected in the diagnostic.
    fn expect_identifier(&mut self, expected: &str) -> (r: Result<String, Failure<'a>>)
        requires
            old(self).wf(),
        ensures
            final(self).wf(),
            final(self).tokens() == old(self).tokens(),
            old(self).position() <= final(self).position(),
            match r {
                Ok(name) => final(self).position() == old(self).position() + 1 && expect_at(
                    old(self).tokens(),
                    old(self).position(),
                    TokenKind::Identifier,
                    expected@,
                ) == done(old(self).tokens()[old(self).position()], final(self).position())
                    && name@ == identifier_name(old(self).tokens()[old(self).position()]),
                Err(e) => expect_at(
                    old(self).tokens(),
                    old(self).position(),
                    TokenKind::Identifier,
                    expected@,
                ) == fail::<TokenView>(e@, final(self).position()),
            },
    {
        match self.peek() {
            Some(token) => match &token.token_type {
                Tokens::Identifier(name) => {
                    let owned = (*name).to_owned();
                    self.advance();
                    Ok(owned)
                },
                _ => Err(self.unexpected(expected)),
            },
            None => Err(self.unexpected(expected)),
        }
    }

    /// After a diagnostic: steps over one token and then on to the next
    /// statement boundary.
    fn synchronize(&mut self)
        requires
            old(self).wf(),
        ensures
            final(self).wf(),
            final(self).tokens() == old(self).tokens(),
            final(self).position() == synchronize(old(self).tokens(), old(self).position()),
    {
        if !self.advance() {
            return ;
        }
        loop
            invariant
                self.wf(),
                self.tokens() == old(self).tokens(),
                boundary_from(self.tokens(), self.position()) == boundary_from(
                    old(self).tokens(),
                    old(self).position() + 1,
                ),
            ensures
                self.wf(),
                self.tokens() == old(self).tokens(),
                self.position() == boundary_from(old(self).tokens(), old(self).position() + 1),
            decreases self.tokens().len() - self.position(),
        {
            if self.is_eof() {
                break ;
            }
            match self.last() {
                Some(prev) => match prev.token_type {
                    Tokens::Semicolon => {
                        break ;
                    },
                    _ => {},
                },
                None => {},
            }
            match self.peek() {
                Some(token) => match token.token_type {
                    Tokens::Keyword(_) => {
                        break ;
                    },
                    _ => {},
                },
                None => {},
            }
            self.advance();
        }
    }

    /// Parses a type annotation.
    fn parse_type(&mut self) -> (r: Result<Type, Failure<'a>>)
        requires
            old(self).wf(),
        ensures
            final(self).wf(),
            final(self).tokens() == old(self).tokens(),
            old(self).position() <= final(self).position(),
            outcome(r, final(self).position()) == parse_type(
                old(self).tokens(),
                old(self).position(),
            ),
        decreases old(self).tokens().len() - old(self).position(),
    {
        let name: Option<String> = match self.peek() {
            Some(token) => match &token.token_type {
                Tokens::TypeIdentifier(name) => Some((*name).to_owned()),
                Tokens::Identifier(name) => Some((*name).to_owned()),
                Tokens::LeftBracket => None,
                _ => {
                    return Err(self.unexpected("type"));
                },
            },
            None => {
                return Err(self.unexpected("type"));
            },
        };
        self.advance();
        match name {
            Some(text) => Ok(Type::Named(text)),
            None => {
                let element_type = match self.parse_type() {
                    Ok(t) => t,
                    Err(e) => {
                        return Err(e);
                    },
                };
                match self.expect(TokenKind::RightBracket, "]") {
                    Ok(()) => Ok(Type::Array(Box::new(element_type))),
                    Err(e) => Err(e),
                }
            },
        }
    }

    /// Parses the optional type annotation after a colon.
    fn parse_annotation(&mut self) -> (r: Result<Option<Type>, Failure<'a>>)
        requires
            old(self).wf(),
        ensures
            final(self).wf(),
            final(self).tokens() == old(self).tokens(),
            old(self).position() <= final(self).position(),
            annotation_outcome(r, final(self).position()) == parse_annotation(
                old(self).tokens(),
                old(self).position(),
            ),
    {
        if self.match_token(TokenKind::Colon) {
            match self.parse_type() {
                Ok(t) => Ok(Some(t)),
                Err(e) => Err(e),
            }
        } else {
            Ok(None)
        }
    }

    /// The binary operator of precedence level `level` under the parser.
    fn binary_operator_at(&self, level: u8) -> (r: Option<BinaryOperators>)
        requires
            self.wf(),
        ensures
            r == operator_at(self.tokens(), self.position(), level as int),
    {
        match self.peek() {
            Some(token) => match &token.token_type {
                Tokens::BinaryOperator(op) => if operator_level(*op) == level {
                    Some(*op)
                } else {
                    None
                },
                _ => None,
            },
            None => None,
        }
    }

    /// The unary operator that the token under the parser is in front of
    /// an operand.
    fn prefix_operator(&self) -> (r: Option<UnaryOperators>)
        requires
            self.wf(),
        ensures
            r == prefix_at(self.tokens(), self.position()),
    {
        match self.peek() {
            Some(token) => match &token.token_type {
                Tokens::UnaryOperator(op) => Some(*op),
                Tokens::BinaryOperator(BinaryOperators::Minus) => Some(UnaryOperators::Negate),
                _ => None,
            },
            None => None,
        }
    }

    /// Parses an expression.
    pub fn parse_expression(&mut self) -> (r: Result<Expression, Failure<'a>>)
        requires
            old(self).wf(),
        ensures
            final(self).wf(),
            final(self).tokens() == old(self).tokens(),
            old(self).position() <= final(self).position(),
            r is Ok ==> old(self).position() < final(self).position(),
            outcome(r, final(self).position()) == parse_expression(
                old(self).tokens(),
                old(self).position(),
            ),
        decreases
                depth_measure(old(self).tokens()),
                old(self).tokens().len() - old(self).position(),
                13int,
    {
        self.parse_assignment()
    }

    /// Parses an assignment, or what binds tighter.
    fn parse_assignment(&mut self) -> (r: Result<Expression, Failure<'a>>)
        requires
            old(self).wf(),
        ensures
            final(self).wf(),
            final(self).tokens() == old(self).tokens(),
            old(self).position() <= final(self).position(),
            r is Ok ==> old(self).position() < final(self).position(),
            outcome(r, final(self).position()) == parse_assignment(
                old(self).tokens(),
                old(self).position(),
            ),
        decreases
                depth_measure(old(self).tokens()),
                old(self).tokens().len() - old(self).position(),
                12int,
    {
        let expr = match self.parse_binary(1) {
            Ok(e) => e,
            Err(e) => {
                return Err(e);
            },
        };
        if self.check(TokenKind::BinaryOperator(BinaryOperators::Eq)) {
            let assignable = match &expr {
                Expression::Identifier(_) => true,
                Expression::Call { .. } => true,
                Expression::Index { .. } => true,
                Expression::MemberAccess { .. } => true,
                _ => false,
            };
            if !assignable {
                return Err(
                    Box::new(CarbideParserError::InvalidAssignmentTarget(self.current_location())),
                );
            }
            self.advance();
            let value = match self.parse_assignment() {
                Ok(e) => e,
                Err(e) => {
                    return Err(e);
                },
            };
            return Ok(Expression::Assignment { target: Box::new(expr), value: Box::new(value) });
        }
        Ok(expr)
    }

    /// Parses the binary operations of precedence level `level` and
    /// tighter; at level 7, the unary operations.
    fn parse_binary(&mut self, level: u8) -> (r: Result<Expression, Failure<'a>>)
        requires
            old(self).wf(),
            1 <= level <= 7,
        ensures
            final(self).wf(),
            final(self).tokens() == old(self).tokens(),
            old(self).position() <= final(self).position(),
            r is Ok ==> old(self).position() < final(self).position(),
            outcome(r, final(self).position()) == parse_binary(
                old(self).tokens(),
                old(self).position(),
                level as int,
            ),
        decreases
                depth_measure(old(self).tokens()),
                old(self).tokens().len() - old(self).position(),
                (if 1 <= level <= 6 {
                    11 - level
                } else {
                    4int
                }),
    {
        if level > 6 {
            return self.parse_unary();
        }
        let ghost ts = self.tokens();
        let ghost start = self.position();
        let mut left = match self.parse_binary(level + 1) {
            Ok(e) => e,
            Err(e) => {
                return Err(e);
            },
        };
        loop
            invariant
                self.wf(),
                self.tokens() == ts,
                ts == old(self).tokens(),
                start == old(self).position(),
                1 <= level <= 6,
                start < self.position(),
                binary_tail(ts, self.position(), level as int, left@) == parse_binary(
                    ts,
                    start,
                    level as int,
                ),
            ensures
                self.wf(),
                self.tokens() == ts,
                start < self.position(),
                parse_binary(ts, start, level as int) == done(left@, self.position()),
            decreases ts.len() - self.position(),
        {
            let operator = match self.binary_operator_at(level) {
                Some(op) => op,
                None => {
                    break ;
                },
            };
            self.advance();
            let right = match self.parse_binary(level + 1) {
                Ok(e) => e,
                Err(e) => {
                    return Err(e);
                },
            };
            left = Expression::BinaryOp { left: Box::new(left), operator, right: Box::new(right) };
        }
        Ok(left)
    }

    /// Parses a unary operation, or a call.
    fn parse_unary(&mut self) -> (r: Result<Expression, Failure<'a>>)
        requires
            old(self).wf(),
        ensures
            final(self).wf(),
            final(self).tokens() == old(self).tokens(),
            old(self).position() <= final(self).position(),
            r is Ok ==> old(self).position() < final(self).position(),
            outcome(r, final(self).position()) == parse_unary(
                old(self).tokens(),
                old(self).position(),
            ),
        decreases
                depth_measure(old(self).tokens()),
                old(self).tokens().len() - old(self).position(),
                3int,
    {
        match self.prefix_operator() {
            Some(operator) => {
                self.advance();
                match self.parse_unary() {
                    Ok(expr) => Ok(Expression::UnaryOp { operator, operand: Box::new(expr) }),
                    Err(e) => Err(e),
                }
            },
            None => self.parse_call(),
        }
    }

    /// Parses a primary expression and the calls, indexings and member
    /// accesses that follow it.
    #[verifier::rlimit(60)]
    fn parse_call(&mut self) -> (r: Result<Expression, Failure<'a>>)
        requires
            old(self).wf(),
        ensures
            final(self).wf(),
            final(self).tokens() == old(self).tokens(),
            old(self).position() <= final(self).position(),
            r is Ok ==> old(self).position() < final(self).position(),
            outcome(r, final(self).position()) == parse_call(
                old(self).tokens(),
                old(self).position(),
            ),
        decreases
                depth_measure(old(self).tokens()),
                old(self).tokens().len() - old(self).position(),
                2int,
    {
        let ghost ts = self.tokens();
        let ghost start = self.position();
        let mut expr = match self.parse_primary() {
            Ok(e) => e,
            Err(e) => {
                return Err(e);
            },
        };
        loop
            invariant
                self.wf(),
                self.tokens() == ts,
                ts == old(self).tokens(),
                start == old(self).position(),
                start < self.position(),
                call_tail(ts, self.position(), expr@) == parse_call(ts, start),
            ensures
                self.wf(),
                self.tokens() == ts,
                start < self.position(),
                parse_call(ts, start) == done(expr@, self.position()),
            decreases ts.len() - self.position(),
        {
            if self.match_token(TokenKind::LeftParen) {
                expr = match self.finish_call(expr) {
                    Ok(e) => e,
                    Err(e) => {
                        return Err(e);
                    },
                };
            } else if self.match_token(TokenKind::LeftBracket) {
                let index = match self.parse_expression() {
                    Ok(e) => e,
                    Err(e) => {
                        return Err(e);
                    },
                };
                match self.expect(TokenKind::RightBracket, "]") {
                    Ok(()) => {},
                    Err(e) => {
                        return Err(e);
                    },
                }
                expr = Expression::Index { target: Box::new(expr), index: Box::new(index) };
            } else if self.match_token(TokenKind::Period) {
                let member = match self.expect_identifier("property name") {
                    Ok(name) => name,
                    Err(e) => {
                        return Err(e);
                    },
                };
                expr = Expression::MemberAccess { target: Box::new(expr), member };
            } else {
                break ;
            }
        }
        Ok(expr)
    }

    /// Parses a list of expressions between commas up to the closing token
    /// of kind `closer`, and steps over the closing token.
    #[verifier::rlimit(60)]
    fn expression_list(&mut self, closer: TokenKind, expected: &str) -> (r: Result<
        Vec<Expression>,
        Failure<'a>,
    >)
        requires
            old(self).wf(),
        ensures
            final(self).wf(),
            final(self).tokens() == old(self).tokens(),
            old(self).position() <= final(self).position(),
            r is Ok ==> old(self).position() < final(self).position(),
            list_outcome(r, final(self).position()) == expression_list(
                old(self).tokens(),
                old(self).position(),
                closer,
                expected@,
            ),
        decreases
                depth_measure(old(self).tokens()),
                old(self).tokens().len() - old(self).position(),
                15int,
    {
        let ghost ts = self.tokens();
        let ghost start = self.position();
        let mut items: Vec<Expression> = Vec::new();
        assert(expressions_view(items@) =~= Seq::<ExpressionView>::empty());
        if self.match_token(closer) {
            return Ok(items);
        }
        loop
            invariant_except_break
                list_items(ts, self.position(), expressions_view(items@)) == list_items(
                    ts,
                    start,
                    Seq::empty(),
                ),
            invariant
                self.wf(),
                self.tokens() == ts,
                ts == old(self).tokens(),
                start == old(self).position(),
                start <= self.position(),
                !check_at(ts, start, closer),
            ensures
                self.wf(),
                self.tokens() == ts,
                start <= self.position(),
                list_items(ts, start, Seq::empty()) == done(
                    expressions_view(items@),
                    self.position(),
                ),
            decreases ts.len() - self.position(),
        {
            let item = match self.parse_expression() {
                Ok(e) => e,
                Err(e) => {
                    return Err(e);
                },
            };
            proof {
                lemma_expressions_push(items@, item);
            }
            items.push(item);
            if !self.match_token(TokenKind::Comma) {
                break ;
            }
        }
        match self.expect(closer, expected) {
            Ok(()) => Ok(items),
            Err(e) => Err(e),
        }
    }

    /// Parses the arguments of a call of `callee`, after the opening
    /// parenthesis.
    fn finish_call(&mut self, callee: Expression) -> (r: Result<Expression, Failure<'a>>)
        requires
            old(self).wf(),
        ensures
            final(self).wf(),
            final(self).tokens() == old(self).tokens(),
            old(self).position() <= final(self).position(),
            r is Ok ==> old(self).position() < final(self).position(),
            outcome(r, final(self).position()) == finish_call(
                old(self).tokens(),
                old(self).position(),
                callee@,
            ),
        decreases
                depth_measure(old(self).tokens()),
                old(self).tokens().len() - old(self).position(),
                16int,
    {
        match self.expression_list(TokenKind::RightParen, ")") {
            Ok(arguments) => {
                let boxed = Box::new(callee);
                proof {
                    lemma_call_model(boxed, arguments);
                }
                Ok(Expression::Call { callee: boxed, arguments })
            },
            Err(e) => Err(e),
        }
    }

    /// Parses a primary expression.
    fn parse_primary(&mut self) -> (r: Result<Expression, Failure<'a>>)
        requires
            old(self).wf(),
        ensures
            final(self).wf(),
            final(self).tokens() == old(self).tokens(),
            old(self).position() <= final(self).position(),
            r is Ok ==> old(self).position() < final(self).position(),
            outcome(r, final(self).position()) == parse_primary(
                old(self).tokens(),
                old(self).position(),
            ),
        decreases
                depth_measure(old(self).tokens()),
                old(self).tokens().len() - old(self).position(),
                1int,
    {
        let loc = self.current_location();
        proof {
            if self.position() < self.tokens().len() {
                lemma_tokens_depth_bounds(self.tokens(), self.position());
            }
        }
        let simple: Option<Expression> = match self.peek() {
            Some(token) => match &token.token_type {
                Tokens::FloatLiteral(text) => Some(
                    Expression::Literal(LiteralValue::Float((*text).to_owned())),
                ),
                Tokens::StringLiteral(text) => Some(
                    Expression::Literal(LiteralValue::String(text.clone())),
                ),
                Tokens::IntLiteral(val) => Some(Expression::Literal(LiteralValue::Int(*val))),
                Tokens::HexLiteral(val) => Some(Expression::Literal(LiteralValue::Int(*val))),
                Tokens::BinaryLiteral(val) => Some(Expression::Literal(LiteralValue::Int(*val))),
                Tokens::InterpolatedString(parts) => {
                    match Self::parse_interpolated_string(parts, loc) {
                        Ok(string_parts) => {
                            proof {
                                lemma_string_parts_model(string_parts);
                            }
                            Some(Expression::InterpolatedString { parts: string_parts })
                        },
                        Err(e) => {
                            return Err(e);
                        },
                    }
                },
                Tokens::Identifier(name) => {
                    if str_eq(name, "true") {
                        Some(Expression::Literal(LiteralValue::Bool(true)))
                    } else if str_eq(name, "false") {
                        Some(Expression::Literal(LiteralValue::Bool(false)))
                    } else {
                        Some(Expression::Identifier((*name).to_owned()))
                    }
                },
                Tokens::LeftParen => None,
                Tokens::LeftBracket => None,
                _ => {
                    return Err(self.unexpected("expression"));
                },
            },
            None => {
                return Err(self.unexpected("expression"));
            },
        };
        match simple {
            Some(e) => {
                self.advance();
                Ok(e)
            },
            None => {
                if self.match_token(TokenKind::LeftParen) {
                    let expr = match self.parse_expression() {
                        Ok(e) => e,
                        Err(e) => {
                            return Err(e);
                        },
                    };
                    match self.expect(TokenKind::RightParen, ")") {
                        Ok(()) => Ok(Expression::Grouped(Box::new(expr))),
                        Err(e) => Err(e),
                    }
                } else {
                    self.advance();
                    match self.expression_list(TokenKind::RightBracket, "]") {
                        Ok(elements) => {
                            proof {
                                lemma_array_model(elements);
                            }
                            Ok(Expression::Array(elements))
                        },
                        Err(e) => Err(e),
                    }
                }
            },
        }
    }

    /// Parses the parts of an interpolated string: each code fragment is
    /// scanned and parsed on its own as one expression. `loc` is the
    /// location that a failure in a fragment is reported at.
    fn parse_interpolated_string(parts: &Vec<crate::tokens::StringPart>, loc: SourceLocation) -> (r:
        Result<Vec<StringPart>, Failure<'a>>)
        ensures
            match parse_parts(parts_view(parts@), 0, loc, Seq::empty()) {
                Ok(list) => r matches Ok(v) && string_parts_view(v@) == list,
                Err(e) => r matches Err(x) && x@ == e,
            },
        decreases 2 * (parts_depth(parts_view(parts@)) as int), parts.len() as int, 0int,
    {
        let mut result: Vec<StringPart> = Vec::new();
        let ghost pv = parts_view(parts@);
        assert(string_parts_view(result@) =~= Seq::<PartView>::empty());
        let mut k: usize = 0;
        while k < parts.len()
            invariant
                k <= parts.len(),
                pv == parts_view(parts@),
                parse_parts(pv, k as int, loc, string_parts_view(result@)) == parse_parts(
                    pv,
                    0,
                    loc,
                    Seq::empty(),
                ),
            decreases parts.len() - k,
        {
            match &parts[k] {
                crate::tokens::StringPart::Text(text) => {
                    let part = StringPart::Text(text.clone());
                    proof {
                        lemma_string_parts_push(result@, part);
                    }
                    result.push(part);
                },
                crate::tokens::StringPart::Interpolation(code) => {
                    let mut lexer = CarbideLexer::from_src(code.as_str());
                    let tokens = match lexer.lex_strict() {
                        Ok(tokens) => tokens,
                        Err(_) => {
                            return Err(Box::new(CarbideParserError::ExpectedExpression(loc)));
                        },
                    };
                    proof {
                        lemma_lex_depth(code@);
                        lemma_parts_depth_bounds(pv, k as int);
                    }
                    let mut mini_parser = CarbideParser::new(tokens);
                    let expr = match mini_parser.parse_expression() {
                        Ok(e) => e,
                        Err(_) => {
                            return Err(Box::new(CarbideParserError::ExpectedExpression(loc)));
                        },
                    };
                    let part = StringPart::Expression(Box::new(expr));
                    proof {
                        lemma_string_parts_push(result@, part);
                    }
                    result.push(part);
                },
            }
            k += 1;
        }
        Ok(result)
    }
}

impl<'a> CarbideParser<'a> {
    /// Parses the optional initializer of a `let` declaration.
    fn parse_initializer(&mut self) -> (r: Result<Option<Expression>, Failure<'a>>)
        requires
            old(self).wf(),
        ensures
            final(self).wf(),
            final(self).tokens() == old(self).tokens(),
            old(self).position() <= final(self).position(),
            initializer_outcome(r, final(self).position()) == parse_initializer(
                old(self).tokens(),
                old(self).position(),
            ),
    {
        if self.match_token(TokenKind::BinaryOperator(BinaryOperators::Eq)) {
            match self.parse_expression() {
                Ok(expr) => Ok(Some(expr)),
                Err(_) => Err(
                    Box::new(CarbideParserError::InvalidAssignmentTarget(self.current_location())),
                ),
            }
        } else {
            Ok(None)
        }
    }

    /// Parses a `let` declaration.
    fn parse_let_statement(&mut self) -> (r: Result<Statement, Failure<'a>>)
        requires
            old(self).wf(),
        ensures
            final(self).wf(),
            final(self).tokens() == old(self).tokens(),
            old(self).position() <= final(self).position(),
            r is Ok ==> old(self).position() < final(self).position(),
            outcome(r, final(self).position()) == parse_let(
                old(self).tokens(),
                old(self).position(),
            ),
    {
        match self.expect(TokenKind::Keyword(Keywords::Let), "let") {
            Ok(()) => {},
            Err(e) => {
                return Err(e);
            },
        }
        let name = match self.expect_identifier("identifier") {
            Ok(name) => name,
            Err(e) => {
                return Err(e);
            },
        };
        let type_annotation = match self.parse_annotation() {
            Ok(t) => t,
            Err(e) => {
                return Err(e);
            },
        };
        let initializer = match self.parse_initializer() {
            Ok(i) => i,
            Err(e) => {
                return Err(e);
            },
        };
        match self.expect(TokenKind::Semicolon, ";") {
            Ok(()) => Ok(Statement::LetDeclaration { name, type_annotation, initializer }),
            Err(e) => Err(e),
        }
    }

    /// Parses a `return` statement.
    pub fn parse_return(&mut self) -> (r: Result<Statement, Failure<'a>>)
        requires
            old(self).wf(),
        ensures
            final(self).wf(),
            final(self).tokens() == old(self).tokens(),
            old(self).position() <= final(self).position(),
            r is Ok ==> old(self).position() < final(self).position(),
            outcome(r, final(self).position()) == parse_return(
                old(self).tokens(),
                old(self).position(),
            ),
    {
        match self.expect(TokenKind::Keyword(Keywords::Return), "return") {
            Ok(()) => {},
            Err(e) => {
                return Err(e);
            },
        }
        let return_expr = match self.parse_expression() {
            Ok(e) => e,
            Err(e) => {
                return Err(e);
            },
        };
        match self.expect(TokenKind::Semicolon, ";") {
            Ok(()) => Ok(Statement::Return(Some(return_expr))),
            Err(e) => Err(e),
        }
    }

    /// Parses an expression statement. At the top level the semicolon may
    /// be left out.
    fn parse_expression_statement(&mut self, top_level: bool) -> (r: Result<
        Statement,
        Failure<'a>,
    >)
        requires
            old(self).wf(),
        ensures
            final(self).wf(),
            final(self).tokens() == old(self).tokens(),
            old(self).position() <= final(self).position(),
            r is Ok ==> old(self).position() < final(self).position(),
            outcome(r, final(self).position()) == parse_expression_statement(
                old(self).tokens(),
                old(self).position(),
                top_level,
            ),
    {
        let expr = match self.parse_expression() {
            Ok(e) => e,
            Err(e) => {
                return Err(e);
            },
        };
        if self.match_token(TokenKind::Semicolon) || top_level {
            Ok(Statement::Expression(expr))
        } else {
            Err(self.unexpected(";"))
        }
    }

    /// Parses the parameter list of a function declaration.
    fn parse_parameter_list(&mut self) -> (r: Result<Vec<Parameter>, Failure<'a>>)
        requires
            old(self).wf(),
        ensures
            final(self).wf(),
            final(self).tokens() == old(self).tokens(),
            old(self).position() <= final(self).position(),
            parameters_outcome(r, final(self).position()) == parse_parameter_list(
                old(self).tokens(),
                old(self).position(),
            ),
    {
        let ghost ts = self.tokens();
        match self.expect(TokenKind::LeftParen, "(") {
            Ok(()) => {},
            Err(e) => {
                return Err(e);
            },
        }
        let ghost start = self.position();
        let mut parameters: Vec<Parameter> = Vec::new();
        assert(parameters_view(parameters@) =~= Seq::<ParameterView>::empty());
        if !self.check(TokenKind::RightParen) {
            loop
                invariant_except_break
                    parse_parameters(ts, self.position(), parameters_view(parameters@))
                        == parse_parameters(ts, start, Seq::empty()),
                invariant
                    self.wf(),
                    self.tokens() == ts,
                    ts == old(self).tokens(),
                    start == old(self).position() + 1,
                    start <= self.position(),
                    check_at(ts, old(self).position(), TokenKind::LeftParen),
                    !check_at(ts, start, TokenKind::RightParen),
                ensures
                    self.wf(),
                    self.tokens() == ts,
                    start <= self.position(),
                    parse_parameters(ts, start, Seq::empty()) == done(
                        parameters_view(parameters@),
                        self.position(),
                    ),
                decreases ts.len() - self.position(),
            {
                let param_name = match self.expect_identifier("parameter name") {
                    Ok(name) => name,
                    Err(e) => {
                        return Err(e);
                    },
                };
                let type_annotation = match self.parse_annotation() {
                    Ok(t) => t,
                    Err(e) => {
                        return Err(e);
                    },
                };
                let parameter = Parameter { name: param_name, type_annotation };
                proof {
                    lemma_parameters_push(parameters@, parameter);
                }
                parameters.push(parameter);
                if !self.match_token(TokenKind::Comma) {
                    break ;
                }
            }
        }
        match self.expect(TokenKind::RightParen, ")") {
            Ok(()) => Ok(parameters),
            Err(e) => Err(e),
        }
    }

    /// Parses the optional return type of a function declaration.
    fn parse_return_type(&mut self) -> (r: Result<Option<Type>, Failure<'a>>)
        requires
            old(self).wf(),
        ensures
            final(self).wf(),
            final(self).tokens() == old(self).tokens(),
            old(self).position() <= final(self).position(),
            annotation_outcome(r, final(self).position()) == parse_return_type(
                old(self).tokens(),
                old(self).position(),
            ),
    {
        if self.match_token(TokenKind::ThinArrow) {
            match self.parse_type() {
                Ok(t) => Ok(Some(t)),
                Err(e) => Err(e),
            }
        } else {
            Ok(None)
        }
    }

    /// Parses a statement. `top_level` says whether it stands outside
    /// every block.
    fn parse_statement(&mut self, top_level: bool) -> (r: Result<Statement, Failure<'a>>)
        requires
            old(self).wf(),
        ensures
            final(self).wf(),
            final(self).tokens() == old(self).tokens(),
            old(self).position() <= final(self).position(),
            r is Ok ==> old(self).position() < final(self).position(),
            outcome(r, final(self).position()) == parse_statement(
                old(self).tokens(),
                old(self).position(),
                top_level,
            ),
        decreases old(self).tokens().len() - old(self).position(), 3int,
    {
        match self.peek_kind() {
            Some(TokenKind::Keyword(Keywords::Let)) => self.parse_let_statement(),
            Some(TokenKind::Keyword(Keywords::Fn)) => self.parse_function_declaration(),
            Some(TokenKind::Keyword(Keywords::Return)) => self.parse_return(),
            Some(TokenKind::LeftBrace) => match self.parse_block_statement() {
                Ok(statements) => {
                    proof {
                        lemma_statements_model(statements);
                    }
                    Ok(Statement::Block(statements))
                },
                Err(e) => Err(e),
            },
            Some(_) => self.parse_expression_statement(top_level),
            None => Err(Box::new(CarbideParserError::UnexpectedEOF(self.current_location()))),
        }
    }

    /// Parses a function declaration.
    fn parse_function_declaration(&mut self) -> (r: Result<Statement, Failure<'a>>)
        requires
            old(self).wf(),
        ensures
            final(self).wf(),
            final(self).tokens() == old(self).tokens(),
            old(self).position() <= final(self).position(),
            r is Ok ==> old(self).position() < final(self).position(),
            outcome(r, final(self).position()) == parse_function(
                old(self).tokens(),
                old(self).position(),
            ),
        decreases old(self).tokens().len() - old(self).position(), 2int,
    {
        match self.expect(TokenKind::Keyword(Keywords::Fn), "fn") {
            Ok(()) => {},
            Err(e) => {
                return Err(e);
            },
        }
        let name = match self.expect_identifier("identifier") {
            Ok(name) => name,
            Err(e) => {
                return Err(e);
            },
        };
        let parameters = match self.parse_parameter_list() {
            Ok(p) => p,
            Err(e) => {
                return Err(e);
            },
        };
        let return_type = match self.parse_return_type() {
            Ok(t) => t,
            Err(e) => {
                return Err(e);
            },
        };
        if !self.check(TokenKind::LeftBrace) {
            return Err(self.unexpected("function body"));
        }
        match self.parse_block_statement() {
            Ok(body) => {
                proof {
                    lemma_statements_model(body);
                }
                Ok(Statement::FunctionDeclaration { name, parameters, return_type, body })
            },
            Err(e) => Err(e),
        }
    }

    /// Parses a block and returns its statements.
    fn parse_block_statement(&mut self) -> (r: Result<Vec<Statement>, Failure<'a>>)
        requires
            old(self).wf(),
        ensures
            final(self).wf(),
            final(self).tokens() == old(self).tokens(),
            old(self).position() <= final(self).position(),
            r is Ok ==> old(self).position() < final(self).position(),
            block_outcome(r, final(self).position()) == parse_block(
                old(self).tokens(),
                old(self).position(),
            ),
        decreases old(self).tokens().len() - old(self).position(), 1int,
    {
        let ghost ts = self.tokens();
        let ghost start = self.position();
        match self.expect(TokenKind::LeftBrace, "{") {
            Ok(()) => {},
            Err(e) => {
                return Err(e);
            },
        }
        let mut statements: Vec<Statement> = Vec::new();
        assert(statements_view(statements@) =~= Seq::<StatementView>::empty());
        loop
            invariant
                self.wf(),
                self.tokens() == ts,
                ts == old(self).tokens(),
                start == old(self).position(),
                start < self.position(),
                check_at(ts, start, TokenKind::LeftBrace),
                block_items(ts, self.position(), statements_view(statements@)) == block_items(
                    ts,
                    start + 1,
                    Seq::empty(),
                ),
            ensures
                self.wf(),
                self.tokens() == ts,
                start < self.position(),
                block_items(ts, start + 1, Seq::empty()) == done(
                    statements_view(statements@),
                    self.position(),
                ),
            decreases ts.len() - self.position(),
        {
            if self.is_eof() || self.check(TokenKind::RightBrace) {
                break ;
            }
            let statement = match self.parse_statement(false) {
                Ok(s) => s,
                Err(e) => {
                    return Err(e);
                },
            };
            proof {
                lemma_statements_push(statements@, statement);
            }
            statements.push(statement);
        }
        match self.expect(TokenKind::RightBrace, "}") {
            Ok(()) => Ok(statements),
            Err(e) => Err(e),
        }
    }

    /// Parses the rest of the tokens into statements, with error recovery:
    /// a diagnostic is recorded, the parser synchronizes and goes on.
    pub fn parse(&mut self) -> (result: ParseResult<'a>)
        requires
            old(self).wf(),
        ensures
            final(self).wf(),
            final(self).tokens() == old(self).tokens(),
            final(self).position() >= final(self).tokens().len(),
            result@ == parse_rest(old(self).tokens(), old(self).position()),
    {
        let mut statements: Vec<Statement> = Vec::new();
        let mut errors: Vec<Failure<'a>> = Vec::new();
        let ghost ts = self.tokens();
        let ghost goal = parse_rest(ts, self.position());
        assert(statements_view(statements@) =~= Seq::<StatementView>::empty());
        assert(failures_view(errors@) =~= Seq::<ParserErrorView>::empty());
        loop
            invariant
                self.wf(),
                self.tokens() == ts,
                goal == parse_from(
                    ts,
                    self.position(),
                    (ParseOutput {
                        ast: statements_view(statements@),
                        errors: failures_view(errors@),
                    }),
                ),
            ensures
                self.wf(),
                self.tokens() == ts,
                self.position() >= ts.len(),
                goal == (ParseOutput {
                    ast: statements_view(statements@),
                    errors: failures_view(errors@),
                }),
            decreases ts.len() - self.position(),
        {
            if self.is_eof() {
                break ;
            }
            match self.parse_statement(true) {
                Ok(stmt) => {
                    proof {
                        lemma_statements_push(statements@, stmt);
                    }
                    statements.push(stmt);
                },
                Err(e) => {
                    proof {
                        lemma_failures_push(errors@, e);
                        if self.position() < ts.len() {
                            lemma_boundary_from_bounds(ts, self.position() + 1);
                        }
                    }
                    errors.push(e);
                    self.synchronize();
                },
            }
        }
        ParseResult { ast: statements, errors }
    }

    /// Parses the rest of the tokens and fails with the first diagnostic,
    /// if there is one.
    pub fn parse_strict(&mut self) -> (r: Result<Vec<Statement>, Failure<'a>>)
        requires
            old(self).wf(),
        ensures
            final(self).wf(),
            final(self).tokens() == old(self).tokens(),
            final(self).position() >= final(self).tokens().len(),
            ({
                let out = parse_rest(old(self).tokens(), old(self).position());
                match r {
                    Ok(ast) => out.errors.len() == 0 && statements_view(ast@) == out.ast,
                    Err(e) => out.errors.len() > 0 && e@ == out.errors[0],
                }
            }),
    {
        let mut result = self.parse();
        if result.errors.len() > 0 {
            Err(result.errors.remove(0))
        } else {
            Ok(result.ast)
        }
    }
}

/// The precedence level of a binary operator.
fn operator_level(op: BinaryOperators) -> (level: u8)
    ensures
        level == binary_level(op),
{
    match op {
        BinaryOperators::Eq => 0,
        BinaryOperators::Or => 1,
        BinaryOperators::And => 2,
        BinaryOperators::EqEq | BinaryOperators::NotEq => 3,
        BinaryOperators::Less
        | BinaryOperators::LessEq
        | BinaryOperators::Greater
        | BinaryOperators::GreaterEq => 4,
        BinaryOperators::Plus | BinaryOperators::Minus => 5,
        BinaryOperators::Star | BinaryOperators::Slash | BinaryOperators::Percent => 6,
    }
}

} // verus!
