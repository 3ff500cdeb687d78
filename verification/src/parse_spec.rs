//! What parsing means: the syntax tree and the diagnostics of a sequence of
//! tokens, as functions of the tokens.
//!
//! Each function takes the tokens and a position and gives what is parsed
//! there and the position at which the parser then stands. Precedence, from
//! loosest to tightest: assignment, `||`, `&&`, equality, comparison, terms,
//! factors, unary operators, calls and primaries.
//!
//! Where a function goes on from the position that a step has reached, it
//! tests first that the step has stayed among the tokens and has not gone
//! back: this is what shows that the functions are well defined. The tests
//! never fail, as `parse_laws` shows.

use crate::cursor::SourceLocation;
use crate::keywords::Keywords;
use crate::lex_spec::lex_all;
use crate::nodes::{ExpressionView, LiteralView, ParameterView, PartView, StatementView, TypeView};
use crate::operators::{BinaryOperators, UnaryOperators};
use crate::parse_errors::ParserErrorView;
use crate::tokens::{parts_depth, tokens_depth, StringPartView, TokenKind, TokensView, TokenView};
use vstd::prelude::*;

verus! {

/// What was parsed, or the diagnostic, and the position at which the
/// parser then stands.
pub struct Parsed<T> {
    pub value: Result<T, ParserErrorView>,
    pub next: int,
}

/// The result `value`, with the parser then at `next`.
pub open spec fn done<T>(value: T, next: int) -> Parsed<T> {
    Parsed { value: Ok(value), next }
}

/// The diagnostic `e`, with the parser then at `next`.
pub open spec fn fail<T>(e: ParserErrorView, next: int) -> Parsed<T> {
    Parsed { value: Err(e), next }
}

/// The location that a diagnostic at `pos` names: the end of the token at
/// `pos`; past the last token, the end of the last token; line 1, column 1
/// where there is no token at all.
pub open spec fn current_location(ts: Seq<TokenView>, pos: int) -> SourceLocation {
    if 0 <= pos < ts.len() {
        ts[pos].end
    } else if ts.len() > 0 {
        ts.last().end
    } else {
        SourceLocation { line: 1, column: 1, offset: 0 }
    }
}

/// Whether a token of kind `kind` stands at `pos`.
pub open spec fn check_at(ts: Seq<TokenView>, pos: int, kind: TokenKind) -> bool {
    0 <= pos < ts.len() && ts[pos].token_type.kind() == kind
}

/// The diagnostic for a token at `pos` that is not what was expected.
pub open spec fn unexpected(ts: Seq<TokenView>, pos: int, expected: Seq<char>) -> ParserErrorView {
    if 0 <= pos < ts.len() {
        ParserErrorView::UnexpectedToken { expected, found: ts[pos] }
    } else {
        ParserErrorView::UnexpectedEOF(current_location(ts, pos))
    }
}

/// Consumes the token at `pos` if it is of kind `kind`; `expected` names
/// what was expected in the diagnostic.
pub open spec fn expect_at(ts: Seq<TokenView>, pos: int, kind: TokenKind, expected: Seq<char>)
    -> Parsed<TokenView> {
    if check_at(ts, pos, kind) {
        done(ts[pos], pos + 1)
    } else {
        fail(unexpected(ts, pos, expected), pos)
    }
}

/// The name that an identifier token holds.
pub open spec fn identifier_name(t: TokenView) -> Seq<char> {
    match t.token_type {
        TokensView::Identifier(name) => name,
        _ => Seq::empty(),
    }
}

/// The type annotation at `pos`: a name, or a type in square brackets.
pub open spec fn parse_type(ts: Seq<TokenView>, pos: int) -> Parsed<TypeView>
    decreases ts.len() - pos,
{
    if 0 <= pos < ts.len() {
        match ts[pos].token_type {
            TokensView::TypeIdentifier(name) => done(TypeView::Named(name), pos + 1),
            TokensView::Identifier(name) => done(TypeView::Named(name), pos + 1),
            TokensView::LeftBracket => {
                let inner = parse_type(ts, pos + 1);
                match inner.value {
                    Err(e) => fail(e, inner.next),
                    Ok(element) => {
                        let close = expect_at(ts, inner.next, TokenKind::RightBracket, "]"@);
                        match close.value {
                            Err(e) => fail(e, close.next),
                            Ok(_) => done(TypeView::Array(Box::new(element)), close.next),
                        }
                    },
                }
            },
            _ => fail(unexpected(ts, pos, "type"@), pos),
        }
    } else {
        fail(unexpected(ts, pos, "type"@), pos)
    }
}

/// The optional type annotation after a colon at `pos`.
pub open spec fn parse_annotation(ts: Seq<TokenView>, pos: int) -> Parsed<Option<TypeView>> {
    if check_at(ts, pos, TokenKind::Colon) {
        let t = parse_type(ts, pos + 1);
        match t.value {
            Err(e) => fail(e, t.next),
            Ok(annotation) => done(Some(annotation), t.next),
        }
    } else {
        done(None, pos)
    }
}

/// The precedence level of a binary operator, from 1 for `||`, the
/// loosest, to 6 for the factors; 0 for assignment, which is no level of
/// its own.
pub open spec fn binary_level(op: BinaryOperators) -> int {
    match op {
        BinaryOperators::Eq => 0,
        BinaryOperators::Or => 1,
        BinaryOperators::And => 2,
        BinaryOperators::EqEq => 3,
        BinaryOperators::NotEq => 3,
        BinaryOperators::Less => 4,
        BinaryOperators::LessEq => 4,
        BinaryOperators::Greater => 4,
        BinaryOperators::GreaterEq => 4,
        BinaryOperators::Plus => 5,
        BinaryOperators::Minus => 5,
        BinaryOperators::Star => 6,
        BinaryOperators::Slash => 6,
        BinaryOperators::Percent => 6,
    }
}

/// The binary operator of level `level` at `pos`, if one stands there.
pub open spec fn operator_at(ts: Seq<TokenView>, pos: int, level: int) -> Option<BinaryOperators> {
    if 0 <= pos < ts.len() {
        match ts[pos].token_type {
            TokensView::BinaryOperator(op) => if binary_level(op) == level {
                Some(op)
            } else {
                None
            },
            _ => None,
        }
    } else {
        None
    }
}

/// The unary operator that the token at `pos` is in front of an operand:
/// a unary operator token, or a minus.
pub open spec fn prefix_at(ts: Seq<TokenView>, pos: int) -> Option<UnaryOperators> {
    if 0 <= pos < ts.len() {
        match ts[pos].token_type {
            TokensView::UnaryOperator(op) => Some(op),
            TokensView::BinaryOperator(BinaryOperators::Minus) => Some(UnaryOperators::Negate),
            _ => None,
        }
    } else {
        None
    }
}

/// Whether an expression of this shape may stand on the left of `=`.
pub open spec fn is_assignable(e: ExpressionView) -> bool {
    e is Identifier || e is Call || e is Index || e is MemberAccess
}

/// The measure by which the parsing of expressions is known to end: the
/// depth of the tokens, then the number of tokens left, then the rank of
/// the function among those that call each other at one position.
pub open spec fn depth_measure(ts: Seq<TokenView>) -> int {
    2 * (tokens_depth(ts) as int) + 1
}

/// The expression at `pos`.
pub open spec fn parse_expression(ts: Seq<TokenView>, pos: int) -> Parsed<ExpressionView>
    decreases depth_measure(ts), ts.len() - pos, 13int,
{
    parse_assignment(ts, pos)
}

/// An assignment, or what binds tighter. Assignment associates to the
/// right; its left side must be assignable.
pub open spec fn parse_assignment(ts: Seq<TokenView>, pos: int) -> Parsed<ExpressionView>
    decreases depth_measure(ts), ts.len() - pos, 12int,
{
    let left = parse_binary(ts, pos, 1);
    match left.value {
        Err(e) => fail(e, left.next),
        Ok(target) => if check_at(ts, left.next, TokenKind::BinaryOperator(BinaryOperators::Eq)) {
            if !is_assignable(target) {
                fail(
                    ParserErrorView::InvalidAssignmentTarget(current_location(ts, left.next)),
                    left.next,
                )
            } else if left.next < pos {
                done(target, left.next)
            } else {
                let right = parse_assignment(ts, left.next + 1);
                match right.value {
                    Err(e) => fail(e, right.next),
                    Ok(value) => done(
                        ExpressionView::Assignment {
                            target: Box::new(target),
                            value: Box::new(value),
                        },
                        right.next,
                    ),
                }
            }
        } else {
            done(target, left.next)
        },
    }
}

/// The binary operations of precedence level `level` and tighter; above
/// level 6, the unary operations. Each level is a left-associative chain
/// of operands of the next level.
pub open spec fn parse_binary(ts: Seq<TokenView>, pos: int, level: int) -> Parsed<ExpressionView>
    decreases depth_measure(ts), ts.len() - pos, (if 1 <= level <= 6 {
        11 - level
    } else {
        4int
    }),
{
    if 1 <= level <= 6 {
        let first = parse_binary(ts, pos, level + 1);
        match first.value {
            Err(e) => fail(e, first.next),
            Ok(left) => if pos <= first.next <= ts.len() {
                binary_tail(ts, first.next, level, left)
            } else {
                done(left, first.next)
            },
        }
    } else {
        parse_unary(ts, pos)
    }
}

/// Continues a chain of level `level` whose operands so far make `left`:
/// while an operator of the level stands at `pos`, the next operand is
/// parsed and folded in on the right.
pub open spec fn binary_tail(ts: Seq<TokenView>, pos: int, level: int, left: ExpressionView)
    -> Parsed<ExpressionView>
    decreases depth_measure(ts), ts.len() - pos, 0int,
{
    match operator_at(ts, pos, level) {
        None => done(left, pos),
        Some(op) => {
            let operand = parse_binary(ts, pos + 1, level + 1);
            match operand.value {
                Err(e) => fail(e, operand.next),
                Ok(right) => {
                    let folded = ExpressionView::BinaryOp {
                        left: Box::new(left),
                        operator: op,
                        right: Box::new(right),
                    };
                    if pos < operand.next <= ts.len() {
                        binary_tail(ts, operand.next, level, folded)
                    } else {
                        done(folded, operand.next)
                    }
                },
            }
        },
    }
}

/// A unary operation, or a call.
pub open spec fn parse_unary(ts: Seq<TokenView>, pos: int) -> Parsed<ExpressionView>
    decreases depth_measure(ts), ts.len() - pos, 3int,
{
    match prefix_at(ts, pos) {
        Some(op) => {
            let inner = parse_unary(ts, pos + 1);
            match inner.value {
                Err(e) => fail(e, inner.next),
                Ok(operand) => done(
                    ExpressionView::UnaryOp { operator: op, operand: Box::new(operand) },
                    inner.next,
                ),
            }
        },
        None => parse_call(ts, pos),
    }
}

/// A primary expression and the calls, indexings and member accesses that
/// follow it, from left to right.
pub open spec fn parse_call(ts: Seq<TokenView>, pos: int) -> Parsed<ExpressionView>
    decreases depth_measure(ts), ts.len() - pos, 2int,
{
    let first = parse_primary(ts, pos);
    match first.value {
        Err(e) => fail(e, first.next),
        Ok(e) => if pos <= first.next <= ts.len() {
            call_tail(ts, first.next, e)
        } else {
            done(e, first.next)
        },
    }
}

/// Continues a chain of calls, indexings and member accesses on `target`.
pub open spec fn call_tail(ts: Seq<TokenView>, pos: int, target: ExpressionView) -> Parsed<
    ExpressionView,
>
    decreases depth_measure(ts), ts.len() - pos, 0int,
{
    if check_at(ts, pos, TokenKind::LeftParen) {
        let call = finish_call(ts, pos + 1, target);
        match call.value {
            Err(e) => fail(e, call.next),
            Ok(e) => if pos < call.next <= ts.len() {
                call_tail(ts, call.next, e)
            } else {
                done(e, call.next)
            },
        }
    } else if check_at(ts, pos, TokenKind::LeftBracket) {
        let index = parse_expression(ts, pos + 1);
        match index.value {
            Err(e) => fail(e, index.next),
            Ok(i) => {
                let close = expect_at(ts, index.next, TokenKind::RightBracket, "]"@);
                match close.value {
                    Err(e) => fail(e, close.next),
                    Ok(_) => {
                        let e = ExpressionView::Index {
                            target: Box::new(target),
                            index: Box::new(i),
                        };
                        if pos < close.next <= ts.len() {
                            call_tail(ts, close.next, e)
                        } else {
                            done(e, close.next)
                        }
                    },
                }
            },
        }
    } else if check_at(ts, pos, TokenKind::Period) {
        let member = expect_at(ts, pos + 1, TokenKind::Identifier, "property name"@);
        match member.value {
            Err(e) => fail(e, member.next),
            Ok(t) => call_tail(
                ts,
                pos + 2,
                ExpressionView::MemberAccess {
                    target: Box::new(target),
                    member: identifier_name(t),
                },
            ),
        }
    } else {
        done(target, pos)
    }
}

/// The expressions of a list after the items `items` that are parsed
/// already: an expression and, after each comma, one more.
pub open spec fn list_items(ts: Seq<TokenView>, pos: int, items: Seq<ExpressionView>) -> Parsed<
    Seq<ExpressionView>,
>
    decreases depth_measure(ts), ts.len() - pos, 14int,
{
    let item = parse_expression(ts, pos);
    match item.value {
        Err(e) => fail(e, item.next),
        Ok(e) => if check_at(ts, item.next, TokenKind::Comma) && pos <= item.next {
            list_items(ts, item.next + 1, items.push(e))
        } else {
            done(items.push(e), item.next)
        },
    }
}

/// A list of expressions between commas up to the closing token of kind
/// `closer`, which is consumed; `expected` names the closing token in the
/// diagnostic. The list may be empty; a comma must be followed by an
/// expression.
pub open spec fn expression_list(
    ts: Seq<TokenView>,
    pos: int,
    closer: TokenKind,
    expected: Seq<char>,
) -> Parsed<Seq<ExpressionView>>
    decreases depth_measure(ts), ts.len() - pos, 15int,
{
    if check_at(ts, pos, closer) {
        done(Seq::empty(), pos + 1)
    } else {
        let items = list_items(ts, pos, Seq::empty());
        match items.value {
            Err(e) => fail(e, items.next),
            Ok(list) => {
                let close = expect_at(ts, items.next, closer, expected);
                match close.value {
                    Err(e) => fail(e, close.next),
                    Ok(_) => done(list, close.next),
                }
            },
        }
    }
}

/// The call of `callee` whose arguments start at `pos`, after the opening
/// parenthesis.
pub open spec fn finish_call(ts: Seq<TokenView>, pos: int, callee: ExpressionView) -> Parsed<
    ExpressionView,
>
    decreases depth_measure(ts), ts.len() - pos, 16int,
{
    let arguments = expression_list(ts, pos, TokenKind::RightParen, ")"@);
    match arguments.value {
        Err(e) => fail(e, arguments.next),
        Ok(list) => done(
            ExpressionView::Call { callee: Box::new(callee), arguments: list },
            arguments.next,
        ),
    }
}

/// A primary expression: a literal, an identifier (`true` and `false` are
/// the boolean literals), an interpolated string, an expression in
/// parentheses, or an array literal.
pub open spec fn parse_primary(ts: Seq<TokenView>, pos: int) -> Parsed<ExpressionView>
    decreases depth_measure(ts), ts.len() - pos, 1int,
{
    if 0 <= pos < ts.len() {
        match ts[pos].token_type {
            TokensView::FloatLiteral(text) => done(
                ExpressionView::Literal(LiteralView::Float(text)),
                pos + 1,
            ),
            TokensView::StringLiteral(text) => done(
                ExpressionView::Literal(LiteralView::String(text)),
                pos + 1,
            ),
            TokensView::IntLiteral(v) => done(ExpressionView::Literal(LiteralView::Int(v)), pos + 1),
            TokensView::HexLiteral(v) => done(ExpressionView::Literal(LiteralView::Int(v)), pos + 1),
            TokensView::BinaryLiteral(v) => done(
                ExpressionView::Literal(LiteralView::Int(v)),
                pos + 1,
            ),
            TokensView::InterpolatedString(parts) => {
                if parts_depth(parts) <= tokens_depth(ts) {
                    match parse_parts(parts, 0, current_location(ts, pos), Seq::empty()) {
                        Err(e) => fail(e, pos),
                        Ok(list) => done(ExpressionView::InterpolatedString { parts: list }, pos + 1),
                    }
                } else {
                    fail(ParserErrorView::ExpectedExpression(current_location(ts, pos)), pos)
                }
            },
            TokensView::Identifier(name) => if name == "true"@ {
                done(ExpressionView::Literal(LiteralView::Bool(true)), pos + 1)
            } else if name == "false"@ {
                done(ExpressionView::Literal(LiteralView::Bool(false)), pos + 1)
            } else {
                done(ExpressionView::Identifier(name), pos + 1)
            },
            TokensView::LeftParen => {
                let inner = parse_expression(ts, pos + 1);
                match inner.value {
                    Err(e) => fail(e, inner.next),
                    Ok(e) => {
                        let close = expect_at(ts, inner.next, TokenKind::RightParen, ")"@);
                        match close.value {
                            Err(e) => fail(e, close.next),
                            Ok(_) => done(ExpressionView::Grouped(Box::new(e)), close.next),
                        }
                    },
                }
            },
            TokensView::LeftBracket => {
                let elements = expression_list(ts, pos + 1, TokenKind::RightBracket, "]"@);
                match elements.value {
                    Err(e) => fail(e, elements.next),
                    Ok(list) => done(ExpressionView::Array(list), elements.next),
                }
            },
            _ => fail(unexpected(ts, pos, "expression"@), pos),
        }
    } else {
        fail(unexpected(ts, pos, "expression"@), pos)
    }
}

/// The tokens of a code fragment, scanned on its own; `None` where the
/// scan raises a diagnostic.
pub open spec fn fragment_tokens(code: Seq<char>) -> Option<Seq<TokenView>> {
    if lex_all(code).errors.len() == 0 {
        Some(lex_all(code).tokens)
    } else {
        None
    }
}

/// The parts of an interpolated string from the `k`-th on, after the parts
/// `done_parts`: text stays text, and each code fragment is scanned and
/// parsed on its own as one expression. Where that fails, the diagnostic is
/// that an expression was expected at `loc`, the location of the string.
pub open spec fn parse_parts(
    parts: Seq<StringPartView>,
    k: int,
    loc: SourceLocation,
    done_parts: Seq<PartView>,
) -> Result<Seq<PartView>, ParserErrorView>
    decreases 2 * (parts_depth(parts) as int), parts.len() - k, 0int,
{
    if k < 0 || k >= parts.len() {
        Ok(done_parts)
    } else {
        match parts[k] {
            StringPartView::Text(text) => parse_parts(
                parts,
                k + 1,
                loc,
                done_parts.push(PartView::Text(text)),
            ),
            StringPartView::Interpolation(code) => match fragment_tokens(code) {
                None => Err(ParserErrorView::ExpectedExpression(loc)),
                Some(nested) => if tokens_depth(nested) < parts_depth(parts) {
                    match parse_expression(nested, 0).value {
                        Err(_) => Err(ParserErrorView::ExpectedExpression(loc)),
                        Ok(e) => parse_parts(
                            parts,
                            k + 1,
                            loc,
                            done_parts.push(PartView::Expression(Box::new(e))),
                        ),
                    }
                } else {
                    Err(ParserErrorView::ExpectedExpression(loc))
                },
            },
        }
    }
}

/// A `let` declaration: the name, an optional type after a colon, an
/// optional initializer after `=`, and the semicolon. An initializer that
/// does not parse is reported as an invalid assignment target.
pub open spec fn parse_let(ts: Seq<TokenView>, pos: int) -> Parsed<StatementView> {
    let keyword = expect_at(ts, pos, TokenKind::Keyword(Keywords::Let), "let"@);
    match keyword.value {
        Err(e) => fail(e, keyword.next),
        Ok(_) => {
            let name = expect_at(ts, keyword.next, TokenKind::Identifier, "identifier"@);
            match name.value {
                Err(e) => fail(e, name.next),
                Ok(name_token) => {
                    let annotation = parse_annotation(ts, name.next);
                    match annotation.value {
                        Err(e) => fail(e, annotation.next),
                        Ok(type_annotation) => {
                            let initializer = parse_initializer(ts, annotation.next);
                            match initializer.value {
                                Err(e) => fail(e, initializer.next),
                                Ok(init) => {
                                    let end = expect_at(
                                        ts,
                                        initializer.next,
                                        TokenKind::Semicolon,
                                        ";"@,
                                    );
                                    match end.value {
                                        Err(e) => fail(e, end.next),
                                        Ok(_) => done(
                                            StatementView::LetDeclaration {
                                                name: identifier_name(name_token),
                                                type_annotation,
                                                initializer: init,
                                            },
                                            end.next,
                                        ),
                                    }
                                },
                            }
                        },
                    }
                },
            }
        },
    }
}

/// The optional initializer of a `let` declaration after `=` at `pos`.
pub open spec fn parse_initializer(ts: Seq<TokenView>, pos: int) -> Parsed<
    Option<ExpressionView>,
> {
    if check_at(ts, pos, TokenKind::BinaryOperator(BinaryOperators::Eq)) {
        let value = parse_expression(ts, pos + 1);
        match value.value {
            Err(_) => fail(
                ParserErrorView::InvalidAssignmentTarget(current_location(ts, value.next)),
                value.next,
            ),
            Ok(e) => done(Some(e), value.next),
        }
    } else {
        done(None, pos)
    }
}

/// A `return` statement: the expression, which must be there, and the
/// semicolon.
pub open spec fn parse_return(ts: Seq<TokenView>, pos: int) -> Parsed<StatementView> {
    let keyword = expect_at(ts, pos, TokenKind::Keyword(Keywords::Return), "return"@);
    match keyword.value {
        Err(e) => fail(e, keyword.next),
        Ok(_) => {
            let value = parse_expression(ts, keyword.next);
            match value.value {
                Err(e) => fail(e, value.next),
                Ok(e) => {
                    let end = expect_at(ts, value.next, TokenKind::Semicolon, ";"@);
                    match end.value {
                        Err(e) => fail(e, end.next),
                        Ok(_) => done(StatementView::Return(Some(e)), end.next),
                    }
                },
            }
        },
    }
}

/// An expression statement. At the top level the semicolon after it may
/// be left out; inside a block it must be there.
pub open spec fn parse_expression_statement(ts: Seq<TokenView>, pos: int, top_level: bool)
    -> Parsed<StatementView> {
    let value = parse_expression(ts, pos);
    match value.value {
        Err(e) => fail(e, value.next),
        Ok(e) => if check_at(ts, value.next, TokenKind::Semicolon) {
            done(StatementView::Expression(e), value.next + 1)
        } else if top_level {
            done(StatementView::Expression(e), value.next)
        } else {
            fail(unexpected(ts, value.next, ";"@), value.next)
        },
    }
}

/// The parameters of a function declaration after the parameters `items`
/// that are parsed already: a name with an optional type and, after each
/// comma, one more.
pub open spec fn parse_parameters(ts: Seq<TokenView>, pos: int, items: Seq<ParameterView>)
    -> Parsed<Seq<ParameterView>>
    decreases ts.len() - pos,
{
    let name = expect_at(ts, pos, TokenKind::Identifier, "parameter name"@);
    match name.value {
        Err(e) => fail(e, name.next),
        Ok(name_token) => {
            let annotation = parse_annotation(ts, name.next);
            match annotation.value {
                Err(e) => fail(e, annotation.next),
                Ok(type_annotation) => {
                    let list = items.push(
                        ParameterView { name: identifier_name(name_token), type_annotation },
                    );
                    if check_at(ts, annotation.next, TokenKind::Comma) && pos <= annotation.next {
                        parse_parameters(ts, annotation.next + 1, list)
                    } else {
                        done(list, annotation.next)
                    }
                },
            }
        },
    }
}

/// The parameter list of a function declaration, between parentheses.
pub open spec fn parse_parameter_list(ts: Seq<TokenView>, pos: int) -> Parsed<Seq<ParameterView>> {
    let open = expect_at(ts, pos, TokenKind::LeftParen, "("@);
    match open.value {
        Err(e) => fail(e, open.next),
        Ok(_) => {
            let items = if check_at(ts, open.next, TokenKind::RightParen) {
                done(Seq::empty(), open.next)
            } else {
                parse_parameters(ts, open.next, Seq::empty())
            };
            match items.value {
                Err(e) => fail(e, items.next),
                Ok(list) => {
                    let close = expect_at(ts, items.next, TokenKind::RightParen, ")"@);
                    match close.value {
                        Err(e) => fail(e, close.next),
                        Ok(_) => done(list, close.next),
                    }
                },
            }
        },
    }
}

/// The optional return type of a function declaration after `->` at `pos`.
pub open spec fn parse_return_type(ts: Seq<TokenView>, pos: int) -> Parsed<Option<TypeView>> {
    if check_at(ts, pos, TokenKind::ThinArrow) {
        let t = parse_type(ts, pos + 1);
        match t.value {
            Err(e) => fail(e, t.next),
            Ok(annotation) => done(Some(annotation), t.next),
        }
    } else {
        done(None, pos)
    }
}

/// The statement at `pos`, chosen by its first token: `let`, `fn`,
/// `return`, `{`, or else an expression statement. `top_level` says
/// whether the statement stands outside every block.
pub open spec fn parse_statement(ts: Seq<TokenView>, pos: int, top_level: bool) -> Parsed<
    StatementView,
>
    decreases ts.len() - pos, 3int,
{
    if 0 <= pos < ts.len() {
        match ts[pos].token_type {
            TokensView::Keyword(Keywords::Let) => parse_let(ts, pos),
            TokensView::Keyword(Keywords::Fn) => parse_function(ts, pos),
            TokensView::Keyword(Keywords::Return) => parse_return(ts, pos),
            TokensView::LeftBrace => {
                let block = parse_block(ts, pos);
                match block.value {
                    Err(e) => fail(e, block.next),
                    Ok(items) => done(StatementView::Block(items), block.next),
                }
            },
            _ => parse_expression_statement(ts, pos, top_level),
        }
    } else {
        fail(ParserErrorView::UnexpectedEOF(current_location(ts, pos)), pos)
    }
}

/// A function declaration: the name, the parameter list, an optional
/// return type, and the body, which must be a block.
pub open spec fn parse_function(ts: Seq<TokenView>, pos: int) -> Parsed<StatementView>
    decreases ts.len() - pos, 2int,
{
    let keyword = expect_at(ts, pos, TokenKind::Keyword(Keywords::Fn), "fn"@);
    match keyword.value {
        Err(e) => fail(e, keyword.next),
        Ok(_) => {
            let name = expect_at(ts, keyword.next, TokenKind::Identifier, "identifier"@);
            match name.value {
                Err(e) => fail(e, name.next),
                Ok(name_token) => {
                    let parameters = parse_parameter_list(ts, name.next);
                    match parameters.value {
                        Err(e) => fail(e, parameters.next),
                        Ok(list) => {
                            let result = parse_return_type(ts, parameters.next);
                            match result.value {
                                Err(e) => fail(e, result.next),
                                Ok(return_type) => if !check_at(
                                    ts,
                                    result.next,
                                    TokenKind::LeftBrace,
                                ) {
                                    fail(unexpected(ts, result.next, "function body"@), result.next)
                                } else if result.next <= pos {
                                    fail(unexpected(ts, result.next, "function body"@), result.next)
                                } else {
                                    let body = parse_block(ts, result.next);
                                    match body.value {
                                        Err(e) => fail(e, body.next),
                                        Ok(items) => done(
                                            StatementView::FunctionDeclaration {
                                                name: identifier_name(name_token),
                                                parameters: list,
                                                return_type,
                                                body: items,
                                            },
                                            body.next,
                                        ),
                                    }
                                },
                            }
                        },
                    }
                },
            }
        },
    }
}

/// A block: the statements between braces.
pub open spec fn parse_block(ts: Seq<TokenView>, pos: int) -> Parsed<Seq<StatementView>>
    decreases ts.len() - pos, 1int,
{
    let open = expect_at(ts, pos, TokenKind::LeftBrace, "{"@);
    match open.value {
        Err(e) => fail(e, open.next),
        Ok(_) => {
            let items = block_items(ts, pos + 1, Seq::empty());
            match items.value {
                Err(e) => fail(e, items.next),
                Ok(list) => {
                    let close = expect_at(ts, items.next, TokenKind::RightBrace, "}"@);
                    match close.value {
                        Err(e) => fail(e, close.next),
                        Ok(_) => done(list, close.next),
                    }
                },
            }
        },
    }
}

/// The statements of a block after the statements `items` that are parsed
/// already, up to the closing brace or the end of the tokens.
pub open spec fn block_items(ts: Seq<TokenView>, pos: int, items: Seq<StatementView>) -> Parsed<
    Seq<StatementView>,
>
    decreases ts.len() - pos, 4int,
{
    if pos < 0 || pos >= ts.len() || check_at(ts, pos, TokenKind::RightBrace) {
        done(items, pos)
    } else {
        let statement = parse_statement(ts, pos, false);
        match statement.value {
            Err(e) => fail(e, statement.next),
            Ok(s) => if pos < statement.next <= ts.len() {
                block_items(ts, statement.next, items.push(s))
            } else {
                done(items.push(s), statement.next)
            },
        }
    }
}

/// Where the parser resumes when it looks for a statement boundary from
/// `pos` on: right after a semicolon, right before a keyword, or at the
/// end of the tokens.
pub open spec fn boundary_from(ts: Seq<TokenView>, pos: int) -> int
    decreases ts.len() - pos,
{
    if pos < 0 || pos >= ts.len() {
        pos
    } else if pos >= 1 && ts[pos - 1].token_type is Semicolon {
        pos
    } else if ts[pos].token_type is Keyword {
        pos
    } else {
        boundary_from(ts, pos + 1)
    }
}

/// Where the parser resumes after a diagnostic raised at `pos`: at least
/// one token on, and then at the next statement boundary.
pub open spec fn synchronize(ts: Seq<TokenView>, pos: int) -> int {
    if 0 <= pos < ts.len() {
        boundary_from(ts, pos + 1)
    } else {
        pos
    }
}

/// The search for a statement boundary goes forward and stays among the

/// tokens.
pub proof fn lemma_boundary_from_bounds(ts: Seq<TokenView>, pos: int)
    requires
        0 <= pos <= ts.len(),
    ensures
        pos <= boundary_from(ts, pos) <= ts.len(),
    decreases ts.len() - pos,
{
    if pos < ts.len() && !(pos >= 1 && ts[pos - 1].token_type is Semicolon) && !(
    ts[pos].token_type is Keyword) {
        lemma_boundary_from_bounds(ts, pos + 1);
    }
}

/// The statements and the diagnostics of a parse.
pub struct ParseOutput {
    pub ast: Seq<StatementView>,
    pub errors: Seq<ParserErrorView>,
}

/// The parse of the tokens from `pos` on, after the statements and
/// diagnostics of `out`: statement by statement; after a diagnostic the
/// parser synchronizes and goes on.
pub open spec fn parse_from(ts: Seq<TokenView>, pos: int, out: ParseOutput) -> ParseOutput
    decreases ts.len() - pos,
{
    if pos < 0 || pos >= ts.len() {
        out
    } else {
        let statement = parse_statement(ts, pos, true);
        match statement.value {
            Ok(s) => if pos < statement.next <= ts.len() {
                parse_from(ts, statement.next, ParseOutput { ast: out.ast.push(s), ..out })
            } else {
                out
            },
            Err(e) => {
                let resume = synchronize(ts, statement.next);
                if pos < resume <= ts.len() {
                    parse_from(ts, resume, ParseOutput { errors: out.errors.push(e), ..out })
                } else {
                    out
                }
            },
        }
    }
}

/// The parse of the tokens from `pos` on.
pub open spec fn parse_rest(ts: Seq<TokenView>, pos: int) -> ParseOutput {
    parse_from(ts, pos, ParseOutput { ast: Seq::empty(), errors: Seq::empty() })
}

/// The parse of all the tokens.
pub open spec fn parse_all(ts: Seq<TokenView>) -> ParseOutput {
    parse_rest(ts, 0)
}

} // verus!
