//! What holds of every parse.

use crate::keywords::Keywords;
use crate::nodes::{ExpressionView, ParameterView, StatementView};
use crate::operators::BinaryOperators;
use crate::parse_spec::{
    binary_tail, block_items, call_tail, check_at, depth_measure, expect_at, expression_list,
    finish_call, identifier_name, lemma_boundary_from_bounds, list_items, operator_at, parse_all,
    parse_annotation, parse_assignment, parse_binary, parse_block, parse_call, parse_expression,
    parse_from, parse_function, parse_let, parse_parameter_list, parse_parameters, parse_primary,
    parse_return, parse_return_type, parse_statement, parse_type, parse_unary, prefix_at,
    synchronize, Parsed, ParseOutput,
};
use crate::tokens::{TokenKind, TokensView, TokenView};
use vstd::prelude::*;

verus! {

/// Whether a step from `pos` stays among the tokens and never goes back.
pub open spec fn stays<T>(p: Parsed<T>, pos: int, len: nat) -> bool {
    pos <= p.next <= len
}

/// Whether a step from `pos` stays among the tokens, never goes back, and
/// consumes a token where it succeeds.
pub open spec fn advances<T>(p: Parsed<T>, pos: int, len: nat) -> bool {
    pos <= p.next <= len && (p.value is Ok ==> pos < p.next)
}

/// A successful type annotation consumes at least one token.
pub proof fn lemma_parse_type_advances(ts: Seq<TokenView>, pos: int)
    requires
        0 <= pos <= ts.len(),
    ensures
        advances(parse_type(ts, pos), pos, ts.len()),
    decreases ts.len() - pos,
{
    if pos < ts.len() {
        lemma_parse_type_advances(ts, pos + 1);
    }
}

/// A successful expression consumes at least one token, and no step of
/// the expression grammar leaves the tokens or goes back.
pub proof fn lemma_parse_expression_advances(ts: Seq<TokenView>, pos: int)
    requires
        0 <= pos <= ts.len(),
    ensures
        advances(parse_expression(ts, pos), pos, ts.len()),
    decreases depth_measure(ts), ts.len() - pos, 13int,
{
    lemma_parse_assignment_advances(ts, pos);
}

proof fn lemma_parse_assignment_advances(ts: Seq<TokenView>, pos: int)
    requires
        0 <= pos <= ts.len(),
    ensures
        advances(parse_assignment(ts, pos), pos, ts.len()),
    decreases depth_measure(ts), ts.len() - pos, 12int,
{
    lemma_parse_binary_advances(ts, pos, 1);
    let left = parse_binary(ts, pos, 1);
    if left.value is Ok && check_at(
        ts,
        left.next,
        TokenKind::BinaryOperator(BinaryOperators::Eq),
    ) {
        lemma_parse_assignment_advances(ts, left.next + 1);
    }
}

proof fn lemma_parse_binary_advances(ts: Seq<TokenView>, pos: int, level: int)
    requires
        0 <= pos <= ts.len(),
    ensures
        advances(parse_binary(ts, pos, level), pos, ts.len()),
    decreases depth_measure(ts), ts.len() - pos, (if 1 <= level <= 6 {
        11 - level
    } else {
        4int
    }),
{
    if 1 <= level <= 6 {
        lemma_parse_binary_advances(ts, pos, level + 1);
        let first = parse_binary(ts, pos, level + 1);
        match first.value {
            Ok(left) => {
                lemma_binary_tail_stays(ts, first.next, level, left);
            },
            Err(_) => {},
        }
    } else {
        lemma_parse_unary_advances(ts, pos);
    }
}

proof fn lemma_binary_tail_stays(ts: Seq<TokenView>, pos: int, level: int, left: ExpressionView)
    requires
        0 <= pos <= ts.len(),
    ensures
        stays(binary_tail(ts, pos, level, left), pos, ts.len()),
    decreases depth_measure(ts), ts.len() - pos, 0int,
{
    match operator_at(ts, pos, level) {
        None => {},
        Some(op) => {
            lemma_parse_binary_advances(ts, pos + 1, level + 1);
            let operand = parse_binary(ts, pos + 1, level + 1);
            match operand.value {
                Ok(right) => {
                    lemma_binary_tail_stays(
                        ts,
                        operand.next,
                        level,
                        ExpressionView::BinaryOp {
                            left: Box::new(left),
                            operator: op,
                            right: Box::new(right),
                        },
                    );
                },
                Err(_) => {},
            }
        },
    }
}

proof fn lemma_parse_unary_advances(ts: Seq<TokenView>, pos: int)
    requires
        0 <= pos <= ts.len(),
    ensures
        advances(parse_unary(ts, pos), pos, ts.len()),
    decreases depth_measure(ts), ts.len() - pos, 3int,
{
    match prefix_at(ts, pos) {
        Some(_) => {
            lemma_parse_unary_advances(ts, pos + 1);
        },
        None => {
            lemma_parse_call_advances(ts, pos);
        },
    }
}

proof fn lemma_parse_call_advances(ts: Seq<TokenView>, pos: int)
    requires
        0 <= pos <= ts.len(),
    ensures
        advances(parse_call(ts, pos), pos, ts.len()),
    decreases depth_measure(ts), ts.len() - pos, 2int,
{
    lemma_parse_primary_advances(ts, pos);
    let first = parse_primary(ts, pos);
    match first.value {
        Ok(e) => {
            lemma_call_tail_stays(ts, first.next, e);
        },
        Err(_) => {},
    }
}

proof fn lemma_call_tail_stays(ts: Seq<TokenView>, pos: int, target: ExpressionView)
    requires
        0 <= pos <= ts.len(),
    ensures
        stays(call_tail(ts, pos, target), pos, ts.len()),
    decreases depth_measure(ts), ts.len() - pos, 0int,
{
    if check_at(ts, pos, TokenKind::LeftParen) {
        lemma_finish_call_advances(ts, pos + 1, target);
        let call = finish_call(ts, pos + 1, target);
        match call.value {
            Ok(e) => {
                lemma_call_tail_stays(ts, call.next, e);
            },
            Err(_) => {},
        }
    } else if check_at(ts, pos, TokenKind::LeftBracket) {
        lemma_parse_expression_advances(ts, pos + 1);
        let index = parse_expression(ts, pos + 1);
        match index.value {
            Ok(i) => {
                let close = expect_at(ts, index.next, TokenKind::RightBracket, "]"@);
                if close.value is Ok {
                    lemma_call_tail_stays(
                        ts,
                        close.next,
                        ExpressionView::Index { target: Box::new(target), index: Box::new(i) },
                    );
                }
            },
            Err(_) => {},
        }
    } else if check_at(ts, pos, TokenKind::Period) {
        let member = expect_at(ts, pos + 1, TokenKind::Identifier, "property name"@);
        match member.value {
            Ok(t) => {
                lemma_call_tail_stays(
                    ts,
                    pos + 2,
                    ExpressionView::MemberAccess {
                        target: Box::new(target),
                        member: identifier_name(t),
                    },
                );
            },
            Err(_) => {},
        }
    }
}

proof fn lemma_list_items_advances(ts: Seq<TokenView>, pos: int, items: Seq<ExpressionView>)
    requires
        0 <= pos <= ts.len(),
    ensures
        advances(list_items(ts, pos, items), pos, ts.len()),
    decreases depth_measure(ts), ts.len() - pos, 14int,
{
    lemma_parse_expression_advances(ts, pos);
    let item = parse_expression(ts, pos);
    match item.value {
        Ok(e) => {
            if check_at(ts, item.next, TokenKind::Comma) {
                lemma_list_items_advances(ts, item.next + 1, items.push(e));
            }
        },
        Err(_) => {},
    }
}

proof fn lemma_expression_list_advances(
    ts: Seq<TokenView>,
    pos: int,
    closer: TokenKind,
    expected: Seq<char>,
)
    requires
        0 <= pos <= ts.len(),
    ensures
        advances(expression_list(ts, pos, closer, expected), pos, ts.len()),
    decreases depth_measure(ts), ts.len() - pos, 15int,
{
    if !check_at(ts, pos, closer) {
        lemma_list_items_advances(ts, pos, Seq::empty());
    }
}

proof fn lemma_finish_call_advances(ts: Seq<TokenView>, pos: int, callee: ExpressionView)
    requires
        0 <= pos <= ts.len(),
    ensures
        advances(finish_call(ts, pos, callee), pos, ts.len()),
    decreases depth_measure(ts), ts.len() - pos, 16int,
{
    lemma_expression_list_advances(ts, pos, TokenKind::RightParen, ")"@);
}

proof fn lemma_parse_primary_advances(ts: Seq<TokenView>, pos: int)
    requires
        0 <= pos <= ts.len(),
    ensures
        advances(parse_primary(ts, pos), pos, ts.len()),
    decreases depth_measure(ts), ts.len() - pos, 1int,
{
    if pos < ts.len() {
        match ts[pos].token_type {
            TokensView::LeftParen => {
                lemma_parse_expression_advances(ts, pos + 1);
            },
            TokensView::LeftBracket => {
                lemma_expression_list_advances(ts, pos + 1, TokenKind::RightBracket, "]"@);
            },
            _ => {},
        }
    }
}

proof fn lemma_parse_parameters_advances(ts: Seq<TokenView>, pos: int, items: Seq<ParameterView>)
    requires
        0 <= pos <= ts.len(),
    ensures
        advances(parse_parameters(ts, pos, items), pos, ts.len()),
    decreases ts.len() - pos,
{
    let name = expect_at(ts, pos, TokenKind::Identifier, "parameter name"@);
    match name.value {
        Ok(name_token) => {
            if check_at(ts, name.next, TokenKind::Colon) {
                lemma_parse_type_advances(ts, name.next + 1);
            }
            let annotation = parse_annotation(ts, name.next);
            match annotation.value {
                Ok(type_annotation) => {
                    if check_at(ts, annotation.next, TokenKind::Comma) {
                        lemma_parse_parameters_advances(
                            ts,
                            annotation.next + 1,
                            items.push(
                                ParameterView {
                                    name: identifier_name(name_token),
                                    type_annotation,
                                },
                            ),
                        );
                    }
                },
                Err(_) => {},
            }
        },
        Err(_) => {},
    }
}

proof fn lemma_parse_let_advances(ts: Seq<TokenView>, pos: int)
    requires
        0 <= pos <= ts.len(),
    ensures
        advances(parse_let(ts, pos), pos, ts.len()),
{
    let keyword = expect_at(ts, pos, TokenKind::Keyword(Keywords::Let), "let"@);
    if keyword.value is Ok {
        let name = expect_at(ts, keyword.next, TokenKind::Identifier, "identifier"@);
        if name.value is Ok {
            if check_at(ts, name.next, TokenKind::Colon) {
                lemma_parse_type_advances(ts, name.next + 1);
            }
            let annotation = parse_annotation(ts, name.next);
            if annotation.value is Ok {
                if check_at(
                    ts,
                    annotation.next,
                    TokenKind::BinaryOperator(BinaryOperators::Eq),
                ) {
                    lemma_parse_expression_advances(ts, annotation.next + 1);
                }
            }
        }
    }
}

proof fn lemma_parse_return_advances(ts: Seq<TokenView>, pos: int)
    requires
        0 <= pos <= ts.len(),
    ensures
        advances(parse_return(ts, pos), pos, ts.len()),
{
    let keyword = expect_at(ts, pos, TokenKind::Keyword(Keywords::Return), "return"@);
    if keyword.value is Ok {
        lemma_parse_expression_advances(ts, keyword.next);
    }
}

/// A successful parameter list consumes at least one token.
pub proof fn lemma_parse_parameter_list_stays(ts: Seq<TokenView>, pos: int)
    requires
        0 <= pos <= ts.len(),
    ensures
        advances(parse_parameter_list(ts, pos), pos, ts.len()),
{
    let open = expect_at(ts, pos, TokenKind::LeftParen, "("@);
    if open.value is Ok {
        if !check_at(ts, open.next, TokenKind::RightParen) {
            lemma_parse_parameters_advances(ts, open.next, Seq::empty());
        }
    }
}

/// A successful statement consumes at least one token, and no step of
/// the statement grammar leaves the tokens or goes back.
pub proof fn lemma_parse_statement_advances(ts: Seq<TokenView>, pos: int, top_level: bool)
    requires
        0 <= pos <= ts.len(),
    ensures
        advances(parse_statement(ts, pos, top_level), pos, ts.len()),
    decreases ts.len() - pos, 3int,
{
    if pos < ts.len() {
        match ts[pos].token_type {
            TokensView::Keyword(Keywords::Let) => {
                lemma_parse_let_advances(ts, pos);
            },
            TokensView::Keyword(Keywords::Fn) => {
                lemma_parse_function_advances(ts, pos);
            },
            TokensView::Keyword(Keywords::Return) => {
                lemma_parse_return_advances(ts, pos);
            },
            TokensView::LeftBrace => {
                lemma_parse_block_advances(ts, pos);
            },
            _ => {
                lemma_parse_expression_advances(ts, pos);
            },
        }
    }
}

proof fn lemma_parse_function_advances(ts: Seq<TokenView>, pos: int)
    requires
        0 <= pos <= ts.len(),
    ensures
        advances(parse_function(ts, pos), pos, ts.len()),
    decreases ts.len() - pos, 2int,
{
    let keyword = expect_at(ts, pos, TokenKind::Keyword(Keywords::Fn), "fn"@);
    if keyword.value is Ok {
        let name = expect_at(ts, keyword.next, TokenKind::Identifier, "identifier"@);
        if name.value is Ok {
            lemma_parse_parameter_list_stays(ts, name.next);
            let parameters = parse_parameter_list(ts, name.next);
            if parameters.value is Ok {
                if check_at(ts, parameters.next, TokenKind::ThinArrow) {
                    lemma_parse_type_advances(ts, parameters.next + 1);
                }
                let result = parse_return_type(ts, parameters.next);
                if result.value is Ok && check_at(ts, result.next, TokenKind::LeftBrace) {
                    lemma_parse_block_advances(ts, result.next);
                }
            }
        }
    }
}

proof fn lemma_parse_block_advances(ts: Seq<TokenView>, pos: int)
    requires
        0 <= pos <= ts.len(),
    ensures
        advances(parse_block(ts, pos), pos, ts.len()),
    decreases ts.len() - pos, 1int,
{
    let open = expect_at(ts, pos, TokenKind::LeftBrace, "{"@);
    if open.value is Ok {
        lemma_block_items_stays(ts, pos + 1, Seq::empty());
    }
}

proof fn lemma_block_items_stays(ts: Seq<TokenView>, pos: int, items: Seq<StatementView>)
    requires
        0 <= pos <= ts.len(),
    ensures
        stays(block_items(ts, pos, items), pos, ts.len()),
    decreases ts.len() - pos, 4int,
{
    if pos < ts.len() && !check_at(ts, pos, TokenKind::RightBrace) {
        lemma_parse_statement_advances(ts, pos, false);
        let statement = parse_statement(ts, pos, false);
        match statement.value {
            Ok(s) => {
                lemma_block_items_stays(ts, statement.next, items.push(s));
            },
            Err(_) => {},
        }
    }
}

/// After a diagnostic the parser resumes at least one token on, unless it
/// stands after the last token already.
pub proof fn lemma_synchronize_advances(ts: Seq<TokenView>, pos: int)
    requires
        0 <= pos <= ts.len(),
    ensures
        pos <= synchronize(ts, pos) <= ts.len(),
        pos < ts.len() ==> pos < synchronize(ts, pos),
{
    if pos < ts.len() {
        lemma_boundary_from_bounds(ts, pos + 1);
    }
}

/// Each round of the parse consumes at least one token: the parse of the
/// tokens from `pos` on is the parse from a later position on, with one
/// statement or one diagnostic more.
pub proof fn lemma_parse_from_unfolds(ts: Seq<TokenView>, pos: int, out: ParseOutput)
    requires
        0 <= pos < ts.len(),
    ensures
        ({
            let statement = parse_statement(ts, pos, true);
            match statement.value {
                Ok(s) => pos < statement.next <= ts.len() && parse_from(ts, pos, out)
                    == parse_from(
                    ts,
                    statement.next,
                    (ParseOutput { ast: out.ast.push(s), ..out }),
                ),
                Err(e) => pos < synchronize(ts, statement.next) <= ts.len() && parse_from(
                    ts,
                    pos,
                    out,
                ) == parse_from(
                    ts,
                    synchronize(ts, statement.next),
                    (ParseOutput { errors: out.errors.push(e), ..out }),
                ),
            }
        }),
{
    lemma_parse_statement_advances(ts, pos, true);
    lemma_synchronize_advances(ts, parse_statement(ts, pos, true).next);
}

/// Parsing is a function of the tokens: two parses of the same tokens give
/// the same statements and the same diagnostics.
pub proof fn lemma_parse_is_repeatable(ts: Seq<TokenView>, first: ParseOutput, second: ParseOutput)
    requires
        first == parse_all(ts),
        second == parse_all(ts),
    ensures
        first.errors == second.errors,
        first.ast == second.ast,
{
}

} // verus!
