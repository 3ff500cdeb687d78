//! What holds of the shape of every tree that the parser yields.

use crate::cursor::SourceLocation;
use crate::keywords::Keywords;
use crate::nodes::{ExpressionView, PartView, StatementView};
use crate::operators::BinaryOperators;
use crate::parse_laws::{
    lemma_parse_expression_advances, lemma_parse_parameter_list_stays, lemma_parse_type_advances,
};
use crate::parse_spec::{
    binary_level, binary_tail, block_items, call_tail, check_at, current_location, depth_measure,
    expect_at, expression_list, finish_call, fragment_tokens, identifier_name, is_assignable,
    list_items, operator_at, parse_all, parse_annotation, parse_assignment, parse_binary,
    parse_block, parse_call, parse_expression, parse_from, parse_function, parse_parameter_list,
    parse_parts, parse_primary, parse_return_type, parse_statement, parse_unary, prefix_at,
    synchronize, Parsed, ParseOutput,
};
use crate::tokens::{parts_depth, tokens_depth, StringPartView, TokenKind, TokensView, TokenView};
use vstd::prelude::*;

verus! {

/// Whether every assignment inside the expression, the expression itself
/// included, has a target that may be assigned to.
pub open spec fn well_targeted(e: ExpressionView) -> bool
    decreases e,
{
    match e {
        ExpressionView::Literal(_) => true,
        ExpressionView::Identifier(_) => true,
        ExpressionView::BinaryOp { left, operator, right } => well_targeted(*left)
            && well_targeted(*right),
        ExpressionView::UnaryOp { operator, operand } => well_targeted(*operand),
        ExpressionView::Assignment { target, value } => is_assignable(*target) && well_targeted(
            *target,
        ) && well_targeted(*value),
        ExpressionView::Call { callee, arguments } => well_targeted(*callee) && forall|i: int|
            0 <= i < arguments.len() ==> well_targeted(#[trigger] arguments[i]),
        ExpressionView::Index { target, index } => well_targeted(*target) && well_targeted(*index),
        ExpressionView::MemberAccess { target, member } => well_targeted(*target),
        ExpressionView::Grouped(inner) => well_targeted(*inner),
        ExpressionView::Array(items) => forall|i: int|
            0 <= i < items.len() ==> well_targeted(#[trigger] items[i]),
        ExpressionView::InterpolatedString { parts } => forall|i: int|
            0 <= i < parts.len() ==> part_well_targeted(#[trigger] parts[i]),
    }
}

/// Whether every assignment inside the part has a target that may be
/// assigned to.
pub open spec fn part_well_targeted(p: PartView) -> bool
    decreases p,
{
    match p {
        PartView::Text(_) => true,
        PartView::Expression(e) => well_targeted(*e),
    }
}

/// Whether every expression of the list is well targeted.
pub open spec fn all_well_targeted(items: Seq<ExpressionView>) -> bool {
    forall|i: int| 0 <= i < items.len() ==> well_targeted(#[trigger] items[i])
}

/// Whether every part of the list is well targeted.
pub open spec fn parts_well_targeted(parts: Seq<PartView>) -> bool {
    forall|i: int| 0 <= i < parts.len() ==> part_well_targeted(#[trigger] parts[i])
}

/// Whether the step yields a well targeted expression, if it yields one.
pub open spec fn yields_well_targeted(p: Parsed<ExpressionView>) -> bool {
    p.value matches Ok(e) ==> well_targeted(e)
}

/// An expression that the parser yields holds no assignment to a target
/// that may not be assigned to: not at its root, and nowhere inside it,
/// the code fragments of interpolated strings included.
pub proof fn lemma_parse_expression_targets(ts: Seq<TokenView>, pos: int)
    requires
        0 <= pos <= ts.len(),
    ensures
        yields_well_targeted(parse_expression(ts, pos)),
    decreases depth_measure(ts), ts.len() - pos, 13int,
{
    lemma_parse_assignment_targets(ts, pos);
}

proof fn lemma_parse_assignment_targets(ts: Seq<TokenView>, pos: int)
    requires
        0 <= pos <= ts.len(),
    ensures
        yields_well_targeted(parse_assignment(ts, pos)),
    decreases depth_measure(ts), ts.len() - pos, 12int,
{
    lemma_parse_binary_targets(ts, pos, 1);
    let left = parse_binary(ts, pos, 1);
    if left.value is Ok && check_at(
        ts,
        left.next,
        TokenKind::BinaryOperator(BinaryOperators::Eq),
    ) && left.next >= pos {
        lemma_parse_assignment_targets(ts, left.next + 1);
    }
}

proof fn lemma_parse_binary_targets(ts: Seq<TokenView>, pos: int, level: int)
    requires
        0 <= pos <= ts.len(),
    ensures
        yields_well_targeted(parse_binary(ts, pos, level)),
    decreases depth_measure(ts), ts.len() - pos, (if 1 <= level <= 6 {
        11 - level
    } else {
        4int
    }),
{
    if 1 <= level <= 6 {
        lemma_parse_binary_targets(ts, pos, level + 1);
        let first = parse_binary(ts, pos, level + 1);
        match first.value {
            Ok(left) => {
                if pos <= first.next <= ts.len() {
                    lemma_binary_tail_targets(ts, first.next, level, left);
                }
            },
            Err(_) => {},
        }
    } else {
        lemma_parse_unary_targets(ts, pos);
    }
}

proof fn lemma_binary_tail_targets(ts: Seq<TokenView>, pos: int, level: int, left: ExpressionView)
    requires
        0 <= pos <= ts.len(),
        well_targeted(left),
    ensures
        yields_well_targeted(binary_tail(ts, pos, level, left)),
    decreases depth_measure(ts), ts.len() - pos, 0int,
{
    match operator_at(ts, pos, level) {
        None => {},
        Some(op) => {
            lemma_parse_binary_targets(ts, pos + 1, level + 1);
            let operand = parse_binary(ts, pos + 1, level + 1);
            match operand.value {
                Ok(right) => {
                    if pos < operand.next <= ts.len() {
                        lemma_binary_tail_targets(
                            ts,
                            operand.next,
                            level,
                            ExpressionView::BinaryOp {
                                left: Box::new(left),
                                operator: op,
                                right: Box::new(right),
                            },
                        );
                    }
                },
                Err(_) => {},
            }
        },
    }
}

proof fn lemma_parse_unary_targets(ts: Seq<TokenView>, pos: int)
    requires
        0 <= pos <= ts.len(),
    ensures
        yields_well_targeted(parse_unary(ts, pos)),
    decreases depth_measure(ts), ts.len() - pos, 3int,
{
    match prefix_at(ts, pos) {
        Some(_) => {
            lemma_parse_unary_targets(ts, pos + 1);
        },
        None => {
            lemma_parse_call_targets(ts, pos);
        },
    }
}

proof fn lemma_parse_call_targets(ts: Seq<TokenView>, pos: int)
    requires
        0 <= pos <= ts.len(),
    ensures
        yields_well_targeted(parse_call(ts, pos)),
    decreases depth_measure(ts), ts.len() - pos, 2int,
{
    lemma_parse_primary_targets(ts, pos);
    let first = parse_primary(ts, pos);
    match first.value {
        Ok(e) => {
            if pos <= first.next <= ts.len() {
                lemma_call_tail_targets(ts, first.next, e);
            }
        },
        Err(_) => {},
    }
}

proof fn lemma_call_tail_targets(ts: Seq<TokenView>, pos: int, target: ExpressionView)
    requires
        0 <= pos <= ts.len(),
        well_targeted(target),
    ensures
        yields_well_targeted(call_tail(ts, pos, target)),
    decreases depth_measure(ts), ts.len() - pos, 0int,
{
    if check_at(ts, pos, TokenKind::LeftParen) {
        lemma_finish_call_targets(ts, pos + 1, target);
        let call = finish_call(ts, pos + 1, target);
        match call.value {
            Ok(e) => {
                if pos < call.next <= ts.len() {
                    lemma_call_tail_targets(ts, call.next, e);
                }
            },
            Err(_) => {},
        }
    } else if check_at(ts, pos, TokenKind::LeftBracket) {
        lemma_parse_expression_targets(ts, pos + 1);
        let index = parse_expression(ts, pos + 1);
        match index.value {
            Ok(i) => {
                let close = expect_at(ts, index.next, TokenKind::RightBracket, "]"@);
                if close.value is Ok && pos < close.next <= ts.len() {
                    lemma_call_tail_targets(
                        ts,
                        close.next,
                        ExpressionView::Index { target: Box::new(target), index: Box::new(i) },
                    );
                }
            },
            Err(_) => {},
        }
    } else if check_at(ts, pos, TokenKind::Period) {
        let member = expect_at(ts, pos + 1, TokenKind::Identifier, "property name"@);
        match member.value {
            Ok(t) => {
                lemma_call_tail_targets(
                    ts,
                    pos + 2,
                    ExpressionView::MemberAccess {
                        target: Box::new(target),
                        member: identifier_name(t),
                    },
                );
            },
            Err(_) => {},
        }
    }
}

proof fn lemma_list_items_targets(ts: Seq<TokenView>, pos: int, items: Seq<ExpressionView>)
    requires
        0 <= pos <= ts.len(),
        all_well_targeted(items),
    ensures
        list_items(ts, pos, items).value matches Ok(list) ==> all_well_targeted(list),
    decreases depth_measure(ts), ts.len() - pos, 14int,
{
    lemma_parse_expression_targets(ts, pos);
    lemma_parse_expression_advances(ts, pos);
    let item = parse_expression(ts, pos);
    match item.value {
        Ok(e) => {
            assert(all_well_targeted(items.push(e))) by {
                assert forall|i: int| 0 <= i < items.push(e).len() implies well_targeted(
                    #[trigger] items.push(e)[i],
                ) by {
                    if i < items.len() {
                        assert(items.push(e)[i] == items[i]);
                    }
                }
            }
            if check_at(ts, item.next, TokenKind::Comma) && pos <= item.next {
                lemma_list_items_targets(ts, item.next + 1, items.push(e));
            }
        },
        Err(_) => {},
    }
}

proof fn lemma_expression_list_targets(
    ts: Seq<TokenView>,
    pos: int,
    closer: TokenKind,
    expected: Seq<char>,
)
    requires
        0 <= pos <= ts.len(),
    ensures
        expression_list(ts, pos, closer, expected).value matches Ok(list) ==> all_well_targeted(
            list,
        ),
    decreases depth_measure(ts), ts.len() - pos, 15int,
{
    if !check_at(ts, pos, closer) {
        lemma_list_items_targets(ts, pos, Seq::empty());
    }
}

proof fn lemma_finish_call_targets(ts: Seq<TokenView>, pos: int, callee: ExpressionView)
    requires
        0 <= pos <= ts.len(),
        well_targeted(callee),
    ensures
        yields_well_targeted(finish_call(ts, pos, callee)),
    decreases depth_measure(ts), ts.len() - pos, 16int,
{
    lemma_expression_list_targets(ts, pos, TokenKind::RightParen, ")"@);
}

proof fn lemma_parse_primary_targets(ts: Seq<TokenView>, pos: int)
    requires
        0 <= pos <= ts.len(),
    ensures
        yields_well_targeted(parse_primary(ts, pos)),
    decreases depth_measure(ts), ts.len() - pos, 1int,
{
    if pos < ts.len() {
        match ts[pos].token_type {
            TokensView::InterpolatedString(parts) => {
                if parts_depth(parts) <= tokens_depth(ts) {
                    lemma_parse_parts_targets(
                        parts,
                        0,
                        current_location(ts, pos),
                        Seq::empty(),
                    );
                }
            },
            TokensView::LeftParen => {
                lemma_parse_expression_targets(ts, pos + 1);
            },
            TokensView::LeftBracket => {
                lemma_expression_list_targets(ts, pos + 1, TokenKind::RightBracket, "]"@);
            },
            _ => {},
        }
    }
}

proof fn lemma_parse_parts_targets(
    parts: Seq<StringPartView>,
    k: int,
    loc: SourceLocation,
    done_parts: Seq<PartView>,
)
    requires
        0 <= k,
        parts_well_targeted(done_parts),
    ensures
        parse_parts(parts, k, loc, done_parts) matches Ok(list) ==> parts_well_targeted(list),
    decreases 2 * (parts_depth(parts) as int), parts.len() - k, 0int,
{
    if k < parts.len() {
        match parts[k] {
            StringPartView::Text(text) => {
                let next = done_parts.push(PartView::Text(text));
                assert(parts_well_targeted(next)) by {
                    assert forall|i: int| 0 <= i < next.len() implies part_well_targeted(
                        #[trigger] next[i],
                    ) by {
                        if i < done_parts.len() {
                            assert(next[i] == done_parts[i]);
                        }
                    }
                }
                lemma_parse_parts_targets(parts, k + 1, loc, next);
            },
            StringPartView::Interpolation(code) => {
                match fragment_tokens(code) {
                    None => {},
                    Some(nested) => {
                        if tokens_depth(nested) < parts_depth(parts) {
                            lemma_parse_expression_targets(nested, 0);
                            match parse_expression(nested, 0).value {
                                Err(_) => {},
                                Ok(e) => {
                                    let next = done_parts.push(PartView::Expression(Box::new(e)));
                                    assert(parts_well_targeted(next)) by {
                                        assert forall|i: int|
                                            0 <= i < next.len() implies part_well_targeted(
                                            #[trigger] next[i],
                                        ) by {
                                            if i < done_parts.len() {
                                                assert(next[i] == done_parts[i]);
                                            }
                                        }
                                    }
                                    lemma_parse_parts_targets(parts, k + 1, loc, next);
                                },
                            }
                        }
                    },
                }
            },
        }
    }
}

/// How tightly the root of an expression binds: 0 for an assignment, the
/// precedence level for a binary operation, 7 for a unary operation, 8 for
/// a call, an indexing or a member access, 9 for a primary expression.
pub open spec fn binding(e: ExpressionView) -> int {
    match e {
        ExpressionView::Assignment { .. } => 0,
        ExpressionView::BinaryOp { left, operator, right } => binary_level(operator),
        ExpressionView::UnaryOp { .. } => 7,
        ExpressionView::Call { .. } => 8,
        ExpressionView::Index { .. } => 8,
        ExpressionView::MemberAccess { .. } => 8,
        _ => 9,
    }
}

/// Whether the shape of the expression shows precedence and
/// associativity: everywhere inside it, the left operand of a binary
/// operation binds at least as tightly as the operation and the right
/// operand binds tighter; the operand of a unary operation is a unary
/// operation or binds tighter; and what is called, indexed or accessed is
/// a call, an indexing, a member access or a primary expression.
/// Parentheses, brackets and braces start afresh.
pub open spec fn well_nested(e: ExpressionView) -> bool
    decreases e,
{
    match e {
        ExpressionView::Literal(_) => true,
        ExpressionView::Identifier(_) => true,
        ExpressionView::BinaryOp { left, operator, right } => {
            &&& 1 <= binary_level(operator) <= 6
            &&& binding(*left) >= binary_level(operator)
            &&& binding(*right) > binary_level(operator)
            &&& well_nested(*left)
            &&& well_nested(*right)
        },
        ExpressionView::UnaryOp { operator, operand } => binding(*operand) >= 7 && well_nested(
            *operand,
        ),
        ExpressionView::Assignment { target, value } => binding(*target) >= 1 && well_nested(
            *target,
        ) && well_nested(*value),
        ExpressionView::Call { callee, arguments } => binding(*callee) >= 8 && well_nested(*callee)
            && forall|i: int| 0 <= i < arguments.len() ==> well_nested(#[trigger] arguments[i]),
        ExpressionView::Index { target, index } => binding(*target) >= 8 && well_nested(*target)
            && well_nested(*index),
        ExpressionView::MemberAccess { target, member } => binding(*target) >= 8 && well_nested(
            *target,
        ),
        ExpressionView::Grouped(inner) => well_nested(*inner),
        ExpressionView::Array(items) => forall|i: int|
            0 <= i < items.len() ==> well_nested(#[trigger] items[i]),
        ExpressionView::InterpolatedString { parts } => forall|i: int|
            0 <= i < parts.len() ==> part_well_nested(#[trigger] parts[i]),
    }
}

/// Whether the shape of the expression of the part, if it holds one, shows
/// precedence and associativity.
pub open spec fn part_well_nested(p: PartView) -> bool
    decreases p,
{
    match p {
        PartView::Text(_) => true,
        PartView::Expression(e) => well_nested(*e),
    }
}

/// Whether the step yields a well nested expression that binds at least as
/// tightly as `level`, if it yields one.
pub open spec fn yields_nested(p: Parsed<ExpressionView>, level: int) -> bool {
    p.value matches Ok(e) ==> well_nested(e) && binding(e) >= level
}

/// Whether every expression of the list is well nested.
pub open spec fn all_well_nested(items: Seq<ExpressionView>) -> bool {
    forall|i: int| 0 <= i < items.len() ==> well_nested(#[trigger] items[i])
}

/// Whether every part of the list is well nested.
pub open spec fn parts_well_nested(parts: Seq<PartView>) -> bool {
    forall|i: int| 0 <= i < parts.len() ==> part_well_nested(#[trigger] parts[i])
}

/// The shape of an expression that the parser yields shows precedence and
/// associativity: a binary operation never has for its right operand an
/// operation of its own level or a looser one, nor for its left operand a
/// looser one. So `1 + 2 * 3` holds the product on the right of the sum,
/// and `1 - 2 - 3` holds the first difference on the left of the second.
pub proof fn lemma_parse_expression_nesting(ts: Seq<TokenView>, pos: int)
    requires
        0 <= pos <= ts.len(),
    ensures
        yields_nested(parse_expression(ts, pos), 0),
    decreases depth_measure(ts), ts.len() - pos, 13int,
{
    lemma_parse_assignment_nesting(ts, pos);
}

proof fn lemma_parse_assignment_nesting(ts: Seq<TokenView>, pos: int)
    requires
        0 <= pos <= ts.len(),
    ensures
        yields_nested(parse_assignment(ts, pos), 0),
    decreases depth_measure(ts), ts.len() - pos, 12int,
{
    lemma_parse_binary_nesting(ts, pos, 1);
    let left = parse_binary(ts, pos, 1);
    if left.value is Ok && check_at(
        ts,
        left.next,
        TokenKind::BinaryOperator(BinaryOperators::Eq),
    ) && left.next >= pos {
        lemma_parse_assignment_nesting(ts, left.next + 1);
    }
}

/// The operations of one level and tighter bind at least as tightly as
/// the level.
pub proof fn lemma_parse_binary_nesting(ts: Seq<TokenView>, pos: int, level: int)
    requires
        0 <= pos <= ts.len(),
        1 <= level <= 7,
    ensures
        yields_nested(parse_binary(ts, pos, level), level),
    decreases depth_measure(ts), ts.len() - pos, (if 1 <= level <= 6 {
        11 - level
    } else {
        4int
    }),
{
    if 1 <= level <= 6 {
        lemma_parse_binary_nesting(ts, pos, level + 1);
        let first = parse_binary(ts, pos, level + 1);
        match first.value {
            Ok(left) => {
                if pos <= first.next <= ts.len() {
                    lemma_binary_tail_nesting(ts, first.next, level, left);
                }
            },
            Err(_) => {},
        }
    } else {
        lemma_parse_unary_nesting(ts, pos);
    }
}

proof fn lemma_binary_tail_nesting(ts: Seq<TokenView>, pos: int, level: int, left: ExpressionView)
    requires
        0 <= pos <= ts.len(),
        1 <= level <= 6,
        well_nested(left),
        binding(left) >= level,
    ensures
        yields_nested(binary_tail(ts, pos, level, left), level),
    decreases depth_measure(ts), ts.len() - pos, 0int,
{
    match operator_at(ts, pos, level) {
        None => {},
        Some(op) => {
            lemma_parse_binary_nesting(ts, pos + 1, level + 1);
            let operand = parse_binary(ts, pos + 1, level + 1);
            match operand.value {
                Ok(right) => {
                    if pos < operand.next <= ts.len() {
                        lemma_binary_tail_nesting(
                            ts,
                            operand.next,
                            level,
                            ExpressionView::BinaryOp {
                                left: Box::new(left),
                                operator: op,
                                right: Box::new(right),
                            },
                        );
                    }
                },
                Err(_) => {},
            }
        },
    }
}

proof fn lemma_parse_unary_nesting(ts: Seq<TokenView>, pos: int)
    requires
        0 <= pos <= ts.len(),
    ensures
        yields_nested(parse_unary(ts, pos), 7),
    decreases depth_measure(ts), ts.len() - pos, 3int,
{
    match prefix_at(ts, pos) {
        Some(_) => {
            lemma_parse_unary_nesting(ts, pos + 1);
        },
        None => {
            lemma_parse_call_nesting(ts, pos);
        },
    }
}

proof fn lemma_parse_call_nesting(ts: Seq<TokenView>, pos: int)
    requires
        0 <= pos <= ts.len(),
    ensures
        yields_nested(parse_call(ts, pos), 8),
    decreases depth_measure(ts), ts.len() - pos, 2int,
{
    lemma_parse_primary_nesting(ts, pos);
    let first = parse_primary(ts, pos);
    match first.value {
        Ok(e) => {
            if pos <= first.next <= ts.len() {
                lemma_call_tail_nesting(ts, first.next, e);
            }
        },
        Err(_) => {},
    }
}

proof fn lemma_call_tail_nesting(ts: Seq<TokenView>, pos: int, target: ExpressionView)
    requires
        0 <= pos <= ts.len(),
        well_nested(target),
        binding(target) >= 8,
    ensures
        yields_nested(call_tail(ts, pos, target), 8),
    decreases depth_measure(ts), ts.len() - pos, 0int,
{
    if check_at(ts, pos, TokenKind::LeftParen) {
        lemma_finish_call_nesting(ts, pos + 1, target);
        let call = finish_call(ts, pos + 1, target);
        match call.value {
            Ok(e) => {
                if pos < call.next <= ts.len() {
                    lemma_call_tail_nesting(ts, call.next, e);
                }
            },
            Err(_) => {},
        }
    } else if check_at(ts, pos, TokenKind::LeftBracket) {
        lemma_parse_expression_nesting(ts, pos + 1);
        let index = parse_expression(ts, pos + 1);
        match index.value {
            Ok(i) => {
                let close = expect_at(ts, index.next, TokenKind::RightBracket, "]"@);
                if close.value is Ok && pos < close.next <= ts.len() {
                    lemma_call_tail_nesting(
                        ts,
                        close.next,
                        ExpressionView::Index { target: Box::new(target), index: Box::new(i) },
                    );
                }
            },
            Err(_) => {},
        }
    } else if check_at(ts, pos, TokenKind::Period) {
        let member = expect_at(ts, pos + 1, TokenKind::Identifier, "property name"@);
        match member.value {
            Ok(t) => {
                lemma_call_tail_nesting(
                    ts,
                    pos + 2,
                    ExpressionView::MemberAccess {
                        target: Box::new(target),
                        member: identifier_name(t),
                    },
                );
            },
            Err(_) => {},
        }
    }
}

proof fn lemma_list_items_nesting(ts: Seq<TokenView>, pos: int, items: Seq<ExpressionView>)
    requires
        0 <= pos <= ts.len(),
        all_well_nested(items),
    ensures
        list_items(ts, pos, items).value matches Ok(list) ==> all_well_nested(list),
    decreases depth_measure(ts), ts.len() - pos, 14int,
{
    lemma_parse_expression_nesting(ts, pos);
    lemma_parse_expression_advances(ts, pos);
    let item = parse_expression(ts, pos);
    match item.value {
        Ok(e) => {
            assert(all_well_nested(items.push(e))) by {
                assert forall|i: int| 0 <= i < items.push(e).len() implies well_nested(
                    #[trigger] items.push(e)[i],
                ) by {
                    if i < items.len() {
                        assert(items.push(e)[i] == items[i]);
                    }
                }
            }
            if check_at(ts, item.next, TokenKind::Comma) && pos <= item.next {
                lemma_list_items_nesting(ts, item.next + 1, items.push(e));
            }
        },
        Err(_) => {},
    }
}

proof fn lemma_expression_list_nesting(
    ts: Seq<TokenView>,
    pos: int,
    closer: TokenKind,
    expected: Seq<char>,
)
    requires
        0 <= pos <= ts.len(),
    ensures
        expression_list(ts, pos, closer, expected).value matches Ok(list) ==> all_well_nested(
            list,
        ),
    decreases depth_measure(ts), ts.len() - pos, 15int,
{
    if !check_at(ts, pos, closer) {
        lemma_list_items_nesting(ts, pos, Seq::empty());
    }
}

proof fn lemma_finish_call_nesting(ts: Seq<TokenView>, pos: int, callee: ExpressionView)
    requires
        0 <= pos <= ts.len(),
        well_nested(callee),
        binding(callee) >= 8,
    ensures
        yields_nested(finish_call(ts, pos, callee), 8),
    decreases depth_measure(ts), ts.len() - pos, 16int,
{
    lemma_expression_list_nesting(ts, pos, TokenKind::RightParen, ")"@);
}

proof fn lemma_parse_primary_nesting(ts: Seq<TokenView>, pos: int)
    requires
        0 <= pos <= ts.len(),
    ensures
        yields_nested(parse_primary(ts, pos), 9),
    decreases depth_measure(ts), ts.len() - pos, 1int,
{
    if pos < ts.len() {
        match ts[pos].token_type {
            TokensView::InterpolatedString(parts) => {
                if parts_depth(parts) <= tokens_depth(ts) {
                    lemma_parse_parts_nesting(
                        parts,
                        0,
                        current_location(ts, pos),
                        Seq::empty(),
                    );
                }
            },
            TokensView::LeftParen => {
                lemma_parse_expression_nesting(ts, pos + 1);
            },
            TokensView::LeftBracket => {
                lemma_expression_list_nesting(ts, pos + 1, TokenKind::RightBracket, "]"@);
            },
            _ => {},
        }
    }
}

proof fn lemma_parse_parts_nesting(
    parts: Seq<StringPartView>,
    k: int,
    loc: SourceLocation,
    done_parts: Seq<PartView>,
)
    requires
        0 <= k,
        parts_well_nested(done_parts),
    ensures
        parse_parts(parts, k, loc, done_parts) matches Ok(list) ==> parts_well_nested(list),
    decreases 2 * (parts_depth(parts) as int), parts.len() - k, 0int,
{
    if k < parts.len() {
        match parts[k] {
            StringPartView::Text(text) => {
                let next = done_parts.push(PartView::Text(text));
                assert(parts_well_nested(next)) by {
                    assert forall|i: int| 0 <= i < next.len() implies part_well_nested(
                        #[trigger] next[i],
                    ) by {
                        if i < done_parts.len() {
                            assert(next[i] == done_parts[i]);
                        }
                    }
                }
                lemma_parse_parts_nesting(parts, k + 1, loc, next);
            },
            StringPartView::Interpolation(code) => {
                match fragment_tokens(code) {
                    None => {},
                    Some(nested) => {
                        if tokens_depth(nested) < parts_depth(parts) {
                            lemma_parse_expression_nesting(nested, 0);
                            match parse_expression(nested, 0).value {
                                Err(_) => {},
                                Ok(e) => {
                                    let next = done_parts.push(PartView::Expression(Box::new(e)));
                                    assert(parts_well_nested(next)) by {
                                        assert forall|i: int|
                                            0 <= i < next.len() implies part_well_nested(
                                            #[trigger] next[i],
                                        ) by {
                                            if i < done_parts.len() {
                                                assert(next[i] == done_parts[i]);
                                            }
                                        }
                                    }
                                    lemma_parse_parts_nesting(parts, k + 1, loc, next);
                                },
                            }
                        }
                    },
                }
            },
        }
    }
}

/// Whether `holds` is true of every expression that stands directly in
/// the statement or in a statement inside it.
pub open spec fn each_expression(s: StatementView, holds: spec_fn(ExpressionView) -> bool) -> bool
    decreases s,
{
    match s {
        StatementView::LetDeclaration { name, type_annotation, initializer } => {
            initializer matches Some(e) ==> holds(e)
        },
        StatementView::FunctionDeclaration { name, parameters, return_type, body } => {
            forall|i: int| 0 <= i < body.len() ==> each_expression(#[trigger] body[i], holds)
        },
        StatementView::Return(value) => value matches Some(e) ==> holds(e),
        StatementView::If { condition, then_branch, else_branch } => {
            &&& holds(condition)
            &&& forall|i: int|
                0 <= i < then_branch.len() ==> each_expression(#[trigger] then_branch[i], holds)
            &&& else_branch matches Some(items) ==> forall|i: int|
                0 <= i < items.len() ==> each_expression(#[trigger] items[i], holds)
        },
        StatementView::While { condition, body } => {
            &&& holds(condition)
            &&& forall|i: int| 0 <= i < body.len() ==> each_expression(#[trigger] body[i], holds)
        },
        StatementView::For { initializer, condition, increment, body } => {
            &&& initializer matches Some(first) ==> each_expression(*first, holds)
            &&& condition matches Some(e) ==> holds(e)
            &&& increment matches Some(e) ==> holds(e)
            &&& forall|i: int| 0 <= i < body.len() ==> each_expression(#[trigger] body[i], holds)
        },
        StatementView::Block(items) => forall|i: int|
            0 <= i < items.len() ==> each_expression(#[trigger] items[i], holds),
        StatementView::Expression(e) => holds(e),
        StatementView::Break => true,
        StatementView::Continue => true,
    }
}

/// Whether `holds` is true of every expression in the statements.
pub open spec fn each_expression_of(
    items: Seq<StatementView>,
    holds: spec_fn(ExpressionView) -> bool,
) -> bool {
    forall|i: int| 0 <= i < items.len() ==> each_expression(#[trigger] items[i], holds)
}

/// Whether `holds` is true of every expression that the parser yields from
/// the tokens `ts`, at whatever position.
pub open spec fn holds_of_parsed(ts: Seq<TokenView>, holds: spec_fn(ExpressionView) -> bool)
    -> bool {
    forall|pos: int|
        0 <= pos <= ts.len() ==> (#[trigger] parse_expression(ts, pos).value matches Ok(e)
            ==> holds(e))
}

proof fn lemma_push_each_expression(
    items: Seq<StatementView>,
    s: StatementView,
    holds: spec_fn(ExpressionView) -> bool,
)
    requires
        each_expression_of(items, holds),
        each_expression(s, holds),
    ensures
        each_expression_of(items.push(s), holds),
{
    assert forall|i: int| 0 <= i < items.push(s).len() implies each_expression(
        #[trigger] items.push(s)[i],
        holds,
    ) by {
        if i < items.len() {
            assert(items.push(s)[i] == items[i]);
        }
    }
}

proof fn lemma_parse_statement_holds(
    ts: Seq<TokenView>,
    pos: int,
    top_level: bool,
    holds: spec_fn(ExpressionView) -> bool,
)
    requires
        0 <= pos <= ts.len(),
        holds_of_parsed(ts, holds),
    ensures
        parse_statement(ts, pos, top_level).value matches Ok(s) ==> each_expression(s, holds),
    decreases ts.len() - pos, 3int,
{
    if pos < ts.len() {
        match ts[pos].token_type {
            TokensView::Keyword(Keywords::Let) => {
                let annotation = parse_annotation(ts, pos + 2);
                if check_at(ts, pos + 1, TokenKind::Identifier) && annotation.value is Ok
                    && check_at(
                    ts,
                    annotation.next,
                    TokenKind::BinaryOperator(BinaryOperators::Eq),
                ) {
                    if check_at(ts, pos + 2, TokenKind::Colon) {
                        lemma_parse_type_advances(ts, pos + 3);
                    }
                    assert(parse_expression(ts, annotation.next + 1).value matches Ok(e)
                        ==> holds(e));
                }
            },
            TokensView::Keyword(Keywords::Fn) => {
                lemma_parse_function_holds(ts, pos, holds);
            },
            TokensView::Keyword(Keywords::Return) => {
                assert(parse_expression(ts, pos + 1).value matches Ok(e) ==> holds(e));
            },
            TokensView::LeftBrace => {
                lemma_parse_block_holds(ts, pos, holds);
            },
            _ => {
                assert(parse_expression(ts, pos).value matches Ok(e) ==> holds(e));
            },
        }
    }
}

proof fn lemma_parse_function_holds(
    ts: Seq<TokenView>,
    pos: int,
    holds: spec_fn(ExpressionView) -> bool,
)
    requires
        0 <= pos <= ts.len(),
        holds_of_parsed(ts, holds),
    ensures
        parse_function(ts, pos).value matches Ok(s) ==> each_expression(s, holds),
    decreases ts.len() - pos, 2int,
{
    let keyword = expect_at(ts, pos, TokenKind::Keyword(Keywords::Fn), "fn"@);
    if keyword.value is Ok {
        let name = expect_at(ts, keyword.next, TokenKind::Identifier, "identifier"@);
        if name.value is Ok {
            lemma_parse_parameter_list_stays(ts, name.next);
            let parameters = parse_parameter_list(ts, name.next);
            if parameters.value is Ok {
                if check_at(ts, parameters.next, TokenKind::ThinArrow) {
                    lemma_parse_type_advances(ts, parameters.next + 1);
                }
                let result = parse_return_type(ts, parameters.next);
                if result.value is Ok && check_at(ts, result.next, TokenKind::LeftBrace) {
                    lemma_parse_block_holds(ts, result.next, holds);
                }
            }
        }
    }
}

proof fn lemma_parse_block_holds(
    ts: Seq<TokenView>,
    pos: int,
    holds: spec_fn(ExpressionView) -> bool,
)
    requires
        0 <= pos <= ts.len(),
        holds_of_parsed(ts, holds),
    ensures
        parse_block(ts, pos).value matches Ok(items) ==> each_expression_of(items, holds),
    decreases ts.len() - pos, 1int,
{
    let open = expect_at(ts, pos, TokenKind::LeftBrace, "{"@);
    if open.value is Ok {
        lemma_block_items_holds(ts, pos + 1, Seq::empty(), holds);
    }
}

proof fn lemma_block_items_holds(
    ts: Seq<TokenView>,
    pos: int,
    items: Seq<StatementView>,
    holds: spec_fn(ExpressionView) -> bool,
)
    requires
        0 <= pos <= ts.len(),
        holds_of_parsed(ts, holds),
        each_expression_of(items, holds),
    ensures
        block_items(ts, pos, items).value matches Ok(list) ==> each_expression_of(list, holds),
    decreases ts.len() - pos, 4int,
{
    if pos < ts.len() && !check_at(ts, pos, TokenKind::RightBrace) {
        lemma_parse_statement_holds(ts, pos, false, holds);
        let statement = parse_statement(ts, pos, false);
        match statement.value {
            Ok(s) => {
                lemma_push_each_expression(items, s, holds);
                if pos < statement.next <= ts.len() {
                    lemma_block_items_holds(ts, statement.next, items.push(s), holds);
                }
            },
            Err(_) => {},
        }
    }
}

proof fn lemma_parse_from_holds(
    ts: Seq<TokenView>,
    pos: int,
    out: ParseOutput,
    holds: spec_fn(ExpressionView) -> bool,
)
    requires
        0 <= pos <= ts.len(),
        holds_of_parsed(ts, holds),
        each_expression_of(out.ast, holds),
    ensures
        each_expression_of(parse_from(ts, pos, out).ast, holds),
    decreases ts.len() - pos,
{
    if pos < ts.len() {
        lemma_parse_statement_holds(ts, pos, true, holds);
        let statement = parse_statement(ts, pos, true);
        match statement.value {
            Ok(s) => {
                if pos < statement.next <= ts.len() {
                    lemma_push_each_expression(out.ast, s, holds);
                    lemma_parse_from_holds(
                        ts,
                        statement.next,
                        ParseOutput { ast: out.ast.push(s), ..out },
                        holds,
                    );
                }
            },
            Err(e) => {
                let resume = synchronize(ts, statement.next);
                if pos < resume <= ts.len() {
                    lemma_parse_from_holds(
                        ts,
                        resume,
                        ParseOutput { errors: out.errors.push(e), ..out },
                        holds,
                    );
                }
            },
        }
    }
}

/// No statement of a parse holds an assignment to a target that may not
/// be assigned to: such an assignment gives a diagnostic, never a node of
/// the tree.
pub proof fn lemma_parse_targets_are_assignable(ts: Seq<TokenView>)
    ensures
        each_expression_of(parse_all(ts).ast, |e: ExpressionView| well_targeted(e)),
{
    let holds = |e: ExpressionView| well_targeted(e);
    assert forall|pos: int| 0 <= pos <= ts.len() implies (#[trigger] parse_expression(
        ts,
        pos,
    ).value matches Ok(e) ==> holds(e)) by {
        lemma_parse_expression_targets(ts, pos);
    }
    lemma_parse_from_holds(
        ts,
        0,
        ParseOutput { ast: Seq::empty(), errors: Seq::empty() },
        holds,
    );
}

/// The shape of every expression in the statements of a parse shows
/// precedence and associativity.
pub proof fn lemma_parse_is_well_nested(ts: Seq<TokenView>)
    ensures
        each_expression_of(parse_all(ts).ast, |e: ExpressionView| well_nested(e)),
{
    let holds = |e: ExpressionView| well_nested(e);
    assert forall|pos: int| 0 <= pos <= ts.len() implies (#[trigger] parse_expression(
        ts,
        pos,
    ).value matches Ok(e) ==> holds(e)) by {
        lemma_parse_expression_nesting(ts, pos);
    }
    lemma_parse_from_holds(
        ts,
        0,
        ParseOutput { ast: Seq::empty(), errors: Seq::empty() },
        holds,
    );
}

} // verus!
