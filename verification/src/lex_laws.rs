//! What holds of every scan.

use crate::cursor::{
    byte_offset, lemma_byte_offset_ends, lemma_byte_offset_monotonic, lemma_encode_subrange,
    lemma_line_column_bounds, lemma_line_column_monotonic, location_at, location_le,
};
use crate::lex_errors::LexerErrorView;
use crate::lex_spec::{
    brace_close, can_resume, comment_end, interpolation_parts, lemma_brace_close_bounds,
    lemma_comment_end_bounds, lemma_recover_bounds, lemma_run_end_bounds, lemma_skip_trivia_bounds,
    lemma_string_close_bounds, lemma_text_run_end_bounds, lex_all, lex_from, pair_at, recover,
    run_end, scan_token, skip_trivia, split_parts, string_close, text_run_end, token_at, unescape,
    unescape_from, with_text, CharClass, LexOutput, Scan,
};
use crate::operators::{BinaryOperators, UnaryOperators};
use crate::text::{is_ascii_char, is_digit, is_ident_start, is_space};
use crate::tokens::{parts_depth, token_depth, tokens_depth, StringPartView, TokenView};
use vstd::prelude::*;
use vstd::utf8::encode_utf8;

verus! {

/// The depth of parts with one more part.
pub proof fn lemma_parts_depth_push(parts: Seq<StringPartView>, part: StringPartView)
    ensures
        parts_depth(parts.push(part)) == match part {
            StringPartView::Interpolation(code) => if code.len() + 1 > parts_depth(parts) {
                code.len() + 1
            } else {
                parts_depth(parts)
            },
            StringPartView::Text(_) => parts_depth(parts),
        },
{
    assert(parts.push(part).drop_last() =~= parts);
}

/// Each code fragment among `parts` is shorter than their depth.
pub proof fn lemma_parts_depth_bounds(parts: Seq<StringPartView>, k: int)
    requires
        0 <= k < parts.len(),
    ensures
        parts[k] matches StringPartView::Interpolation(code) ==> code.len() < parts_depth(parts),
    decreases parts.len(),
{
    if k < parts.len() - 1 {
        lemma_parts_depth_bounds(parts.drop_last(), k);
    }
}

/// The depth of tokens with one more token.
pub proof fn lemma_tokens_depth_push(ts: Seq<TokenView>, t: TokenView)
    ensures
        tokens_depth(ts.push(t)) == if token_depth(t.token_type) > tokens_depth(ts) {
            token_depth(t.token_type)
        } else {
            tokens_depth(ts)
        },
{
    assert(ts.push(t).drop_last() =~= ts);
}

/// No token is deeper than the tokens it stands among.
pub proof fn lemma_tokens_depth_bounds(ts: Seq<TokenView>, k: int)
    requires
        0 <= k < ts.len(),
    ensures
        token_depth(ts[k].token_type) <= tokens_depth(ts),
    decreases ts.len(),
{
    if k < ts.len() - 1 {
        lemma_tokens_depth_bounds(ts.drop_last(), k);
    }
}

proof fn lemma_split_parts_depth(raw: Seq<char>, i: int, done: Seq<StringPartView>)
    requires
        0 <= i <= raw.len(),
        parts_depth(done) <= raw.len(),
    ensures
        split_parts(raw, i, done) matches Some(parts) ==> parts_depth(parts) <= raw.len(),
    decreases raw.len() - i,
{
    if i < raw.len() {
        let e = text_run_end(raw, i);
        lemma_text_run_end_bounds(raw, i);
        let text = unescape(raw.subrange(i, e));
        let parts = with_text(done, text);
        if text.len() > 0 {
            lemma_parts_depth_push(done, StringPartView::Text(text));
        }
        if e < raw.len() {
            lemma_brace_close_bounds(raw, e + 1, 1);
            match brace_close(raw, e + 1, 1) {
                None => {},
                Some(c) => {
                    let code = raw.subrange(e + 1, c);
                    lemma_parts_depth_push(parts, StringPartView::Interpolation(code));
                    lemma_split_parts_depth(
                        raw,
                        c + 1,
                        parts.push(StringPartView::Interpolation(code)),
                    );
                },
            }
        }
    }
}

/// A token holds no code fragment as long as the text it is scanned from.
proof fn lemma_scan_token_depth(s: Seq<char>, j: int)
    requires
        0 <= j < s.len(),
    ensures
        scan_token(s, j) matches Scan::Token(t, _) ==> token_depth(t.token_type) <= s.len(),
{
    if s[j] == '"' {
        lemma_string_close_bounds(s, j + 1);
        match string_close(s, j + 1) {
            None => {},
            Some(q) => {
                let raw = s.subrange(j + 1, q);
                assert(parts_depth(Seq::<StringPartView>::empty()) == 0);
                lemma_split_parts_depth(raw, 0, Seq::empty());
            },
        }
    }
}

proof fn lemma_lex_from_depth(s: Seq<char>, i: int, done: LexOutput)
    requires
        0 <= i <= s.len(),
        tokens_depth(done.tokens) <= s.len(),
    ensures
        tokens_depth(lex_from(s, i, done).tokens) <= s.len(),
    decreases s.len() - i,
{
    if i < s.len() {
        lemma_skip_trivia_bounds(s, i);
        match skip_trivia(s, i) {
            Err(_) => {},
            Ok(j) => {
                if j < s.len() {
                    lemma_scan_token_depth(s, j);
                    match scan_token(s, j) {
                        Scan::Token(t, next) => {
                            if i < next <= s.len() {
                                lemma_tokens_depth_push(done.tokens, t);
                                lemma_lex_from_depth(
                                    s,
                                    next,
                                    LexOutput { tokens: done.tokens.push(t), ..done },
                                );
                            }
                        },
                        Scan::Error(e, at) => {
                            if i < recover(s, at) <= s.len() {
                                lemma_lex_from_depth(
                                    s,
                                    recover(s, at),
                                    LexOutput { errors: done.errors.push(e), ..done },
                                );
                            }
                        },
                    }
                }
            },
        }
    }
}

/// The tokens of a text hold code fragments that are shorter than the
/// text. So the scanning and parsing of fragments within fragments ends.
pub proof fn lemma_lex_depth(s: Seq<char>)
    ensures
        tokens_depth(lex_all(s).tokens) <= s.len(),
{
    assert(tokens_depth(Seq::<TokenView>::empty()) == 0);
    lemma_lex_from_depth(s, 0, LexOutput { tokens: Seq::empty(), errors: Seq::empty() });
}

/// Whether the text of the token is the part of the source that its span
/// names, byte for byte, and the span is not empty.
pub open spec fn slice_of_source(s: Seq<char>, t: TokenView) -> bool {
    &&& t.span.start < t.span.end <= encode_utf8(s).len()
    &&& t.start.offset == t.span.start
    &&& t.end.offset == t.span.end
    &&& encode_utf8(t.src) == encode_utf8(s).subrange(t.span.start as int, t.span.end as int)
}

/// Whether token `a` ends before token `b` starts, by offset and by line
/// and column.
pub open spec fn in_order(a: TokenView, b: TokenView) -> bool {
    a.span.end <= b.span.start && location_le(a.end, b.start)
}

/// A token that the scanner finds at `j` spans the characters from `j` to
/// the position after it, and at least one.
pub proof fn lemma_scan_token_extent(s: Seq<char>, j: int)
    requires
        0 <= j < s.len(),
    ensures
        scan_token(s, j) matches Scan::Token(t, next) ==> j < next <= s.len() && t == token_at(
            s,
            t.token_type,
            j,
            next,
        ),
{
    let c = s[j];
    if !is_ascii_char(c) {
    } else if is_ident_start(c) {
        lemma_run_end_bounds(s, j + 1, CharClass::IdentContinue);
    } else if c == '"' {
        lemma_string_close_bounds(s, j + 1);
    } else if is_digit(c) {
        lemma_run_end_bounds(s, j + 1, CharClass::Digit);
        if j + 1 < s.len() {
            lemma_run_end_bounds(s, j + 2, CharClass::HexDigit);
            lemma_run_end_bounds(s, j + 2, CharClass::BinaryDigit);
        }
        let whole = run_end(s, j, CharClass::Digit);
        if whole < s.len() {
            lemma_run_end_bounds(s, whole + 1, CharClass::Digit);
        }
    } else if BinaryOperators::can_start(c) || UnaryOperators::can_start(c) {
    } else {
    }
}

/// Skipping goes on after a line comment and after a block comment that
/// is closed.
pub proof fn lemma_skip_trivia_unfolds(s: Seq<char>, i: int)
    requires
        0 <= i < s.len(),
        !is_space(s[i]),
    ensures
        pair_at(s, i, '/', '/') ==> skip_trivia(s, i) == skip_trivia(
            s,
            run_end(s, i + 2, CharClass::NotNewline),
        ),
        pair_at(s, i, '/', '*') ==> skip_trivia(s, i) == match comment_end(s, i + 2, 1) {
            Some(j) => skip_trivia(s, j),
            None => Err(i),
        },
{
    if pair_at(s, i, '/', '/') {
        lemma_run_end_bounds(s, i + 2, CharClass::NotNewline);
    }
    if pair_at(s, i, '/', '*') {
        lemma_comment_end_bounds(s, i + 2, 1);
    }
}

/// Splitting goes on after each code fragment: the parts from `i` on are
/// the literal text up to the next `{`, if there is any, the code up to
/// the `}` that closes it, and the parts after that `}`.
pub proof fn lemma_split_parts_unfolds(raw: Seq<char>, i: int, done: Seq<StringPartView>)
    requires
        0 <= i < raw.len(),
    ensures
        ({
            let e = text_run_end(raw, i);
            let parts = with_text(done, unescape(raw.subrange(i, e)));
            &&& i <= e <= raw.len()
            &&& split_parts(raw, i, done) == if e == raw.len() {
                Some(parts)
            } else {
                match brace_close(raw, e + 1, 1) {
                    None => None,
                    Some(c) => split_parts(
                        raw,
                        c + 1,
                        parts.push(StringPartView::Interpolation(raw.subrange(e + 1, c))),
                    ),
                }
            }
        }),
{
    lemma_text_run_end_bounds(raw, i);
    let e = text_run_end(raw, i);
    if e < raw.len() {
        lemma_brace_close_bounds(raw, e + 1, 1);
    }
}

/// The tokens of a code fragment of an interpolated string are shallower
/// than the parts that the fragment stands among.
pub proof fn lemma_fragment_is_shallower(parts: Seq<StringPartView>, k: int)
    requires
        0 <= k < parts.len(),
    ensures
        parts[k] matches StringPartView::Interpolation(code) ==> tokens_depth(
            lex_all(code).tokens,
        ) < parts_depth(parts),
{
    match parts[k] {
        StringPartView::Interpolation(code) => {
            lemma_lex_depth(code);
            lemma_parts_depth_bounds(parts, k);
        },
        StringPartView::Text(_) => {},
    }
}

/// A diagnostic that the scanner raises at `j` leaves the cursor at `j` or
/// after it, inside the text or at its end.
pub proof fn lemma_scan_token_error_extent(s: Seq<char>, j: int)
    requires
        0 <= j < s.len(),
    ensures
        scan_token(s, j) matches Scan::Error(_, at) ==> j <= at <= s.len(),
{
    let c = s[j];
    if !is_ascii_char(c) {
    } else if is_ident_start(c) {
    } else if c == '"' {
        lemma_string_close_bounds(s, j + 1);
    } else if is_digit(c) {
        lemma_run_end_bounds(s, j + 1, CharClass::Digit);
        if j + 1 < s.len() {
            lemma_run_end_bounds(s, j + 2, CharClass::HexDigit);
            lemma_run_end_bounds(s, j + 2, CharClass::BinaryDigit);
        }
    } else {
    }
}

/// Each round of the scan consumes at least one character: the scan from
/// `i` on ends with an unclosed comment or at the end of the text, or it
/// is the scan from a later position on, with one token or one diagnostic
/// more.
pub proof fn lemma_lex_from_unfolds(s: Seq<char>, i: int, done: LexOutput)
    requires
        0 <= i < s.len(),
    ensures
        match skip_trivia(s, i) {
            Err(c) => lex_from(s, i, done) == (LexOutput {
                errors: done.errors.push(LexerErrorView::UnclosedComment(location_at(s, c))),
                ..done
            }),
            Ok(j) => i <= j <= s.len() && if j == s.len() {
                lex_from(s, i, done) == done
            } else {
                match scan_token(s, j) {
                    Scan::Token(t, next) => i < next <= s.len() && lex_from(s, i, done)
                        == lex_from(s, next, (LexOutput { tokens: done.tokens.push(t), ..done })),
                    Scan::Error(e, at) => i < recover(s, at) <= s.len() && lex_from(s, i, done)
                        == lex_from(
                        s,
                        recover(s, at),
                        (LexOutput { errors: done.errors.push(e), ..done }),
                    ),
                }
            },
        },
{
    lemma_skip_trivia_bounds(s, i);
    match skip_trivia(s, i) {
        Err(_) => {},
        Ok(j) => {
            if j < s.len() {
                lemma_scan_token_extent(s, j);
                lemma_scan_token_error_extent(s, j);
                match scan_token(s, j) {
                    Scan::Token(_, _) => {},
                    Scan::Error(_, at) => {
                        lemma_recover_bounds(s, at);
                    },
                }
            }
        },
    }
}

/// What the induction over a scan carries: each token so far is a slice
/// of the source, the tokens are in order, and the last of them ends at
/// the character position `last_end`.
pub open spec fn well_placed(s: Seq<char>, tokens: Seq<TokenView>, last_end: int) -> bool {
    &&& forall|k: int| 0 <= k < tokens.len() ==> slice_of_source(s, #[trigger] tokens[k])
    &&& forall|k: int|
        0 <= k < tokens.len() - 1 ==> in_order(#[trigger] tokens[k], tokens[k + 1])
    &&& tokens.len() > 0 ==> {
        &&& 0 <= last_end <= s.len()
        &&& tokens.last().span.end == byte_offset(s, last_end)
        &&& tokens.last().end == location_at(s, last_end)
    }
}

/// A further token, from `j` to `next`, keeps the tokens well placed.
proof fn lemma_place_token(
    s: Seq<char>,
    tokens: Seq<TokenView>,
    last_end: int,
    t: TokenView,
    j: int,
    next: int,
)
    requires
        encode_utf8(s).len() <= u64::MAX,
        well_placed(s, tokens, last_end),
        tokens.len() > 0 ==> last_end <= j,
        0 <= j < next <= s.len(),
        t == token_at(s, t.token_type, j, next),
    ensures
        well_placed(s, tokens.push(t), next),
{
    let pushed = tokens.push(t);
    lemma_byte_offset_ends(s);
    lemma_byte_offset_monotonic(s, 0, s.len() as int);
    lemma_byte_offset_monotonic(s, j, next);
    lemma_byte_offset_monotonic(s, next, s.len() as int);
    lemma_encode_subrange(s, j, next);
    lemma_line_column_bounds(s, j);
    assert(slice_of_source(s, t));
    if tokens.len() > 0 {
        lemma_byte_offset_monotonic(s, last_end, j);
        lemma_line_column_monotonic(s, last_end, j);
        lemma_line_column_bounds(s, last_end);
        assert(in_order(tokens.last(), t));
    }
    assert forall|k: int| 0 <= k < pushed.len() implies slice_of_source(
        s,
        #[trigger] pushed[k],
    ) by {
        if k < tokens.len() {
            assert(pushed[k] == tokens[k]);
        }
    }
    assert forall|k: int| 0 <= k < pushed.len() - 1 implies in_order(
        #[trigger] pushed[k],
        pushed[k + 1],
    ) by {
        if k < tokens.len() - 1 {
            assert(pushed[k] == tokens[k]);
            assert(pushed[k + 1] == tokens[k + 1]);
        } else {
            assert(pushed[k] == tokens.last());
        }
    }
}

/// One step of the scan from `i`: the position at which the scan goes on
/// and what it has then, or `None` where the scan ends at `i`.
pub open spec fn lex_step(s: Seq<char>, i: int, done: LexOutput) -> Option<(int, LexOutput)> {
    if i < 0 || i >= s.len() {
        None
    } else {
        match skip_trivia(s, i) {
            Err(_) => None,
            Ok(j) => if j < i || j >= s.len() {
                None
            } else {
                match scan_token(s, j) {
                    Scan::Token(t, next) => if i < next <= s.len() {
                        Some((next, LexOutput { tokens: done.tokens.push(t), ..done }))
                    } else {
                        None
                    },
                    Scan::Error(e, at) => if i < recover(s, at) <= s.len() {
                        Some((recover(s, at), LexOutput { errors: done.errors.push(e), ..done }))
                    } else {
                        None
                    },
                }
            },
        }
    }
}

proof fn lemma_lex_step(s: Seq<char>, i: int, done: LexOutput)
    ensures
        match lex_step(s, i, done) {
            Some((next, out)) => i < next <= s.len() && lex_from(s, i, done) == lex_from(
                s,
                next,
                out,
            ),
            None => lex_from(s, i, done).tokens == done.tokens,
        },
{
}

proof fn lemma_lex_step_placed(s: Seq<char>, i: int, done: LexOutput, last_end: int) -> (end: int)
    requires
        0 <= i <= s.len(),
        encode_utf8(s).len() <= u64::MAX,
        well_placed(s, done.tokens, last_end),
        done.tokens.len() > 0 ==> last_end <= i,
    ensures
        lex_step(s, i, done) matches Some((next, out)) ==> end <= next && well_placed(
            s,
            out.tokens,
            end,
        ),
{
    let kept = if done.tokens.len() > 0 {
        last_end
    } else {
        0
    };
    if i < s.len() {
        lemma_skip_trivia_bounds(s, i);
        match skip_trivia(s, i) {
            Err(_) => kept,
            Ok(j) => {
                if j < s.len() {
                    lemma_scan_token_extent(s, j);
                    match scan_token(s, j) {
                        Scan::Token(t, next) => {
                            if i < next <= s.len() {
                                lemma_place_token(s, done.tokens, last_end, t, j, next);
                            }
                            next
                        },
                        Scan::Error(e, at) => kept,
                    }
                } else {
                    kept
                }
            },
        }
    } else {
        kept
    }
}

proof fn lemma_lex_from_placed(s: Seq<char>, i: int, done: LexOutput, last_end: int) -> (end: int)
    requires
        0 <= i <= s.len(),
        encode_utf8(s).len() <= u64::MAX,
        well_placed(s, done.tokens, last_end),
        done.tokens.len() > 0 ==> last_end <= i,
    ensures
        well_placed(s, lex_from(s, i, done).tokens, end),
    decreases s.len() - i,
{
    lemma_lex_step(s, i, done);
    let step_end = lemma_lex_step_placed(s, i, done, last_end);
    match lex_step(s, i, done) {
        Some((next, out)) => lemma_lex_from_placed(s, next, out, step_end),
        None => last_end,
    }
}

/// The text of every token is the part of the source that its span names,
/// byte for byte. The source is any text whose UTF-8 encoding has a length
/// that fits 64 bits.
pub proof fn lemma_tokens_are_slices(s: Seq<char>, k: int)
    requires
        encode_utf8(s).len() <= u64::MAX,
        0 <= k < lex_all(s).tokens.len(),
    ensures
        slice_of_source(s, lex_all(s).tokens[k]),
{
    let start = LexOutput { tokens: Seq::empty(), errors: Seq::empty() };
    let end = lemma_lex_from_placed(s, 0, start, 0);
    assert(well_placed(s, lex_all(s).tokens, end));
}

/// Of two consecutive tokens the first ends before the second starts: its
/// end offset is at most the start offset of the second, and its end
/// location is not after the start location of the second, by line and
/// then column.
pub proof fn lemma_tokens_in_order(s: Seq<char>, k: int)
    requires
        encode_utf8(s).len() <= u64::MAX,
        0 <= k < lex_all(s).tokens.len() - 1,
    ensures
        in_order(lex_all(s).tokens[k], lex_all(s).tokens[k + 1]),
{
    let start = LexOutput { tokens: Seq::empty(), errors: Seq::empty() };
    let end = lemma_lex_from_placed(s, 0, start, 0);
    assert(well_placed(s, lex_all(s).tokens, end));
}

/// A run of characters that start nothing gives one diagnostic, for its
/// first character, and the scan goes on after the run: at the end of the
/// text, or at a character that can start a token, a comment or
/// whitespace.
pub proof fn lemma_one_diagnostic_per_run(s: Seq<char>, i: int, j: int, done: LexOutput)
    requires
        0 <= i <= j < s.len(),
        skip_trivia(s, i) == Ok::<int, int>(j),
        is_ascii_char(s[j]),
        !can_resume(s[j]),
        s[j] != '"',
    ensures
        ({
            let resume = run_end(s, j + 1, CharClass::Unstartable);
            &&& j < resume <= s.len()
            &&& resume < s.len() ==> can_resume(s[resume])
            &&& forall|k: int| j < k < resume ==> !can_resume(#[trigger] s[k])
            &&& lex_from(s, i, done) == lex_from(
                s,
                resume,
                (LexOutput {
                    errors: done.errors.push(
                        LexerErrorView::UnexpectedChar(s[j], location_at(s, j)),
                    ),
                    ..done
                }),
            )
        }),
{
    lemma_run_end_bounds(s, j + 1, CharClass::Unstartable);
    lemma_run_end_is_longest(s, j + 1, CharClass::Unstartable);
}

/// The run that `run_end` finds holds characters of the class only, and
/// ends at the end of the text or before a character outside the class.
pub proof fn lemma_run_end_is_longest(s: Seq<char>, i: int, class: CharClass)
    requires
        0 <= i <= s.len(),
    ensures
        forall|k: int| i <= k < run_end(s, i, class) ==> class.holds(#[trigger] s[k]),
        run_end(s, i, class) < s.len() ==> !class.holds(s[run_end(s, i, class)]),
    decreases s.len() - i,
{
    if i < s.len() && class.holds(s[i]) {
        lemma_run_end_is_longest(s, i + 1, class);
    }
}

/// Nested comments balance: to close `outer + inner` levels of nesting is
/// to close the `inner` levels first and then, from where they end, the
/// `outer` levels; and where the inner levels are never closed, neither
/// are all of them.
pub proof fn lemma_comment_depth_adds(s: Seq<char>, i: int, inner: nat, outer: nat)
    requires
        0 <= i <= s.len(),
    ensures
        comment_end(s, i, inner + outer) == match comment_end(s, i, inner) {
            Some(j) => comment_end(s, j, outer),
            None => None,
        },
    decreases s.len() - i,
{
    if inner == 0 {
    } else if i >= s.len() {
        assert(comment_end(s, i, outer) == if outer == 0 {
            Some(i)
        } else {
            None::<int>
        });
    } else if pair_at(s, i, '/', '*') {
        lemma_comment_depth_adds(s, i + 2, inner + 1, outer);
    } else if pair_at(s, i, '*', '/') {
        lemma_comment_depth_adds(s, i + 2, (inner - 1) as nat, outer);
    } else {
        lemma_comment_depth_adds(s, i + 1, inner, outer);
    }
}

/// The text that the parts of an interpolated string stand for: literal
/// text as it is, a code fragment between braces.
pub open spec fn join_parts(parts: Seq<StringPartView>) -> Seq<char>
    decreases parts.len(),
{
    if parts.len() == 0 {
        Seq::empty()
    } else {
        join_parts(parts.drop_last()) + match parts.last() {
            StringPartView::Text(text) => text,
            StringPartView::Interpolation(code) => seq!['{'] + code + seq!['}'],
        }
    }
}

/// Whether no backslash stands in the text.
pub open spec fn escape_free(t: Seq<char>) -> bool {
    forall|k: int| 0 <= k < t.len() ==> #[trigger] t[k] != '\\'
}

/// Text without a backslash is its own decoding.
pub proof fn lemma_unescape_plain(t: Seq<char>, i: int)
    requires
        escape_free(t),
        0 <= i <= t.len(),
    ensures
        unescape_from(t, i) == t.skip(i),
    decreases t.len() - i,
{
    if i < t.len() {
        lemma_unescape_plain(t, i + 1);
        assert(seq![t[i]] + t.skip(i + 1) =~= t.skip(i));
    } else {
        assert(t.skip(i) =~= Seq::<char>::empty());
    }
}

proof fn lemma_brace_close_is_brace(raw: Seq<char>, i: int, depth: nat)
    requires
        0 <= i,
    ensures
        brace_close(raw, i, depth) matches Some(c) ==> raw[c] == '}',
    decreases raw.len() - i,
{
    if i >= raw.len() || depth == 0 {
    } else if raw[i] == '{' {
        lemma_brace_close_is_brace(raw, i + 1, depth + 1);
    } else if raw[i] == '}' {
        if depth != 1 {
            lemma_brace_close_is_brace(raw, i + 1, (depth - 1) as nat);
        }
    } else {
        lemma_brace_close_is_brace(raw, i + 1, depth);
    }
}

proof fn lemma_split_parts_joins(raw: Seq<char>, i: int, done: Seq<StringPartView>)
    requires
        escape_free(raw),
        0 <= i <= raw.len(),
        join_parts(done) == raw.take(i),
    ensures
        split_parts(raw, i, done) matches Some(parts) ==> join_parts(parts) == raw,
    decreases raw.len() - i,
{
    if i < raw.len() {
        let e = text_run_end(raw, i);
        lemma_text_run_end_bounds(raw, i);
        let text = raw.subrange(i, e);
        assert(escape_free(text)) by {
            assert forall|k: int| 0 <= k < text.len() implies #[trigger] text[k] != '\\' by {
                assert(text[k] == raw[i + k]);
            }
        }
        lemma_unescape_plain(text, 0);
        assert(text.skip(0) =~= text);
        let parts = with_text(done, unescape(text));
        assert(join_parts(parts) == raw.take(e)) by {
            if text.len() > 0 {
                assert(parts.drop_last() =~= done);
            }
            assert(raw.take(i) + text =~= raw.take(e));
        }
        if e < raw.len() {
            lemma_brace_close_bounds(raw, e + 1, 1);
            lemma_brace_close_is_brace(raw, e + 1, 1);
            match brace_close(raw, e + 1, 1) {
                None => {},
                Some(c) => {
                    let code = raw.subrange(e + 1, c);
                    let next = parts.push(StringPartView::Interpolation(code));
                    assert(next.drop_last() =~= parts);
                    assert(raw.take(e) + (seq!['{'] + code + seq!['}']) =~= raw.take(c + 1));
                    lemma_split_parts_joins(raw, c + 1, next);
                },
            }
        } else {
            assert(raw.take(e) =~= raw);
        }
    } else {
        assert(raw.take(i) =~= raw);
    }
}

/// Splitting loses nothing: where the content of an interpolated string
/// holds no backslash, its parts, put together again with each code
/// fragment between braces, are the content.
pub proof fn lemma_interpolation_parts_join(raw: Seq<char>)
    requires
        escape_free(raw),
    ensures
        interpolation_parts(raw) matches Some(parts) ==> join_parts(parts) == raw,
{
    assert(raw.take(0) =~= Seq::<char>::empty());
    lemma_split_parts_joins(raw, 0, Seq::empty());
}

/// Scanning is a function of the text: two scans of one text give the same
/// tokens and the same diagnostics.
pub proof fn lemma_scan_is_repeatable(s: Seq<char>, first: LexOutput, second: LexOutput)
    requires
        first == lex_all(s),
        second == lex_all(s),
    ensures
        first.errors == second.errors,
        first.tokens == second.tokens,
{
}

} // verus!
