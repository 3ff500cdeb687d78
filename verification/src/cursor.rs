//! A cursor over UTF-8 source text.
//!
//! The text is modelled as its sequence of characters. The cursor keeps the
//! byte offset of its position next to the line and column, so that tokens can
//! be cut out of the source without copying.

use crate::text::{decimal, push_decimal};
use vstd::prelude::*;
use vstd::utf8::*;

verus! {

/// A position in source text: 1-based line and column, 0-based byte offset.
#[derive(Debug, Clone, Copy, PartialEq, Eq, Hash)]
pub struct SourceLocation {
    pub line: u64,
    pub column: u64,
    pub offset: u64,
}

impl SourceLocation {
    /// The location as it is shown: line, a colon, column.
    pub open spec fn text(self) -> Seq<char> {
        decimal(self.line as nat) + seq![':'] + decimal(self.column as nat)
    }

    /// The location as it is shown, such as `3:14`.
    pub fn to_string(&self) -> (s: String)
        ensures
            s@ == self.text(),
    {
        let mut out = String::new();
        push_decimal(&mut out, self.line);
        out.push(':');
        push_decimal(&mut out, self.column);
        assert(out@ =~= self.text());
        out
    }
}

/// The number of bytes that `c` takes in UTF-8.
pub open spec fn char_width(c: char) -> nat {
    encode_scalar(c as u32).len()
}

/// The byte offset of the `i`-th character of `s` in the UTF-8 encoding of `s`.
pub open spec fn byte_offset(s: Seq<char>, i: int) -> nat {
    encode_utf8(s.take(i)).len()
}

/// The 1-based line of position `i`: one more than the number of line feeds
/// before it.
pub open spec fn line_number(s: Seq<char>, i: int) -> int
    decreases i,
{
    if i <= 0 {
        1
    } else if s[i - 1] == '\n' {
        line_number(s, i - 1) + 1
    } else {
        line_number(s, i - 1)
    }
}

/// The 1-based column of position `i`: one more than the number of characters
/// since the last line feed before it.
pub open spec fn column_number(s: Seq<char>, i: int) -> int
    decreases i,
{
    if i <= 0 {
        1
    } else if s[i - 1] == '\n' {
        1
    } else {
        column_number(s, i - 1) + 1
    }
}

/// `n` as a `u64`, held at `u64::MAX` where it does not fit.
pub open spec fn saturate(n: int) -> u64 {
    if n > u64::MAX {
        u64::MAX
    } else if n < 0 {
        0
    } else {
        n as u64
    }
}

/// The location of position `i` in `s`. Line and column stay at `u64::MAX`
/// once they reach it.
pub open spec fn location_at(s: Seq<char>, i: int) -> SourceLocation {
    SourceLocation {
        line: saturate(line_number(s, i)),
        column: saturate(column_number(s, i)),
        offset: byte_offset(s, i) as u64,
    }
}

/// Whether location `a` comes no later than `b`, by line and then by column.
pub open spec fn location_le(a: SourceLocation, b: SourceLocation) -> bool {
    a.line < b.line || (a.line == b.line && a.column <= b.column)
}

/// The encoding of a concatenation is the concatenation of the encodings.
pub proof fn lemma_encode_concat(a: Seq<char>, b: Seq<char>)
    ensures
        encode_utf8(a + b) == encode_utf8(a) + encode_utf8(b),
    decreases a.len(),
{
    if a.len() == 0 {
        assert(a + b =~= b);
        assert(encode_utf8(a) + encode_utf8(b) =~= encode_utf8(b));
    } else {
        assert((a + b).drop_first() =~= a.drop_first() + b);
        lemma_encode_concat(a.drop_first(), b);
        assert(encode_utf8(a + b) =~= encode_utf8(a) + encode_utf8(b));
    }
}

/// Each character takes between one and four bytes.
pub proof fn lemma_char_width_bounds(c: char)
    ensures
        1 <= char_width(c) <= 4,
        char_width(c) == 1 <==> (c as u32) < 0x80,
{
}

/// The encoding of a single character is the encoding of its scalar value.
pub proof fn lemma_encode_single(c: char)
    ensures
        encode_utf8(seq![c]) == encode_scalar(c as u32),
{
    assert(seq![c].drop_first() =~= Seq::<char>::empty());
    assert(encode_utf8(Seq::<char>::empty()) =~= Seq::<u8>::empty());
    assert(encode_utf8(seq![c]) =~= encode_scalar(c as u32));
}

/// Moving one character on moves the byte offset by that character's width.
pub proof fn lemma_byte_offset_step(s: Seq<char>, i: int)
    requires
        0 <= i < s.len(),
    ensures
        byte_offset(s, i + 1) == byte_offset(s, i) + char_width(s[i]),
{
    assert(s.take(i + 1) =~= s.take(i) + seq![s[i]]);
    lemma_encode_concat(s.take(i), seq![s[i]]);
    lemma_encode_single(s[i]);
}

/// Byte offsets grow with the position, and by at least one byte per
/// character.
pub proof fn lemma_byte_offset_monotonic(s: Seq<char>, i: int, j: int)
    requires
        0 <= i <= j <= s.len(),
    ensures
        byte_offset(s, i) + (j - i) <= byte_offset(s, j),
        byte_offset(s, j) <= byte_offset(s, i) + 4 * (j - i),
    decreases j - i,
{
    if i < j {
        lemma_byte_offset_monotonic(s, i, j - 1);
        lemma_byte_offset_step(s, j - 1);
        lemma_char_width_bounds(s[j - 1]);
    }
}

/// The first position has offset zero, and the position after the last

/// character has the length of the encoding.
pub proof fn lemma_byte_offset_ends(s: Seq<char>)
    ensures
        byte_offset(s, 0) == 0,
        byte_offset(s, s.len() as int) == encode_utf8(s).len(),
{
    assert(s.take(0) =~= Seq::<char>::empty());
    assert(s.take(s.len() as int) =~= s);
}

/// The bytes between two character positions are the encoding of the
/// characters between them.
pub proof fn lemma_encode_subrange(s: Seq<char>, i: int, j: int)
    requires
        0 <= i <= j <= s.len(),
    ensures
        byte_offset(s, i) <= byte_offset(s, j) <= encode_utf8(s).len(),
        encode_utf8(s).subrange(byte_offset(s, i) as int, byte_offset(s, j) as int)
            == encode_utf8(s.subrange(i, j)),
{
    let a = s.take(i);
    let b = s.subrange(i, j);
    let c = s.skip(j);
    assert(s.take(j) =~= a + b);
    assert(s =~= s.take(j) + c);
    lemma_encode_concat(a, b);
    lemma_encode_concat(s.take(j), c);
    assert(encode_utf8(s).subrange(byte_offset(s, i) as int, byte_offset(s, j) as int)
        =~= encode_utf8(b));
}

/// Two character sequences with the same encoding are equal.
pub proof fn lemma_encode_injective(a: Seq<char>, b: Seq<char>)
    requires
        encode_utf8(a) == encode_utf8(b),
    ensures
        a == b,
{
    encode_utf8_decode_utf8(a);
    encode_utf8_decode_utf8(b);
}

/// The byte offset of every character position is a character boundary of
/// the encoding.
pub proof fn lemma_offset_is_boundary(s: Seq<char>, i: int)
    requires
        0 <= i <= s.len(),
    ensures
        is_char_boundary(encode_utf8(s), byte_offset(s, i) as int),
    decreases i,
{
    encode_utf8_valid_utf8(s);
    if i == 0 {
        lemma_byte_offset_ends(s);
    } else {
        let bytes = encode_utf8(s);
        let rest = s.drop_first();
        encode_utf8_first_scalar(s);
        assert(pop_first_scalar(bytes) =~= encode_utf8(rest));
        assert(s.take(i) =~= seq![s[0]] + rest.take(i - 1));
        lemma_encode_concat(seq![s[0]], rest.take(i - 1));
        lemma_encode_single(s[0]);
        lemma_char_width_bounds(s[0]);
        lemma_encode_subrange(s, 0, i);
        lemma_offset_is_boundary(rest, i - 1);
        assert(byte_offset(s, i) - length_of_first_scalar(bytes) == byte_offset(rest, i - 1));
    }
}

/// A line feed starts a new line at column 1; any other character moves

/// one column on in its line.
pub proof fn lemma_line_column_step(s: Seq<char>, i: int)
    requires
        0 <= i < s.len(),
    ensures
        line_number(s, i + 1) == line_number(s, i) + if s[i] == '\n' { 1int } else { 0int },
        column_number(s, i + 1) == if s[i] == '\n' { 1int } else { column_number(s, i) + 1 },
{
}

/// Lines and columns start at 1 and grow by at most one per character.
pub proof fn lemma_line_column_bounds(s: Seq<char>, i: int)
    requires
        0 <= i,
    ensures
        1 <= line_number(s, i) <= i + 1,
        1 <= column_number(s, i) <= i + 1,
    decreases i,
{
    if i > 0 {
        lemma_line_column_bounds(s, i - 1);
    }
}

/// Lines never go back, and on one line columns never go back.
pub proof fn lemma_line_column_monotonic(s: Seq<char>, i: int, j: int)
    requires
        0 <= i <= j,
    ensures
        line_number(s, i) <= line_number(s, j),
        line_number(s, i) == line_number(s, j) ==> column_number(s, i) <= column_number(s, j),
    decreases j - i,
{
    if i < j {
        lemma_line_column_monotonic(s, i, j - 1);
        lemma_line_column_bounds(s, j - 1);
    }
}

/// The number of bytes of `c` in UTF-8.
pub fn utf8_width(c: char) -> (w: usize)
    ensures
        w == char_width(c),
        1 <= w <= 4,
{
    let v = c as u32;
    proof {
        char_is_scalar(c);
    }
    if v < 0x80 {
        1
    } else if v < 0x800 {
        2
    } else if v < 0x10000 {
        3
    } else {
        4
    }
}

/// The part of `s` from character position `i` on, where `pos` is the byte
/// offset of `i`.
pub fn str_tail<'a>(s: &'a str, pos: usize, Ghost(i): Ghost<int>) -> (r: &'a str)
    requires
        0 <= i <= s@.len(),
        pos == byte_offset(s@, i),
    ensures
        r@ == s@.skip(i),
{
    proof {
        lemma_offset_is_boundary(s@, i);
        lemma_encode_subrange(s@, i, s@.len() as int);
        lemma_byte_offset_ends(s@);
    }
    let (_, rest) = s.split_at(pos);
    proof {
        assert(s@.subrange(i, s@.len() as int) =~= s@.skip(i));
        lemma_encode_injective(rest@, s@.skip(i));
    }
    rest
}

/// The part of `s` before character position `i`, where `pos` is the byte
/// offset of `i`.
pub fn str_head<'a>(s: &'a str, pos: usize, Ghost(i): Ghost<int>) -> (r: &'a str)
    requires
        0 <= i <= s@.len(),
        pos == byte_offset(s@, i),
    ensures
        r@ == s@.take(i),
{
    proof {
        lemma_offset_is_boundary(s@, i);
        lemma_encode_subrange(s@, 0, i);
        lemma_byte_offset_ends(s@);
    }
    let (head, _) = s.split_at(pos);
    proof {
        assert(s@.subrange(0, i) =~= s@.take(i));
        lemma_encode_injective(head@, s@.take(i));
    }
    head
}

/// The length of `s` in bytes.
pub fn byte_len(s: &str) -> (n: usize)
    ensures
        n == encode_utf8(s@).len(),
{
    broadcast use vstd::slice::group_slice_axioms;

    s.as_bytes().len()
}

/// The first character of `s`, if it has one.
pub fn first_char(s: &str) -> (r: Option<char>)
    ensures
        r == if s@.len() > 0 { Some(s@[0]) } else { None::<char> },
{
    broadcast use vstd::string::group_string_axioms;

    let mut chars = s.chars();
    chars.next()
}

/// A remembered position of a cursor.
#[derive(Clone, Copy)]
pub struct Mark {
    pub loc: SourceLocation,
    pub pos: usize,
    pub index: Ghost<int>,
}

impl Mark {
    /// Whether this mark stands for character position `i` of `s`.
    pub open spec fn at(&self, s: Seq<char>, i: int) -> bool {
        &&& 0 <= i <= s.len()
        &&& self.index@ == i
        &&& self.pos == byte_offset(s, i)
        &&& self.loc == location_at(s, i)
    }
}

/// A cursor over source text that tracks byte offset, line and column.
pub struct SourceCursor<'a> {
    src: &'a str,
    len: usize,
    pos: usize,
    line: u64,
    column: u64,
    index: Ghost<int>,
}

/// The character at position `i` of `s`, if there is one.
pub open spec fn char_at(s: Seq<char>, i: int) -> Option<char> {
    if 0 <= i < s.len() {
        Some(s[i])
    } else {
        None
    }
}

impl<'a> SourceCursor<'a> {
    /// The text that the cursor runs over.
    pub closed spec fn text(&self) -> Seq<char> {
        self.src@
    }

    /// The position of the cursor, counted in characters.
    pub closed spec fn index(&self) -> int {
        self.index@
    }

    /// The cursor's invariant: its byte offset, line and column are those
    /// of its position.
    pub closed spec fn wf(&self) -> bool {
        &&& 0 <= self.index@ <= self.src@.len()
        &&& self.len == encode_utf8(self.src@).len()
        &&& self.pos == byte_offset(self.src@, self.index@)
        &&& self.line == saturate(line_number(self.src@, self.index@))
        &&& self.column == saturate(column_number(self.src@, self.index@))
    }

    /// The cursor stands inside its text, whose length fits a `usize`.
    pub proof fn lemma_index_in_range(&self)
        requires
            self.wf(),
        ensures
            0 <= self.index() <= self.text().len() <= usize::MAX,
            encode_utf8(self.text()).len() <= usize::MAX,
    {
        lemma_byte_offset_ends(self.src@);
        lemma_byte_offset_monotonic(self.src@, 0, self.src@.len() as int);
    }

    /// A cursor at the start of `src`.
    pub fn new(src: &'a str) -> (c: Self)
        ensures
            c.wf(),
            c.text() == src@,
            c.index() == 0,
    {
        proof {
            lemma_byte_offset_ends(src@);
        }
        SourceCursor { src, len: byte_len(src), pos: 0, line: 1, column: 1, index: Ghost(0) }
    }

    /// Whether the cursor stands at the end of the text.
    pub fn is_eof(&self) -> (b: bool)
        requires
            self.wf(),
        ensures
            b == (self.index() >= self.text().len()),
    {
        proof {
            lemma_byte_offset_ends(self.src@);
            lemma_byte_offset_monotonic(self.src@, self.index@, self.src@.len() as int);
        }
        self.pos >= self.len
    }

    /// The character under the cursor.
    pub fn peek(&self) -> (r: Option<char>)
        requires
            self.wf(),
        ensures
            r == char_at(self.text(), self.index()),
    {
        let rest = str_tail(self.src, self.pos, Ghost(self.index@));
        first_char(rest)
    }

    /// The character after the one under the cursor.
    pub fn peek_second(&self) -> (r: Option<char>)
        requires
            self.wf(),
        ensures
            r == char_at(self.text(), self.index() + 1),
    {
        match self.peek() {
            None => None,
            Some(c) => {
                proof {
                    lemma_byte_offset_step(self.src@, self.index@);
                    lemma_byte_offset_ends(self.src@);
                    lemma_byte_offset_monotonic(
                        self.src@,
                        self.index@ + 1,
                        self.src@.len() as int,
                    );
                }
                let after = self.pos + utf8_width(c);
                let rest = str_tail(self.src, after, Ghost(self.index@ + 1));
                first_char(rest)
            },
        }
    }

    /// Steps over the character under the cursor and returns it. A line
    /// feed starts a new line at column 1; any other character moves one
    /// column on.
    pub fn next(&mut self) -> (r: Option<char>)
        requires
            old(self).wf(),
        ensures
            final(self).wf(),
            final(self).text() == old(self).text(),
            r == char_at(old(self).text(), old(self).index()),
            final(self).index() == if r is Some {
                old(self).index() + 1
            } else {
                old(self).index()
            },
    {
        match self.peek() {
            None => None,
            Some(c) => {
                proof {
                    lemma_byte_offset_step(self.src@, self.index@);
                    lemma_byte_offset_ends(self.src@);
                    lemma_byte_offset_monotonic(
                        self.src@,
                        self.index@ + 1,
                        self.src@.len() as int,
                    );
                    lemma_line_column_step(self.src@, self.index@);
                    lemma_line_column_bounds(self.src@, self.index@);
                }
                self.pos = self.pos + utf8_width(c);
                if c == '\n' {
                    self.line = self.line.saturating_add(1);
                    self.column = 1;
                } else {
                    self.column = self.column.saturating_add(1);
                }
                self.index = Ghost(self.index@ + 1);
                Some(c)
            },
        }
    }

    /// The location of the cursor.
    pub fn location(&self) -> (loc: SourceLocation)
        requires
            self.wf(),
        ensures
            loc == location_at(self.text(), self.index()),
    {
        SourceLocation { line: self.line, column: self.column, offset: self.pos as u64 }
    }

    /// Remembers the cursor's position.
    pub fn mark(&self) -> (m: Mark)
        requires
            self.wf(),
        ensures
            m.at(self.text(), self.index()),
    {
        Mark { loc: self.location(), pos: self.pos, index: Ghost(self.index@) }
    }

    /// The text between a mark and the cursor, borrowed from the source.
    pub fn slice_from(&self, m: &Mark) -> (r: &'a str)
        requires
            self.wf(),
            m.at(self.text(), m.index@),
            m.index@ <= self.index(),
        ensures
            r@ == self.text().subrange(m.index@, self.index()),
    {
        let head = str_head(self.src, self.pos, Ghost(self.index@));
        proof {
            assert(self.src@.take(self.index@).take(m.index@) =~= self.src@.take(m.index@));
        }
        let r = str_tail(head, m.pos, Ghost(m.index@));
        proof {
            assert(self.src@.take(self.index@).skip(m.index@) =~= self.src@.subrange(
                m.index@,
                self.index@,
            ));
        }
        r
    }
}

} // verus!
