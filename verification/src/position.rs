//! Zero-based line/column positions, half-open ranges, and the mapping from
//! character offsets in a source buffer to positions.

use vstd::prelude::*;

verus! {

/// Position in a text document expressed as zero-based line and character
/// offset. A position sits between two characters, like an insert cursor in
/// an editor.
#[derive(Debug, PartialEq, Eq, Copy, Clone, Structural)]
pub struct Position {
    /// Line position in a document (zero-based).
    pub line: u32,
    /// Character offset on a line in a document (zero-based).
    pub character: u32,
}

/// Line-major strict order on positions.
pub open spec fn pos_lt(a: Position, b: Position) -> bool {
    a.line < b.line || (a.line == b.line && a.character < b.character)
}

/// Line-major order on positions, allowing equality.
pub open spec fn pos_le(a: Position, b: Position) -> bool {
    a.line < b.line || (a.line == b.line && a.character <= b.character)
}

impl Position {
    pub fn new(line: u32, character: u32) -> (r: Self)
        ensures
            r.line == line,
            r.character == character,
    {
        Position { line, character }
    }

    /// Strict line-major comparison.
    pub fn lt(&self, other: &Position) -> (r: bool)
        ensures
            r == pos_lt(*self, *other),
    {
        self.line < other.line || (self.line == other.line && self.character < other.character)
    }

    /// Line-major comparison, allowing equality.
    pub fn le(&self, other: &Position) -> (r: bool)
        ensures
            r == pos_le(*self, *other),
    {
        self.line < other.line || (self.line == other.line && self.character <= other.character)
    }
}

/// A range in a text document expressed as (zero-based) start and end
/// positions. A range is comparable to a selection in an editor, so the end
/// position is exclusive.
#[derive(Debug, PartialEq, Eq, Copy, Clone, Structural)]
pub struct Range {
    /// The range's start position.
    pub start: Position,
    /// The range's end position (exclusive).
    pub end: Position,
}

impl Range {
    /// Half-open containment: `start <= pos < end` in line-major order.
    pub open spec fn spec_contains(&self, pos: Position) -> bool {
        pos_le(self.start, pos) && pos_lt(pos, self.end)
    }

    pub fn contains(&self, pos: Position) -> (r: bool)
        ensures
            r == self.spec_contains(pos),
    {
        self.start.le(&pos) && pos.lt(&self.end)
    }
}

/// Number of line breaks (`'\n'`) in `s[0..n]`: the zero-based line of the
/// position just after the first `n` characters.
pub open spec fn line_at(s: Seq<char>, n: int) -> int
    decreases n,
{
    if n <= 0 {
        0
    } else if s[n - 1] == '\n' {
        line_at(s, n - 1) + 1
    } else {
        line_at(s, n - 1)
    }
}

/// Number of characters since the last `'\n'` in `s[0..n]`: the zero-based
/// column of the position just after the first `n` characters.
pub open spec fn col_at(s: Seq<char>, n: int) -> int
    decreases n,
{
    if n <= 0 {
        0
    } else if s[n - 1] == '\n' {
        0
    } else {
        col_at(s, n - 1) + 1
    }
}

/// The position just before the character at offset `n` of `s`.
pub open spec fn pos_at(s: Seq<char>, n: int) -> Position {
    Position { line: line_at(s, n) as u32, character: col_at(s, n) as u32 }
}

/// Line and column numbers never exceed the offset they are computed at.
pub proof fn lemma_line_col_bounds(s: Seq<char>, n: int)
    requires
        0 <= n,
    ensures
        0 <= line_at(s, n) <= n,
        0 <= col_at(s, n) <= n,
    decreases n,
{
    if n > 0 {
        lemma_line_col_bounds(s, n - 1);
    }
}

/// Advancing one character moves the position strictly forward in
/// line-major order.
pub proof fn lemma_pos_step(s: Seq<char>, n: int)
    requires
        0 <= n < s.len(),
        s.len() <= u32::MAX,
    ensures
        pos_lt(pos_at(s, n), pos_at(s, n + 1)),
        line_at(s, n) <= line_at(s, n + 1),
{
    lemma_line_col_bounds(s, n);
    lemma_line_col_bounds(s, n + 1);
}

/// The offset-to-position mapping is strictly monotone in line-major order.
pub proof fn lemma_pos_strict_mono(s: Seq<char>, a: int, b: int)
    requires
        0 <= a < b <= s.len(),
        s.len() <= u32::MAX,
    ensures
        pos_lt(pos_at(s, a), pos_at(s, b)),
    decreases b - a,
{
    lemma_pos_step(s, b - 1);
    if a < b - 1 {
        lemma_pos_strict_mono(s, a, b - 1);
        lemma_line_col_bounds(s, a);
        lemma_line_col_bounds(s, b - 1);
        lemma_line_col_bounds(s, b);
    }
}

/// The offset-to-position mapping is monotone in line-major order.
pub proof fn lemma_pos_mono(s: Seq<char>, a: int, b: int)
    requires
        0 <= a <= b <= s.len(),
        s.len() <= u32::MAX,
    ensures
        pos_le(pos_at(s, a), pos_at(s, b)),
{
    if a < b {
        lemma_pos_strict_mono(s, a, b);
    }
}

/// An exec cursor into a source buffer: a character offset together with the
/// line/column position it corresponds to.
#[derive(Debug, PartialEq, Eq, Copy, Clone, Structural)]
pub struct Cursor {
    pub off: usize,
    pub line: u32,
    pub character: u32,
}

impl Cursor {
    /// The cursor's offset agrees with its line/column bookkeeping.
    pub open spec fn wf(&self, s: Seq<char>) -> bool {
        &&& s.len() <= u32::MAX
        &&& self.off <= s.len()
        &&& self.line == line_at(s, self.off as int)
        &&& self.character == col_at(s, self.off as int)
    }

    pub open spec fn spec_pos(&self) -> Position {
        Position { line: self.line, character: self.character }
    }

    /// The cursor at the start of the buffer.
    pub fn start(src: &Vec<char>) -> (r: Cursor)
        requires
            src@.len() <= u32::MAX,
        ensures
            r.wf(src@),
            r.off == 0,
    {
        Cursor { off: 0, line: 0, character: 0 }
    }

    pub fn pos(&self) -> (r: Position)
        ensures
            r == self.spec_pos(),
    {
        Position { line: self.line, character: self.character }
    }
}

/// A well-formed cursor's position is the position of its offset.
pub proof fn lemma_cursor_pos(c: Cursor, s: Seq<char>)
    requires
        c.wf(s),
    ensures
        c.spec_pos() == pos_at(s, c.off as int),
{
    lemma_line_col_bounds(s, c.off as int);
}

/// Moves a cursor forward to offset `j`, updating the line/column
/// bookkeeping one character at a time.
pub fn advance_to(src: &Vec<char>, cur: Cursor, j: usize) -> (r: Cursor)
    requires
        cur.wf(src@),
        cur.off <= j <= src.len(),
    ensures
        r.wf(src@),
        r.off == j,
{
    let mut k = cur.off;
    let mut line = cur.line;
    let mut character = cur.character;
    while k < j
        invariant
            cur.off <= k <= j <= src.len(),
            src@.len() <= u32::MAX,
            line == line_at(src@, k as int),
            character == col_at(src@, k as int),
        decreases j - k,
    {
        proof {
            lemma_line_col_bounds(src@, k as int + 1);
        }
        if src[k] == '\n' {
            line = line + 1;
            character = 0;
        } else {
            character = character + 1;
        }
        k = k + 1;
    }
    Cursor { off: j, line, character }
}

} // verus!
