//! Attribute productions: `name = <identifier> ;`, `vlen = <number> ;` and
//! `timeout_cycle = <number> ;`, and the number production they share.

use vstd::prelude::*;
use crate::marker::LabelCompletion;
use crate::position::{Cursor, Position, Range, pos_le, pos_lt};
use crate::token::{Token, TokenKind, lemma_tok_end_bounds, scan_token, tok_end};

verus! {

/// A numeric literal: a hexadecimal literal tried first, a decimal literal
/// otherwise.
#[derive(Debug)]
pub enum Number {
    HexNumber(Token),
    DecNumber(Token),
}

/// End of the number production at offset `i`: the hexadecimal alternative
/// wins if it matches, else the decimal one.
pub open spec fn m_number(s: Seq<char>, i: int) -> Option<int> {
    if tok_end(s, i, TokenKind::HexNumber) is Some {
        tok_end(s, i, TokenKind::HexNumber)
    } else {
        tok_end(s, i, TokenKind::DecNumber)
    }
}

impl Number {
    /// The inner terminal token.
    pub open spec fn spec_token(&self) -> Token {
        match self {
            Number::HexNumber(t) => *t,
            Number::DecNumber(t) => *t,
        }
    }

    /// The node records an untagged, well-formed literal token, of the
    /// variant the ordered choice picks at its start offset.
    pub open spec fn wf(&self, s: Seq<char>) -> bool {
        match self {
            Number::HexNumber(t) => t.wf(s) && t.kind == TokenKind::HexNumber && t.label
                == LabelCompletion::Unlabeled,
            Number::DecNumber(t) => t.wf(s) && t.kind == TokenKind::DecNumber && t.label
                == LabelCompletion::Unlabeled && tok_end(
                s,
                t.start as int,
                TokenKind::HexNumber,
            ) is None,
        }
    }

    pub open spec fn spec_start(&self) -> int {
        self.spec_token().start as int
    }

    pub open spec fn spec_end(&self) -> int {
        self.spec_token().end as int
    }

    /// The range of the inner token.
    pub fn range(&self) -> (r: Range)
        ensures
            r == self.spec_token().range,
    {
        match self {
            Number::HexNumber(t) => t.range,
            Number::DecNumber(t) => t.range,
        }
    }

    /// Delegates to the inner terminal token.
    pub fn query(&self, pos: Position) -> (r: Option<&Token>)
        ensures
            r matches Some(t) ==> q_number(*self, pos) == Some(*t),
            r is None <==> q_number(*self, pos) is None,
    {
        match self {
            Number::HexNumber(t) => t.query(pos),
            Number::DecNumber(t) => t.query(pos),
        }
    }
}

/// Query mirror for the number production: the inner token answers.
pub open spec fn q_number(n: Number, pos: Position) -> Option<Token> {
    if n.spec_token().range.spec_contains(pos) {
        Some(n.spec_token())
    } else {
        Option::None
    }
}

/// Parses a number at the cursor: a hexadecimal literal, or else a decimal
/// literal. Fails exactly when neither matches.
pub fn number(src: &Vec<char>, cur: Cursor) -> (r: Option<(Number, Cursor)>)
    requires
        cur.wf(src@),
    ensures
        r is Some <==> m_number(src@, cur.off as int) is Some,
        r matches Some((n, c2)) ==> ({
            &&& n.wf(src@)
            &&& n.spec_start() == cur.off
            &&& c2.wf(src@)
            &&& c2.off == n.spec_end()
            &&& m_number(src@, cur.off as int) == Some(n.spec_end())
        }),
{
    match scan_token(src, cur, TokenKind::HexNumber, LabelCompletion::Unlabeled) {
        Some((t, c2)) => Some((Number::HexNumber(t), c2)),
        None => match scan_token(src, cur, TokenKind::DecNumber, LabelCompletion::Unlabeled) {
            Some((t, c2)) => Some((Number::DecNumber(t), c2)),
            None => None,
        },
    }
}

/// The `name` attribute: `name = <identifier> ;`, the semicolon tagged for
/// attribute completion.
#[derive(Debug)]
pub struct Name {
    pub range: Range,
    pub pragma: Token,
    pub equal: Token,
    pub identifier: Token,
    pub semicolon: Token,
}

/// End of the name attribute at offset `i`: the `name` keyword, `=`, an
/// identifier and `;`, in sequence, each with its trailing trivia.
pub open spec fn m_name(s: Seq<char>, i: int) -> Option<int> {
    match tok_end(s, i, TokenKind::Name) {
        Some(a) => match tok_end(s, a, TokenKind::Equal) {
            Some(b) => match tok_end(s, b, TokenKind::Identifier) {
                Some(c) => tok_end(s, c, TokenKind::Semicolon),
                Option::None => Option::None,
            },
            Option::None => Option::None,
        },
        Option::None => Option::None,
    }
}

impl Name {
    /// The four tokens are well formed, carry the configured tags, sit one
    /// after the other, and the node's range covers them exactly.
    pub open spec fn wf(&self, s: Seq<char>) -> bool {
        &&& self.pragma.wf(s) && self.pragma.kind == TokenKind::Name && self.pragma.label
            == LabelCompletion::Unlabeled
        &&& self.equal.wf(s) && self.equal.kind == TokenKind::Equal && self.equal.label
            == LabelCompletion::Unlabeled && self.equal.start == self.pragma.end
        &&& self.identifier.wf(s) && self.identifier.kind == TokenKind::Identifier
            && self.identifier.label == LabelCompletion::Unlabeled && self.identifier.start
            == self.equal.end
        &&& self.semicolon.wf(s) && self.semicolon.kind == TokenKind::Semicolon
            && self.semicolon.label == LabelCompletion::Attribute && self.semicolon.start
            == self.identifier.end
        &&& self.range.start == self.pragma.range.start
        &&& self.range.end == self.semicolon.range.end
    }

    pub open spec fn spec_start(&self) -> int {
        self.pragma.start as int
    }

    pub open spec fn spec_end(&self) -> int {
        self.semicolon.end as int
    }

    pub fn range(&self) -> (r: Range)
        ensures
            r == self.range,
    {
        self.range
    }

    /// Resolves a position inside this attribute to the terminal token that
    /// contains it, trying the four tokens in source order.
    pub fn query(&self, pos: Position) -> (r: Option<&Token>)
        ensures
            r matches Some(t) ==> q_name(*self, pos) == Some(*t),
            r is None <==> q_name(*self, pos) is None,
    {
        if self.range.contains(pos) {
            match self.pragma.query(pos) {
                Some(t) => Some(t),
                None => match self.equal.query(pos) {
                    Some(t) => Some(t),
                    None => match self.identifier.query(pos) {
                        Some(t) => Some(t),
                        None => self.semicolon.query(pos),
                    },
                },
            }
        } else {
            None
        }
    }
}

/// Query mirror for the name attribute: inside the node's range, the first
/// of its four tokens that contains the position answers.
pub open spec fn q_name(a: Name, pos: Position) -> Option<Token> {
    if a.range.spec_contains(pos) {
        if a.pragma.range.spec_contains(pos) {
            Some(a.pragma)
        } else if a.equal.range.spec_contains(pos) {
            Some(a.equal)
        } else if a.identifier.range.spec_contains(pos) {
            Some(a.identifier)
        } else if a.semicolon.range.spec_contains(pos) {
            Some(a.semicolon)
        } else {
            Option::None
        }
    } else {
        Option::None
    }
}

/// Parses a name attribute at the cursor. Fails exactly when the sequence
/// `name = <identifier> ;` does not match there.
pub fn name(src: &Vec<char>, cur: Cursor) -> (r: Option<(Name, Cursor)>)
    requires
        cur.wf(src@),
    ensures
        r is Some <==> m_name(src@, cur.off as int) is Some,
        r matches Some((a, c2)) ==> ({
            &&& a.wf(src@)
            &&& a.spec_start() == cur.off
            &&& c2.wf(src@)
            &&& c2.off == a.spec_end()
            &&& m_name(src@, cur.off as int) == Some(a.spec_end())
        }),
{
    let (pragma, c1) = match scan_token(src, cur, TokenKind::Name, LabelCompletion::Unlabeled) {
        Some(x) => x,
        None => {
            return None;
        },
    };
    let (equal, c2) = match scan_token(src, c1, TokenKind::Equal, LabelCompletion::Unlabeled) {
        Some(x) => x,
        None => {
            return None;
        },
    };
    let (identifier, c3) = match scan_token(
        src,
        c2,
        TokenKind::Identifier,
        LabelCompletion::Unlabeled,
    ) {
        Some(x) => x,
        None => {
            return None;
        },
    };
    let (semicolon, c4) = match scan_token(
        src,
        c3,
        TokenKind::Semicolon,
        LabelCompletion::Attribute,
    ) {
        Some(x) => x,
        None => {
            return None;
        },
    };
    let range = Range { start: pragma.range.start, end: semicolon.range.end };
    Some((Name { range, pragma, equal, identifier, semicolon }, c4))
}

/// The `vlen` attribute: `vlen = <number> ;`, the semicolon tagged for
/// attribute completion.
#[derive(Debug)]
pub struct Vlen {
    pub range: Range,
    pub pragma: Token,
    pub equal: Token,
    pub length: Number,
    pub semicolon: Token,
}

/// End of the vlen attribute at offset `i`: the `vlen` keyword, `=`, a
/// number and `;`, in sequence.
pub open spec fn m_vlen(s: Seq<char>, i: int) -> Option<int> {
    match tok_end(s, i, TokenKind::Vlen) {
        Some(a) => match tok_end(s, a, TokenKind::Equal) {
            Some(b) => match m_number(s, b) {
                Some(c) => tok_end(s, c, TokenKind::Semicolon),
                Option::None => Option::None,
            },
            Option::None => Option::None,
        },
        Option::None => Option::None,
    }
}

impl Vlen {
    /// As for the name attribute, with a number production in value
    /// position.
    pub open spec fn wf(&self, s: Seq<char>) -> bool {
        &&& self.pragma.wf(s) && self.pragma.kind == TokenKind::Vlen && self.pragma.label
            == LabelCompletion::Unlabeled
        &&& self.equal.wf(s) && self.equal.kind == TokenKind::Equal && self.equal.label
            == LabelCompletion::Unlabeled && self.equal.start == self.pragma.end
        &&& self.length.wf(s) && self.length.spec_start() == self.equal.end
        &&& self.semicolon.wf(s) && self.semicolon.kind == TokenKind::Semicolon
            && self.semicolon.label == LabelCompletion::Attribute && self.semicolon.start
            == self.length.spec_end()
        &&& self.range.start == self.pragma.range.start
        &&& self.range.end == self.semicolon.range.end
    }

    pub open spec fn spec_start(&self) -> int {
        self.pragma.start as int
    }

    pub open spec fn spec_end(&self) -> int {
        self.semicolon.end as int
    }

    pub fn range(&self) -> (r: Range)
        ensures
            r == self.range,
    {
        self.range
    }

    /// Resolves a position inside this attribute to the terminal token that
    /// contains it.
    pub fn query(&self, pos: Position) -> (r: Option<&Token>)
        ensures
            r matches Some(t) ==> q_vlen(*self, pos) == Some(*t),
            r is None <==> q_vlen(*self, pos) is None,
    {
        if self.range.contains(pos) {
            match self.pragma.query(pos) {
                Some(t) => Some(t),
                None => match self.equal.query(pos) {
                    Some(t) => Some(t),
                    None => match self.length.query(pos) {
                        Some(t) => Some(t),
                        None => self.semicolon.query(pos),
                    },
                },
            }
        } else {
            None
        }
    }
}

/// Query mirror for the vlen attribute.
pub open spec fn q_vlen(a: Vlen, pos: Position) -> Option<Token> {
    if a.range.spec_contains(pos) {
        if a.pragma.range.spec_contains(pos) {
            Some(a.pragma)
        } else if a.equal.range.spec_contains(pos) {
            Some(a.equal)
        } else if q_number(a.length, pos) is Some {
            q_number(a.length, pos)
        } else if a.semicolon.range.spec_contains(pos) {
            Some(a.semicolon)
        } else {
            Option::None
        }
    } else {
        Option::None
    }
}

/// Parses a vlen attribute at the cursor. Fails exactly when the sequence
/// `vlen = <number> ;` does not match there.
pub fn vlen(src: &Vec<char>, cur: Cursor) -> (r: Option<(Vlen, Cursor)>)
    requires
        cur.wf(src@),
    ensures
        r is Some <==> m_vlen(src@, cur.off as int) is Some,
        r matches Some((a, c2)) ==> ({
            &&& a.wf(src@)
            &&& a.spec_start() == cur.off
            &&& c2.wf(src@)
            &&& c2.off == a.spec_end()
            &&& m_vlen(src@, cur.off as int) == Some(a.spec_end())
        }),
{
    let (pragma, c1) = match scan_token(src, cur, TokenKind::Vlen, LabelCompletion::Unlabeled) {
        Some(x) => x,
        None => {
            return None;
        },
    };
    let (equal, c2) = match scan_token(src, c1, TokenKind::Equal, LabelCompletion::Unlabeled) {
        Some(x) => x,
        None => {
            return None;
        },
    };
    let (length, c3) = match number(src, c2) {
        Some(x) => x,
        None => {
            return None;
        },
    };
    let (semicolon, c4) = match scan_token(
        src,
        c3,
        TokenKind::Semicolon,
        LabelCompletion::Attribute,
    ) {
        Some(x) => x,
        None => {
            return None;
        },
    };
    let range = Range { start: pragma.range.start, end: semicolon.range.end };
    Some((Vlen { range, pragma, equal, length, semicolon }, c4))
}

/// The `timeout_cycle` attribute: `timeout_cycle = <number> ;`, the
/// semicolon tagged for attribute completion.
#[derive(Debug)]
pub struct TimeoutCycle {
    pub range: Range,
    pub pragma: Token,
    pub equal: Token,
    pub length: Number,
    pub semicolon: Token,
}

/// End of the timeout_cycle attribute at offset `i`.
pub open spec fn m_timeout_cycle(s: Seq<char>, i: int) -> Option<int> {
    match tok_end(s, i, TokenKind::TimeoutCycle) {
        Some(a) => match tok_end(s, a, TokenKind::Equal) {
            Some(b) => match m_number(s, b) {
                Some(c) => tok_end(s, c, TokenKind::Semicolon),
                Option::None => Option::None,
            },
            Option::None => Option::None,
        },
        Option::None => Option::None,
    }
}

impl TimeoutCycle {
    /// As for the vlen attribute, with the `timeout_cycle` keyword.
    pub open spec fn wf(&self, s: Seq<char>) -> bool {
        &&& self.pragma.wf(s) && self.pragma.kind == TokenKind::TimeoutCycle && self.pragma.label
            == LabelCompletion::Unlabeled
        &&& self.equal.wf(s) && self.equal.kind == TokenKind::Equal && self.equal.label
            == LabelCompletion::Unlabeled && self.equal.start == self.pragma.end
        &&& self.length.wf(s) && self.length.spec_start() == self.equal.end
        &&& self.semicolon.wf(s) && self.semicolon.kind == TokenKind::Semicolon
            && self.semicolon.label == LabelCompletion::Attribute && self.semicolon.start
            == self.length.spec_end()
        &&& self.range.start == self.pragma.range.start
        &&& self.range.end == self.semicolon.range.end
    }

    pub open spec fn spec_start(&self) -> int {
        self.pragma.start as int
    }

    pub open spec fn spec_end(&self) -> int {
        self.semicolon.end as int
    }

    pub fn range(&self) -> (r: Range)
        ensures
            r == self.range,
    {
        self.range
    }

    /// Resolves a position inside this attribute to the terminal token that
    /// contains it.
    pub fn query(&self, pos: Position) -> (r: Option<&Token>)
        ensures
            r matches Some(t) ==> q_timeout_cycle(*self, pos) == Some(*t),
            r is None <==> q_timeout_cycle(*self, pos) is None,
    {
        if self.range.contains(pos) {
            match self.pragma.query(pos) {
                Some(t) => Some(t),
                None => match self.equal.query(pos) {
                    Some(t) => Some(t),
                    None => match self.length.query(pos) {
                        Some(t) => Some(t),
                        None => self.semicolon.query(pos),
                    },
                },
            }
        } else {
            None
        }
    }
}

/// Query mirror for the timeout_cycle attribute.
pub open spec fn q_timeout_cycle(a: TimeoutCycle, pos: Position) -> Option<Token> {
    if a.range.spec_contains(pos) {
        if a.pragma.range.spec_contains(pos) {
            Some(a.pragma)
        } else if a.equal.range.spec_contains(pos) {
            Some(a.equal)
        } else if q_number(a.length, pos) is Some {
            q_number(a.length, pos)
        } else if a.semicolon.range.spec_contains(pos) {
            Some(a.semicolon)
        } else {
            Option::None
        }
    } else {
        Option::None
    }
}

/// Parses a timeout_cycle attribute at the cursor. Fails exactly when the
/// sequence `timeout_cycle = <number> ;` does not match there.
pub fn timeout_cycle(src: &Vec<char>, cur: Cursor) -> (r: Option<(TimeoutCycle, Cursor)>)
    requires
        cur.wf(src@),
    ensures
        r is Some <==> m_timeout_cycle(src@, cur.off as int) is Some,
        r matches Some((a, c2)) ==> ({
            &&& a.wf(src@)
            &&& a.spec_start() == cur.off
            &&& c2.wf(src@)
            &&& c2.off == a.spec_end()
            &&& m_timeout_cycle(src@, cur.off as int) == Some(a.spec_end())
        }),
{
    let (pragma, c1) = match scan_token(
        src,
        cur,
        TokenKind::TimeoutCycle,
        LabelCompletion::Unlabeled,
    ) {
        Some(x) => x,
        None => {
            return None;
        },
    };
    let (equal, c2) = match scan_token(src, c1, TokenKind::Equal, LabelCompletion::Unlabeled) {
        Some(x) => x,
        None => {
            return None;
        },
    };
    let (length, c3) = match number(src, c2) {
        Some(x) => x,
        None => {
            return None;
        },
    };
    let (semicolon, c4) = match scan_token(
        src,
        c3,
        TokenKind::Semicolon,
        LabelCompletion::Attribute,
    ) {
        Some(x) => x,
        None => {
            return None;
        },
    };
    let range = Range { start: pragma.range.start, end: semicolon.range.end };
    Some((TimeoutCycle { range, pragma, equal, length, semicolon }, c4))
}

/// A matched number makes strict progress and stays in bounds.
pub proof fn lemma_m_number_bounds(s: Seq<char>, i: int)
    requires
        0 <= i <= s.len(),
    ensures
        m_number(s, i) matches Some(j) ==> i < j <= s.len(),
{
    lemma_tok_end_bounds(s, i, TokenKind::HexNumber);
    lemma_tok_end_bounds(s, i, TokenKind::DecNumber);
}

/// A matched name attribute makes strict progress and stays in bounds.
pub proof fn lemma_m_name_bounds(s: Seq<char>, i: int)
    requires
        0 <= i <= s.len(),
    ensures
        m_name(s, i) matches Some(j) ==> i < j <= s.len(),
{
    lemma_tok_end_bounds(s, i, TokenKind::Name);
    match tok_end(s, i, TokenKind::Name) {
        Some(a) => {
            lemma_tok_end_bounds(s, a, TokenKind::Equal);
            match tok_end(s, a, TokenKind::Equal) {
                Some(b) => {
                    lemma_tok_end_bounds(s, b, TokenKind::Identifier);
                    match tok_end(s, b, TokenKind::Identifier) {
                        Some(c) => lemma_tok_end_bounds(s, c, TokenKind::Semicolon),
                        Option::None => (),
                    }
                },
                Option::None => (),
            }
        },
        Option::None => (),
    }
}

/// A matched vlen attribute makes strict progress and stays in bounds.
pub proof fn lemma_m_vlen_bounds(s: Seq<char>, i: int)
    requires
        0 <= i <= s.len(),
    ensures
        m_vlen(s, i) matches Some(j) ==> i < j <= s.len(),
{
    lemma_tok_end_bounds(s, i, TokenKind::Vlen);
    match tok_end(s, i, TokenKind::Vlen) {
        Some(a) => {
            lemma_tok_end_bounds(s, a, TokenKind::Equal);
            match tok_end(s, a, TokenKind::Equal) {
                Some(b) => {
                    lemma_m_number_bounds(s, b);
                    match m_number(s, b) {
                        Some(c) => lemma_tok_end_bounds(s, c, TokenKind::Semicolon),
                        Option::None => (),
                    }
                },
                Option::None => (),
            }
        },
        Option::None => (),
    }
}

/// A matched timeout_cycle attribute makes strict progress and stays in
/// bounds.
pub proof fn lemma_m_timeout_cycle_bounds(s: Seq<char>, i: int)
    requires
        0 <= i <= s.len(),
    ensures
        m_timeout_cycle(s, i) matches Some(j) ==> i < j <= s.len(),
{
    lemma_tok_end_bounds(s, i, TokenKind::TimeoutCycle);
    match tok_end(s, i, TokenKind::TimeoutCycle) {
        Some(a) => {
            lemma_tok_end_bounds(s, a, TokenKind::Equal);
            match tok_end(s, a, TokenKind::Equal) {
                Some(b) => {
                    lemma_m_number_bounds(s, b);
                    match m_number(s, b) {
                        Some(c) => lemma_tok_end_bounds(s, c, TokenKind::Semicolon),
                        Option::None => (),
                    }
                },
                Option::None => (),
            }
        },
        Option::None => (),
    }
}

} // verus!
