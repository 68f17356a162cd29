//! Terminal tokens: the parameterized token constructor, its matching rules,
//! and the laws of the literal classes.

use vstd::prelude::*;
use crate::chars::{
    CharClass, char_in_class, is_hex_digit_char, is_ident_start_char, is_nonzero_digit_char,
    lemma_run_end, run_end,
};
use crate::marker::LabelCompletion;
use crate::position::{
    Cursor, Position, Range, advance_to, lemma_cursor_pos, lemma_pos_strict_mono, pos_at,
};
use crate::trivia::{
    TriviaSpan, concat_spans, lemma_trivia_concat, lemma_trivia_progress, spacing, trivia_end,
    trivia_list,
};

verus! {

/// The terminal symbols of the grammar.
#[derive(Debug, PartialEq, Eq, Copy, Clone, Structural)]
pub enum TokenKind {
    Cpu,
    Config,
    TimeoutCycle,
    Name,
    Vlen,
    LeftBrace,
    RightBrace,
    Equal,
    Semicolon,
    Identifier,
    HexNumber,
    DecNumber,
}

/// The literal a fixed-text terminal matches; empty for the three terminals
/// matched by character class instead.
pub open spec fn lit_chars(k: TokenKind) -> Seq<char> {
    match k {
        TokenKind::Cpu => seq!['c', 'p', 'u'],
        TokenKind::Config => seq!['c', 'o', 'n', 'f', 'i', 'g'],
        TokenKind::TimeoutCycle => seq![
            't', 'i', 'm', 'e', 'o', 'u', 't', '_', 'c', 'y', 'c', 'l', 'e',
        ],
        TokenKind::Name => seq!['n', 'a', 'm', 'e'],
        TokenKind::Vlen => seq!['v', 'l', 'e', 'n'],
        TokenKind::LeftBrace => seq!['{'],
        TokenKind::RightBrace => seq!['}'],
        TokenKind::Equal => seq!['='],
        TokenKind::Semicolon => seq![';'],
        TokenKind::Identifier => Seq::empty(),
        TokenKind::HexNumber => Seq::empty(),
        TokenKind::DecNumber => Seq::empty(),
    }
}

/// End of the matched text of a terminal of kind `k` at offset `i`, or
/// `None` when the terminal does not match there.
///
/// - `Identifier` is an ASCII letter or `'_'` followed by letters, digits
///   and `'_'`, maximally.
/// - `HexNumber` is `0x` or `0X` followed by at least one hexadecimal
///   digit, maximally.
/// - `DecNumber` is a digit `1`-`9` followed by digits, maximally; a
///   leading `'0'` is rejected.
/// - Every other kind matches its fixed literal.
pub open spec fn match_end(s: Seq<char>, i: int, k: TokenKind) -> Option<int> {
    match k {
        TokenKind::Identifier => if i < s.len() && is_ident_start_char(s[i]) {
            Some(run_end(s, i + 1, CharClass::IdentCont))
        } else {
            Option::None
        },
        TokenKind::HexNumber => if i + 3 <= s.len() && s[i] == '0' && (s[i + 1] == 'x' || s[i + 1]
            == 'X') && is_hex_digit_char(s[i + 2]) {
            Some(run_end(s, i + 2, CharClass::HexDigit))
        } else {
            Option::None
        },
        TokenKind::DecNumber => if i < s.len() && is_nonzero_digit_char(s[i]) {
            Some(run_end(s, i + 1, CharClass::Digit))
        } else {
            Option::None
        },
        _ => {
            let l = lit_chars(k);
            if i + l.len() <= s.len() && s.subrange(i, i + l.len()) == l {
                Some(i + l.len())
            } else {
                Option::None
            }
        },
    }
}

/// A matched terminal is never empty and stays in bounds.
pub proof fn lemma_match_end_bounds(s: Seq<char>, i: int, k: TokenKind)
    requires
        0 <= i <= s.len(),
    ensures
        match_end(s, i, k) matches Some(te) ==> i < te <= s.len(),
{
    match k {
        TokenKind::Identifier => {
            if i < s.len() && is_ident_start_char(s[i]) {
                lemma_run_end(s, i + 1, CharClass::IdentCont);
            }
        },
        TokenKind::HexNumber => {
            if i + 3 <= s.len() && s[i] == '0' && (s[i + 1] == 'x' || s[i + 1] == 'X')
                && is_hex_digit_char(s[i + 2]) {
                assert(run_end(s, i + 2, CharClass::HexDigit) == run_end(
                    s,
                    i + 3,
                    CharClass::HexDigit,
                ));
                lemma_run_end(s, i + 3, CharClass::HexDigit);
            }
        },
        TokenKind::DecNumber => {
            if i < s.len() && is_nonzero_digit_char(s[i]) {
                lemma_run_end(s, i + 1, CharClass::Digit);
            }
        },
        _ => {},
    }
}

/// End of a terminal of kind `k` at offset `i` after its trailing trivia, or
/// `None` when the terminal does not match there.
pub open spec fn tok_end(s: Seq<char>, i: int, k: TokenKind) -> Option<int> {
    match match_end(s, i, k) {
        Some(te) => Some(trivia_end(s, te)),
        Option::None => Option::None,
    }
}

/// A token together with its trivia is never empty and stays in bounds; its
/// matched text ends where its trivia begins.
pub proof fn lemma_tok_end_bounds(s: Seq<char>, i: int, k: TokenKind)
    requires
        0 <= i <= s.len(),
    ensures
        tok_end(s, i, k) matches Some(e) ==> i < e <= s.len(),
        tok_end(s, i, k) is Some <==> match_end(s, i, k) is Some,
        tok_end(s, i, k) matches Some(e) ==> (match_end(s, i, k) matches Some(te) && i < te <= e),
{
    lemma_match_end_bounds(s, i, k);
    match match_end(s, i, k) {
        Some(te) => lemma_trivia_progress(s, te),
        Option::None => (),
    }
}

/// A terminal token of the concrete syntax tree: the matched text, the
/// trailing trivia attached to it, the exact span both cover, and the
/// completion tag configured by the production that created it.
///
/// `start`, `text_end` and `end` are character offsets into the source
/// buffer: the matched text is `[start, text_end)` and the trivia covers
/// `[text_end, end)`. `range` is the same span `[start, end)` as line/column
/// positions.
#[derive(Debug)]
pub struct Token {
    pub kind: TokenKind,
    pub label: LabelCompletion,
    pub start: usize,
    pub text_end: usize,
    pub end: usize,
    pub range: Range,
    pub trivia: Vec<TriviaSpan>,
}

impl Token {
    /// The token records exactly what the scanner produces at `start`: its
    /// kind matches there, the trivia list is the canonical one, and the
    /// range mirrors the offsets.
    pub open spec fn wf(&self, s: Seq<char>) -> bool {
        &&& s.len() <= u32::MAX
        &&& match_end(s, self.start as int, self.kind) == Some(self.text_end as int)
        &&& self.start < self.text_end <= self.end <= s.len()
        &&& self.end == trivia_end(s, self.text_end as int)
        &&& self.trivia@ == trivia_list(s, self.text_end as int)
        &&& self.range.start == pos_at(s, self.start as int)
        &&& self.range.end == pos_at(s, self.end as int)
    }

    /// The token's matched text: the source slice before the trailing
    /// trivia.
    pub open spec fn spec_text(&self, s: Seq<char>) -> Seq<char> {
        s.subrange(self.start as int, self.text_end as int)
    }

    /// The range of this token in the parsed input.
    pub fn range(&self) -> (r: Range)
        ensures
            r == self.range,
    {
        self.range
    }

    /// Copies the token's matched text out of the source buffer.
    pub fn text(&self, src: &Vec<char>) -> (r: Vec<char>)
        requires
            self.wf(src@),
        ensures
            r@ == self.spec_text(src@),
    {
        copy_slice(src, self.start, self.text_end)
    }

    /// Queries whether `pos` sits inside this token's range. Terminals never
    /// delegate further: the token itself is the answer, or a miss.
    pub fn query(&self, pos: Position) -> (r: Option<&Token>)
        ensures
            r == if self.range.spec_contains(pos) {
                Some(self)
            } else {
                Option::<&Token>::None
            },
    {
        if self.range.contains(pos) {
            Some(self)
        } else {
            None
        }
    }

    /// Returns a list of possible autocompletion suggestions for this
    /// token, based on its completion tag.
    pub fn show_completions(&self) -> (r: Vec<&'static str>)
        ensures
            (self.label matches LabelCompletion::Unlabeled) ==> r@.len() == 0,
            (self.label matches LabelCompletion::Statement) ==> r@.map_values(
                |t: &'static str| t@,
            ) == crate::marker::statement_completion_labels(),
            (self.label matches LabelCompletion::Attribute) ==> r@.map_values(
                |t: &'static str| t@,
            ) == crate::marker::attribute_completion_labels(),
    {
        self.label.completion()
    }
}

/// Copies the slice `[a, b)` of the buffer.
pub fn copy_slice(src: &Vec<char>, a: usize, b: usize) -> (r: Vec<char>)
    requires
        a <= b <= src.len(),
    ensures
        r@ == src@.subrange(a as int, b as int),
{
    let mut r: Vec<char> = Vec::new();
    let mut k = a;
    while k < b
        invariant
            a <= k <= b <= src.len(),
            r@ == src@.subrange(a as int, k as int),
        decreases b - k,
    {
        r.push(src[k]);
        proof {
            assert(src@.subrange(a as int, k as int).push(src@[k as int]) =~= src@.subrange(
                a as int,
                k as int + 1,
            ));
        }
        k = k + 1;
    }
    r
}

/// Whether the buffer holds the characters of `lit` starting at offset `i`.
fn match_lit(src: &Vec<char>, i: usize, lit: &Vec<char>) -> (r: bool)
    requires
        i <= src.len(),
    ensures
        r == (i + lit@.len() <= src@.len() && src@.subrange(i as int, i as int + lit@.len() as int)
            == lit@),
{
    let n = src.len();
    if lit.len() > n - i {
        return false;
    }
    let mut k: usize = 0;
    while k < lit.len()
        invariant
            0 <= k <= lit@.len(),
            i + lit@.len() <= n,
            n == src@.len(),
            forall|j: int| 0 <= j < k ==> src@[i + j] == lit@[j],
        decreases lit@.len() - k,
    {
        if src[i + k] != lit[k] {
            proof {
                let full = src@.subrange(i as int, i as int + lit@.len() as int);
                assert(full[k as int] != lit@[k as int]);
            }
            return false;
        }
        k = k + 1;
    }
    proof {
        assert(src@.subrange(i as int, i as int + lit@.len() as int) =~= lit@);
    }
    true
}

/// Builds the literal a fixed-text terminal matches.
fn lit_of(k: TokenKind) -> (v: Vec<char>)
    ensures
        v@ == lit_chars(k),
{
    let mut v: Vec<char> = Vec::new();
    match k {
        TokenKind::Cpu => {
            v.push('c');
            v.push('p');
            v.push('u');
        },
        TokenKind::Config => {
            v.push('c');
            v.push('o');
            v.push('n');
            v.push('f');
            v.push('i');
            v.push('g');
        },
        TokenKind::TimeoutCycle => {
            v.push('t');
            v.push('i');
            v.push('m');
            v.push('e');
            v.push('o');
            v.push('u');
            v.push('t');
            v.push('_');
            v.push('c');
            v.push('y');
            v.push('c');
            v.push('l');
            v.push('e');
        },
        TokenKind::Name => {
            v.push('n');
            v.push('a');
            v.push('m');
            v.push('e');
        },
        TokenKind::Vlen => {
            v.push('v');
            v.push('l');
            v.push('e');
            v.push('n');
        },
        TokenKind::LeftBrace => {
            v.push('{');
        },
        TokenKind::RightBrace => {
            v.push('}');
        },
        TokenKind::Equal => {
            v.push('=');
        },
        TokenKind::Semicolon => {
            v.push(';');
        },
        TokenKind::Identifier => {},
        TokenKind::HexNumber => {},
        TokenKind::DecNumber => {},
    }
    proof {
        assert(v@ =~= lit_chars(k));
    }
    v
}

/// Finds the end of the matched text of a terminal of kind `k` at offset
/// `i`. Fails exactly when the terminal does not match there.
fn scan_text(src: &Vec<char>, i: usize, k: TokenKind) -> (r: Option<usize>)
    requires
        i <= src.len(),
    ensures
        r is Some <==> match_end(src@, i as int, k) is Some,
        r matches Some(te) ==> match_end(src@, i as int, k) == Some(te as int) && i < te
            <= src.len(),
{
    proof {
        lemma_match_end_bounds(src@, i as int, k);
    }
    match k {
        TokenKind::Identifier => {
            if i < src.len() && char_is_ident_start(src[i]) {
                Some(crate::chars::scan_run(src, i + 1, CharClass::IdentCont))
            } else {
                None
            }
        },
        TokenKind::HexNumber => {
            if i < src.len() && src[i] == '0' && i + 1 < src.len() && (src[i + 1] == 'x' || src[i
                + 1] == 'X') && i + 2 < src.len() && char_in_class(CharClass::HexDigit, src[i + 2]) {
                Some(crate::chars::scan_run(src, i + 2, CharClass::HexDigit))
            } else {
                None
            }
        },
        TokenKind::DecNumber => {
            if i < src.len() && char_is_nonzero_digit(src[i]) {
                Some(crate::chars::scan_run(src, i + 1, CharClass::Digit))
            } else {
                None
            }
        },
        _ => {
            let lit = lit_of(k);
            if match_lit(src, i, &lit) {
                Some(i + lit.len())
            } else {
                None
            }
        },
    }
}

/// Executable test for an identifier's first character.
fn char_is_ident_start(c: char) -> (r: bool)
    ensures
        r == is_ident_start_char(c),
{
    let u = c as u32;
    (97 <= u && u <= 122) || (65 <= u && u <= 90) || c == '_'
}

/// Executable test for a digit `1`-`9`.
fn char_is_nonzero_digit(c: char) -> (r: bool)
    ensures
        r == is_nonzero_digit_char(c),
{
    let u = c as u32;
    49 <= u && u <= 57
}

/// The parameterized terminal-token constructor: matches a terminal of kind
/// `kind` at the cursor, consumes the trailing trivia, records the exact
/// span, and attaches the completion tag `label` chosen by the caller.
/// Fails exactly when the terminal does not match at the cursor.
pub fn scan_token(src: &Vec<char>, cur: Cursor, kind: TokenKind, label: LabelCompletion) -> (r:
    Option<(Token, Cursor)>)
    requires
        cur.wf(src@),
    ensures
        r is Some <==> tok_end(src@, cur.off as int, kind) is Some,
        r matches Some((t, c2)) ==> ({
            &&& t.wf(src@)
            &&& t.kind == kind
            &&& t.label == label
            &&& t.start == cur.off
            &&& c2.wf(src@)
            &&& c2.off == t.end
            &&& tok_end(src@, cur.off as int, kind) == Some(t.end as int)
        }),
{
    proof {
        lemma_tok_end_bounds(src@, cur.off as int, kind);
    }
    match scan_text(src, cur.off, kind) {
        Some(te) => {
            let (trivia, end) = spacing(src, te);
            let c2 = advance_to(src, cur, end);
            proof {
                lemma_cursor_pos(cur, src@);
                lemma_cursor_pos(c2, src@);
            }
            let t = Token {
                kind,
                label,
                start: cur.off,
                text_end: te,
                end,
                range: Range { start: cur.pos(), end: c2.pos() },
                trivia,
            };
            Some((t, c2))
        },
        None => None,
    }
}

/// A token's range is never empty: its start position lies strictly before
/// its end position.
pub proof fn lemma_token_nonempty(t: Token, s: Seq<char>)
    requires
        t.wf(s),
    ensures
        crate::position::pos_lt(t.range.start, t.range.end),
{
    lemma_pos_strict_mono(s, t.start as int, t.end as int);
}

/// Concatenating a token's matched text with its trailing trivia spans, in
/// order, exactly reproduces the consumed source slice between the token's
/// start and end offsets.
pub proof fn lemma_token_round_trip(t: Token, s: Seq<char>)
    requires
        t.wf(s),
    ensures
        t.spec_text(s) + concat_spans(s, t.trivia@) == s.subrange(t.start as int, t.end as int),
{
    lemma_trivia_concat(s, t.text_end as int);
    assert(s.subrange(t.start as int, t.text_end as int) + s.subrange(
        t.text_end as int,
        t.end as int,
    ) =~= s.subrange(t.start as int, t.end as int));
}

/// A decimal literal rejects any text with a leading `'0'`: the bare string
/// `"0"` as well as any longer string starting with `'0'`.
pub proof fn lemma_dec_rejects_leading_zero(s: Seq<char>, i: int)
    requires
        0 <= i < s.len(),
        s[i] == '0',
    ensures
        match_end(s, i, TokenKind::DecNumber) is None,
{
}

/// A hexadecimal literal accepts `0x` or `0X` followed by at least one
/// hexadecimal digit.
pub proof fn lemma_hex_accepts(s: Seq<char>, i: int)
    requires
        0 <= i,
        i + 3 <= s.len(),
        s[i] == '0',
        s[i + 1] == 'x' || s[i + 1] == 'X',
        is_hex_digit_char(s[i + 2]),
    ensures
        match_end(s, i, TokenKind::HexNumber) is Some,
{
}

/// A hexadecimal literal rejects `0x` alone: without a following
/// hexadecimal digit there is no match.
pub proof fn lemma_hex_rejects_bare_prefix(s: Seq<char>, i: int)
    requires
        0 <= i,
        i + 2 <= s.len(),
        i + 3 <= s.len() ==> !is_hex_digit_char(s[i + 2]),
    ensures
        match_end(s, i, TokenKind::HexNumber) is None,
{
}

} // verus!
