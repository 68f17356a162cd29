//! Trailing trivia: line comments and whitespace runs attached to the token
//! that precedes them. The scanner records raw spans so that the consumed
//! source text can be reconstructed exactly.

use vstd::prelude::*;
use crate::chars::{
    CharClass, char_in_class, is_line_break_char, is_space_char, lemma_run_end, run_end, scan_run,
};

verus! {

/// What a single trivia span holds.
#[derive(Debug, PartialEq, Eq, Copy, Clone, Structural)]
pub enum TriviaKind {
    /// A line comment, from `//` up to and including the optional line
    /// terminator.
    Comment,
    /// A maximal run of space, tab and line terminator characters.
    Whitespace,
    /// The degenerate empty span recorded when the scanner is called at the
    /// very end of the input.
    EndOfInput,
}

/// A raw span of trivia: a half-open range of character offsets.
#[derive(Debug, PartialEq, Eq, Copy, Clone, Structural)]
pub struct TriviaSpan {
    pub start: usize,
    pub end: usize,
    pub kind: TriviaKind,
}

/// A line comment starts at offset `i`.
pub open spec fn comment_starts(s: Seq<char>, i: int) -> bool {
    i + 2 <= s.len() && s[i] == '/' && s[i + 1] == '/'
}

/// End of the optional line terminator at offset `i`: `\r\n`, `\r` or `\n`
/// if present, nothing otherwise.
pub open spec fn eol_end(s: Seq<char>, i: int) -> int {
    if i + 2 <= s.len() && s[i] == '\r' && s[i + 1] == '\n' {
        i + 2
    } else if i < s.len() && is_line_break_char(s[i]) {
        i + 1
    } else {
        i
    }
}

/// End of the line comment starting at offset `i`: the `//` marker, the body
/// up to a line terminator, and the terminator itself if present.
pub open spec fn comment_end(s: Seq<char>, i: int) -> int {
    eol_end(s, run_end(s, i + 2, CharClass::NotLineBreak))
}

/// A comment span stays in bounds and is never empty.
pub proof fn lemma_comment_end(s: Seq<char>, i: int)
    requires
        0 <= i,
        comment_starts(s, i),
    ensures
        i + 2 <= comment_end(s, i) <= s.len(),
{
    lemma_run_end(s, i + 2, CharClass::NotLineBreak);
}

/// End of the run of trivia starting at offset `i`.
pub open spec fn trivia_end(s: Seq<char>, i: int) -> int
    decreases s.len() - i when 0 <= i <= s.len()
{
    if comment_starts(s, i) {
        let e = comment_end(s, i);
        if i < e <= s.len() {
            trivia_end(s, e)
        } else {
            i
        }
    } else if i < s.len() && is_space_char(s[i]) {
        let e = run_end(s, i, CharClass::Space);
        if i < e <= s.len() {
            trivia_end(s, e)
        } else {
            i
        }
    } else {
        i
    }
}

/// The trivia spans between offset `i` and `trivia_end(s, i)`, in source
/// order. Does not include the end-of-input sentinel.
pub open spec fn trivia_runs(s: Seq<char>, i: int) -> Seq<TriviaSpan>
    decreases s.len() - i when 0 <= i <= s.len()
{
    if comment_starts(s, i) {
        let e = comment_end(s, i);
        if i < e <= s.len() {
            seq![TriviaSpan { start: i as usize, end: e as usize, kind: TriviaKind::Comment }]
                + trivia_runs(s, e)
        } else {
            Seq::empty()
        }
    } else if i < s.len() && is_space_char(s[i]) {
        let e = run_end(s, i, CharClass::Space);
        if i < e <= s.len() {
            seq![TriviaSpan { start: i as usize, end: e as usize, kind: TriviaKind::Whitespace }]
                + trivia_runs(s, e)
        } else {
            Seq::empty()
        }
    } else {
        Seq::empty()
    }
}

/// What the trivia scanner records when called at offset `i`: the runs of
/// comments and whitespace, or the single end-of-input sentinel when `i` is
/// already at the end.
pub open spec fn trivia_list(s: Seq<char>, i: int) -> Seq<TriviaSpan> {
    if i >= s.len() {
        seq![TriviaSpan { start: i as usize, end: i as usize, kind: TriviaKind::EndOfInput }]
    } else {
        trivia_runs(s, i)
    }
}

/// The trivia scanner stays in bounds, and makes strict progress whenever
/// the character at the scan position opens a comment or is whitespace.
pub proof fn lemma_trivia_progress(s: Seq<char>, i: int)
    requires
        0 <= i <= s.len(),
    ensures
        i <= trivia_end(s, i) <= s.len(),
        comment_starts(s, i) || (i < s.len() && is_space_char(s[i])) ==> trivia_end(s, i) > i,
    decreases s.len() - i,
{
    if comment_starts(s, i) {
        lemma_comment_end(s, i);
        lemma_trivia_progress(s, comment_end(s, i));
    } else if i < s.len() && is_space_char(s[i]) {
        lemma_run_end(s, i, CharClass::Space);
        let e = run_end(s, i, CharClass::Space);
        assert(e > i) by {
            assert(run_end(s, i, CharClass::Space) == run_end(s, i + 1, CharClass::Space));
            lemma_run_end(s, i + 1, CharClass::Space);
        }
        lemma_trivia_progress(s, e);
    }
}

/// Concatenation, in order, of the source slices the given spans cover.
pub open spec fn concat_spans(s: Seq<char>, spans: Seq<TriviaSpan>) -> Seq<char>
    decreases spans.len(),
{
    if spans.len() == 0 {
        Seq::empty()
    } else {
        s.subrange(spans[0].start as int, spans[0].end as int) + concat_spans(s, spans.drop_first())
    }
}

/// The recorded trivia runs exactly cover the consumed slice: concatenating
/// them reproduces the source text between the scan start and the scan end.
pub proof fn lemma_trivia_runs_concat(s: Seq<char>, i: int)
    requires
        0 <= i <= s.len(),
        s.len() <= u32::MAX,
    ensures
        concat_spans(s, trivia_runs(s, i)) == s.subrange(i, trivia_end(s, i)),
    decreases s.len() - i,
{
    lemma_trivia_progress(s, i);
    if comment_starts(s, i) || (i < s.len() && is_space_char(s[i])) {
        let e = if comment_starts(s, i) {
            comment_end(s, i)
        } else {
            run_end(s, i, CharClass::Space)
        };
        let k = if comment_starts(s, i) {
            TriviaKind::Comment
        } else {
            TriviaKind::Whitespace
        };
        if comment_starts(s, i) {
            lemma_comment_end(s, i);
        } else {
            lemma_run_end(s, i, CharClass::Space);
            assert(run_end(s, i, CharClass::Space) == run_end(s, i + 1, CharClass::Space));
            lemma_run_end(s, i + 1, CharClass::Space);
        }
        lemma_trivia_runs_concat(s, e);
        lemma_trivia_progress(s, e);
        let sp = TriviaSpan { start: i as usize, end: e as usize, kind: k };
        let rest = trivia_runs(s, e);
        assert(trivia_runs(s, i) == seq![sp] + rest);
        assert((seq![sp] + rest).drop_first() =~= rest);
        assert((seq![sp] + rest)[0] == sp);
        assert(s.subrange(i, e) + s.subrange(e, trivia_end(s, e)) =~= s.subrange(
            i,
            trivia_end(s, e),
        ));
        assert(trivia_end(s, i) == trivia_end(s, e));
    } else {
        assert(trivia_runs(s, i) =~= Seq::<TriviaSpan>::empty());
        assert(s.subrange(i, i) =~= Seq::<char>::empty());
    }
}

/// As `lemma_trivia_runs_concat`, for the full recorded list including the
/// end-of-input sentinel, which covers the empty slice.
pub proof fn lemma_trivia_concat(s: Seq<char>, i: int)
    requires
        0 <= i <= s.len(),
        s.len() <= u32::MAX,
    ensures
        concat_spans(s, trivia_list(s, i)) == s.subrange(i, trivia_end(s, i)),
{
    if i >= s.len() {
        let sp = TriviaSpan { start: i as usize, end: i as usize, kind: TriviaKind::EndOfInput };
        let l = trivia_list(s, i);
        assert(l == seq![sp]);
        assert(l.drop_first() =~= Seq::<TriviaSpan>::empty());
        assert(concat_spans(s, l.drop_first()) == Seq::<char>::empty());
        assert(l[0] == sp);
        assert(concat_spans(s, l) == s.subrange(i, i) + Seq::<char>::empty());
        assert(s.subrange(i, i) + Seq::<char>::empty() =~= s.subrange(i, i));
        assert(concat_spans(s, trivia_list(s, i)) =~= s.subrange(i, i));
    } else {
        lemma_trivia_runs_concat(s, i);
    }
}

/// Parses an end-of-line sequence (`\r\n`, `\r` or `\n`) at offset `i`.
/// Fails exactly when the character there is not a line terminator.
pub fn end_of_line(src: &Vec<char>, i: usize) -> (r: Option<usize>)
    requires
        i <= src.len(),
    ensures
        r is Some <==> (i < src@.len() && is_line_break_char(src@[i as int])),
        r matches Some(e) ==> e == eol_end(src@, i as int) && i < e && e <= src.len(),
{
    if i < src.len() {
        let c = src[i];
        if c == '\r' {
            if i + 1 < src.len() && src[i + 1] == '\n' {
                Some(i + 2)
            } else {
                Some(i + 1)
            }
        } else if c == '\n' {
            Some(i + 1)
        } else {
            None
        }
    } else {
        None
    }
}

/// Parses a line comment at offset `i`: `//`, then everything up to a line
/// terminator, then the terminator itself if present. Fails exactly when
/// `//` does not start at `i`.
pub fn comment(src: &Vec<char>, i: usize) -> (r: Option<usize>)
    requires
        i <= src.len(),
    ensures
        r is Some <==> comment_starts(src@, i as int),
        r matches Some(e) ==> e == comment_end(src@, i as int) && i + 2 <= e && e <= src.len(),
{
    if i < src.len() && src[i] == '/' && i + 1 < src.len() && src[i + 1] == '/' {
        let body = scan_run(src, i + 2, CharClass::NotLineBreak);
        proof {
            lemma_run_end(src@, i as int + 2, CharClass::NotLineBreak);
        }
        match end_of_line(src, body) {
            Some(e) => Some(e),
            None => Some(body),
        }
    } else {
        None
    }
}

/// The trivia scanner. Consumes comments and whitespace runs starting at
/// offset `i` and records their spans; at the very end of the input it
/// records a single empty end-of-input span instead. It never fails, and it
/// advances exactly to `trivia_end`.
pub fn spacing(src: &Vec<char>, i: usize) -> (r: (Vec<TriviaSpan>, usize))
    requires
        i <= src.len(),
    ensures
        r.0@ == trivia_list(src@, i as int),
        r.1 == trivia_end(src@, i as int),
        i <= r.1 <= src.len(),
{
    let mut v: Vec<TriviaSpan> = Vec::new();
    if i == src.len() {
        v.push(TriviaSpan { start: i, end: i, kind: TriviaKind::EndOfInput });
        proof {
            assert(v@ =~= trivia_list(src@, i as int));
        }
        return (v, i);
    }
    let ghost s = src@;
    let mut j = i;
    loop
        invariant
            i <= j <= src.len(),
            i < src@.len(),
            s == src@,
            trivia_runs(s, i as int) =~= v@ + trivia_runs(s, j as int),
            trivia_end(s, i as int) == trivia_end(s, j as int),
        decreases src.len() - j,
    {
        proof {
            lemma_trivia_progress(s, j as int);
        }
        match comment(src, j) {
            Some(e) => {
                let sp = TriviaSpan { start: j, end: e, kind: TriviaKind::Comment };
                proof {
                    let rest = trivia_runs(s, e as int);
                    assert(trivia_runs(s, j as int) == seq![sp] + rest);
                    assert(v@ + (seq![sp] + rest) =~= v@.push(sp) + rest);
                }
                v.push(sp);
                j = e;
            },
            None => {
                if j < src.len() && char_in_class(CharClass::Space, src[j]) {
                    let e = scan_run(src, j, CharClass::Space);
                    proof {
                        assert(run_end(s, j as int, CharClass::Space) == run_end(
                            s,
                            j as int + 1,
                            CharClass::Space,
                        ));
                        lemma_run_end(s, j as int + 1, CharClass::Space);
                    }
                    let sp = TriviaSpan { start: j, end: e, kind: TriviaKind::Whitespace };
                    proof {
                        let rest = trivia_runs(s, e as int);
                        assert(trivia_runs(s, j as int) == seq![sp] + rest);
                        assert(v@ + (seq![sp] + rest) =~= v@.push(sp) + rest);
                    }
                    v.push(sp);
                    j = e;
                } else {
                    proof {
                        assert(trivia_runs(s, j as int) =~= Seq::<TriviaSpan>::empty());
                        assert(v@ + Seq::<TriviaSpan>::empty() =~= v@);
                    }
                    return (v, j);
                }
            },
        }
    }
}

} // verus!
