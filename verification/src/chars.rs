//! Character classes used by the scanner, and a verified maximal-run scan.

use vstd::prelude::*;

verus! {

/// Whitespace accepted between tokens: space, tab, and the two line
/// terminator characters.
pub open spec fn is_space_char(c: char) -> bool {
    c == ' ' || c == '\t' || c == '\n' || c == '\r'
}

/// A character that terminates a line comment.
pub open spec fn is_line_break_char(c: char) -> bool {
    c == '\n' || c == '\r'
}

/// An ASCII decimal digit.
pub open spec fn is_digit_char(c: char) -> bool {
    ('0' as u32) <= (c as u32) && (c as u32) <= ('9' as u32)
}

/// An ASCII decimal digit other than `'0'`.
pub open spec fn is_nonzero_digit_char(c: char) -> bool {
    ('1' as u32) <= (c as u32) && (c as u32) <= ('9' as u32)
}

/// An ASCII hexadecimal digit.
pub open spec fn is_hex_digit_char(c: char) -> bool {
    is_digit_char(c)
        || (('a' as u32) <= (c as u32) && (c as u32) <= ('f' as u32))
        || (('A' as u32) <= (c as u32) && (c as u32) <= ('F' as u32))
}

/// A character that may start an identifier: an ASCII letter or `'_'`.
pub open spec fn is_ident_start_char(c: char) -> bool {
    (('a' as u32) <= (c as u32) && (c as u32) <= ('z' as u32))
        || (('A' as u32) <= (c as u32) && (c as u32) <= ('Z' as u32))
        || c == '_'
}

/// A character that may continue an identifier.
pub open spec fn is_ident_cont_char(c: char) -> bool {
    is_ident_start_char(c) || is_digit_char(c)
}

/// The character classes the scanner takes maximal runs of.
#[derive(Debug, PartialEq, Eq, Copy, Clone, Structural)]
pub enum CharClass {
    Space,
    Digit,
    HexDigit,
    IdentCont,
    NotLineBreak,
    NotSemicolon,
}

/// Whether `c` belongs to the class `cc`.
pub open spec fn class_holds(cc: CharClass, c: char) -> bool {
    match cc {
        CharClass::Space => is_space_char(c),
        CharClass::Digit => is_digit_char(c),
        CharClass::HexDigit => is_hex_digit_char(c),
        CharClass::IdentCont => is_ident_cont_char(c),
        CharClass::NotLineBreak => !is_line_break_char(c),
        CharClass::NotSemicolon => c != ';',
    }
}

/// Executable test for class membership.
pub fn char_in_class(cc: CharClass, c: char) -> (r: bool)
    ensures
        r == class_holds(cc, c),
{
    let u = c as u32;
    match cc {
        CharClass::Space => c == ' ' || c == '\t' || c == '\n' || c == '\r',
        CharClass::Digit => 48 <= u && u <= 57,
        CharClass::HexDigit => (48 <= u && u <= 57) || (97 <= u && u <= 102) || (65 <= u && u
            <= 70),
        CharClass::IdentCont => (97 <= u && u <= 122) || (65 <= u && u <= 90) || c == '_' || (48
            <= u && u <= 57),
        CharClass::NotLineBreak => !(c == '\n' || c == '\r'),
        CharClass::NotSemicolon => c != ';',
    }
}

/// End of the maximal run of characters of class `cc` starting at offset `i`.
pub open spec fn run_end(s: Seq<char>, i: int, cc: CharClass) -> int
    decreases s.len() - i when 0 <= i <= s.len()
{
    if i < s.len() && class_holds(cc, s[i]) {
        run_end(s, i + 1, cc)
    } else {
        i
    }
}

/// The maximal run is a run: it stays in bounds, every character in it
/// belongs to the class, and the character after it (if any) does not.
pub proof fn lemma_run_end(s: Seq<char>, i: int, cc: CharClass)
    requires
        0 <= i <= s.len(),
    ensures
        i <= run_end(s, i, cc) <= s.len(),
        forall|j: int| i <= j < run_end(s, i, cc) ==> class_holds(cc, s[j]),
        run_end(s, i, cc) < s.len() ==> !class_holds(cc, s[run_end(s, i, cc)]),
    decreases s.len() - i,
{
    if i < s.len() && class_holds(cc, s[i]) {
        lemma_run_end(s, i + 1, cc);
    }
}

/// Scans the maximal run of characters of class `cc` starting at offset `i`.
pub fn scan_run(src: &Vec<char>, i: usize, cc: CharClass) -> (j: usize)
    requires
        i <= src.len(),
    ensures
        j == run_end(src@, i as int, cc),
        i <= j <= src.len(),
{
    let mut j = i;
    while j < src.len()
        invariant
            i <= j <= src.len(),
            run_end(src@, i as int, cc) == run_end(src@, j as int, cc),
        decreases src.len() - j,
    {
        if char_in_class(cc, src[j]) {
            j = j + 1;
        } else {
            proof {
                lemma_run_end(src@, j as int, cc);
            }
            return j;
        }
    }
    j
}

} // verus!
