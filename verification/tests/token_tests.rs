use ace_parser::marker::LabelCompletion;
use ace_parser::position::{Cursor, Position};
use ace_parser::token::{scan_token, TokenKind};

fn chars(s: &str) -> Vec<char> {
    s.chars().collect()
}

fn at_start(src: &Vec<char>) -> Cursor {
    Cursor::start(src)
}

#[test]
fn dec_literal_rejects_bare_zero() {
    let src = chars("0");
    assert!(scan_token(&src, at_start(&src), TokenKind::DecNumber, LabelCompletion::Unlabeled)
        .is_none());
}

#[test]
fn dec_literal_rejects_a_leading_zero() {
    let src = chars("0123");
    assert!(scan_token(&src, at_start(&src), TokenKind::DecNumber, LabelCompletion::Unlabeled)
        .is_none());
}

#[test]
fn dec_literal_accepts_a_plain_number() {
    let src = chars("512;");
    let (t, c) = scan_token(&src, at_start(&src), TokenKind::DecNumber, LabelCompletion::Unlabeled)
        .unwrap();
    assert_eq!((t.start, t.text_end, t.end), (0, 3, 3));
    assert_eq!(c.off, 3);
}

#[test]
fn hex_literal_accepts_both_prefix_cases() {
    let src = chars("0x1A");
    let (t, _) = scan_token(&src, at_start(&src), TokenKind::HexNumber, LabelCompletion::Unlabeled)
        .unwrap();
    assert_eq!((t.start, t.text_end), (0, 4));
    let src2 = chars("0X1a");
    let (t2, _) = scan_token(
        &src2,
        at_start(&src2),
        TokenKind::HexNumber,
        LabelCompletion::Unlabeled,
    )
        .unwrap();
    assert_eq!((t2.start, t2.text_end), (0, 4));
}

#[test]
fn hex_literal_rejects_a_bare_prefix() {
    let src = chars("0x");
    assert!(scan_token(&src, at_start(&src), TokenKind::HexNumber, LabelCompletion::Unlabeled)
        .is_none());
    let src2 = chars("0xg");
    assert!(scan_token(&src2, at_start(&src2), TokenKind::HexNumber, LabelCompletion::Unlabeled)
        .is_none());
}

#[test]
fn token_records_matched_text_and_trailing_trivia() {
    let src = chars("cpu  // note\n{");
    let (t, c) = scan_token(&src, at_start(&src), TokenKind::Cpu, LabelCompletion::Unlabeled)
        .unwrap();
    assert_eq!((t.start, t.text_end, t.end), (0, 3, 13));
    assert_eq!(c.off, 13);
    assert_eq!(t.text(&src), chars("cpu"));
    // matched text plus trivia, in order, reproduces the consumed slice
    let mut rebuilt = t.text(&src);
    for sp in &t.trivia {
        rebuilt.extend_from_slice(&src[sp.start..sp.end]);
    }
    assert_eq!(rebuilt, src[t.start..t.end].to_vec());
}

#[test]
fn token_range_spans_text_and_trivia() {
    let src = chars("cpu // note\n  {");
    let (t, _) = scan_token(&src, at_start(&src), TokenKind::Cpu, LabelCompletion::Unlabeled)
        .unwrap();
    assert_eq!(t.range.start, Position::new(0, 0));
    assert_eq!(t.range.end, Position::new(1, 2));
}

#[test]
fn token_query_answers_exactly_inside_its_range() {
    let src = chars("cpu \n{");
    let (t, _) = scan_token(&src, at_start(&src), TokenKind::Cpu, LabelCompletion::Unlabeled)
        .unwrap();
    assert!(t.query(Position::new(0, 0)).is_some());
    assert!(t.query(Position::new(0, 3)).is_some());
    assert!(t.query(Position::new(1, 0)).is_none());
}

#[test]
fn identifier_requires_a_letter_or_underscore_first() {
    let src = chars("9abc");
    assert!(scan_token(&src, at_start(&src), TokenKind::Identifier, LabelCompletion::Unlabeled)
        .is_none());
    let src2 = chars("_a9 ");
    let (t, _) = scan_token(
        &src2,
        at_start(&src2),
        TokenKind::Identifier,
        LabelCompletion::Unlabeled,
    )
        .unwrap();
    assert_eq!((t.start, t.text_end, t.end), (0, 3, 4));
}

#[test]
fn keyword_tokens_match_their_literal_only() {
    let src = chars("config {");
    assert!(scan_token(&src, at_start(&src), TokenKind::Cpu, LabelCompletion::Unlabeled)
        .is_none());
    let (t, _) = scan_token(&src, at_start(&src), TokenKind::Config, LabelCompletion::Unlabeled)
        .unwrap();
    assert_eq!((t.start, t.text_end, t.end), (0, 6, 7));
}
