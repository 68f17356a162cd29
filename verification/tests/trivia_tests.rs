use ace_parser::trivia::{comment, end_of_line, spacing, TriviaKind};

fn chars(s: &str) -> Vec<char> {
    s.chars().collect()
}

#[test]
fn spacing_on_empty_input_records_the_sentinel() {
    let src = chars("");
    let (spans, end) = spacing(&src, 0);
    assert_eq!(end, 0);
    assert_eq!(spans.len(), 1);
    assert_eq!(spans[0].kind, TriviaKind::EndOfInput);
    assert_eq!(spans[0].start, 0);
    assert_eq!(spans[0].end, 0);
}

#[test]
fn spacing_at_end_of_input_records_the_sentinel() {
    let src = chars("cpu");
    let (spans, end) = spacing(&src, 3);
    assert_eq!(end, 3);
    assert_eq!(spans.len(), 1);
    assert_eq!(spans[0].kind, TriviaKind::EndOfInput);
}

#[test]
fn spacing_consumes_a_comment_without_trailing_newline() {
    let src = chars("// hello");
    let (spans, end) = spacing(&src, 0);
    assert_eq!(end, 8);
    assert_eq!(spans.len(), 1);
    assert_eq!(spans[0].kind, TriviaKind::Comment);
    assert_eq!((spans[0].start, spans[0].end), (0, 8));
}

#[test]
fn spacing_consumes_interleaved_comments_and_whitespace() {
    let src = chars(" // a\n\t//b\r\n  x");
    let (spans, end) = spacing(&src, 0);
    assert_eq!(end, 14);
    assert_eq!(spans.len(), 5);
    assert_eq!(spans[0].kind, TriviaKind::Whitespace);
    assert_eq!((spans[0].start, spans[0].end), (0, 1));
    assert_eq!(spans[1].kind, TriviaKind::Comment);
    assert_eq!((spans[1].start, spans[1].end), (1, 6));
    // the tab between the two comments is one whitespace run of its own
    assert_eq!(spans[2].kind, TriviaKind::Whitespace);
    assert_eq!((spans[2].start, spans[2].end), (6, 7));
    assert_eq!(spans[3].kind, TriviaKind::Comment);
    assert_eq!((spans[3].start, spans[3].end), (7, 12));
    assert_eq!(spans[4].kind, TriviaKind::Whitespace);
    assert_eq!((spans[4].start, spans[4].end), (12, 14));
}

#[test]
fn spacing_stops_at_a_non_trivia_character() {
    let src = chars("x  ");
    let (spans, end) = spacing(&src, 0);
    assert_eq!(end, 0);
    assert_eq!(spans.len(), 0);
}

#[test]
fn spacing_makes_progress_on_trivia() {
    // every recorded run is non-empty, and the scan end moves strictly
    // forward whenever the input ahead starts with trivia
    let src = chars("  // c\n\t abc");
    let (spans, end) = spacing(&src, 0);
    assert!(end > 0);
    for sp in &spans {
        assert!(sp.start < sp.end);
    }
    assert_eq!(end, 9);
}

#[test]
fn spacing_reconstructs_the_consumed_slice() {
    let src = chars("// a\r\n \t b");
    let (spans, end) = spacing(&src, 0);
    let mut rebuilt: Vec<char> = Vec::new();
    for sp in &spans {
        rebuilt.extend_from_slice(&src[sp.start..sp.end]);
    }
    assert_eq!(rebuilt, src[0..end].to_vec());
}

#[test]
fn comment_matches_only_a_double_slash() {
    let src = chars("//abc\ndef");
    assert_eq!(comment(&src, 0), Some(6));
    let src2 = chars("/abc");
    assert_eq!(comment(&src2, 0), None);
    let src3 = chars("abc");
    assert_eq!(comment(&src3, 0), None);
}

#[test]
fn comment_without_terminator_runs_to_the_end() {
    let src = chars("// abc");
    assert_eq!(comment(&src, 0), Some(6));
}

#[test]
fn comment_takes_a_crlf_terminator_whole() {
    let src = chars("//a\r\nb");
    assert_eq!(comment(&src, 0), Some(5));
}

#[test]
fn end_of_line_accepts_each_terminator() {
    assert_eq!(end_of_line(&chars("\r\nx"), 0), Some(2));
    assert_eq!(end_of_line(&chars("\rx"), 0), Some(1));
    assert_eq!(end_of_line(&chars("\nx"), 0), Some(1));
    assert_eq!(end_of_line(&chars("x"), 0), None);
    assert_eq!(end_of_line(&chars(""), 0), None);
}
