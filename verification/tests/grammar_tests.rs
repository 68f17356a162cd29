use ace_parser::attribute::{name, number, timeout_cycle, vlen, Number};
use ace_parser::grammar::{ace, ace_recovering, statement, Statement};
use ace_parser::marker::LabelCompletion;
use ace_parser::position::{Cursor, Position, Range};
use ace_parser::statement::{config, cpu, cpu_attribute, CpuAttribute, ConfigAttribute};
use ace_parser::token::TokenKind;

fn chars(s: &str) -> Vec<char> {
    s.chars().collect()
}

#[test]
fn position_order_is_line_major() {
    let a = Position::new(1, 9);
    let b = Position::new(2, 0);
    assert!(a.lt(&b));
    assert!(!b.lt(&a));
    assert!(a.le(&a));
    assert!(Position::new(1, 3).lt(&Position::new(1, 4)));
}

#[test]
fn range_containment_is_half_open() {
    let r = Range { start: Position::new(0, 2), end: Position::new(0, 5) };
    assert!(!r.contains(Position::new(0, 1)));
    assert!(r.contains(Position::new(0, 2)));
    assert!(r.contains(Position::new(0, 4)));
    assert!(!r.contains(Position::new(0, 5)));
}

#[test]
fn number_prefers_the_hexadecimal_alternative() {
    let src = chars("0x10;");
    let (n, c) = number(&src, Cursor::start(&src)).unwrap();
    assert!(matches!(n, Number::HexNumber(_)));
    assert_eq!(c.off, 4);
    let src2 = chars("99;");
    let (n2, _) = number(&src2, Cursor::start(&src2)).unwrap();
    assert!(matches!(n2, Number::DecNumber(_)));
}

#[test]
fn number_rejects_what_neither_alternative_matches() {
    let src = chars("0;");
    assert!(number(&src, Cursor::start(&src)).is_none());
    let src2 = chars("abc");
    assert!(number(&src2, Cursor::start(&src2)).is_none());
}

#[test]
fn name_attribute_parses_its_four_tokens() {
    let src = chars("name = nx45v;");
    let (a, c) = name(&src, Cursor::start(&src)).unwrap();
    assert_eq!(c.off, src.len());
    assert_eq!(a.pragma.text(&src), chars("name"));
    assert_eq!(a.identifier.text(&src), chars("nx45v"));
    assert_eq!(a.semicolon.label, LabelCompletion::Attribute);
    assert_eq!(a.range.start, Position::new(0, 0));
    assert_eq!(a.range.end, Position::new(0, 13));
}

#[test]
fn name_attribute_rejects_a_numeric_value() {
    let src = chars("name = 5;");
    assert!(name(&src, Cursor::start(&src)).is_none());
}

#[test]
fn vlen_attribute_rejects_a_zero_value() {
    let src = chars("vlen = 0;");
    assert!(vlen(&src, Cursor::start(&src)).is_none());
}

#[test]
fn vlen_attribute_accepts_a_decimal_value() {
    let src = chars("vlen = 512;");
    let (a, c) = vlen(&src, Cursor::start(&src)).unwrap();
    assert_eq!(c.off, src.len());
    assert!(matches!(a.length, Number::DecNumber(_)));
}

#[test]
fn timeout_cycle_attribute_accepts_a_hexadecimal_value() {
    let src = chars("timeout_cycle = 0x1F;");
    let (a, c) = timeout_cycle(&src, Cursor::start(&src)).unwrap();
    assert_eq!(c.off, src.len());
    assert!(matches!(a.length, Number::HexNumber(_)));
}

#[test]
fn cpu_attribute_tries_name_before_vlen() {
    let src = chars("name = a;");
    let (a, _) = cpu_attribute(&src, Cursor::start(&src)).unwrap();
    assert!(matches!(a, CpuAttribute::Name(_)));
    let src2 = chars("vlen = 8;");
    let (a2, _) = cpu_attribute(&src2, Cursor::start(&src2)).unwrap();
    assert!(matches!(a2, CpuAttribute::Vlen(_)));
    let src3 = chars("timeout_cycle = 8;");
    assert!(cpu_attribute(&src3, Cursor::start(&src3)).is_none());
}

#[test]
fn cpu_statement_needs_its_closing_tokens() {
    let src = chars("cpu {");
    assert!(cpu(&src, Cursor::start(&src)).is_none());
    let src2 = chars("cpu { }");
    assert!(cpu(&src2, Cursor::start(&src2)).is_none());
    let src3 = chars("cpu { };");
    let (st, c) = cpu(&src3, Cursor::start(&src3)).unwrap();
    assert_eq!(c.off, src3.len());
    assert_eq!(st.attributes().len(), 0);
    assert_eq!(st.semicolon.label, LabelCompletion::Statement);
}

#[test]
fn config_statement_parses_a_timeout_cycle_attribute() {
    let src = chars("config { timeout_cycle = 100; };");
    let (st, c) = config(&src, Cursor::start(&src)).unwrap();
    assert_eq!(c.off, src.len());
    assert_eq!(st.attributes().len(), 1);
    let ConfigAttribute::TimeoutCycle(tc) = &st.attributes()[0];
    assert!(matches!(tc.length, Number::DecNumber(_)));
}

#[test]
fn statement_tries_cpu_before_config() {
    let src = chars("cpu { };");
    let (st, _) = statement(&src, Cursor::start(&src)).unwrap();
    assert!(matches!(st, Statement::Cpu(_)));
    let src2 = chars("config { };");
    let (st2, _) = statement(&src2, Cursor::start(&src2)).unwrap();
    assert!(matches!(st2, Statement::Config(_)));
    let src3 = chars("reg { };");
    assert!(statement(&src3, Cursor::start(&src3)).is_none());
}

#[test]
fn parse_is_total_and_keeps_the_valid_prefix() {
    let src = chars("cpu {};x y z");
    let doc = ace(&src);
    assert_eq!(doc.statements().len(), 1);
    let src2 = chars("garbage");
    let doc2 = ace(&src2);
    assert_eq!(doc2.statements().len(), 0);
    let src3 = chars("");
    let doc3 = ace(&src3);
    assert_eq!(doc3.statements().len(), 0);
}

#[test]
fn leading_whitespace_is_not_consumed() {
    // trivia is trailing only: a document may not begin with whitespace
    let src = chars(" cpu { };");
    let doc = ace(&src);
    assert_eq!(doc.statements().len(), 0);
}

#[test]
fn malformed_cpu_statement_yields_an_empty_document() {
    let src = chars("cpu hello\n");
    let doc = ace(&src);
    assert_eq!(doc.statements().len(), 0);
}

#[test]
fn recovery_synthesizes_a_placeholder_for_a_malformed_statement() {
    let src = chars("cpu hello\n");
    let doc = ace_recovering(&src);
    assert_eq!(doc.statements().len(), 1);
    match &doc.statements()[0] {
        Statement::Recovered(r) => {
            assert_eq!(r.start, 0);
            assert_eq!(r.end, src.len());
        },
        _ => panic!("expected a recovery placeholder"),
    }
}

#[test]
fn recovery_continues_past_a_malformed_statement() {
    let src = chars("cpu hello;config {};");
    let doc = ace_recovering(&src);
    assert_eq!(doc.statements().len(), 2);
    match &doc.statements()[0] {
        Statement::Recovered(r) => {
            assert_eq!((r.start, r.end), (0, 10));
        },
        _ => panic!("expected a recovery placeholder"),
    }
    assert!(matches!(doc.statements()[1], Statement::Config(_)));
}

#[test]
fn recovery_leaves_a_well_formed_document_alone() {
    let src = chars("cpu { };");
    let doc = ace_recovering(&src);
    assert_eq!(doc.statements().len(), 1);
    assert!(matches!(doc.statements()[0], Statement::Cpu(_)));
}

#[test]
fn end_to_end_cpu_document() {
    let src = chars("cpu {\n name = nx45v;\n vlen = 512;\n};");
    let doc = ace(&src);
    assert_eq!(doc.statements().len(), 1);
    let cpu_stmt = match &doc.statements()[0] {
        Statement::Cpu(c) => c,
        _ => panic!("expected a cpu statement"),
    };
    assert_eq!(cpu_stmt.attributes().len(), 2);
    match &cpu_stmt.attributes()[0] {
        CpuAttribute::Name(n) => assert_eq!(n.identifier.text(&src), chars("nx45v")),
        _ => panic!("expected the name attribute first"),
    }
    match &cpu_stmt.attributes()[1] {
        CpuAttribute::Vlen(v) => assert!(matches!(v.length, Number::DecNumber(_))),
        _ => panic!("expected the vlen attribute second"),
    }

    // the first character resolves to the cpu pragma token
    let q = doc.query(0, 0);
    assert_eq!(q.query_result.unwrap().kind, TokenKind::Cpu);

    // a position inside the identifier resolves to the identifier token
    let q2 = doc.query(1, 9);
    let t2 = q2.query_result.unwrap();
    assert_eq!(t2.kind, TokenKind::Identifier);
    assert_eq!(t2.text(&src), chars("nx45v"));

    // past the closing semicolon, with nothing following, the query misses
    // and the completions are the statement-level candidates
    let q3 = doc.query(3, 5);
    assert!(q3.query_result.is_none());
    assert_eq!(q3.show_completions(), full_statement_candidates());
}

#[test]
fn query_on_an_attribute_semicolon_offers_attribute_candidates() {
    let src = chars("cpu {\n name = nx45v;\n vlen = 512;\n};");
    let doc = ace(&src);
    let q = doc.query(1, 13);
    let t = q.query_result.unwrap();
    assert_eq!(t.kind, TokenKind::Semicolon);
    assert_eq!(t.label, LabelCompletion::Attribute);
    assert_eq!(q.show_completions(), vec!["name", "vlen", "timeout_cycle"]);
}

#[test]
fn query_on_the_statement_semicolon_offers_statement_candidates() {
    let src = chars("cpu { };");
    let doc = ace(&src);
    let q = doc.query(0, 7);
    let t = q.query_result.unwrap();
    assert_eq!(t.kind, TokenKind::Semicolon);
    assert_eq!(t.label, LabelCompletion::Statement);
    assert_eq!(q.show_completions(), full_statement_candidates());
}

#[test]
fn query_on_an_untagged_token_offers_nothing() {
    let src = chars("cpu { };");
    let doc = ace(&src);
    let q = doc.query(0, 0);
    assert_eq!(q.query_result.unwrap().label, LabelCompletion::Unlabeled);
    assert_eq!(q.show_completions().len(), 0);
}

#[test]
fn query_hits_each_token_exactly() {
    let src = chars("cpu { vlen = 0x8; };");
    let doc = ace(&src);
    let expected = [
        (0u32, TokenKind::Cpu),
        (4, TokenKind::LeftBrace),
        (6, TokenKind::Vlen),
        (11, TokenKind::Equal),
        (13, TokenKind::HexNumber),
        (16, TokenKind::Semicolon),
        (18, TokenKind::RightBrace),
        (19, TokenKind::Semicolon),
    ];
    for (col, kind) in expected {
        let q = doc.query(0, col);
        assert_eq!(q.query_result.unwrap().kind, kind, "column {col}");
    }
    // tokens touch but never overlap: each boundary belongs to one token
    let boundary = doc.query(0, 5);
    assert_eq!(boundary.query_result.unwrap().kind, TokenKind::LeftBrace);
}

#[test]
fn adjacent_tokens_do_not_overlap() {
    let src = chars("cpu {\n name = nx45v;\n};");
    let doc = ace(&src);
    let cpu_stmt = match &doc.statements()[0] {
        Statement::Cpu(c) => c,
        _ => panic!("expected a cpu statement"),
    };
    let a = match &cpu_stmt.attributes()[0] {
        CpuAttribute::Name(n) => n,
        _ => panic!("expected the name attribute"),
    };
    assert_eq!(cpu_stmt.pragma.end, cpu_stmt.left_brace.start);
    assert_eq!(cpu_stmt.left_brace.end, a.pragma.start);
    assert_eq!(a.pragma.end, a.equal.start);
    assert_eq!(a.equal.end, a.identifier.start);
    assert_eq!(a.identifier.end, a.semicolon.start);
    assert_eq!(a.semicolon.end, cpu_stmt.right_brace.start);
    assert_eq!(cpu_stmt.right_brace.end, cpu_stmt.semicolon.start);
}

#[test]
fn completion_tables_by_tag() {
    assert_eq!(LabelCompletion::Unlabeled.completion().len(), 0);
    assert_eq!(
        LabelCompletion::Attribute.completion(),
        vec!["name", "vlen", "timeout_cycle"]
    );
    assert_eq!(LabelCompletion::Statement.completion(), full_statement_candidates());
}

fn full_statement_candidates() -> Vec<&'static str> {
    vec![
        "cpu {\n    ${1}\n};\n",
        "config {\n    ${1}\n};\n",
        "reg ${1} {\n    ${2}\n};\n",
        "${1|rom,ram|} ${2} {\n    ${3}\n};\n",
        "port",
        "csim",
        "csim_header",
        "instruction",
        "insn",
        "background_instruction",
        "bg_insn",
        "vector",
        "vec",
        "utility_instruction",
        "u_insn",
        "rvv_instruction",
        "rvv_insn",
        "acl_miscellaneous_setting",
        "test_pattern",
        "test_sequence",
        "test_seq",
        "resource",
        "testbench_sequence",
        "testbench_seq",
        "tb_seq",
        "insn_group",
        "sync",
        "status",
    ]
}
