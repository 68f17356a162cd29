//! Document-level laws: the terminal tokens of a tree in source order, their
//! ordering, and the guarantee that a position inside a token resolves to
//! exactly that token.
//!
//! The proofs work over lightweight "box" predicates — just the offset spans
//! and the position ranges that mirror them — extracted once from the full
//! well-formedness of each node.

use vstd::prelude::*;
use crate::attribute::{Name, TimeoutCycle, Vlen, q_name, q_timeout_cycle, q_vlen};
use crate::grammar::{Ace, Statement, q_ace, q_statement, q_statements, stmts_chain};
use crate::position::{Position, lemma_pos_mono, pos_at, pos_le, pos_lt};
use crate::statement::{
    Config, ConfigAttribute, Cpu, CpuAttribute, config_attrs_chain, config_attrs_last_end,
    cpu_attrs_chain, cpu_attrs_last_end, q_config, q_config_attribute, q_config_attrs, q_cpu,
    q_cpu_attribute, q_cpu_attrs,
};
use crate::token::Token;

verus! {

/// The tokens of a name attribute, in source order.
pub open spec fn name_tokens(a: Name) -> Seq<Token> {
    seq![a.pragma, a.equal, a.identifier, a.semicolon]
}

/// The tokens of a vlen attribute, in source order.
pub open spec fn vlen_tokens(a: Vlen) -> Seq<Token> {
    seq![a.pragma, a.equal, a.length.spec_token(), a.semicolon]
}

/// The tokens of a timeout_cycle attribute, in source order.
pub open spec fn timeout_cycle_tokens(a: TimeoutCycle) -> Seq<Token> {
    seq![a.pragma, a.equal, a.length.spec_token(), a.semicolon]
}

/// The tokens of a cpu attribute, in source order.
pub open spec fn cpu_attribute_tokens(a: CpuAttribute) -> Seq<Token> {
    match a {
        CpuAttribute::Name(n) => name_tokens(n),
        CpuAttribute::Vlen(v) => vlen_tokens(v),
    }
}

/// The tokens of a config attribute, in source order.
pub open spec fn config_attribute_tokens(a: ConfigAttribute) -> Seq<Token> {
    match a {
        ConfigAttribute::TimeoutCycle(t) => timeout_cycle_tokens(t),
    }
}

/// The tokens of a cpu attribute list, flattened in source order.
pub open spec fn cpu_attrs_tokens(attrs: Seq<CpuAttribute>) -> Seq<Token>
    decreases attrs.len(),
{
    if attrs.len() == 0 {
        Seq::empty()
    } else {
        cpu_attribute_tokens(attrs[0]) + cpu_attrs_tokens(attrs.drop_first())
    }
}

/// The tokens of a config attribute list, flattened in source order.
pub open spec fn config_attrs_tokens(attrs: Seq<ConfigAttribute>) -> Seq<Token>
    decreases attrs.len(),
{
    if attrs.len() == 0 {
        Seq::empty()
    } else {
        config_attribute_tokens(attrs[0]) + config_attrs_tokens(attrs.drop_first())
    }
}

/// The tokens of a cpu statement, in source order.
pub open spec fn cpu_tokens(c: Cpu) -> Seq<Token> {
    seq![c.pragma, c.left_brace] + cpu_attrs_tokens(c.attributes@) + seq![
        c.right_brace,
        c.semicolon,
    ]
}

/// The tokens of a config statement, in source order.
pub open spec fn config_tokens(c: Config) -> Seq<Token> {
    seq![c.pragma, c.left_brace] + config_attrs_tokens(c.attributes@) + seq![
        c.right_brace,
        c.semicolon,
    ]
}

/// The tokens of a statement, in source order; a recovery placeholder has
/// none.
pub open spec fn statement_tokens(st: Statement) -> Seq<Token> {
    match st {
        Statement::Cpu(c) => cpu_tokens(c),
        Statement::Config(c) => config_tokens(c),
        Statement::Recovered(_) => Seq::empty(),
    }
}

/// The tokens of a statement list, flattened in source order.
pub open spec fn statements_tokens(stmts: Seq<Statement>) -> Seq<Token>
    decreases stmts.len(),
{
    if stmts.len() == 0 {
        Seq::empty()
    } else {
        statement_tokens(stmts[0]) + statements_tokens(stmts.drop_first())
    }
}

/// All tokens of a document, in source order.
pub open spec fn ace_tokens(doc: Ace) -> Seq<Token> {
    statements_tokens(doc.statements@)
}

/// What the ordering laws need of a single token: a non-empty offset span
/// inside the buffer, mirrored exactly by its position range. Implied by
/// `Token::wf`, and much lighter for the solver.
#[verifier::opaque]
pub open spec fn tok_box(t: Token, s: Seq<char>) -> bool {
    &&& t.start < t.end <= s.len()
    &&& t.range.start == pos_at(s, t.start as int)
    &&& t.range.end == pos_at(s, t.end as int)
}

/// The box shape of a name attribute: boxed adjacent tokens, and the node
/// range covering them.
#[verifier::opaque]
pub open spec fn name_box(a: Name, s: Seq<char>) -> bool {
    &&& tok_box(a.pragma, s) && tok_box(a.equal, s) && tok_box(a.identifier, s) && tok_box(
        a.semicolon,
        s,
    )
    &&& a.equal.start == a.pragma.end
    &&& a.identifier.start == a.equal.end
    &&& a.semicolon.start == a.identifier.end
    &&& a.spec_start() == a.pragma.start as int
    &&& a.spec_end() == a.semicolon.end as int
    &&& a.range.start == a.pragma.range.start
    &&& a.range.end == a.semicolon.range.end
}

/// The box shape of a vlen attribute.
#[verifier::opaque]
pub open spec fn vlen_box(a: Vlen, s: Seq<char>) -> bool {
    &&& tok_box(a.pragma, s) && tok_box(a.equal, s) && tok_box(a.length.spec_token(), s)
        && tok_box(a.semicolon, s)
    &&& a.equal.start == a.pragma.end
    &&& a.length.spec_token().start == a.equal.end
    &&& a.semicolon.start == a.length.spec_token().end
    &&& a.spec_start() == a.pragma.start as int
    &&& a.spec_end() == a.semicolon.end as int
    &&& a.range.start == a.pragma.range.start
    &&& a.range.end == a.semicolon.range.end
}

/// The box shape of a timeout_cycle attribute.
#[verifier::opaque]
pub open spec fn timeout_cycle_box(a: TimeoutCycle, s: Seq<char>) -> bool {
    &&& tok_box(a.pragma, s) && tok_box(a.equal, s) && tok_box(a.length.spec_token(), s)
        && tok_box(a.semicolon, s)
    &&& a.equal.start == a.pragma.end
    &&& a.length.spec_token().start == a.equal.end
    &&& a.semicolon.start == a.length.spec_token().end
    &&& a.spec_start() == a.pragma.start as int
    &&& a.spec_end() == a.semicolon.end as int
    &&& a.range.start == a.pragma.range.start
    &&& a.range.end == a.semicolon.range.end
}

/// A well-formed name attribute satisfies its box shape.
pub proof fn lemma_name_box(a: Name, s: Seq<char>)
    requires
        a.wf(s),
    ensures
        name_box(a, s),
{
    reveal(tok_box);
    reveal(name_box);
}

/// A well-formed vlen attribute satisfies its box shape.
pub proof fn lemma_vlen_box(a: Vlen, s: Seq<char>)
    requires
        a.wf(s),
    ensures
        vlen_box(a, s),
{
    reveal(tok_box);
    reveal(vlen_box);
}

/// A well-formed timeout_cycle attribute satisfies its box shape.
pub proof fn lemma_timeout_cycle_box(a: TimeoutCycle, s: Seq<char>)
    requires
        a.wf(s),
    ensures
        timeout_cycle_box(a, s),
{
    reveal(tok_box);
    reveal(timeout_cycle_box);
}

/// The box shape of a cpu attribute.
pub open spec fn cpu_attribute_box(a: CpuAttribute, s: Seq<char>) -> bool {
    match a {
        CpuAttribute::Name(n) => name_box(n, s),
        CpuAttribute::Vlen(v) => vlen_box(v, s),
    }
}

/// The box shape of a config attribute.
pub open spec fn config_attribute_box(a: ConfigAttribute, s: Seq<char>) -> bool {
    match a {
        ConfigAttribute::TimeoutCycle(t) => timeout_cycle_box(t, s),
    }
}

/// A well-formed cpu attribute satisfies its box shape.
pub proof fn lemma_cpu_attribute_box(a: CpuAttribute, s: Seq<char>)
    requires
        a.wf(s),
    ensures
        cpu_attribute_box(a, s),
{
    match a {
        CpuAttribute::Name(n) => lemma_name_box(n, s),
        CpuAttribute::Vlen(v) => lemma_vlen_box(v, s),
    }
}

/// A well-formed config attribute satisfies its box shape.
pub proof fn lemma_config_attribute_box(a: ConfigAttribute, s: Seq<char>)
    requires
        a.wf(s),
    ensures
        config_attribute_box(a, s),
{
    match a {
        ConfigAttribute::TimeoutCycle(t) => lemma_timeout_cycle_box(t, s),
    }
}

/// A boxed, chained cpu attribute list.
pub open spec fn cpu_attrs_box_chain(attrs: Seq<CpuAttribute>, s: Seq<char>, from: int) -> bool {
    &&& forall|k: int| 0 <= k < attrs.len() ==> cpu_attribute_box(#[trigger] attrs[k], s)
    &&& attrs.len() > 0 ==> attrs[0].spec_start() == from
    &&& forall|i: int, j: int|
        #![trigger attrs[i], attrs[j]]
        0 <= i && j == i + 1 && j < attrs.len() ==> attrs[j].spec_start() == attrs[i].spec_end()
}

/// A boxed, chained config attribute list.
pub open spec fn config_attrs_box_chain(
    attrs: Seq<ConfigAttribute>,
    s: Seq<char>,
    from: int,
) -> bool {
    &&& forall|k: int| 0 <= k < attrs.len() ==> config_attribute_box(#[trigger] attrs[k], s)
    &&& attrs.len() > 0 ==> attrs[0].spec_start() == from
    &&& forall|i: int, j: int|
        #![trigger attrs[i], attrs[j]]
        0 <= i && j == i + 1 && j < attrs.len() ==> attrs[j].spec_start() == attrs[i].spec_end()
}

/// A well-formed cpu attribute chain satisfies its boxed form.
pub proof fn lemma_cpu_attrs_boxes(attrs: Seq<CpuAttribute>, s: Seq<char>, from: int)
    requires
        cpu_attrs_chain(attrs, s, from),
    ensures
        cpu_attrs_box_chain(attrs, s, from),
{
    assert forall|k: int| 0 <= k < attrs.len() implies cpu_attribute_box(
        #[trigger] attrs[k],
        s,
    ) by {
        lemma_cpu_attribute_box(attrs[k], s);
    }
    assert forall|i: int, j: int|
        0 <= i && j == i + 1 && j < attrs.len() implies (#[trigger] attrs[j]).spec_start() == (
    #[trigger] attrs[i]).spec_end() by {
        assert(attrs[j].spec_start() == attrs[j - 1].spec_end());
    }
}

/// A well-formed config attribute chain satisfies its boxed form.
pub proof fn lemma_config_attrs_boxes(attrs: Seq<ConfigAttribute>, s: Seq<char>, from: int)
    requires
        config_attrs_chain(attrs, s, from),
    ensures
        config_attrs_box_chain(attrs, s, from),
{
    assert forall|k: int| 0 <= k < attrs.len() implies config_attribute_box(
        #[trigger] attrs[k],
        s,
    ) by {
        lemma_config_attribute_box(attrs[k], s);
    }
    assert forall|i: int, j: int|
        0 <= i && j == i + 1 && j < attrs.len() implies (#[trigger] attrs[j]).spec_start() == (
    #[trigger] attrs[i]).spec_end() by {
        assert(attrs[j].spec_start() == attrs[j - 1].spec_end());
    }
}

/// The box shape of a cpu statement.
#[verifier::opaque]
pub open spec fn cpu_box(c: Cpu, s: Seq<char>) -> bool {
    &&& tok_box(c.pragma, s) && tok_box(c.left_brace, s) && tok_box(c.right_brace, s) && tok_box(
        c.semicolon,
        s,
    )
    &&& c.left_brace.start == c.pragma.end
    &&& cpu_attrs_box_chain(c.attributes@, s, c.left_brace.end as int)
    &&& c.right_brace.start as int == cpu_attrs_last_end(c.attributes@, c.left_brace.end as int)
    &&& c.semicolon.start == c.right_brace.end
    &&& c.spec_start() == c.pragma.start as int
    &&& c.spec_end() == c.semicolon.end as int
    &&& c.range.start == c.pragma.range.start
    &&& c.range.end == c.semicolon.range.end
}

/// The box shape of a config statement.
#[verifier::opaque]
pub open spec fn config_box(c: Config, s: Seq<char>) -> bool {
    &&& tok_box(c.pragma, s) && tok_box(c.left_brace, s) && tok_box(c.right_brace, s) && tok_box(
        c.semicolon,
        s,
    )
    &&& c.left_brace.start == c.pragma.end
    &&& config_attrs_box_chain(c.attributes@, s, c.left_brace.end as int)
    &&& c.right_brace.start as int == config_attrs_last_end(c.attributes@, c.left_brace.end as int)
    &&& c.semicolon.start == c.right_brace.end
    &&& c.spec_start() == c.pragma.start as int
    &&& c.spec_end() == c.semicolon.end as int
    &&& c.range.start == c.pragma.range.start
    &&& c.range.end == c.semicolon.range.end
}

/// A well-formed cpu statement satisfies its box shape.
pub proof fn lemma_cpu_box(c: Cpu, s: Seq<char>)
    requires
        c.wf(s),
    ensures
        cpu_box(c, s),
{
    reveal(tok_box);
    reveal(cpu_box);
    lemma_cpu_attrs_boxes(c.attributes@, s, c.left_brace.end as int);
}

/// A well-formed config statement satisfies its box shape.
pub proof fn lemma_config_box(c: Config, s: Seq<char>)
    requires
        c.wf(s),
    ensures
        config_box(c, s),
{
    reveal(tok_box);
    reveal(config_box);
    lemma_config_attrs_boxes(c.attributes@, s, c.left_brace.end as int);
}

/// The box shape of a statement: for a recovery placeholder, just its span
/// and range.
pub open spec fn statement_box(st: Statement, s: Seq<char>) -> bool {
    match st {
        Statement::Cpu(c) => cpu_box(c, s),
        Statement::Config(c) => config_box(c, s),
        Statement::Recovered(r) => {
            &&& r.start < r.end <= s.len()
            &&& r.range.start == pos_at(s, r.start as int)
            &&& r.range.end == pos_at(s, r.end as int)
        },
    }
}

/// A well-formed statement satisfies its box shape.
pub proof fn lemma_statement_box(st: Statement, s: Seq<char>)
    requires
        st.wf(s),
    ensures
        statement_box(st, s),
{
    match st {
        Statement::Cpu(c) => lemma_cpu_box(c, s),
        Statement::Config(c) => lemma_config_box(c, s),
        Statement::Recovered(_) => (),
    }
}

/// A boxed, chained statement list starting at offset `from`.
pub open spec fn stmts_box_chain(stmts: Seq<Statement>, s: Seq<char>, from: int) -> bool {
    &&& forall|k: int| 0 <= k < stmts.len() ==> statement_box(#[trigger] stmts[k], s)
    &&& stmts.len() > 0 ==> stmts[0].spec_start() == from
    &&& forall|i: int, j: int|
        #![trigger stmts[i], stmts[j]]
        0 <= i && j == i + 1 && j < stmts.len() ==> stmts[j].spec_start() == stmts[i].spec_end()
}

/// A well-formed statement chain satisfies its boxed form.
pub proof fn lemma_stmts_boxes(stmts: Seq<Statement>, s: Seq<char>)
    requires
        stmts_chain(stmts, s),
    ensures
        stmts_box_chain(stmts, s, 0),
{
    assert forall|k: int| 0 <= k < stmts.len() implies statement_box(#[trigger] stmts[k], s) by {
        lemma_statement_box(stmts[k], s);
    }
    assert forall|i: int, j: int|
        0 <= i && j == i + 1 && j < stmts.len() implies (#[trigger] stmts[j]).spec_start() == (
    #[trigger] stmts[i]).spec_end() by {
        assert(stmts[j].spec_start() == stmts[j - 1].spec_end());
    }
}

/// A token sequence that covers (part of) the span `[from, to]`: every
/// token lies inside the span with its range mirroring its offsets, and
/// consecutive tokens do not overlap.
pub open spec fn tokens_span(toks: Seq<Token>, s: Seq<char>, from: int, to: int) -> bool {
    &&& 0 <= from <= to <= s.len()
    &&& forall|k: int| 0 <= k < toks.len() ==> tok_box(#[trigger] toks[k], s)
    &&& forall|k: int|
        0 <= k < toks.len() ==> from <= (#[trigger] toks[k]).start as int && toks[k].end as int
            <= to
    &&& forall|i: int, j: int|
        #![trigger toks[i], toks[j]]
        0 <= i && j == i + 1 && j < toks.len() ==> toks[i].end as int <= toks[j].start as int
}

/// Concatenating two token sequences over adjacent spans covers the joint
/// span.
#[verifier::rlimit(100)]
#[verifier::spinoff_prover]
pub proof fn lemma_span_concat(
    a: Seq<Token>,
    b: Seq<Token>,
    s: Seq<char>,
    f: int,
    m: int,
    m2: int,
    t: int,
)
    requires
        tokens_span(a, s, f, m),
        tokens_span(b, s, m2, t),
        m <= m2,
    ensures
        tokens_span(a + b, s, f, t),
{
    let c = a + b;
    assert forall|k: int| 0 <= k < c.len() implies tok_box(#[trigger] c[k], s) && f <= c[
        k
    ].start as int && c[k].end as int <= t by {
        if k < a.len() {
            assert(c[k] == a[k]);
        } else {
            assert(c[k] == b[k - a.len()]);
        }
    }
    assert forall|i: int, j: int|
        0 <= i && j == i + 1 && j < c.len() implies (#[trigger] c[i]).end as int <= (#[trigger] c[
        j
    ]).start as int by {
        if j < a.len() {
            assert(c[i] == a[i] && c[j] == a[j]);
        } else if i >= a.len() {
            assert(c[i] == b[i - a.len()] && c[j] == b[j - a.len()]);
        } else {
            assert(c[i] == a[i] && c[j] == b[0]);
        }
    }
}

/// The tokens of a boxed name attribute cover its span in order.
pub proof fn lemma_name_tokens(a: Name, s: Seq<char>)
    requires
        name_box(a, s),
    ensures
        tokens_span(name_tokens(a), s, a.spec_start(), a.spec_end()),
        a.range.start == pos_at(s, a.spec_start()),
        a.range.end == pos_at(s, a.spec_end()),
        name_tokens(a).len() == 4,
        name_tokens(a)[0] == a.pragma,
        name_tokens(a)[1] == a.equal,
        name_tokens(a)[2] == a.identifier,
        name_tokens(a)[3] == a.semicolon,
{
    reveal(tok_box);
    reveal(name_box);
}

/// The tokens of a boxed vlen attribute cover its span in order.
pub proof fn lemma_vlen_tokens(a: Vlen, s: Seq<char>)
    requires
        vlen_box(a, s),
    ensures
        tokens_span(vlen_tokens(a), s, a.spec_start(), a.spec_end()),
        a.range.start == pos_at(s, a.spec_start()),
        a.range.end == pos_at(s, a.spec_end()),
        vlen_tokens(a).len() == 4,
        vlen_tokens(a)[0] == a.pragma,
        vlen_tokens(a)[1] == a.equal,
        vlen_tokens(a)[2] == a.length.spec_token(),
        vlen_tokens(a)[3] == a.semicolon,
{
    reveal(tok_box);
    reveal(vlen_box);
}

/// The tokens of a boxed timeout_cycle attribute cover its span in order.
pub proof fn lemma_timeout_cycle_tokens(a: TimeoutCycle, s: Seq<char>)
    requires
        timeout_cycle_box(a, s),
    ensures
        tokens_span(timeout_cycle_tokens(a), s, a.spec_start(), a.spec_end()),
        a.range.start == pos_at(s, a.spec_start()),
        a.range.end == pos_at(s, a.spec_end()),
        timeout_cycle_tokens(a).len() == 4,
        timeout_cycle_tokens(a)[0] == a.pragma,
        timeout_cycle_tokens(a)[1] == a.equal,
        timeout_cycle_tokens(a)[2] == a.length.spec_token(),
        timeout_cycle_tokens(a)[3] == a.semicolon,
{
    reveal(tok_box);
    reveal(timeout_cycle_box);
}

/// The tokens of a boxed cpu attribute cover its span in order.
pub proof fn lemma_cpu_attribute_tokens(a: CpuAttribute, s: Seq<char>)
    requires
        cpu_attribute_box(a, s),
    ensures
        tokens_span(cpu_attribute_tokens(a), s, a.spec_start(), a.spec_end()),
        a.spec_range().start == pos_at(s, a.spec_start()),
        a.spec_range().end == pos_at(s, a.spec_end()),
{
    match a {
        CpuAttribute::Name(n) => lemma_name_tokens(n, s),
        CpuAttribute::Vlen(v) => lemma_vlen_tokens(v, s),
    }
}

/// The tokens of a boxed config attribute cover its span in order.
pub proof fn lemma_config_attribute_tokens(a: ConfigAttribute, s: Seq<char>)
    requires
        config_attribute_box(a, s),
    ensures
        tokens_span(config_attribute_tokens(a), s, a.spec_start(), a.spec_end()),
        a.spec_range().start == pos_at(s, a.spec_start()),
        a.spec_range().end == pos_at(s, a.spec_end()),
{
    match a {
        ConfigAttribute::TimeoutCycle(t) => lemma_timeout_cycle_tokens(t, s),
    }
}

/// Dropping the first attribute of a boxed cpu attribute chain leaves a
/// boxed chain with the same overall end.
pub proof fn lemma_cpu_attrs_chain_shift(attrs: Seq<CpuAttribute>, s: Seq<char>, from: int)
    requires
        attrs.len() > 0,
        cpu_attrs_box_chain(attrs, s, from),
    ensures
        cpu_attrs_box_chain(attrs.drop_first(), s, attrs[0].spec_end()),
        cpu_attrs_last_end(attrs.drop_first(), attrs[0].spec_end()) == cpu_attrs_last_end(
            attrs,
            from,
        ),
{
    let rest = attrs.drop_first();
    assert forall|k: int| 0 <= k < rest.len() implies cpu_attribute_box(#[trigger] rest[k], s) by {
        assert(rest[k] == attrs[k + 1]);
    }
    if rest.len() > 0 {
        assert(rest[0] == attrs[1]);
        assert(rest.last() == attrs.last());
    }
    assert forall|i: int, j: int|
        0 <= i && j == i + 1 && j < rest.len() implies (#[trigger] rest[j]).spec_start() == (
    #[trigger] rest[i]).spec_end() by {
        assert(rest[i] == attrs[i + 1]);
        assert(rest[j] == attrs[j + 1]);
    }
}

/// As `lemma_cpu_attrs_chain_shift`, for config attribute lists.
pub proof fn lemma_config_attrs_chain_shift(attrs: Seq<ConfigAttribute>, s: Seq<char>, from: int)
    requires
        attrs.len() > 0,
        config_attrs_box_chain(attrs, s, from),
    ensures
        config_attrs_box_chain(attrs.drop_first(), s, attrs[0].spec_end()),
        config_attrs_last_end(attrs.drop_first(), attrs[0].spec_end()) == config_attrs_last_end(
            attrs,
            from,
        ),
{
    let rest = attrs.drop_first();
    assert forall|k: int| 0 <= k < rest.len() implies config_attribute_box(#[trigger] rest[k], s) by {
        assert(rest[k] == attrs[k + 1]);
    }
    if rest.len() > 0 {
        assert(rest[0] == attrs[1]);
        assert(rest.last() == attrs.last());
    }
    assert forall|i: int, j: int|
        0 <= i && j == i + 1 && j < rest.len() implies (#[trigger] rest[j]).spec_start() == (
    #[trigger] rest[i]).spec_end() by {
        assert(rest[i] == attrs[i + 1]);
        assert(rest[j] == attrs[j + 1]);
    }
}

/// The flattened tokens of a boxed cpu attribute chain cover the chain's
/// span in order.
#[verifier::rlimit(50)]
pub proof fn lemma_cpu_attrs_tokens(attrs: Seq<CpuAttribute>, s: Seq<char>, from: int)
    requires
        cpu_attrs_box_chain(attrs, s, from),
        0 <= from <= s.len(),
        cpu_attrs_last_end(attrs, from) <= s.len(),
    ensures
        tokens_span(cpu_attrs_tokens(attrs), s, from, cpu_attrs_last_end(attrs, from)),
        from <= cpu_attrs_last_end(attrs, from),
    decreases attrs.len(),
{
    if attrs.len() == 0 {
    } else {
        let rest = attrs.drop_first();
        lemma_cpu_attribute_tokens(attrs[0], s);
        lemma_cpu_attrs_chain_shift(attrs, s, from);
        lemma_cpu_attrs_tokens(rest, s, attrs[0].spec_end());
        lemma_span_concat(
            cpu_attribute_tokens(attrs[0]),
            cpu_attrs_tokens(rest),
            s,
            from,
            attrs[0].spec_end(),
            attrs[0].spec_end(),
            cpu_attrs_last_end(attrs, from),
        );
    }
}

/// The flattened tokens of a boxed config attribute chain cover the chain's
/// span in order.
#[verifier::rlimit(50)]
pub proof fn lemma_config_attrs_tokens(attrs: Seq<ConfigAttribute>, s: Seq<char>, from: int)
    requires
        config_attrs_box_chain(attrs, s, from),
        0 <= from <= s.len(),
        config_attrs_last_end(attrs, from) <= s.len(),
    ensures
        tokens_span(config_attrs_tokens(attrs), s, from, config_attrs_last_end(attrs, from)),
        from <= config_attrs_last_end(attrs, from),
    decreases attrs.len(),
{
    if attrs.len() == 0 {
    } else {
        let rest = attrs.drop_first();
        lemma_config_attribute_tokens(attrs[0], s);
        lemma_config_attrs_chain_shift(attrs, s, from);
        lemma_config_attrs_tokens(rest, s, attrs[0].spec_end());
        lemma_span_concat(
            config_attribute_tokens(attrs[0]),
            config_attrs_tokens(rest),
            s,
            from,
            attrs[0].spec_end(),
            attrs[0].spec_end(),
            config_attrs_last_end(attrs, from),
        );
    }
}

/// Two adjacent boxed tokens form an ordered span.
pub proof fn lemma_pair_span(t1: Token, t2: Token, s: Seq<char>, f: int, to: int)
    requires
        tok_box(t1, s),
        tok_box(t2, s),
        f == t1.start as int,
        t2.start == t1.end,
        to == t2.end as int,
    ensures
        tokens_span(seq![t1, t2], s, f, to),
{
    reveal(tok_box);
    assert(seq![t1, t2][0] == t1);
    assert(seq![t1, t2][1] == t2);
}

/// The tokens of a boxed cpu statement cover its span in order.
#[verifier::rlimit(100)]
#[verifier::spinoff_prover]
pub proof fn lemma_cpu_span(c: Cpu, s: Seq<char>)
    requires
        cpu_box(c, s),
    ensures
        tokens_span(cpu_tokens(c), s, c.spec_start(), c.spec_end()),
{
    reveal(cpu_box);
    reveal(tok_box);
    let head = seq![c.pragma, c.left_brace];
    let mid = cpu_attrs_tokens(c.attributes@);
    let tail = seq![c.right_brace, c.semicolon];
    let attrs_end = cpu_attrs_last_end(c.attributes@, c.left_brace.end as int);
    lemma_cpu_attrs_tokens(c.attributes@, s, c.left_brace.end as int);
    lemma_pair_span(c.pragma, c.left_brace, s, c.spec_start(), c.left_brace.end as int);
    lemma_pair_span(c.right_brace, c.semicolon, s, attrs_end, c.spec_end());
    lemma_span_concat(
        head,
        mid,
        s,
        c.spec_start(),
        c.left_brace.end as int,
        c.left_brace.end as int,
        attrs_end,
    );
    lemma_span_concat(head + mid, tail, s, c.spec_start(), attrs_end, attrs_end, c.spec_end());
    assert(cpu_tokens(c) == (head + mid) + tail);
}

/// Where the structural tokens of a cpu statement sit in its token
/// sequence.
#[verifier::rlimit(50)]
pub proof fn lemma_cpu_indices(c: Cpu)
    ensures
        cpu_tokens(c).len() == cpu_attrs_tokens(c.attributes@).len() + 4,
        cpu_tokens(c)[0] == c.pragma,
        cpu_tokens(c)[1] == c.left_brace,
        cpu_tokens(c)[cpu_tokens(c).len() - 2] == c.right_brace,
        cpu_tokens(c)[cpu_tokens(c).len() - 1] == c.semicolon,
        forall|k: int|
            2 <= k < cpu_tokens(c).len() - 2 ==> #[trigger] cpu_tokens(c)[k]
                == cpu_attrs_tokens(c.attributes@)[k - 2],
{
    let head = seq![c.pragma, c.left_brace];
    let mid = cpu_attrs_tokens(c.attributes@);
    let tail = seq![c.right_brace, c.semicolon];
    assert(cpu_tokens(c) == (head + mid) + tail);
}

/// The range of a boxed cpu statement mirrors its offsets.
pub proof fn lemma_cpu_range(c: Cpu, s: Seq<char>)
    requires
        cpu_box(c, s),
    ensures
        c.range.start == pos_at(s, c.spec_start()),
        c.range.end == pos_at(s, c.spec_end()),
{
    reveal(tok_box);
    reveal(cpu_box);
}

/// The tokens of a boxed cpu statement cover its span in order, with
/// the structural tokens at the sequence's edges.
#[verifier::rlimit(50)]
#[verifier::spinoff_prover]
pub proof fn lemma_cpu_tokens(c: Cpu, s: Seq<char>)
    requires
        cpu_box(c, s),
    ensures
        tokens_span(cpu_tokens(c), s, c.spec_start(), c.spec_end()),
        c.range.start == pos_at(s, c.spec_start()),
        c.range.end == pos_at(s, c.spec_end()),
        cpu_tokens(c).len() >= 4,
        cpu_tokens(c)[0] == c.pragma,
        cpu_tokens(c)[1] == c.left_brace,
        cpu_tokens(c)[cpu_tokens(c).len() - 2] == c.right_brace,
        cpu_tokens(c)[cpu_tokens(c).len() - 1] == c.semicolon,
{
    lemma_cpu_span(c, s);
    lemma_cpu_indices(c);
    lemma_cpu_range(c, s);
}

/// The tokens of a boxed config statement cover its span in order.
#[verifier::rlimit(100)]
#[verifier::spinoff_prover]
pub proof fn lemma_config_span(c: Config, s: Seq<char>)
    requires
        config_box(c, s),
    ensures
        tokens_span(config_tokens(c), s, c.spec_start(), c.spec_end()),
{
    reveal(config_box);
    reveal(tok_box);
    let head = seq![c.pragma, c.left_brace];
    let mid = config_attrs_tokens(c.attributes@);
    let tail = seq![c.right_brace, c.semicolon];
    let attrs_end = config_attrs_last_end(c.attributes@, c.left_brace.end as int);
    lemma_config_attrs_tokens(c.attributes@, s, c.left_brace.end as int);
    lemma_pair_span(c.pragma, c.left_brace, s, c.spec_start(), c.left_brace.end as int);
    lemma_pair_span(c.right_brace, c.semicolon, s, attrs_end, c.spec_end());
    lemma_span_concat(
        head,
        mid,
        s,
        c.spec_start(),
        c.left_brace.end as int,
        c.left_brace.end as int,
        attrs_end,
    );
    lemma_span_concat(head + mid, tail, s, c.spec_start(), attrs_end, attrs_end, c.spec_end());
    assert(config_tokens(c) == (head + mid) + tail);
}

/// Where the structural tokens of a config statement sit in its token
/// sequence.
#[verifier::rlimit(50)]
pub proof fn lemma_config_indices(c: Config)
    ensures
        config_tokens(c).len() == config_attrs_tokens(c.attributes@).len() + 4,
        config_tokens(c)[0] == c.pragma,
        config_tokens(c)[1] == c.left_brace,
        config_tokens(c)[config_tokens(c).len() - 2] == c.right_brace,
        config_tokens(c)[config_tokens(c).len() - 1] == c.semicolon,
        forall|k: int|
            2 <= k < config_tokens(c).len() - 2 ==> #[trigger] config_tokens(c)[k]
                == config_attrs_tokens(c.attributes@)[k - 2],
{
    let head = seq![c.pragma, c.left_brace];
    let mid = config_attrs_tokens(c.attributes@);
    let tail = seq![c.right_brace, c.semicolon];
    assert(config_tokens(c) == (head + mid) + tail);
}

/// The range of a boxed config statement mirrors its offsets.
pub proof fn lemma_config_range(c: Config, s: Seq<char>)
    requires
        config_box(c, s),
    ensures
        c.range.start == pos_at(s, c.spec_start()),
        c.range.end == pos_at(s, c.spec_end()),
{
    reveal(tok_box);
    reveal(config_box);
}

/// The tokens of a boxed config statement cover its span in order, with
/// the structural tokens at the sequence's edges.
#[verifier::rlimit(50)]
#[verifier::spinoff_prover]
pub proof fn lemma_config_tokens(c: Config, s: Seq<char>)
    requires
        config_box(c, s),
    ensures
        tokens_span(config_tokens(c), s, c.spec_start(), c.spec_end()),
        c.range.start == pos_at(s, c.spec_start()),
        c.range.end == pos_at(s, c.spec_end()),
        config_tokens(c).len() >= 4,
        config_tokens(c)[0] == c.pragma,
        config_tokens(c)[1] == c.left_brace,
        config_tokens(c)[config_tokens(c).len() - 2] == c.right_brace,
        config_tokens(c)[config_tokens(c).len() - 1] == c.semicolon,
{
    lemma_config_span(c, s);
    lemma_config_indices(c);
    lemma_config_range(c, s);
}

/// The tokens of a boxed statement cover its span in order.
#[verifier::rlimit(50)]
pub proof fn lemma_statement_tokens(st: Statement, s: Seq<char>)
    requires
        statement_box(st, s),
    ensures
        tokens_span(statement_tokens(st), s, st.spec_start(), st.spec_end()),
        st.spec_start() < st.spec_end(),
        st.spec_range().start == pos_at(s, st.spec_start()),
        st.spec_range().end == pos_at(s, st.spec_end()),
{
    reveal(tok_box);
    match st {
        Statement::Cpu(c) => {
            lemma_cpu_box_frame(c, s);
            lemma_cpu_tokens(c, s);
            assert(tok_box(cpu_tokens(c)[0], s));
        },
        Statement::Config(c) => {
            lemma_config_box_frame(c, s);
            lemma_config_tokens(c, s);
            assert(tok_box(config_tokens(c)[0], s));
        },
        Statement::Recovered(_) => (),
    }
}

/// The start offset of a boxed cpu statement is its pragma's start, and its
/// end its semicolon's end.
pub proof fn lemma_cpu_box_frame(c: Cpu, s: Seq<char>)
    requires
        cpu_box(c, s),
    ensures
        c.spec_start() == c.pragma.start as int,
        c.spec_end() == c.semicolon.end as int,
{
    reveal(cpu_box);
}

/// As `lemma_cpu_box_frame`, for config statements.
pub proof fn lemma_config_box_frame(c: Config, s: Seq<char>)
    requires
        config_box(c, s),
    ensures
        c.spec_start() == c.pragma.start as int,
        c.spec_end() == c.semicolon.end as int,
{
    reveal(config_box);
}

/// Dropping the first statement of a boxed chain leaves a boxed chain.
pub proof fn lemma_stmts_chain_shift(stmts: Seq<Statement>, s: Seq<char>, from: int)
    requires
        stmts.len() > 0,
        stmts_box_chain(stmts, s, from),
    ensures
        stmts_box_chain(stmts.drop_first(), s, stmts[0].spec_end()),
{
    let rest = stmts.drop_first();
    assert forall|k: int| 0 <= k < rest.len() implies statement_box(#[trigger] rest[k], s) by {
        assert(rest[k] == stmts[k + 1]);
    }
    if rest.len() > 0 {
        assert(rest[0] == stmts[1]);
        assert(rest.last() == stmts.last());
    }
    assert forall|i: int, j: int|
        0 <= i && j == i + 1 && j < rest.len() implies (#[trigger] rest[j]).spec_start() == (
    #[trigger] rest[i]).spec_end() by {
        assert(rest[i] == stmts[i + 1]);
        assert(rest[j] == stmts[j + 1]);
    }
}

/// Where a boxed statement chain ends.
pub open spec fn stmts_last_end(stmts: Seq<Statement>, from: int) -> int {
    if stmts.len() == 0 {
        from
    } else {
        stmts.last().spec_end()
    }
}

/// The flattened tokens of a boxed statement chain cover the chain's span
/// in order.
#[verifier::rlimit(100)]
#[verifier::spinoff_prover]
pub proof fn lemma_statements_tokens(stmts: Seq<Statement>, s: Seq<char>, from: int)
    requires
        0 <= from <= s.len(),
        stmts_box_chain(stmts, s, from),
    ensures
        tokens_span(statements_tokens(stmts), s, from, stmts_last_end(stmts, from)),
        from <= stmts_last_end(stmts, from),
    decreases stmts.len(),
{
    if stmts.len() == 0 {
    } else {
        let rest = stmts.drop_first();
        lemma_statement_tokens(stmts[0], s);
        lemma_stmts_chain_shift(stmts, s, from);
        lemma_statements_tokens(rest, s, stmts[0].spec_end());
        if rest.len() > 0 {
            assert(rest.last() == stmts.last());
        }
        lemma_span_concat(
            statement_tokens(stmts[0]),
            statements_tokens(rest),
            s,
            from,
            stmts[0].spec_end(),
            stmts[0].spec_end(),
            stmts_last_end(stmts, from),
        );
    }
}

/// A position inside a boxed token that starts at or after offset `lo` lies
/// at or after the position of `lo`.
pub proof fn lemma_contains_at_or_after(t: Token, s: Seq<char>, lo: int, pos: Position)
    requires
        s.len() <= u32::MAX,
        tok_box(t, s),
        0 <= lo <= t.start as int,
        t.range.spec_contains(pos),
    ensures
        pos_le(pos_at(s, lo), pos),
{
    reveal(tok_box);
    lemma_pos_mono(s, lo, t.start as int);
}

/// Two distinct tokens of an ordered sequence never overlap: the earlier
/// one ends at or before the later one starts.
pub proof fn lemma_span_sorted(toks: Seq<Token>, s: Seq<char>, f: int, t: int, a: int, b: int)
    requires
        tokens_span(toks, s, f, t),
        0 <= a < b < toks.len(),
    ensures
        toks[a].end as int <= toks[b].start as int,
    decreases b - a,
{
    reveal(tok_box);
    assert(toks[a].end as int <= toks[a + 1].start as int);
    if a + 1 < b {
        lemma_span_sorted(toks, s, f, t, a + 1, b);
    }
}

/// A position inside one token of an ordered sequence is inside no other
/// token of it, and lies within the covered span.
#[verifier::rlimit(50)]
pub proof fn lemma_span_unique(
    toks: Seq<Token>,
    s: Seq<char>,
    f: int,
    t: int,
    pos: Position,
    k: int,
)
    requires
        s.len() <= u32::MAX,
        tokens_span(toks, s, f, t),
        0 <= k < toks.len(),
        toks[k].range.spec_contains(pos),
    ensures
        forall|j: int|
            0 <= j < toks.len() && j != k ==> !(#[trigger] toks[j]).range.spec_contains(pos),
        pos_le(pos_at(s, f), pos),
        pos_lt(pos, pos_at(s, t)),
{
    reveal(tok_box);
    assert forall|j: int|
        0 <= j < toks.len() && j != k implies !(#[trigger] toks[j]).range.spec_contains(pos) by {
        if j < k {
            lemma_span_sorted(toks, s, f, t, j, k);
            lemma_pos_mono(s, toks[j].end as int, toks[k].start as int);
        } else {
            lemma_span_sorted(toks, s, f, t, k, j);
            lemma_pos_mono(s, toks[k].end as int, toks[j].start as int);
        }
    }
    lemma_pos_mono(s, f, toks[k].start as int);
    lemma_pos_mono(s, toks[k].end as int, t);
}

/// A position inside a token of a boxed name attribute resolves to exactly
/// that token.
#[verifier::rlimit(50)]
pub proof fn lemma_name_query_hit(a: Name, s: Seq<char>, pos: Position, k: int)
    requires
        s.len() <= u32::MAX,
        name_box(a, s),
        0 <= k < name_tokens(a).len(),
        name_tokens(a)[k].range.spec_contains(pos),
    ensures
        q_name(a, pos) == Some(name_tokens(a)[k]),
{
    reveal(name_box);
    lemma_name_tokens(a, s);
    lemma_span_unique(name_tokens(a), s, a.spec_start(), a.spec_end(), pos, k);
}

/// A position inside a token of a boxed vlen attribute resolves to exactly
/// that token.
#[verifier::rlimit(100)]
#[verifier::spinoff_prover]
pub proof fn lemma_vlen_query_hit(a: Vlen, s: Seq<char>, pos: Position, k: int)
    requires
        s.len() <= u32::MAX,
        vlen_box(a, s),
        0 <= k < vlen_tokens(a).len(),
        vlen_tokens(a)[k].range.spec_contains(pos),
    ensures
        q_vlen(a, pos) == Some(vlen_tokens(a)[k]),
{
    reveal(vlen_box);
    lemma_vlen_tokens(a, s);
    lemma_span_unique(vlen_tokens(a), s, a.spec_start(), a.spec_end(), pos, k);
}

/// A position inside a token of a boxed timeout_cycle attribute resolves to
/// exactly that token.
#[verifier::rlimit(100)]
#[verifier::spinoff_prover]
pub proof fn lemma_timeout_cycle_query_hit(a: TimeoutCycle, s: Seq<char>, pos: Position, k: int)
    requires
        s.len() <= u32::MAX,
        timeout_cycle_box(a, s),
        0 <= k < timeout_cycle_tokens(a).len(),
        timeout_cycle_tokens(a)[k].range.spec_contains(pos),
    ensures
        q_timeout_cycle(a, pos) == Some(timeout_cycle_tokens(a)[k]),
{
    reveal(timeout_cycle_box);
    lemma_timeout_cycle_tokens(a, s);
    lemma_span_unique(timeout_cycle_tokens(a), s, a.spec_start(), a.spec_end(), pos, k);
}

/// A position inside a token of a boxed cpu attribute resolves to exactly
/// that token.
pub proof fn lemma_cpu_attribute_query_hit(a: CpuAttribute, s: Seq<char>, pos: Position, k: int)
    requires
        s.len() <= u32::MAX,
        cpu_attribute_box(a, s),
        0 <= k < cpu_attribute_tokens(a).len(),
        cpu_attribute_tokens(a)[k].range.spec_contains(pos),
    ensures
        q_cpu_attribute(a, pos) == Some(cpu_attribute_tokens(a)[k]),
{
    match a {
        CpuAttribute::Name(n) => lemma_name_query_hit(n, s, pos, k),
        CpuAttribute::Vlen(v) => lemma_vlen_query_hit(v, s, pos, k),
    }
}

/// A position inside a token of a boxed config attribute resolves to
/// exactly that token.
pub proof fn lemma_config_attribute_query_hit(
    a: ConfigAttribute,
    s: Seq<char>,
    pos: Position,
    k: int,
)
    requires
        s.len() <= u32::MAX,
        config_attribute_box(a, s),
        0 <= k < config_attribute_tokens(a).len(),
        config_attribute_tokens(a)[k].range.spec_contains(pos),
    ensures
        q_config_attribute(a, pos) == Some(config_attribute_tokens(a)[k]),
{
    match a {
        ConfigAttribute::TimeoutCycle(tc) => lemma_timeout_cycle_query_hit(tc, s, pos, k),
    }
}

/// A position inside a token of a boxed cpu attribute chain resolves to
/// exactly that token.
#[verifier::rlimit(100)]
#[verifier::spinoff_prover]
pub proof fn lemma_cpu_attrs_query_hit(
    attrs: Seq<CpuAttribute>,
    s: Seq<char>,
    from: int,
    pos: Position,
    k: int,
)
    requires
        s.len() <= u32::MAX,
        0 <= from <= s.len(),
        cpu_attrs_box_chain(attrs, s, from),
        cpu_attrs_last_end(attrs, from) <= s.len(),
        0 <= k < cpu_attrs_tokens(attrs).len(),
        cpu_attrs_tokens(attrs)[k].range.spec_contains(pos),
    ensures
        q_cpu_attrs(attrs, pos) == Some(cpu_attrs_tokens(attrs)[k]),
    decreases attrs.len(),
{
    let toks0 = cpu_attribute_tokens(attrs[0]);
    let rest = attrs.drop_first();
    let tok = cpu_attrs_tokens(attrs)[k];
    assert(cpu_attrs_tokens(attrs) == toks0 + cpu_attrs_tokens(rest));
    lemma_cpu_attrs_chain_shift(attrs, s, from);
    lemma_cpu_attribute_tokens(attrs[0], s);
    if k < toks0.len() {
        assert(tok == toks0[k]);
        lemma_span_unique(toks0, s, attrs[0].spec_start(), attrs[0].spec_end(), pos, k);
        lemma_cpu_attribute_query_hit(attrs[0], s, pos, k);
        assert(attrs[0].spec_range().spec_contains(pos));
    } else {
        assert(tok == cpu_attrs_tokens(rest)[k - toks0.len()]);
        lemma_cpu_attrs_tokens(rest, s, attrs[0].spec_end());
        lemma_contains_at_or_after(tok, s, attrs[0].spec_end(), pos);
        lemma_cpu_attrs_query_hit(rest, s, attrs[0].spec_end(), pos, k - toks0.len());
        assert(!attrs[0].spec_range().spec_contains(pos));
    }
}

/// A position inside a token of a boxed config attribute chain resolves to
/// exactly that token.
#[verifier::rlimit(100)]
#[verifier::spinoff_prover]
pub proof fn lemma_config_attrs_query_hit(
    attrs: Seq<ConfigAttribute>,
    s: Seq<char>,
    from: int,
    pos: Position,
    k: int,
)
    requires
        s.len() <= u32::MAX,
        0 <= from <= s.len(),
        config_attrs_box_chain(attrs, s, from),
        config_attrs_last_end(attrs, from) <= s.len(),
        0 <= k < config_attrs_tokens(attrs).len(),
        config_attrs_tokens(attrs)[k].range.spec_contains(pos),
    ensures
        q_config_attrs(attrs, pos) == Some(config_attrs_tokens(attrs)[k]),
    decreases attrs.len(),
{
    let toks0 = config_attribute_tokens(attrs[0]);
    let rest = attrs.drop_first();
    let tok = config_attrs_tokens(attrs)[k];
    assert(config_attrs_tokens(attrs) == toks0 + config_attrs_tokens(rest));
    lemma_config_attrs_chain_shift(attrs, s, from);
    lemma_config_attribute_tokens(attrs[0], s);
    if k < toks0.len() {
        assert(tok == toks0[k]);
        lemma_span_unique(toks0, s, attrs[0].spec_start(), attrs[0].spec_end(), pos, k);
        lemma_config_attribute_query_hit(attrs[0], s, pos, k);
        assert(attrs[0].spec_range().spec_contains(pos));
    } else {
        assert(tok == config_attrs_tokens(rest)[k - toks0.len()]);
        lemma_config_attrs_tokens(rest, s, attrs[0].spec_end());
        lemma_contains_at_or_after(tok, s, attrs[0].spec_end(), pos);
        lemma_config_attrs_query_hit(rest, s, attrs[0].spec_end(), pos, k - toks0.len());
        assert(!attrs[0].spec_range().spec_contains(pos));
    }
}

/// The attribute chain of a boxed cpu statement, and its bounds.
pub proof fn lemma_cpu_chain_facts(c: Cpu, s: Seq<char>)
    requires
        cpu_box(c, s),
    ensures
        cpu_attrs_box_chain(c.attributes@, s, c.left_brace.end as int),
        0 <= c.left_brace.end as int <= s.len(),
        cpu_attrs_last_end(c.attributes@, c.left_brace.end as int) <= s.len(),
{
    reveal(cpu_box);
    reveal(tok_box);
}

/// The attribute chain of a boxed config statement, and its bounds.
pub proof fn lemma_config_chain_facts(c: Config, s: Seq<char>)
    requires
        config_box(c, s),
    ensures
        config_attrs_box_chain(c.attributes@, s, c.left_brace.end as int),
        0 <= c.left_brace.end as int <= s.len(),
        config_attrs_last_end(c.attributes@, c.left_brace.end as int) <= s.len(),
{
    reveal(config_box);
    reveal(tok_box);
}

/// A position inside a token of a boxed cpu statement resolves to exactly
/// that token.
#[verifier::rlimit(100)]
#[verifier::spinoff_prover]
pub proof fn lemma_cpu_query_hit(c: Cpu, s: Seq<char>, pos: Position, k: int)
    requires
        s.len() <= u32::MAX,
        cpu_box(c, s),
        0 <= k < cpu_tokens(c).len(),
        cpu_tokens(c)[k].range.spec_contains(pos),
    ensures
        q_cpu(c, pos) == Some(cpu_tokens(c)[k]),
{
    lemma_cpu_tokens(c, s);
    lemma_cpu_indices(c);
    let toks = cpu_tokens(c);
    let n = toks.len();
    lemma_span_unique(toks, s, c.spec_start(), c.spec_end(), pos, k);
    if 2 <= k < n - 2 {
        lemma_cpu_chain_facts(c, s);
        assert(toks[k] == cpu_attrs_tokens(c.attributes@)[k - 2]);
        lemma_cpu_attrs_query_hit(c.attributes@, s, c.left_brace.end as int, pos, k - 2);
    }
}

/// A position inside a token of a boxed config statement resolves to
/// exactly that token.
#[verifier::rlimit(100)]
#[verifier::spinoff_prover]
pub proof fn lemma_config_query_hit(c: Config, s: Seq<char>, pos: Position, k: int)
    requires
        s.len() <= u32::MAX,
        config_box(c, s),
        0 <= k < config_tokens(c).len(),
        config_tokens(c)[k].range.spec_contains(pos),
    ensures
        q_config(c, pos) == Some(config_tokens(c)[k]),
{
    lemma_config_tokens(c, s);
    lemma_config_indices(c);
    let toks = config_tokens(c);
    let n = toks.len();
    lemma_span_unique(toks, s, c.spec_start(), c.spec_end(), pos, k);
    if 2 <= k < n - 2 {
        lemma_config_chain_facts(c, s);
        assert(toks[k] == config_attrs_tokens(c.attributes@)[k - 2]);
        lemma_config_attrs_query_hit(c.attributes@, s, c.left_brace.end as int, pos, k - 2);
    }
}

/// A position inside a token of a boxed statement resolves to exactly that
/// token.
pub proof fn lemma_statement_query_hit(st: Statement, s: Seq<char>, pos: Position, k: int)
    requires
        s.len() <= u32::MAX,
        statement_box(st, s),
        0 <= k < statement_tokens(st).len(),
        statement_tokens(st)[k].range.spec_contains(pos),
    ensures
        q_statement(st, pos) == Some(statement_tokens(st)[k]),
{
    match st {
        Statement::Cpu(c) => lemma_cpu_query_hit(c, s, pos, k),
        Statement::Config(c) => lemma_config_query_hit(c, s, pos, k),
        Statement::Recovered(_) => (),
    }
}

/// A position inside a token of a boxed statement chain resolves to exactly
/// that token.
#[verifier::rlimit(100)]
#[verifier::spinoff_prover]
pub proof fn lemma_statements_query_hit(
    stmts: Seq<Statement>,
    s: Seq<char>,
    from: int,
    pos: Position,
    k: int,
)
    requires
        s.len() <= u32::MAX,
        0 <= from <= s.len(),
        stmts_box_chain(stmts, s, from),
        0 <= k < statements_tokens(stmts).len(),
        statements_tokens(stmts)[k].range.spec_contains(pos),
    ensures
        q_statements(stmts, pos) == Some(statements_tokens(stmts)[k]),
    decreases stmts.len(),
{
    let toks0 = statement_tokens(stmts[0]);
    let rest = stmts.drop_first();
    let tok = statements_tokens(stmts)[k];
    assert(statements_tokens(stmts) == toks0 + statements_tokens(rest));
    lemma_stmts_chain_shift(stmts, s, from);
    lemma_statement_tokens(stmts[0], s);
    if k < toks0.len() {
        assert(tok == toks0[k]);
        lemma_span_unique(toks0, s, stmts[0].spec_start(), stmts[0].spec_end(), pos, k);
        lemma_statement_query_hit(stmts[0], s, pos, k);
        assert(stmts[0].spec_range().spec_contains(pos));
    } else {
        assert(tok == statements_tokens(rest)[k - toks0.len()]);
        lemma_statements_tokens(rest, s, stmts[0].spec_end());
        lemma_contains_at_or_after(tok, s, stmts[0].spec_end(), pos);
        lemma_statements_query_hit(rest, s, stmts[0].spec_end(), pos, k - toks0.len());
        assert(!stmts[0].spec_range().spec_contains(pos));
    }
}

/// LAW. For every position strictly inside a token's range, the document
/// query returns exactly that token and no other node: the query outcome is
/// the token itself, for whichever token of the tree contains the position.
pub proof fn lemma_query_exact(doc: Ace, s: Seq<char>, pos: Position, k: int)
    requires
        s.len() <= u32::MAX,
        stmts_chain(doc.statements@, s),
        0 <= k < ace_tokens(doc).len(),
        ace_tokens(doc)[k].range.spec_contains(pos),
    ensures
        q_ace(doc, pos) == Some(ace_tokens(doc)[k]),
{
    lemma_stmts_boxes(doc.statements@, s);
    lemma_statements_query_hit(doc.statements@, s, 0, pos, k);
}

/// LAW. For adjacent tokens of a document in source order, the earlier
/// token's range ends at or before the later one's begins.
pub proof fn lemma_tokens_ordered(doc: Ace, s: Seq<char>, k: int)
    requires
        s.len() <= u32::MAX,
        stmts_chain(doc.statements@, s),
        0 <= k < ace_tokens(doc).len() - 1,
    ensures
        pos_le(ace_tokens(doc)[k].range.end, ace_tokens(doc)[k + 1].range.start),
{
    reveal(tok_box);
    lemma_stmts_boxes(doc.statements@, s);
    lemma_statements_tokens(doc.statements@, s, 0);
    let to = stmts_last_end(doc.statements@, 0);
    lemma_span_sorted(ace_tokens(doc), s, 0, to, k, k + 1);
    assert(tok_box(ace_tokens(doc)[k], s));
    assert(tok_box(ace_tokens(doc)[k + 1], s));
    lemma_pos_mono(s, ace_tokens(doc)[k].end as int, ace_tokens(doc)[k + 1].start as int);
}


/// A hit of the name attribute's query contains the queried position.
proof fn lemma_q_name_contains(a: Name, pos: Position)
    ensures
        q_name(a, pos) matches Some(t) ==> t.range.spec_contains(pos),
{
}

/// A hit of the vlen attribute's query contains the queried position.
proof fn lemma_q_vlen_contains(a: Vlen, pos: Position)
    ensures
        q_vlen(a, pos) matches Some(t) ==> t.range.spec_contains(pos),
{
}

/// A hit of the timeout_cycle attribute's query contains the queried
/// position.
proof fn lemma_q_timeout_cycle_contains(a: TimeoutCycle, pos: Position)
    ensures
        q_timeout_cycle(a, pos) matches Some(t) ==> t.range.spec_contains(pos),
{
}

/// A hit of a cpu attribute's query contains the queried position.
proof fn lemma_q_cpu_attribute_contains(a: CpuAttribute, pos: Position)
    ensures
        q_cpu_attribute(a, pos) matches Some(t) ==> t.range.spec_contains(pos),
{
    match a {
        CpuAttribute::Name(n) => lemma_q_name_contains(n, pos),
        CpuAttribute::Vlen(v) => lemma_q_vlen_contains(v, pos),
    }
}

/// A hit of a config attribute's query contains the queried position.
proof fn lemma_q_config_attribute_contains(a: ConfigAttribute, pos: Position)
    ensures
        q_config_attribute(a, pos) matches Some(t) ==> t.range.spec_contains(pos),
{
    match a {
        ConfigAttribute::TimeoutCycle(tc) => lemma_q_timeout_cycle_contains(tc, pos),
    }
}

/// A hit of a cpu attribute list's query contains the queried position.
proof fn lemma_q_cpu_attrs_contains(attrs: Seq<CpuAttribute>, pos: Position)
    ensures
        q_cpu_attrs(attrs, pos) matches Some(t) ==> t.range.spec_contains(pos),
    decreases attrs.len(),
{
    if attrs.len() > 0 {
        lemma_q_cpu_attribute_contains(attrs[0], pos);
        lemma_q_cpu_attrs_contains(attrs.drop_first(), pos);
    }
}

/// A hit of a config attribute list's query contains the queried position.
proof fn lemma_q_config_attrs_contains(attrs: Seq<ConfigAttribute>, pos: Position)
    ensures
        q_config_attrs(attrs, pos) matches Some(t) ==> t.range.spec_contains(pos),
    decreases attrs.len(),
{
    if attrs.len() > 0 {
        lemma_q_config_attribute_contains(attrs[0], pos);
        lemma_q_config_attrs_contains(attrs.drop_first(), pos);
    }
}

/// A hit of a statement's query contains the queried position.
proof fn lemma_q_statement_contains(st: Statement, pos: Position)
    ensures
        q_statement(st, pos) matches Some(t) ==> t.range.spec_contains(pos),
{
    match st {
        Statement::Cpu(c) => lemma_q_cpu_attrs_contains(c.attributes@, pos),
        Statement::Config(c) => lemma_q_config_attrs_contains(c.attributes@, pos),
        Statement::Recovered(_) => (),
    }
}

/// A hit of a statement list's query contains the queried position.
proof fn lemma_q_statements_contains(stmts: Seq<Statement>, pos: Position)
    ensures
        q_statements(stmts, pos) matches Some(t) ==> t.range.spec_contains(pos),
    decreases stmts.len(),
{
    if stmts.len() > 0 {
        lemma_q_statement_contains(stmts[0], pos);
        lemma_q_statements_contains(stmts.drop_first(), pos);
    }
}

/// LAW. A query never invents a hit: whenever the document query answers
/// with a token, that token's range contains the queried position. Together
/// with `lemma_query_exact`, a position strictly inside a token resolves to
/// that token and nothing else.
pub proof fn lemma_query_hit_contains(doc: Ace, pos: Position)
    ensures
        q_ace(doc, pos) matches Some(t) ==> t.range.spec_contains(pos),
{
    lemma_q_statements_contains(doc.statements@, pos);
}

} // verus!
