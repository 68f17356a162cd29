//! Statement productions: `cpu { <attributes> } ;` and
//! `config { <attributes> } ;`, each a brace-delimited block whose closing
//! semicolon is tagged for statement completion.

use vstd::prelude::*;
use crate::attribute::{
    Name, TimeoutCycle, Vlen, lemma_m_name_bounds, lemma_m_timeout_cycle_bounds,
    lemma_m_vlen_bounds, m_name, m_timeout_cycle, m_vlen, name, q_name, q_timeout_cycle, q_vlen,
    timeout_cycle, vlen,
};
use crate::marker::LabelCompletion;
use crate::position::{Cursor, Position, Range};
use crate::token::{Token, TokenKind, lemma_tok_end_bounds, scan_token, tok_end};

verus! {

/// An attribute allowed inside a cpu block.
#[derive(Debug)]
pub enum CpuAttribute {
    Name(Name),
    Vlen(Vlen),
}

/// End of a cpu attribute at offset `i`: the name alternative wins if it
/// matches, else the vlen one.
pub open spec fn m_cpu_attribute(s: Seq<char>, i: int) -> Option<int> {
    if m_name(s, i) is Some {
        m_name(s, i)
    } else {
        m_vlen(s, i)
    }
}

impl CpuAttribute {
    /// The node holds a well-formed attribute, of the variant the ordered
    /// choice picks at its start offset.
    pub open spec fn wf(&self, s: Seq<char>) -> bool {
        match self {
            CpuAttribute::Name(a) => a.wf(s),
            CpuAttribute::Vlen(a) => a.wf(s) && m_name(s, a.spec_start()) is None,
        }
    }

    pub open spec fn spec_start(&self) -> int {
        match self {
            CpuAttribute::Name(a) => a.spec_start(),
            CpuAttribute::Vlen(a) => a.spec_start(),
        }
    }

    pub open spec fn spec_end(&self) -> int {
        match self {
            CpuAttribute::Name(a) => a.spec_end(),
            CpuAttribute::Vlen(a) => a.spec_end(),
        }
    }

    pub open spec fn spec_range(&self) -> Range {
        match self {
            CpuAttribute::Name(a) => a.range,
            CpuAttribute::Vlen(a) => a.range,
        }
    }

    /// The range of the inner attribute node.
    pub fn range(&self) -> (r: Range)
        ensures
            r == self.spec_range(),
    {
        match self {
            CpuAttribute::Name(a) => a.range(),
            CpuAttribute::Vlen(a) => a.range(),
        }
    }

    /// Delegates to the inner attribute node.
    pub fn query(&self, pos: Position) -> (r: Option<&Token>)
        ensures
            r matches Some(t) ==> q_cpu_attribute(*self, pos) == Some(*t),
            r is None <==> q_cpu_attribute(*self, pos) is None,
    {
        match self {
            CpuAttribute::Name(a) => a.query(pos),
            CpuAttribute::Vlen(a) => a.query(pos),
        }
    }
}

/// Query mirror for a cpu attribute.
pub open spec fn q_cpu_attribute(a: CpuAttribute, pos: Position) -> Option<Token> {
    match a {
        CpuAttribute::Name(n) => q_name(n, pos),
        CpuAttribute::Vlen(v) => q_vlen(v, pos),
    }
}

/// Parses a cpu attribute at the cursor: a name attribute, or else a vlen
/// attribute. Fails exactly when neither matches.
pub fn cpu_attribute(src: &Vec<char>, cur: Cursor) -> (r: Option<(CpuAttribute, Cursor)>)
    requires
        cur.wf(src@),
    ensures
        r is Some <==> m_cpu_attribute(src@, cur.off as int) is Some,
        r matches Some((a, c2)) ==> ({
            &&& a.wf(src@)
            &&& a.spec_start() == cur.off
            &&& c2.wf(src@)
            &&& c2.off == a.spec_end()
            &&& m_cpu_attribute(src@, cur.off as int) == Some(a.spec_end())
        }),
{
    match name(src, cur) {
        Some((a, c2)) => Some((CpuAttribute::Name(a), c2)),
        None => match vlen(src, cur) {
            Some((a, c2)) => Some((CpuAttribute::Vlen(a), c2)),
            None => None,
        },
    }
}

/// A matched cpu attribute makes strict progress and stays in bounds.
pub proof fn lemma_m_cpu_attribute_bounds(s: Seq<char>, i: int)
    requires
        0 <= i <= s.len(),
    ensures
        m_cpu_attribute(s, i) matches Some(j) ==> i < j <= s.len(),
{
    lemma_m_name_bounds(s, i);
    lemma_m_vlen_bounds(s, i);
}

/// End of the greedy cpu attribute list starting at offset `i`: attributes
/// are absorbed until one attempt fails.
pub open spec fn m_cpu_attrs_end(s: Seq<char>, i: int) -> int
    decreases s.len() - i when 0 <= i <= s.len()
{
    match m_cpu_attribute(s, i) {
        Some(j) => if i < j <= s.len() {
            m_cpu_attrs_end(s, j)
        } else {
            i
        },
        Option::None => i,
    }
}

/// The end of the attribute list stays in bounds.
pub proof fn lemma_m_cpu_attrs_end_bounds(s: Seq<char>, i: int)
    requires
        0 <= i <= s.len(),
    ensures
        i <= m_cpu_attrs_end(s, i) <= s.len(),
    decreases s.len() - i,
{
    match m_cpu_attribute(s, i) {
        Some(j) => {
            if i < j <= s.len() {
                lemma_m_cpu_attrs_end_bounds(s, j);
            }
        },
        Option::None => (),
    }
}

/// The attribute nodes of a list are well formed and sit one after the
/// other, the first starting at offset `from`.
pub open spec fn cpu_attrs_chain(attrs: Seq<CpuAttribute>, s: Seq<char>, from: int) -> bool {
    &&& forall|k: int| 0 <= k < attrs.len() ==> attrs[k].wf(s)
    &&& forall|k: int|
        0 <= k < attrs.len() ==> attrs[k].spec_start() == (if k == 0 {
            from
        } else {
            attrs[k - 1].spec_end()
        })
}

/// Where a chained attribute list ends: at `from` when it is empty, at the
/// last attribute's end otherwise.
pub open spec fn cpu_attrs_last_end(attrs: Seq<CpuAttribute>, from: int) -> int {
    if attrs.len() == 0 {
        from
    } else {
        attrs.last().spec_end()
    }
}

/// The `cpu { ... } ;` statement.
#[derive(Debug)]
pub struct Cpu {
    pub range: Range,
    pub pragma: Token,
    pub left_brace: Token,
    pub attributes: Vec<CpuAttribute>,
    pub right_brace: Token,
    pub semicolon: Token,
}

/// End of the cpu statement at offset `i`: the `cpu` keyword, `{`, the
/// greedy attribute list, `}` and `;`, in sequence.
pub open spec fn m_cpu(s: Seq<char>, i: int) -> Option<int> {
    match tok_end(s, i, TokenKind::Cpu) {
        Some(a) => match tok_end(s, a, TokenKind::LeftBrace) {
            Some(b) => {
                let c = m_cpu_attrs_end(s, b);
                match tok_end(s, c, TokenKind::RightBrace) {
                    Some(d) => tok_end(s, d, TokenKind::Semicolon),
                    Option::None => Option::None,
                }
            },
            Option::None => Option::None,
        },
        Option::None => Option::None,
    }
}

impl Cpu {
    /// The structural tokens carry the configured tags and sit around the
    /// chained attribute list; the list is maximal: no further attribute
    /// matches where the closing brace stands.
    pub open spec fn wf(&self, s: Seq<char>) -> bool {
        &&& self.pragma.wf(s) && self.pragma.kind == TokenKind::Cpu && self.pragma.label
            == LabelCompletion::Unlabeled
        &&& self.left_brace.wf(s) && self.left_brace.kind == TokenKind::LeftBrace
            && self.left_brace.label == LabelCompletion::Unlabeled && self.left_brace.start
            == self.pragma.end
        &&& cpu_attrs_chain(self.attributes@, s, self.left_brace.end as int)
        &&& m_cpu_attribute(s, self.right_brace.start as int) is None
        &&& self.right_brace.wf(s) && self.right_brace.kind == TokenKind::RightBrace
            && self.right_brace.label == LabelCompletion::Unlabeled && self.right_brace.start
            == cpu_attrs_last_end(self.attributes@, self.left_brace.end as int)
        &&& self.semicolon.wf(s) && self.semicolon.kind == TokenKind::Semicolon
            && self.semicolon.label == LabelCompletion::Statement && self.semicolon.start
            == self.right_brace.end
        &&& self.range.start == self.pragma.range.start
        &&& self.range.end == self.semicolon.range.end
    }

    pub open spec fn spec_start(&self) -> int {
        self.pragma.start as int
    }

    pub open spec fn spec_end(&self) -> int {
        self.semicolon.end as int
    }

    pub fn range(&self) -> (r: Range)
        ensures
            r == self.range,
    {
        self.range
    }

    /// Returns the attribute list.
    pub fn attributes(&self) -> (r: &Vec<CpuAttribute>)
        ensures
            r == &self.attributes,
    {
        &self.attributes
    }

    /// Resolves a position inside this statement: the structural tokens are
    /// tried first, then the attribute list in source order.
    pub fn query(&self, pos: Position) -> (r: Option<&Token>)
        ensures
            r matches Some(t) ==> q_cpu(*self, pos) == Some(*t),
            r is None <==> q_cpu(*self, pos) is None,
    {
        if self.pragma.range.contains(pos) {
            self.pragma.query(pos)
        } else if self.left_brace.range.contains(pos) {
            self.left_brace.query(pos)
        } else if self.right_brace.range.contains(pos) {
            self.right_brace.query(pos)
        } else if self.semicolon.range.contains(pos) {
            self.semicolon.query(pos)
        } else {
            let ghost attrs = self.attributes@;
            proof {
                assert(attrs.skip(0) =~= attrs);
            }
            let mut idx: usize = 0;
            while idx < self.attributes.len()
                invariant
                    0 <= idx <= attrs.len(),
                    attrs == self.attributes@,
                    !self.pragma.range.spec_contains(pos),
                    !self.left_brace.range.spec_contains(pos),
                    !self.right_brace.range.spec_contains(pos),
                    !self.semicolon.range.spec_contains(pos),
                    q_cpu_attrs(attrs, pos) == q_cpu_attrs(attrs.skip(idx as int), pos),
                decreases attrs.len() - idx,
            {
                proof {
                    assert(attrs.skip(idx as int).drop_first() =~= attrs.skip(idx as int + 1));
                    assert(attrs.skip(idx as int)[0] == attrs[idx as int]);
                }
                let a = &self.attributes[idx];
                if a.range().contains(pos) {
                    match a.query(pos) {
                        Some(t) => {
                            return Some(t);
                        },
                        None => (),
                    }
                }
                idx = idx + 1;
            }
            proof {
                assert(attrs.skip(attrs.len() as int) =~= Seq::<CpuAttribute>::empty());
            }
            None
        }
    }
}

/// Query mirror for the attribute list: the first attribute whose range
/// contains the position and whose own query answers, in source order.
pub open spec fn q_cpu_attrs(attrs: Seq<CpuAttribute>, pos: Position) -> Option<Token>
    decreases attrs.len(),
{
    if attrs.len() == 0 {
        Option::None
    } else if attrs[0].spec_range().spec_contains(pos) && q_cpu_attribute(attrs[0], pos) is Some {
        q_cpu_attribute(attrs[0], pos)
    } else {
        q_cpu_attrs(attrs.drop_first(), pos)
    }
}

/// Query mirror for the cpu statement.
pub open spec fn q_cpu(c: Cpu, pos: Position) -> Option<Token> {
    if c.pragma.range.spec_contains(pos) {
        Some(c.pragma)
    } else if c.left_brace.range.spec_contains(pos) {
        Some(c.left_brace)
    } else if c.right_brace.range.spec_contains(pos) {
        Some(c.right_brace)
    } else if c.semicolon.range.spec_contains(pos) {
        Some(c.semicolon)
    } else {
        q_cpu_attrs(c.attributes@, pos)
    }
}

/// Parses a cpu statement at the cursor. Fails exactly when the sequence
/// `cpu { <attributes> } ;` does not match there; the attribute list itself
/// is greedy and never fails.
pub fn cpu(src: &Vec<char>, cur: Cursor) -> (r: Option<(Cpu, Cursor)>)
    requires
        cur.wf(src@),
    ensures
        r is Some <==> m_cpu(src@, cur.off as int) is Some,
        r matches Some((st, c2)) ==> ({
            &&& st.wf(src@)
            &&& st.spec_start() == cur.off
            &&& c2.wf(src@)
            &&& c2.off == st.spec_end()
            &&& m_cpu(src@, cur.off as int) == Some(st.spec_end())
        }),
{
    let ghost s = src@;
    let (pragma, c1) = match scan_token(src, cur, TokenKind::Cpu, LabelCompletion::Unlabeled) {
        Some(x) => x,
        None => {
            return None;
        },
    };
    let (left_brace, cb) = match scan_token(
        src,
        c1,
        TokenKind::LeftBrace,
        LabelCompletion::Unlabeled,
    ) {
        Some(x) => x,
        None => {
            return None;
        },
    };
    let mut attributes: Vec<CpuAttribute> = Vec::new();
    let mut c = cb;
    loop
        invariant
            c.wf(s),
            s == src@,
            cb.wf(s),
            cpu_attrs_chain(attributes@, s, cb.off as int),
            cpu_attrs_last_end(attributes@, cb.off as int) == c.off,
            m_cpu_attrs_end(s, cb.off as int) == m_cpu_attrs_end(s, c.off as int),
        ensures
            c.wf(s),
            cpu_attrs_chain(attributes@, s, cb.off as int),
            cpu_attrs_last_end(attributes@, cb.off as int) == c.off,
            c.off == m_cpu_attrs_end(s, cb.off as int),
            m_cpu_attribute(s, c.off as int) is None,
        decreases s.len() - c.off,
    {
        proof {
            lemma_m_cpu_attribute_bounds(s, c.off as int);
        }
        match cpu_attribute(src, c) {
            Some((a, c2)) => {
                proof {
                    let old_attrs = attributes@;
                    assert forall|k: int| 0 <= k < old_attrs.push(a).len() implies old_attrs.push(
                        a,
                    )[k].wf(s) && old_attrs.push(a)[k].spec_start() == (if k == 0 {
                        cb.off as int
                    } else {
                        old_attrs.push(a)[k - 1].spec_end()
                    }) by {
                        if k < old_attrs.len() {
                            assert(old_attrs.push(a)[k] == old_attrs[k]);
                        }
                    }
                }
                attributes.push(a);
                c = c2;
            },
            None => {
                break ;
            },
        }
    }
    let (right_brace, c3) = match scan_token(
        src,
        c,
        TokenKind::RightBrace,
        LabelCompletion::Unlabeled,
    ) {
        Some(x) => x,
        None => {
            return None;
        },
    };
    let (semicolon, c4) = match scan_token(
        src,
        c3,
        TokenKind::Semicolon,
        LabelCompletion::Statement,
    ) {
        Some(x) => x,
        None => {
            return None;
        },
    };
    let range = Range { start: pragma.range.start, end: semicolon.range.end };
    Some((Cpu { range, pragma, left_brace, attributes, right_brace, semicolon }, c4))
}

/// An attribute allowed inside a config block.
#[derive(Debug)]
pub enum ConfigAttribute {
    TimeoutCycle(TimeoutCycle),
}

/// End of a config attribute at offset `i`.
pub open spec fn m_config_attribute(s: Seq<char>, i: int) -> Option<int> {
    m_timeout_cycle(s, i)
}

impl ConfigAttribute {
    pub open spec fn wf(&self, s: Seq<char>) -> bool {
        match self {
            ConfigAttribute::TimeoutCycle(a) => a.wf(s),
        }
    }

    pub open spec fn spec_start(&self) -> int {
        match self {
            ConfigAttribute::TimeoutCycle(a) => a.spec_start(),
        }
    }

    pub open spec fn spec_end(&self) -> int {
        match self {
            ConfigAttribute::TimeoutCycle(a) => a.spec_end(),
        }
    }

    pub open spec fn spec_range(&self) -> Range {
        match self {
            ConfigAttribute::TimeoutCycle(a) => a.range,
        }
    }

    /// The range of the inner attribute node.
    pub fn range(&self) -> (r: Range)
        ensures
            r == self.spec_range(),
    {
        match self {
            ConfigAttribute::TimeoutCycle(a) => a.range(),
        }
    }

    /// Delegates to the inner attribute node.
    pub fn query(&self, pos: Position) -> (r: Option<&Token>)
        ensures
            r matches Some(t) ==> q_config_attribute(*self, pos) == Some(*t),
            r is None <==> q_config_attribute(*self, pos) is None,
    {
        match self {
            ConfigAttribute::TimeoutCycle(a) => a.query(pos),
        }
    }
}

/// Query mirror for a config attribute.
pub open spec fn q_config_attribute(a: ConfigAttribute, pos: Position) -> Option<Token> {
    match a {
        ConfigAttribute::TimeoutCycle(t) => q_timeout_cycle(t, pos),
    }
}

/// Parses a config attribute at the cursor. Fails exactly when no
/// timeout_cycle attribute matches there.
pub fn config_attribute(src: &Vec<char>, cur: Cursor) -> (r: Option<(ConfigAttribute, Cursor)>)
    requires
        cur.wf(src@),
    ensures
        r is Some <==> m_config_attribute(src@, cur.off as int) is Some,
        r matches Some((a, c2)) ==> ({
            &&& a.wf(src@)
            &&& a.spec_start() == cur.off
            &&& c2.wf(src@)
            &&& c2.off == a.spec_end()
            &&& m_config_attribute(src@, cur.off as int) == Some(a.spec_end())
        }),
{
    match timeout_cycle(src, cur) {
        Some((a, c2)) => Some((ConfigAttribute::TimeoutCycle(a), c2)),
        None => None,
    }
}

/// A matched config attribute makes strict progress and stays in bounds.
pub proof fn lemma_m_config_attribute_bounds(s: Seq<char>, i: int)
    requires
        0 <= i <= s.len(),
    ensures
        m_config_attribute(s, i) matches Some(j) ==> i < j <= s.len(),
{
    lemma_m_timeout_cycle_bounds(s, i);
}

/// End of the greedy config attribute list starting at offset `i`.
pub open spec fn m_config_attrs_end(s: Seq<char>, i: int) -> int
    decreases s.len() - i when 0 <= i <= s.len()
{
    match m_config_attribute(s, i) {
        Some(j) => if i < j <= s.len() {
            m_config_attrs_end(s, j)
        } else {
            i
        },
        Option::None => i,
    }
}

/// The end of the attribute list stays in bounds.
pub proof fn lemma_m_config_attrs_end_bounds(s: Seq<char>, i: int)
    requires
        0 <= i <= s.len(),
    ensures
        i <= m_config_attrs_end(s, i) <= s.len(),
    decreases s.len() - i,
{
    match m_config_attribute(s, i) {
        Some(j) => {
            if i < j <= s.len() {
                lemma_m_config_attrs_end_bounds(s, j);
            }
        },
        Option::None => (),
    }
}

/// As `cpu_attrs_chain`, for config attribute lists.
pub open spec fn config_attrs_chain(attrs: Seq<ConfigAttribute>, s: Seq<char>, from: int) -> bool {
    &&& forall|k: int| 0 <= k < attrs.len() ==> attrs[k].wf(s)
    &&& forall|k: int|
        0 <= k < attrs.len() ==> attrs[k].spec_start() == (if k == 0 {
            from
        } else {
            attrs[k - 1].spec_end()
        })
}

/// Where a chained config attribute list ends.
pub open spec fn config_attrs_last_end(attrs: Seq<ConfigAttribute>, from: int) -> int {
    if attrs.len() == 0 {
        from
    } else {
        attrs.last().spec_end()
    }
}

/// The `config { ... } ;` statement.
#[derive(Debug)]
pub struct Config {
    pub range: Range,
    pub pragma: Token,
    pub left_brace: Token,
    pub attributes: Vec<ConfigAttribute>,
    pub right_brace: Token,
    pub semicolon: Token,
}

/// End of the config statement at offset `i`.
pub open spec fn m_config(s: Seq<char>, i: int) -> Option<int> {
    match tok_end(s, i, TokenKind::Config) {
        Some(a) => match tok_end(s, a, TokenKind::LeftBrace) {
            Some(b) => {
                let c = m_config_attrs_end(s, b);
                match tok_end(s, c, TokenKind::RightBrace) {
                    Some(d) => tok_end(s, d, TokenKind::Semicolon),
                    Option::None => Option::None,
                }
            },
            Option::None => Option::None,
        },
        Option::None => Option::None,
    }
}

impl Config {
    /// As for the cpu statement.
    pub open spec fn wf(&self, s: Seq<char>) -> bool {
        &&& self.pragma.wf(s) && self.pragma.kind == TokenKind::Config && self.pragma.label
            == LabelCompletion::Unlabeled
        &&& self.left_brace.wf(s) && self.left_brace.kind == TokenKind::LeftBrace
            && self.left_brace.label == LabelCompletion::Unlabeled && self.left_brace.start
            == self.pragma.end
        &&& config_attrs_chain(self.attributes@, s, self.left_brace.end as int)
        &&& m_config_attribute(s, self.right_brace.start as int) is None
        &&& self.right_brace.wf(s) && self.right_brace.kind == TokenKind::RightBrace
            && self.right_brace.label == LabelCompletion::Unlabeled && self.right_brace.start
            == config_attrs_last_end(self.attributes@, self.left_brace.end as int)
        &&& self.semicolon.wf(s) && self.semicolon.kind == TokenKind::Semicolon
            && self.semicolon.label == LabelCompletion::Statement && self.semicolon.start
            == self.right_brace.end
        &&& self.range.start == self.pragma.range.start
        &&& self.range.end == self.semicolon.range.end
    }

    pub open spec fn spec_start(&self) -> int {
        self.pragma.start as int
    }

    pub open spec fn spec_end(&self) -> int {
        self.semicolon.end as int
    }

    pub fn range(&self) -> (r: Range)
        ensures
            r == self.range,
    {
        self.range
    }

    /// Returns the attribute list.
    pub fn attributes(&self) -> (r: &Vec<ConfigAttribute>)
        ensures
            r == &self.attributes,
    {
        &self.attributes
    }

    /// Resolves a position inside this statement: the structural tokens are
    /// tried first, then the attribute list in source order.
    pub fn query(&self, pos: Position) -> (r: Option<&Token>)
        ensures
            r matches Some(t) ==> q_config(*self, pos) == Some(*t),
            r is None <==> q_config(*self, pos) is None,
    {
        if self.pragma.range.contains(pos) {
            self.pragma.query(pos)
        } else if self.left_brace.range.contains(pos) {
            self.left_brace.query(pos)
        } else if self.right_brace.range.contains(pos) {
            self.right_brace.query(pos)
        } else if self.semicolon.range.contains(pos) {
            self.semicolon.query(pos)
        } else {
            let ghost attrs = self.attributes@;
            proof {
                assert(attrs.skip(0) =~= attrs);
            }
            let mut idx: usize = 0;
            while idx < self.attributes.len()
                invariant
                    0 <= idx <= attrs.len(),
                    attrs == self.attributes@,
                    !self.pragma.range.spec_contains(pos),
                    !self.left_brace.range.spec_contains(pos),
                    !self.right_brace.range.spec_contains(pos),
                    !self.semicolon.range.spec_contains(pos),
                    q_config_attrs(attrs, pos) == q_config_attrs(attrs.skip(idx as int), pos),
                decreases attrs.len() - idx,
            {
                proof {
                    assert(attrs.skip(idx as int).drop_first() =~= attrs.skip(idx as int + 1));
                    assert(attrs.skip(idx as int)[0] == attrs[idx as int]);
                }
                let a = &self.attributes[idx];
                if a.range().contains(pos) {
                    match a.query(pos) {
                        Some(t) => {
                            return Some(t);
                        },
                        None => (),
                    }
                }
                idx = idx + 1;
            }
            proof {
                assert(attrs.skip(attrs.len() as int) =~= Seq::<ConfigAttribute>::empty());
            }
            None
        }
    }
}

/// Query mirror for the config attribute list.
pub open spec fn q_config_attrs(attrs: Seq<ConfigAttribute>, pos: Position) -> Option<Token>
    decreases attrs.len(),
{
    if attrs.len() == 0 {
        Option::None
    } else if attrs[0].spec_range().spec_contains(pos) && q_config_attribute(attrs[0], pos) is Some {
        q_config_attribute(attrs[0], pos)
    } else {
        q_config_attrs(attrs.drop_first(), pos)
    }
}

/// Query mirror for the config statement.
pub open spec fn q_config(c: Config, pos: Position) -> Option<Token> {
    if c.pragma.range.spec_contains(pos) {
        Some(c.pragma)
    } else if c.left_brace.range.spec_contains(pos) {
        Some(c.left_brace)
    } else if c.right_brace.range.spec_contains(pos) {
        Some(c.right_brace)
    } else if c.semicolon.range.spec_contains(pos) {
        Some(c.semicolon)
    } else {
        q_config_attrs(c.attributes@, pos)
    }
}

/// Parses a config statement at the cursor. Fails exactly when the sequence
/// `config { <attributes> } ;` does not match there.
pub fn config(src: &Vec<char>, cur: Cursor) -> (r: Option<(Config, Cursor)>)
    requires
        cur.wf(src@),
    ensures
        r is Some <==> m_config(src@, cur.off as int) is Some,
        r matches Some((st, c2)) ==> ({
            &&& st.wf(src@)
            &&& st.spec_start() == cur.off
            &&& c2.wf(src@)
            &&& c2.off == st.spec_end()
            &&& m_config(src@, cur.off as int) == Some(st.spec_end())
        }),
{
    let ghost s = src@;
    let (pragma, c1) = match scan_token(src, cur, TokenKind::Config, LabelCompletion::Unlabeled) {
        Some(x) => x,
        None => {
            return None;
        },
    };
    let (left_brace, cb) = match scan_token(
        src,
        c1,
        TokenKind::LeftBrace,
        LabelCompletion::Unlabeled,
    ) {
        Some(x) => x,
        None => {
            return None;
        },
    };
    let mut attributes: Vec<ConfigAttribute> = Vec::new();
    let mut c = cb;
    loop
        invariant
            c.wf(s),
            s == src@,
            cb.wf(s),
            config_attrs_chain(attributes@, s, cb.off as int),
            config_attrs_last_end(attributes@, cb.off as int) == c.off,
            m_config_attrs_end(s, cb.off as int) == m_config_attrs_end(s, c.off as int),
        ensures
            c.wf(s),
            config_attrs_chain(attributes@, s, cb.off as int),
            config_attrs_last_end(attributes@, cb.off as int) == c.off,
            c.off == m_config_attrs_end(s, cb.off as int),
            m_config_attribute(s, c.off as int) is None,
        decreases s.len() - c.off,
    {
        proof {
            lemma_m_config_attribute_bounds(s, c.off as int);
        }
        match config_attribute(src, c) {
            Some((a, c2)) => {
                proof {
                    let old_attrs = attributes@;
                    assert forall|k: int| 0 <= k < old_attrs.push(a).len() implies old_attrs.push(
                        a,
                    )[k].wf(s) && old_attrs.push(a)[k].spec_start() == (if k == 0 {
                        cb.off as int
                    } else {
                        old_attrs.push(a)[k - 1].spec_end()
                    }) by {
                        if k < old_attrs.len() {
                            assert(old_attrs.push(a)[k] == old_attrs[k]);
                        }
                    }
                }
                attributes.push(a);
                c = c2;
            },
            None => {
                break ;
            },
        }
    }
    let (right_brace, c3) = match scan_token(
        src,
        c,
        TokenKind::RightBrace,
        LabelCompletion::Unlabeled,
    ) {
        Some(x) => x,
        None => {
            return None;
        },
    };
    let (semicolon, c4) = match scan_token(
        src,
        c3,
        TokenKind::Semicolon,
        LabelCompletion::Statement,
    ) {
        Some(x) => x,
        None => {
            return None;
        },
    };
    let range = Range { start: pragma.range.start, end: semicolon.range.end };
    Some((Config { range, pragma, left_brace, attributes, right_brace, semicolon }, c4))
}


/// A matched cpu statement makes strict progress and stays in bounds.
pub proof fn lemma_m_cpu_bounds(s: Seq<char>, i: int)
    requires
        0 <= i <= s.len(),
    ensures
        m_cpu(s, i) matches Some(j) ==> i < j <= s.len(),
{
    lemma_tok_end_bounds(s, i, TokenKind::Cpu);
    match tok_end(s, i, TokenKind::Cpu) {
        Some(a) => {
            lemma_tok_end_bounds(s, a, TokenKind::LeftBrace);
            match tok_end(s, a, TokenKind::LeftBrace) {
                Some(b) => {
                    lemma_m_cpu_attrs_end_bounds(s, b);
                    let c = m_cpu_attrs_end(s, b);
                    lemma_tok_end_bounds(s, c, TokenKind::RightBrace);
                    match tok_end(s, c, TokenKind::RightBrace) {
                        Some(d) => lemma_tok_end_bounds(s, d, TokenKind::Semicolon),
                        Option::None => (),
                    }
                },
                Option::None => (),
            }
        },
        Option::None => (),
    }
}

/// A matched config statement makes strict progress and stays in bounds.
pub proof fn lemma_m_config_bounds(s: Seq<char>, i: int)
    requires
        0 <= i <= s.len(),
    ensures
        m_config(s, i) matches Some(j) ==> i < j <= s.len(),
{
    lemma_tok_end_bounds(s, i, TokenKind::Config);
    match tok_end(s, i, TokenKind::Config) {
        Some(a) => {
            lemma_tok_end_bounds(s, a, TokenKind::LeftBrace);
            match tok_end(s, a, TokenKind::LeftBrace) {
                Some(b) => {
                    lemma_m_config_attrs_end_bounds(s, b);
                    let c = m_config_attrs_end(s, b);
                    lemma_tok_end_bounds(s, c, TokenKind::RightBrace);
                    match tok_end(s, c, TokenKind::RightBrace) {
                        Some(d) => lemma_tok_end_bounds(s, d, TokenKind::Semicolon),
                        Option::None => (),
                    }
                },
                Option::None => (),
            }
        },
        Option::None => (),
    }
}

} // verus!
