//! The document level: the statement list, the whole-document parser (plain
//! and recovering), and the position-query entry points.

use vstd::prelude::*;
use crate::chars::{CharClass, run_end, scan_run};
use crate::marker::LabelCompletion;
use crate::position::{Cursor, Position, Range, advance_to, lemma_cursor_pos, pos_at};
use crate::statement::{
    Config, Cpu, config, cpu, lemma_m_config_bounds, lemma_m_cpu_bounds, m_config, m_cpu, q_config,
    q_cpu,
};
use crate::token::{Token, TokenKind, lit_chars, match_end};

verus! {

/// A placeholder recorded by the recovering parser in place of one
/// malformed statement: the skipped source span, with no tokens of its own.
#[derive(Debug)]
pub struct Recovered {
    pub range: Range,
    pub start: usize,
    pub end: usize,
}

/// Where recovery resumes after a failed statement attempt at offset `i`:
/// just past the next semicolon, or at the end of the input if there is
/// none.
pub open spec fn recovery_end(s: Seq<char>, i: int) -> int {
    let j = run_end(s, i, CharClass::NotSemicolon);
    if j < s.len() {
        j + 1
    } else {
        j
    }
}

impl Recovered {
    /// The placeholder covers exactly the recovery span at its start, is
    /// never empty, and no statement matches where it begins.
    pub open spec fn wf(&self, s: Seq<char>) -> bool {
        &&& s.len() <= u32::MAX
        &&& self.start < self.end <= s.len()
        &&& self.end == recovery_end(s, self.start as int)
        &&& m_statement(s, self.start as int) is None
        &&& self.range.start == pos_at(s, self.start as int)
        &&& self.range.end == pos_at(s, self.end as int)
    }
}

/// A statement of the document: a cpu block, a config block, or — only in
/// trees built by the recovering parser — a placeholder for a malformed
/// statement.
#[derive(Debug)]
pub enum Statement {
    Cpu(Cpu),
    Config(Config),
    Recovered(Recovered),
}

/// End of a statement at offset `i`: the cpu alternative wins if it
/// matches, else the config one. The two are distinguishable by their first
/// keyword.
pub open spec fn m_statement(s: Seq<char>, i: int) -> Option<int> {
    if m_cpu(s, i) is Some {
        m_cpu(s, i)
    } else {
        m_config(s, i)
    }
}

impl Statement {
    /// The node holds a well-formed statement, of the variant the ordered
    /// choice picks at its start offset.
    pub open spec fn wf(&self, s: Seq<char>) -> bool {
        match self {
            Statement::Cpu(c) => c.wf(s),
            Statement::Config(c) => c.wf(s) && m_cpu(s, c.spec_start()) is None,
            Statement::Recovered(r) => r.wf(s),
        }
    }

    pub open spec fn spec_start(&self) -> int {
        match self {
            Statement::Cpu(c) => c.spec_start(),
            Statement::Config(c) => c.spec_start(),
            Statement::Recovered(r) => r.start as int,
        }
    }

    pub open spec fn spec_end(&self) -> int {
        match self {
            Statement::Cpu(c) => c.spec_end(),
            Statement::Config(c) => c.spec_end(),
            Statement::Recovered(r) => r.end as int,
        }
    }

    pub open spec fn spec_range(&self) -> Range {
        match self {
            Statement::Cpu(c) => c.range,
            Statement::Config(c) => c.range,
            Statement::Recovered(r) => r.range,
        }
    }

    /// The range of the inner statement node.
    pub fn range(&self) -> (r: Range)
        ensures
            r == self.spec_range(),
    {
        match self {
            Statement::Cpu(c) => c.range(),
            Statement::Config(c) => c.range(),
            Statement::Recovered(r) => r.range,
        }
    }

    /// Delegates to the inner statement node; a recovery placeholder has no
    /// tokens and always misses.
    pub fn query(&self, pos: Position) -> (r: Option<&Token>)
        ensures
            r matches Some(t) ==> q_statement(*self, pos) == Some(*t),
            r is None <==> q_statement(*self, pos) is None,
    {
        match self {
            Statement::Cpu(c) => c.query(pos),
            Statement::Config(c) => c.query(pos),
            Statement::Recovered(_) => None,
        }
    }
}

/// Query mirror for a statement.
pub open spec fn q_statement(st: Statement, pos: Position) -> Option<Token> {
    match st {
        Statement::Cpu(c) => q_cpu(c, pos),
        Statement::Config(c) => q_config(c, pos),
        Statement::Recovered(_) => Option::None,
    }
}

/// Parses a statement at the cursor: a cpu block, or else a config block.
/// Fails exactly when neither matches; recovery placeholders are never
/// produced here.
pub fn statement(src: &Vec<char>, cur: Cursor) -> (r: Option<(Statement, Cursor)>)
    requires
        cur.wf(src@),
    ensures
        r is Some <==> m_statement(src@, cur.off as int) is Some,
        r matches Some((st, c2)) ==> ({
            &&& st.wf(src@)
            &&& !(st is Recovered)
            &&& st.spec_start() == cur.off
            &&& c2.wf(src@)
            &&& c2.off == st.spec_end()
            &&& m_statement(src@, cur.off as int) == Some(st.spec_end())
        }),
{
    match cpu(src, cur) {
        Some((c, c2)) => Some((Statement::Cpu(c), c2)),
        None => match config(src, cur) {
            Some((c, c2)) => Some((Statement::Config(c), c2)),
            None => None,
        },
    }
}

/// A matched statement makes strict progress and stays in bounds.
pub proof fn lemma_m_statement_bounds(s: Seq<char>, i: int)
    requires
        0 <= i <= s.len(),
    ensures
        m_statement(s, i) matches Some(j) ==> i < j <= s.len(),
{
    lemma_m_cpu_bounds(s, i);
    lemma_m_config_bounds(s, i);
}

/// End of the greedy statement list starting at offset `i`: statements are
/// absorbed until one attempt fails.
pub open spec fn m_statements_end(s: Seq<char>, i: int) -> int
    decreases s.len() - i when 0 <= i <= s.len()
{
    match m_statement(s, i) {
        Some(j) => if i < j <= s.len() {
            m_statements_end(s, j)
        } else {
            i
        },
        Option::None => i,
    }
}

/// The statement nodes of a document are well formed and sit one after the
/// other, the first starting at offset zero.
pub open spec fn stmts_chain(stmts: Seq<Statement>, s: Seq<char>) -> bool {
    &&& forall|k: int| 0 <= k < stmts.len() ==> stmts[k].wf(s)
    &&& forall|k: int|
        0 <= k < stmts.len() ==> stmts[k].spec_start() == (if k == 0 {
            0
        } else {
            stmts[k - 1].spec_end()
        })
}

/// Where a document's statement list ends: offset zero when it is empty,
/// the last statement's end otherwise.
pub open spec fn doc_end(stmts: Seq<Statement>) -> int {
    if stmts.len() == 0 {
        0
    } else {
        stmts.last().spec_end()
    }
}

/// The parse tree of a whole document: its statements in source order.
#[derive(Debug)]
pub struct Ace {
    pub statements: Vec<Statement>,
}

impl Ace {
    /// The statements chain from offset zero, and no further statement
    /// matches where the document's coverage ends.
    pub open spec fn wf(&self, s: Seq<char>) -> bool {
        &&& s.len() <= u32::MAX
        &&& stmts_chain(self.statements@, s)
        &&& m_statement(s, doc_end(self.statements@)) is None
    }

    /// Returns the statement list.
    pub fn statements(&self) -> (r: &Vec<Statement>)
        ensures
            r == &self.statements,
    {
        &self.statements
    }

    /// Resolves a zero-based line/column position to the terminal token
    /// that contains it; a position that no statement's range contains is a
    /// lookup miss.
    pub fn query(&self, line: u32, character: u32) -> (r: Query)
        ensures
            r.spec_result() == q_ace(*self, Position { line, character }),
    {
        let pos = Position::new(line, character);
        let ghost stmts = self.statements@;
        proof {
            assert(stmts.skip(0) =~= stmts);
        }
        let mut idx: usize = 0;
        while idx < self.statements.len()
            invariant
                0 <= idx <= stmts.len(),
                stmts == self.statements@,
                pos == (Position { line, character }),
                q_statements(stmts, pos) == q_statements(stmts.skip(idx as int), pos),
            decreases stmts.len() - idx,
        {
            proof {
                assert(stmts.skip(idx as int).drop_first() =~= stmts.skip(idx as int + 1));
                assert(stmts.skip(idx as int)[0] == stmts[idx as int]);
            }
            let st = &self.statements[idx];
            if st.range().contains(pos) {
                match st.query(pos) {
                    Some(t) => {
                        return Query { query_result: Some(t) };
                    },
                    None => (),
                }
            }
            idx = idx + 1;
        }
        proof {
            assert(stmts.skip(stmts.len() as int) =~= Seq::<Statement>::empty());
        }
        Query { query_result: None }
    }
}

/// Query mirror for the statement list: the first statement whose range
/// contains the position and whose own query answers, in source order.
pub open spec fn q_statements(stmts: Seq<Statement>, pos: Position) -> Option<Token>
    decreases stmts.len(),
{
    if stmts.len() == 0 {
        Option::None
    } else if stmts[0].spec_range().spec_contains(pos) && q_statement(stmts[0], pos) is Some {
        q_statement(stmts[0], pos)
    } else {
        q_statements(stmts.drop_first(), pos)
    }
}

/// Query mirror for the whole document.
pub open spec fn q_ace(doc: Ace, pos: Position) -> Option<Token> {
    q_statements(doc.statements@, pos)
}

/// The outcome of a position query: the resolved terminal token, or a miss
/// when no statement's range contains the position.
#[derive(Debug)]
pub struct Query<'a> {
    pub query_result: Option<&'a Token>,
}

impl<'a> Query<'a> {
    /// The resolved token, by value.
    pub open spec fn spec_result(&self) -> Option<Token> {
        match self.query_result {
            Some(t) => Some(*t),
            Option::None => Option::None,
        }
    }

    /// The completion candidates at the queried position: the resolved
    /// token's candidate list on a hit; on a miss — before, between or past
    /// the known constructs — the statement-level candidates, since the
    /// useful suggestion there is to start a new statement.
    pub fn show_completions(&self) -> (r: Vec<&'static str>)
        ensures
            self.spec_result() is None ==> r@.map_values(|t: &'static str| t@)
                == crate::marker::statement_completion_labels(),
            self.spec_result() matches Some(t) ==> ({
                &&& (t.label matches LabelCompletion::Unlabeled) ==> r@.len() == 0
                &&& (t.label matches LabelCompletion::Statement) ==> r@.map_values(
                    |x: &'static str| x@,
                ) == crate::marker::statement_completion_labels()
                &&& (t.label matches LabelCompletion::Attribute) ==> r@.map_values(
                    |x: &'static str| x@,
                ) == crate::marker::attribute_completion_labels()
            }),
    {
        match self.query_result {
            Some(t) => t.show_completions(),
            None => LabelCompletion::Statement.completion(),
        }
    }
}

/// Parses a whole document: the greedy statement list from the very start
/// of the input. Total: any suffix that fails to match a statement is left
/// out of the tree rather than reported.
pub fn ace(src: &Vec<char>) -> (r: Ace)
    requires
        src@.len() <= u32::MAX,
    ensures
        r.wf(src@),
        forall|k: int| 0 <= k < r.statements@.len() ==> !(r.statements@[k] is Recovered),
        doc_end(r.statements@) == m_statements_end(src@, 0),
{
    let ghost s = src@;
    let mut statements: Vec<Statement> = Vec::new();
    let mut c = Cursor::start(src);
    loop
        invariant
            c.wf(s),
            s == src@,
            stmts_chain(statements@, s),
            doc_end(statements@) == c.off,
            forall|k: int| 0 <= k < statements@.len() ==> !(statements@[k] is Recovered),
            m_statements_end(s, 0) == m_statements_end(s, c.off as int),
        ensures
            c.wf(s),
            stmts_chain(statements@, s),
            doc_end(statements@) == c.off,
            forall|k: int| 0 <= k < statements@.len() ==> !(statements@[k] is Recovered),
            c.off == m_statements_end(s, 0),
            m_statement(s, c.off as int) is None,
        decreases s.len() - c.off,
    {
        proof {
            lemma_m_statement_bounds(s, c.off as int);
        }
        match statement(src, c) {
            Some((st, c2)) => {
                proof {
                    let old_stmts = statements@;
                    assert forall|k: int| 0 <= k < old_stmts.push(st).len() implies old_stmts.push(
                        st,
                    )[k].wf(s) && !(old_stmts.push(st)[k] is Recovered) && old_stmts.push(
                        st,
                    )[k].spec_start() == (if k == 0 {
                        0
                    } else {
                        old_stmts.push(st)[k - 1].spec_end()
                    }) by {
                        if k < old_stmts.len() {
                            assert(old_stmts.push(st)[k] == old_stmts[k]);
                        }
                    }
                }
                statements.push(st);
                c = c2;
            },
            None => {
                break ;
            },
        }
    }
    Ace { statements }
}

/// Parses a whole document with error recovery: where a statement attempt
/// fails before the end of the input, a placeholder covering the text up to
/// just past the next semicolon (or to the end) is recorded in its place,
/// and parsing continues after it. The resulting tree always covers the
/// entire input. At the very end of the input nothing is recovered: an
/// unconsumable attempt ends the list, which keeps the loop terminating.
pub fn ace_recovering(src: &Vec<char>) -> (r: Ace)
    requires
        src@.len() <= u32::MAX,
    ensures
        r.wf(src@),
        doc_end(r.statements@) == src@.len(),
        forall|k: int|
            0 <= k < r.statements@.len() && r.statements@[k] is Recovered ==> m_statement(
                src@,
                r.statements@[k].spec_start(),
            ) is None,
{
    let ghost s = src@;
    let mut statements: Vec<Statement> = Vec::new();
    let mut c = Cursor::start(src);
    while c.off < src.len()
        invariant
            c.wf(s),
            s == src@,
            stmts_chain(statements@, s),
            doc_end(statements@) == c.off,
            forall|k: int|
                0 <= k < statements@.len() && statements@[k] is Recovered ==> m_statement(
                    s,
                    statements@[k].spec_start(),
                ) is None,
        decreases s.len() - c.off,
    {
        proof {
            lemma_m_statement_bounds(s, c.off as int);
        }
        let next = match statement(src, c) {
            Some((st, c2)) => (st, c2),
            None => {
                let j = scan_run(src, c.off, CharClass::NotSemicolon);
                let e = if j < src.len() {
                    j + 1
                } else {
                    j
                };
                let c2 = advance_to(src, c, e);
                proof {
                    lemma_cursor_pos(c, s);
                    lemma_cursor_pos(c2, s);
                }
                let rec = Recovered {
                    range: Range { start: c.pos(), end: c2.pos() },
                    start: c.off,
                    end: e,
                };
                (Statement::Recovered(rec), c2)
            },
        };
        let (st, c2) = next;
        proof {
            let old_stmts = statements@;
            assert forall|k: int| 0 <= k < old_stmts.push(st).len() implies old_stmts.push(
                st,
            )[k].wf(s) && old_stmts.push(st)[k].spec_start() == (if k == 0 {
                0
            } else {
                old_stmts.push(st)[k - 1].spec_end()
            }) && (old_stmts.push(st)[k] is Recovered ==> m_statement(
                s,
                old_stmts.push(st)[k].spec_start(),
            ) is None) by {
                if k < old_stmts.len() {
                    assert(old_stmts.push(st)[k] == old_stmts[k]);
                }
            }
        }
        statements.push(st);
        c = c2;
    }
    proof {
        lemma_no_statement_at_end(s);
    }
    Ace { statements }
}

/// No statement can match at the very end of the input: both keywords need
/// characters that are not there.
pub proof fn lemma_no_statement_at_end(s: Seq<char>)
    ensures
        m_statement(s, s.len() as int) is None,
{
    let n = s.len() as int;
    assert(lit_chars(TokenKind::Cpu).len() == 3);
    assert(lit_chars(TokenKind::Config).len() == 6);
    assert(match_end(s, n, TokenKind::Cpu) is None);
    assert(match_end(s, n, TokenKind::Config) is None);
}

} // verus!
