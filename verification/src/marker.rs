//! Completion tags carried by tokens, and the static candidate lists they
//! map to.

use vstd::prelude::*;

verus! {

/// Which static completion candidate list a resolved node offers.
#[derive(Debug, Copy, Clone, Eq, PartialEq, Structural)]
pub enum LabelCompletion {
    Unlabeled,
    Statement,
    Attribute,
}

impl Default for LabelCompletion {
    fn default() -> (r: Self)
        ensures
            r == LabelCompletion::Unlabeled,
    {
        LabelCompletion::Unlabeled
    }
}

/// The statement-level completion candidates, as character sequences: the
/// snippets for the block statements, then the remaining statement keywords
/// and their aliases.
pub open spec fn statement_completion_labels() -> Seq<Seq<char>> {
    seq![
        "cpu {\n    ${1}\n};\n"@,
        "config {\n    ${1}\n};\n"@,
        "reg ${1} {\n    ${2}\n};\n"@,
        "${1|rom,ram|} ${2} {\n    ${3}\n};\n"@,
        "port"@,
        "csim"@,
        "csim_header"@,
        "instruction"@,
        "insn"@,
        "background_instruction"@,
        "bg_insn"@,
        "vector"@,
        "vec"@,
        "utility_instruction"@,
        "u_insn"@,
        "rvv_instruction"@,
        "rvv_insn"@,
        "acl_miscellaneous_setting"@,
        "test_pattern"@,
        "test_sequence"@,
        "test_seq"@,
        "resource"@,
        "testbench_sequence"@,
        "testbench_seq"@,
        "tb_seq"@,
        "insn_group"@,
        "sync"@,
        "status"@,
    ]
}

/// The attribute-level completion candidates: the attribute keywords the
/// implemented grammar knows.
pub open spec fn attribute_completion_labels() -> Seq<Seq<char>> {
    seq!["name"@, "vlen"@, "timeout_cycle"@]
}

impl LabelCompletion {
    /// The candidate list this tag maps to: empty for an untagged node, the
    /// statement table for `Statement`, the attribute table for `Attribute`.
    pub fn completion(&self) -> (r: Vec<&'static str>)
        ensures
            (*self matches LabelCompletion::Unlabeled) ==> r@.len() == 0,
            (*self matches LabelCompletion::Statement) ==> r@.map_values(|t: &'static str| t@)
                == statement_completion_labels(),
            (*self matches LabelCompletion::Attribute) ==> r@.map_values(|t: &'static str| t@)
                == attribute_completion_labels(),
    {
        match self {
            LabelCompletion::Unlabeled => Vec::new(),
            LabelCompletion::Statement => complete_statement(),
            LabelCompletion::Attribute => complete_attribute(),
        }
    }
}

/// Builds the statement-level candidate list.
fn complete_statement() -> (r: Vec<&'static str>)
    ensures
        r@.map_values(|t: &'static str| t@) == statement_completion_labels(),
{
    let mut v: Vec<&'static str> = Vec::new();
    v.push("cpu {\n    ${1}\n};\n");
    v.push("config {\n    ${1}\n};\n");
    v.push("reg ${1} {\n    ${2}\n};\n");
    v.push("${1|rom,ram|} ${2} {\n    ${3}\n};\n");
    v.push("port");
    v.push("csim");
    v.push("csim_header");
    v.push("instruction");
    v.push("insn");
    v.push("background_instruction");
    v.push("bg_insn");
    v.push("vector");
    v.push("vec");
    v.push("utility_instruction");
    v.push("u_insn");
    v.push("rvv_instruction");
    v.push("rvv_insn");
    v.push("acl_miscellaneous_setting");
    v.push("test_pattern");
    v.push("test_sequence");
    v.push("test_seq");
    v.push("resource");
    v.push("testbench_sequence");
    v.push("testbench_seq");
    v.push("tb_seq");
    v.push("insn_group");
    v.push("sync");
    v.push("status");
    proof {
        assert(v@.map_values(|t: &'static str| t@) =~= statement_completion_labels());
    }
    v
}

/// Builds the attribute-level candidate list.
fn complete_attribute() -> (r: Vec<&'static str>)
    ensures
        r@.map_values(|t: &'static str| t@) == attribute_completion_labels(),
{
    let mut v: Vec<&'static str> = Vec::new();
    v.push("name");
    v.push("vlen");
    v.push("timeout_cycle");
    proof {
        assert(v@.map_values(|t: &'static str| t@) =~= attribute_completion_labels());
    }
    v
}

} // verus!
