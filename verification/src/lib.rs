//! A source-to-source synthesizer core: it walks parsed syntax trees while
//! tracking nested module paths, reads declarative rename annotations, and
//! renders implementation fragments (parse-from-text, display, capability
//! assertions) as plain text, deterministically.
use vstd::prelude::*;

pub mod ast;
pub mod attr;
pub mod text;
pub mod case;
pub mod order;
pub mod walk;
pub mod from_str_gen;
pub mod display_gen;
pub mod assert_gen;

verus! {

/// The two-line warning that opens every generated file, naming the tool that
/// wrote it, followed by a blank line.
pub open spec fn header_text(tool: Seq<char>) -> Seq<char> {
    "// This file is @generated by "@ + tool + ".\n// It is not intended for manual editing.\n\n"@
}

/// Renders the warning header placed at the top of each generated file.
pub fn header(tool: &str) -> (out: String)
    ensures
        out@ == header_text(tool@),
{
    let mut out = String::from_str("// This file is @generated by ");
    out.append(tool);
    out.append(".\n// It is not intended for manual editing.\n\n");
    out
}

/// Running the synthesizer twice over unchanged parsed sources yields
/// byte-identical text for every pass: each output is a function of the
/// parsed files and the tool name alone, and each pass's `ensures` pins the
/// rendered string to that function.
pub proof fn lemma_runs_deterministic(
    a: Seq<crate::ast::SourceFileV>,
    b: Seq<crate::ast::SourceFileV>,
    tool: Seq<char>,
)
    requires
        a == b,
    ensures
        crate::from_str_gen::from_str_output(a, tool) == crate::from_str_gen::from_str_output(
            b,
            tool,
        ),
        crate::display_gen::display_output(a, tool) == crate::display_gen::display_output(b, tool),
        crate::assert_gen::assert_output(a, tool) == crate::assert_gen::assert_output(b, tool),
{
}

/// The project root lies two directory levels above the tool's own source
/// directory; a path is modelled as its sequence of components.
pub fn root_dir(tool_dir: &Vec<String>) -> (r: Vec<String>)
    requires
        tool_dir@.len() >= 2,
    ensures
        r.deep_view() == tool_dir.deep_view().take(tool_dir@.len() - 2),
{
    let n = tool_dir.len() - 2;
    let mut r: Vec<String> = Vec::new();
    let mut i: usize = 0;
    while i < n
        invariant
            n == tool_dir@.len() - 2,
            i <= n,
            r@.len() == i,
            forall|j: int| 0 <= j < i ==> r.deep_view()[j] == tool_dir.deep_view()[j],
        decreases n - i,
    {
        r.push(tool_dir[i].clone());
        i = i + 1;
    }
    proof {
        assert(r.deep_view() =~= tool_dir.deep_view().take(tool_dir@.len() - 2));
    }
    r
}

} // verus!
