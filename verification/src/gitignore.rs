//! Assembly of the generated output file. The host resolves each selected
//! template to its body text (custom lines joined, cached bodies read from
//! disk) and writes the result; what the file says for a given set of
//! bodies is decided here.

use vstd::prelude::*;

use crate::strkit::{seq_ends_with, str_ends_with};

verus! {

/// One resolved section of the output: a template's display name and its
/// body text.
#[derive(Debug)]
pub struct OutputSection {
    pub name: String,
    pub body: String,
}

/// The heading line written above one template's body.
pub open spec fn spec_section_header(name: Seq<char>) -> Seq<char> {
    "# ===== "@ + name + " =====\n"@
}

/// One section's text: its heading, then its body, closed with a newline
/// when the body is non-empty and does not bring its own.
pub open spec fn spec_section_text(name: Seq<char>, body: Seq<char>) -> Seq<char> {
    let closed = if body.len() > 0 && !seq_ends_with(body, "\n"@) {
        body + "\n"@
    } else {
        body
    };
    spec_section_header(name) + closed
}

/// The first `n` sections in order, a blank line between them.
pub open spec fn spec_output_content(sections: Seq<OutputSection>, n: int) -> Seq<char>
    decreases n,
{
    if n <= 0 {
        Seq::empty()
    } else {
        let prev = spec_output_content(sections, n - 1);
        let sep: Seq<char> = if n == 1 {
            Seq::empty()
        } else {
            "\n"@
        };
        prev + sep + spec_section_text(sections[n - 1].name@, sections[n - 1].body@)
    }
}

/// Build the generated file from the resolved sections: each section under
/// its heading, every body ending in a newline, a blank line between
/// sections.
pub fn generate_gitignore_content(sections: &Vec<OutputSection>) -> (r: String)
    ensures
        r@ == spec_output_content(sections@, sections@.len() as int),
{
    let n = sections.len();
    let mut content = String::new();
    let mut i: usize = 0;
    while i < n
        invariant
            i <= n,
            n == sections@.len(),
            content@ == spec_output_content(sections@, i as int),
        decreases n - i,
    {
        if i > 0 {
            content.append("\n");
        }
        content.append("# ===== ");
        content.append(sections[i].name.as_str());
        content.append(" =====\n");
        content.append(sections[i].body.as_str());
        let body = &sections[i].body;
        if !body.as_str().is_empty() && !str_ends_with(body.as_str(), "\n") {
            content.append("\n");
        }
        proof {
            assert(content@ =~= spec_output_content(sections@, i + 1));
        }
        i += 1;
    }
    content
}

} // verus!
