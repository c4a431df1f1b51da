//! Guidance that the user gives for a history compaction, checked and
//! framed for the compaction prompt.
use vstd::prelude::*;
use vstd::string::StringSliceAdditionalSpecFns;

use crate::lines::{trim, trim_str};
use crate::text::{append_str, decimal, decimal_string, utf8};

verus! {

broadcast use vstd::string::group_string_axioms;

/// Checked compaction guidance: trimmed and non-empty.
#[derive(Clone, Debug, PartialEq, Eq)]
pub struct CompactionGuidance {
    pub guidance: String,
}

/// The result of parsing optional guidance under a byte limit: nothing for
/// missing or blank guidance, the trimmed text when it fits, else the error.
pub open spec fn parsed_guidance(guidance: Option<Seq<char>>, max_bytes: usize, r: Result<Option<CompactionGuidance>, String>) -> bool {
    match guidance {
        None => r matches Ok(None),
        Some(g) => {
            let t = trim(g);
            if t.len() == 0 {
                r matches Ok(None)
            } else if utf8(t).len() > max_bytes {
                r matches Err(m) && m@ == "compaction guidance exceeds the "@ + decimal(max_bytes as nat)
                    + "-byte limit"@
            } else {
                r matches Ok(Some(c)) && c.guidance@ == t
            }
        },
    }
}

/// The opening and closing markers of the guidance fragment.
pub open spec fn opening_marker() -> Seq<char> {
    "<compaction_guidance>\n"@
}

/// The closing marker of the guidance fragment.
pub open spec fn closing_marker() -> Seq<char> {
    "\n</compaction_guidance>"@
}

impl CompactionGuidance {
    /// Parses optional guidance: it is trimmed; blank guidance is none; more
    /// than `max_bytes` bytes is an error.
    pub fn parse(guidance: Option<String>, max_bytes: usize) -> (r: Result<Option<Self>, String>)
        ensures
            parsed_guidance(
                match guidance {
                    Some(g) => Some(g@),
                    None => None,
                },
                max_bytes,
                r,
            ),
    {
        let g = match guidance {
            Some(g) => g,
            None => {
                return Ok(None);
            },
        };
        let t = trim_str(g.as_str());
        if t.as_str().is_empty() {
            return Ok(None);
        }
        if t.as_str().as_bytes().len() > max_bytes {
            let mut m = "compaction guidance exceeds the ".to_owned();
            append_str(&mut m, decimal_string(max_bytes as u64).as_str());
            append_str(&mut m, "-byte limit");
            return Err(m);
        }
        Ok(Some(CompactionGuidance { guidance: t }))
    }

    /// The kind of content the fragment is.
    pub fn content_kind(&self) -> (r: &'static str)
        ensures
            r@ == "compaction.guidance"@,
    {
        "compaction.guidance"
    }

    /// The role the fragment is sent as.
    pub fn role(&self) -> (r: &'static str)
        ensures
            r@ == "developer"@,
    {
        "developer"
    }

    /// The markers that frame the fragment.
    pub fn type_markers() -> (r: (&'static str, &'static str))
        ensures
            r.0@ == opening_marker(),
            r.1@ == closing_marker(),
    {
        ("<compaction_guidance>\n", "\n</compaction_guidance>")
    }

    /// The markers that frame the fragment.
    pub fn markers(&self) -> (r: (&'static str, &'static str))
        ensures
            r.0@ == opening_marker(),
            r.1@ == closing_marker(),
    {
        Self::type_markers()
    }

    /// The fragment's body: the guidance.
    pub fn body(&self) -> (r: String)
        ensures
            r@ == self.guidance@,
    {
        self.guidance.clone()
    }

    /// The fragment: the guidance between its markers.
    pub fn render(&self) -> (r: String)
        ensures
            r@ == opening_marker() + self.guidance@ + closing_marker(),
    {
        let (open, close) = self.markers();
        let mut r = open.to_owned();
        append_str(&mut r, self.body().as_str());
        append_str(&mut r, close);
        r
    }

    /// Appends the fragment to a prompt, after a blank line.
    pub fn append_to(&self, prompt: &mut String)
        ensures
            final(prompt)@ == old(prompt)@ + "\n\n"@ + opening_marker() + self.guidance@ + closing_marker(),
    {
        append_str(prompt, "\n\n");
        let rendered = self.render();
        append_str(prompt, rendered.as_str());
    }
}

} // verus!
