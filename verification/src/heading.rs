//! The heading scanner: whether a line opens a section, at what depth and
//! under what title.

use crate::pattern::{captured, expression, Patterns, HEADING_PATTERN};
use crate::text::{trim, trimmed};
use vstd::prelude::*;
use vstd::string::StrSliceExecFns;

verus! {

/// A heading line, read.
#[derive(Debug, Clone, PartialEq, Eq)]
pub struct Heading {
    /// The number of markers that the line starts with.
    pub depth: usize,
    /// The text after the markers, without the white space around it.
    pub title: String,
}

pub struct HeadingView {
    pub depth: nat,
    pub title: Seq<char>,
}

impl View for Heading {
    type V = HeadingView;

    open spec fn view(&self) -> HeadingView {
        HeadingView { depth: self.depth as nat, title: self.title@ }
    }
}

impl DeepView for Heading {
    type V = HeadingView;

    open spec fn deep_view(&self) -> HeadingView {
        self@
    }
}

/// The heading that the groups of a match stand for: the first group holds
/// the markers, the second the title with white space around it. Groups that
/// are missing stand for no heading.
pub open spec fn heading_from(groups: Option<Seq<Option<Seq<char>>>>) -> Option<HeadingView> {
    match groups {
        Some(g) => if g.len() > 2 && g[1] is Some && g[2] is Some {
            Some(HeadingView { depth: g[1]->0.len(), title: trimmed(g[2]->0) })
        } else {
            None
        },
        None => None,
    }
}

/// The heading that `line` is, if it is one.
pub open spec fn heading_of(line: Seq<char>) -> Option<HeadingView> {
    heading_from(captured(expression(HEADING_PATTERN@), line))
}

/// Reads the groups of a match as a heading.
pub fn heading_from_groups(groups: &Option<Vec<Option<String>>>) -> (r: Option<Heading>)
    ensures
        r.deep_view() == heading_from(groups.deep_view()),
{
    match groups {
        Some(g) => {
            if g.len() > 2 {
                assert(g.deep_view()[1] == g@[1].deep_view());
                assert(g.deep_view()[2] == g@[2].deep_view());
                match (&g[1], &g[2]) {
                    (Some(marks), Some(rest)) => {
                        let depth: usize = marks.as_str().unicode_len();
                        let title = trim(rest.as_str());
                        Some(Heading { depth, title })
                    },
                    _ => None,
                }
            } else {
                None
            }
        },
        None => None,
    }
}

/// Classifies one line: a heading with its depth and title, or no heading.
pub fn scan_heading(patterns: &Patterns, line: &str) -> (r: Option<Heading>)
    ensures
        r.deep_view() == heading_of(line@),
{
    let groups = patterns.heading_groups(line);
    heading_from_groups(&groups)
}

} // verus!
