//! The top-level views of the dashboard.
use vstd::prelude::*;
use vstd::view::View as _;

verus! {

/// What the body of the screen shows.
#[derive(Debug, Clone, Copy, PartialEq, Eq, Structural)]
pub enum View {
    /// Services, watchers, recipes, scripts and the container row.
    ControlCenter,
    /// Terminal windows.
    Terminals,
    /// Changed files and their diffs.
    Diff,
}

impl View {
    /// The tag shown in the status bar.
    pub open spec fn tag_text(self) -> Seq<char> {
        match self {
            View::ControlCenter => "control"@,
            View::Terminals => "terminals"@,
            View::Diff => "diff"@,
        }
    }

    /// The tag shown in the status bar.
    pub fn tag(self) -> (res: &'static str)
        ensures
            res@ == self.tag_text(),
    {
        match self {
            View::ControlCenter => "control",
            View::Terminals => "terminals",
            View::Diff => "diff",
        }
    }
}

/// The tag of each view is a word of its own.
pub proof fn law_views_have_their_tags(view: View)
    ensures
        view == View::ControlCenter ==> view.tag_text() == "control"@,
        view == View::Terminals ==> view.tag_text() == "terminals"@,
        view == View::Diff ==> view.tag_text() == "diff"@,
{
}

} // verus!
