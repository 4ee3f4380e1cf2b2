//! Small state types shared with the application shell: which list and
//! pane hold the focus, the resolved diff layout, and status messages.

use vstd::prelude::*;

verus! {

/// Which file list holds the selection focus.
#[derive(Debug, Clone, Copy, PartialEq, Eq, Structural)]
pub enum FocusSection {
    Unstaged,
    Staged,
}

/// Which pane receives movement keys.
#[derive(Debug, Clone, Copy, PartialEq, Eq, Structural)]
pub enum PaneFocus {
    Sidebar,
    Diff,
}

/// The diff layout actually drawn, after the automatic choice has been
/// resolved against the available width.
#[derive(Debug, Clone, Copy, PartialEq, Eq, Structural)]
pub enum ResolvedDiffLayout {
    Split,
    Unified,
}

impl ResolvedDiffLayout {
    /// The layout's display name, as text.
    pub open spec fn label_spec(self) -> Seq<char> {
        match self {
            ResolvedDiffLayout::Split => "Split"@,
            ResolvedDiffLayout::Unified => "Unified"@,
        }
    }

    /// The layout's display name.
    pub fn label(self) -> (r: &'static str)
        ensures
            r@ == self.label_spec(),
    {
        match self {
            ResolvedDiffLayout::Split => "Split",
            ResolvedDiffLayout::Unified => "Unified",
        }
    }
}

/// How urgent a status message is, which decides its colour.
#[derive(Debug, Clone, Copy, PartialEq, Eq, Structural)]
pub enum StatusKind {
    Info,
    Warn,
    Error,
}

/// A message shown in the footer.
#[derive(Debug, Clone)]
pub struct StatusMessage {
    pub kind: StatusKind,
    pub text: String,
}

impl StatusMessage {
    /// An informational message.
    pub fn info(text: &str) -> (r: StatusMessage)
        ensures
            r.kind == StatusKind::Info,
            r.text@ == text@,
    {
        StatusMessage { kind: StatusKind::Info, text: text.to_owned() }
    }

    /// A warning.
    pub fn warn(text: &str) -> (r: StatusMessage)
        ensures
            r.kind == StatusKind::Warn,
            r.text@ == text@,
    {
        StatusMessage { kind: StatusKind::Warn, text: text.to_owned() }
    }

    /// An error report.
    pub fn error(text: &str) -> (r: StatusMessage)
        ensures
            r.kind == StatusKind::Error,
            r.text@ == text@,
    {
        StatusMessage { kind: StatusKind::Error, text: text.to_owned() }
    }
}

} // verus!
