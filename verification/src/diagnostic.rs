//! The conditions a listing reports to the user, each with its message.

use crate::model::CommitId;
use crate::text::short_text;
use vstd::prelude::*;

verus! {

/// A reported condition, as a value.
pub enum DiagnosticView {
    NotARepository,
    DetachedHead,
    NoTarget(Option<Seq<char>>),
    MergeCommit(Seq<u8>),
    UnnamedBranch,
    UnnamedUpstream,
    ReadFailure(Seq<char>),
    SkippedBranch,
}

/// A condition that is reported to the user. None of them ends the program
/// with a failure.
#[derive(Debug)]
pub enum Diagnostic {
    /// No repository was found at the place given.
    NotARepository,
    /// The current position is not a local branch.
    DetachedHead,
    /// A branch points at no commit; it carries the branch's name, where
    /// one was read.
    NoTarget(Option<String>),
    /// The commit with this identity has more than one parent.
    MergeCommit(CommitId),
    /// A branch has no name.
    UnnamedBranch,
    /// The upstream of a branch has no name.
    UnnamedUpstream,
    /// Something could not be read; it carries the text of the error.
    ReadFailure(String),
    /// A branch is left out of the upstream chains.
    SkippedBranch,
}

impl View for Diagnostic {
    type V = DiagnosticView;

    open spec fn view(&self) -> DiagnosticView {
        match self {
            Diagnostic::NotARepository => DiagnosticView::NotARepository,
            Diagnostic::DetachedHead => DiagnosticView::DetachedHead,
            Diagnostic::NoTarget(name) => DiagnosticView::NoTarget(
                match name {
                    Some(s) => Some(s@),
                    None => None,
                },
            ),
            Diagnostic::MergeCommit(id) => DiagnosticView::MergeCommit(id@),
            Diagnostic::UnnamedBranch => DiagnosticView::UnnamedBranch,
            Diagnostic::UnnamedUpstream => DiagnosticView::UnnamedUpstream,
            Diagnostic::ReadFailure(text) => DiagnosticView::ReadFailure(text@),
            Diagnostic::SkippedBranch => DiagnosticView::SkippedBranch,
        }
    }
}

/// The diagnostics in `notes`, each as its value.
pub open spec fn diagnostic_views(notes: Seq<Diagnostic>) -> Seq<DiagnosticView> {
    notes.map_values(|d: Diagnostic| d@)
}

/// The line that reports `d`.
pub open spec fn message_text(d: DiagnosticView) -> Seq<char> {
    match d {
        DiagnosticView::NotARepository => "Error: Not a git repository."@,
        DiagnosticView::DetachedHead =>
            "Error: HEAD is not currently pointing to a local branch. Switch to a local branch to list the stack."@,
        DiagnosticView::NoTarget(name) => "Error: Branch "@ + (match name {
            Some(s) => s,
            None => "<unknown branch>"@,
        }) + " has no target."@,
        DiagnosticView::MergeCommit(id) => "Error: Commit "@ + short_text(id)
            + " has more than one parent. Stacked PRs are not supported."@,
        DiagnosticView::UnnamedBranch => "Found a branch with no name."@,
        DiagnosticView::UnnamedUpstream => "Found an upstream branch with no name."@,
        DiagnosticView::ReadFailure(text) => "Error: "@ + text,
        DiagnosticView::SkippedBranch => "Skipping branch with no name."@,
    }
}

impl Diagnostic {
    /// The line that reports this condition.
    pub fn message(&self) -> (s: String)
        ensures
            s@ == message_text(self@),
    {
        match self {
            Diagnostic::NotARepository => String::from_str("Error: Not a git repository."),
            Diagnostic::DetachedHead => String::from_str(
                "Error: HEAD is not currently pointing to a local branch. Switch to a local branch to list the stack.",
            ),
            Diagnostic::NoTarget(name) => {
                let mut s = String::from_str("Error: Branch ");
                match name {
                    Some(n) => s.append(n.as_str()),
                    None => s.append("<unknown branch>"),
                }
                s.append(" has no target.");
                s
            },
            Diagnostic::MergeCommit(id) => {
                let mut s = String::from_str("Error: Commit ");
                let short = id.short();
                s.append(short.as_str());
                s.append(" has more than one parent. Stacked PRs are not supported.");
                s
            },
            Diagnostic::UnnamedBranch => String::from_str("Found a branch with no name."),
            Diagnostic::UnnamedUpstream => String::from_str(
                "Found an upstream branch with no name.",
            ),
            Diagnostic::ReadFailure(text) => {
                let mut s = String::from_str("Error: ");
                s.append(text.as_str());
                s
            },
            Diagnostic::SkippedBranch => String::from_str("Skipping branch with no name."),
        }
    }

    /// A copy of the diagnostic.
    pub fn duplicate(&self) -> (r: Diagnostic)
        ensures
            r@ == self@,
    {
        match self {
            Diagnostic::NotARepository => Diagnostic::NotARepository,
            Diagnostic::DetachedHead => Diagnostic::DetachedHead,
            Diagnostic::NoTarget(name) => Diagnostic::NoTarget(
                match name {
                    Some(s) => Some(s.clone()),
                    None => None,
                },
            ),
            Diagnostic::MergeCommit(id) => Diagnostic::MergeCommit(*id),
            Diagnostic::UnnamedBranch => Diagnostic::UnnamedBranch,
            Diagnostic::UnnamedUpstream => Diagnostic::UnnamedUpstream,
            Diagnostic::ReadFailure(text) => Diagnostic::ReadFailure(text.clone()),
            Diagnostic::SkippedBranch => Diagnostic::SkippedBranch,
        }
    }
}

} // verus!
