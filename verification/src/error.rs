//! The errors that end a listing: something of the repository could not be
//! read.

use crate::diagnostic::{Diagnostic, DiagnosticView};
use vstd::prelude::*;

verus! {

/// An error of a listing, as a value.
pub enum StackErrorView {
    HeadUnreadable(Seq<char>),
    BranchesUnreadable(Seq<char>),
    CommitUnreadable(Seq<char>),
}

/// Why no listing could be made. Each error carries the text of the
/// failure that caused it.
#[derive(Debug)]
pub enum StackError {
    /// The current position could not be resolved.
    HeadUnreadable(String),
    /// The local branches could not be enumerated.
    BranchesUnreadable(String),
    /// A commit of the walk could not be read.
    CommitUnreadable(String),
}

impl View for StackError {
    type V = StackErrorView;

    open spec fn view(&self) -> StackErrorView {
        match self {
            StackError::HeadUnreadable(t) => StackErrorView::HeadUnreadable(t@),
            StackError::BranchesUnreadable(t) => StackErrorView::BranchesUnreadable(t@),
            StackError::CommitUnreadable(t) => StackErrorView::CommitUnreadable(t@),
        }
    }
}

impl StackErrorView {
    /// The text of the failure behind the error.
    pub open spec fn text(self) -> Seq<char> {
        match self {
            StackErrorView::HeadUnreadable(t) => t,
            StackErrorView::BranchesUnreadable(t) => t,
            StackErrorView::CommitUnreadable(t) => t,
        }
    }
}

impl StackError {
    /// The error as a condition to report: a read failure with the error's
    /// text.
    pub fn diagnostic(&self) -> (d: Diagnostic)
        ensures
            d@ == DiagnosticView::ReadFailure(self@.text()),
    {
        match self {
            StackError::HeadUnreadable(t) => Diagnostic::ReadFailure(t.clone()),
            StackError::BranchesUnreadable(t) => Diagnostic::ReadFailure(t.clone()),
            StackError::CommitUnreadable(t) => Diagnostic::ReadFailure(t.clone()),
        }
    }
}

} // verus!
