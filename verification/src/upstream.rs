//! The upstream chain resolver: for each local branch, the pair of its name
//! and its upstream's name, or the reasons why it has none.

use crate::diagnostic::{diagnostic_views, Diagnostic, DiagnosticView};
use crate::model::{branch_views, BranchRef, BranchView, NameLookup, NameView, UpstreamLookup, UpstreamView};
use vstd::prelude::*;

verus! {

/// A branch and its upstream, as a value.
pub struct PairView {
    pub branch: Seq<char>,
    pub upstream: Seq<char>,
}

/// A branch name and the name of the branch it tracks.
#[derive(Debug)]
pub struct UpstreamPair {
    pub branch: String,
    pub upstream: String,
}

impl View for UpstreamPair {
    type V = PairView;

    open spec fn view(&self) -> PairView {
        PairView { branch: self.branch@, upstream: self.upstream@ }
    }
}

/// What resolving one branch gave, as a value.
pub struct ResolutionView {
    pub notes: Seq<DiagnosticView>,
    pub pair: Option<PairView>,
}

/// What resolving one branch gave: the conditions to report, in the order
/// they were met, and the pair where both names are there.
#[derive(Debug)]
pub struct Resolution {
    pub notes: Vec<Diagnostic>,
    pub pair: Option<UpstreamPair>,
}

impl View for Resolution {
    type V = ResolutionView;

    open spec fn view(&self) -> ResolutionView {
        ResolutionView {
            notes: diagnostic_views(self.notes@),
            pair: match self.pair {
                Some(p) => Some(p@),
                None => None,
            },
        }
    }
}

/// The resolutions in `resolutions`, each as its value.
pub open spec fn resolution_views(resolutions: Seq<Resolution>) -> Seq<ResolutionView> {
    resolutions.map_values(|r: Resolution| r@)
}

/// What is reported of a branch's own name.
pub open spec fn name_notes(name: NameView) -> Seq<DiagnosticView> {
    match name {
        NameView::Named(_) => Seq::empty(),
        NameView::Unnamed => seq![DiagnosticView::UnnamedBranch],
        NameView::Failed(e) => seq![DiagnosticView::ReadFailure(e)],
    }
}

/// What is reported of a branch's upstream. That none is configured is no
/// fault and is not reported here.
pub open spec fn upstream_notes(upstream: UpstreamView) -> Seq<DiagnosticView> {
    match upstream {
        UpstreamView::Tracking(_) => Seq::empty(),
        UpstreamView::Unnamed => seq![DiagnosticView::UnnamedUpstream],
        UpstreamView::NotConfigured => Seq::empty(),
        UpstreamView::Failed(e) => seq![DiagnosticView::ReadFailure(e)],
    }
}

/// The pair of a branch: there is one exactly where the branch has a name
/// and an upstream with a name.
pub open spec fn pair_of(branch: BranchView) -> Option<PairView> {
    match (branch.name, branch.upstream) {
        (NameView::Named(n), UpstreamView::Tracking(u)) => Some(PairView { branch: n, upstream: u }),
        _ => None,
    }
}

/// What is reported of a branch as a whole: that it is skipped, where it
/// has no pair.
pub open spec fn skip_notes(branch: BranchView) -> Seq<DiagnosticView> {
    if pair_of(branch) is None {
        seq![DiagnosticView::SkippedBranch]
    } else {
        Seq::empty()
    }
}

/// What resolving `branch` gives.
pub open spec fn resolution_of(branch: BranchView) -> ResolutionView {
    ResolutionView {
        notes: name_notes(branch.name) + upstream_notes(branch.upstream) + skip_notes(branch),
        pair: pair_of(branch),
    }
}

/// What resolving each of `branches` gives, in their order.
pub open spec fn resolutions_of(branches: Seq<BranchView>) -> Seq<ResolutionView> {
    branches.map_values(|b: BranchView| resolution_of(b))
}

/// Resolves one branch. No outcome is an error of the resolver: a branch
/// without both names is reported and has no pair.
pub fn resolve(branch: &BranchRef) -> (r: Resolution)
    ensures
        r@ == resolution_of(branch@),
{
    let mut notes: Vec<Diagnostic> = Vec::new();
    let name: Option<String> = match &branch.name {
        NameLookup::Named(n) => Some(n.clone()),
        NameLookup::Unnamed => {
            notes.push(Diagnostic::UnnamedBranch);
            None
        },
        NameLookup::Failed(e) => {
            notes.push(Diagnostic::ReadFailure(e.clone()));
            None
        },
    };
    assert(diagnostic_views(notes@) =~= name_notes(branch@.name));
    let ghost named = notes@;
    let upstream: Option<String> = match &branch.upstream {
        UpstreamLookup::Tracking(u) => Some(u.clone()),
        UpstreamLookup::Unnamed => {
            notes.push(Diagnostic::UnnamedUpstream);
            None
        },
        UpstreamLookup::NotConfigured => None,
        UpstreamLookup::Failed(e) => {
            notes.push(Diagnostic::ReadFailure(e.clone()));
            None
        },
    };
    assert(diagnostic_views(notes@) =~= diagnostic_views(named) + upstream_notes(
        branch@.upstream,
    ));
    let ghost resolved = notes@;
    let pair = match (name, upstream) {
        (Some(b), Some(u)) => Some(UpstreamPair { branch: b, upstream: u }),
        _ => {
            notes.push(Diagnostic::SkippedBranch);
            None
        },
    };
    assert(diagnostic_views(notes@) =~= diagnostic_views(resolved) + skip_notes(branch@));
    Resolution { notes, pair }
}

/// Resolves every branch, in the order of the enumeration: one resolution
/// for each branch.
pub fn resolve_all(branches: &Vec<BranchRef>) -> (r: Vec<Resolution>)
    ensures
        resolution_views(r@) == resolutions_of(branch_views(branches@)),
{
    let mut out: Vec<Resolution> = Vec::new();
    let mut i: usize = 0;
    assert(resolution_views(out@) =~= resolutions_of(branch_views(branches@.take(0))));
    while i < branches.len()
        invariant
            i <= branches.len(),
            resolution_views(out@) == resolutions_of(branch_views(branches@.take(i as int))),
        decreases branches.len() - i,
    {
        let ghost before = out@;
        out.push(resolve(&branches[i]));
        assert(resolution_views(out@) =~= resolutions_of(
            branch_views(branches@.take(i + 1)),
        )) by {
            assert(resolution_views(out@) =~= resolution_views(before).push(
                resolution_of(branches@[i as int]@),
            ));
            assert(branches@.take(i + 1) =~= branches@.take(i as int).push(branches@[i as int]));
        }
        i = i + 1;
    }
    assert(branches@.take(i as int) =~= branches@);
    out
}

/// A branch with a name whose upstream has a name gets its pair and nothing
/// is reported of it.
pub proof fn lemma_tracking_branch_is_paired(
    branch: BranchView,
    name: Seq<char>,
    upstream: Seq<char>,
)
    requires
        branch.name == NameView::Named(name),
        branch.upstream == UpstreamView::Tracking(upstream),
    ensures
        resolution_of(branch).pair == Some(PairView { branch: name, upstream }),
        resolution_of(branch).notes == Seq::<DiagnosticView>::empty(),
{
    assert(resolution_of(branch).notes =~= Seq::<DiagnosticView>::empty());
}

/// A branch for which no upstream is configured gets no pair, and no error
/// is reported of its upstream: a branch with a name is reported as skipped
/// and nothing else.
pub proof fn lemma_untracked_branch_is_skipped(branch: BranchView)
    requires
        branch.upstream == UpstreamView::NotConfigured,
    ensures
        resolution_of(branch).pair is None,
        resolution_of(branch).notes == name_notes(branch.name).push(DiagnosticView::SkippedBranch),
        branch.name is Named ==> resolution_of(branch).notes == seq![DiagnosticView::SkippedBranch],
{
    assert(resolution_of(branch).notes =~= name_notes(branch.name).push(
        DiagnosticView::SkippedBranch,
    ));
    if branch.name is Named {
        assert(resolution_of(branch).notes =~= seq![DiagnosticView::SkippedBranch]);
    }
}

/// The resolutions stand in the order of the branches, one for each, and a
/// branch has a pair exactly where it has a name and an upstream with a
/// name.
pub proof fn lemma_one_resolution_per_branch(branches: Seq<BranchView>, at: int)
    requires
        0 <= at < branches.len(),
    ensures
        resolutions_of(branches).len() == branches.len(),
        resolutions_of(branches)[at] == resolution_of(branches[at]),
        resolutions_of(branches)[at].pair is Some <==> (branches[at].name is Named
            && branches[at].upstream is Tracking),
{
}

} // verus!
