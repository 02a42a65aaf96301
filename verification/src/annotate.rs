//! The stack annotator: joins each commit of a walk with the branch index,
//! so that a commit is shown with the name of the branch kept for it.

use crate::index::{annotation, index_of, last_for, lemma_last_branch_wins, BranchIndex};
use crate::model::{commit_views, BranchView, CommitDescriptor, CommitView};
use vstd::prelude::*;

verus! {

/// One entry of a stack, as a value.
pub struct EntryView {
    pub commit: CommitView,
    pub branch: Option<Seq<char>>,
}

/// One entry of a stack: a commit and the name of the branch shown beside
/// it, if any.
#[derive(Debug)]
pub struct StackEntry {
    pub commit: CommitDescriptor,
    pub branch: Option<String>,
}

impl View for StackEntry {
    type V = EntryView;

    open spec fn view(&self) -> EntryView {
        EntryView {
            commit: self.commit@,
            branch: match self.branch {
                Some(s) => Some(s@),
                None => None,
            },
        }
    }
}

/// The entries in `entries`, each as its value.
pub open spec fn entry_views(entries: Seq<StackEntry>) -> Seq<EntryView> {
    entries.map_values(|e: StackEntry| e@)
}

/// The commit `commit` with the name that `index` gives it.
pub open spec fn annotated_one(commit: CommitView, index: Map<Seq<u8>, BranchView>) -> EntryView {
    EntryView { commit, branch: annotation(index, commit.id) }
}

/// The commits of a walk, each with the name that `index` gives it.
pub open spec fn annotated(commits: Seq<CommitView>, index: Map<Seq<u8>, BranchView>) -> Seq<
    EntryView,
> {
    commits.map_values(|c: CommitView| annotated_one(c, index))
}

/// Joins one commit with the index.
pub fn annotate(commit: CommitDescriptor, index: &BranchIndex) -> (r: StackEntry)
    ensures
        r@ == annotated_one(commit@, index@),
{
    let branch = index.branch_name(&commit.id);
    StackEntry { commit, branch }
}

/// Joins every commit of a walk with the index. The entries come in the
/// order of the commits, one for each.
pub fn annotate_all(commits: &Vec<CommitDescriptor>, index: &BranchIndex) -> (r: Vec<StackEntry>)
    ensures
        entry_views(r@) == annotated(commit_views(commits@), index@),
{
    let mut entries: Vec<StackEntry> = Vec::new();
    let mut i: usize = 0;
    assert(entry_views(entries@) =~= annotated(commit_views(commits@.take(0)), index@));
    while i < commits.len()
        invariant
            i <= commits.len(),
            entry_views(entries@) == annotated(commit_views(commits@.take(i as int)), index@),
        decreases commits.len() - i,
    {
        let ghost before = entries@;
        entries.push(annotate(commits[i].duplicate(), index));
        assert(entry_views(entries@) =~= annotated(
            commit_views(commits@.take(i + 1)),
            index@,
        )) by {
            assert(entry_views(entries@) =~= entry_views(before).push(
                annotated_one(commits@[i as int]@, index@),
            ));
            assert(commits@.take(i + 1) =~= commits@.take(i as int).push(commits@[i as int]));
        }
        i = i + 1;
    }
    assert(commits@.take(i as int) =~= commits@);
    entries
}

/// A commit of the stack that a branch points at is shown with that
/// branch's name; where several branches point at it, with the name of the
/// one enumerated last.
pub proof fn lemma_entry_shows_last_branch(
    commits: Seq<CommitView>,
    branches: Seq<BranchView>,
    entry: int,
    branch: int,
)
    requires
        0 <= entry < commits.len(),
        last_for(branches, branch, commits[entry].id),
    ensures
        annotated(commits, index_of(branches))[entry].commit == commits[entry],
        annotated(commits, index_of(branches))[entry].branch == branches[branch].display_name(),
{
    lemma_last_branch_wins(branches, branch, commits[entry].id);
}

} // verus!
