//! The branch index: for each commit identity, the local branch that points
//! at it. Where several branches point at one commit, the one enumerated
//! last is kept.
//!
//! An identity is wider than any integer, and of a hash map keyed by a
//! type of this library nothing can be proved. So the index is a list in
//! which no identity stands twice, searched in order; a repository has few
//! branches.

use crate::diagnostic::{diagnostic_views, Diagnostic, DiagnosticView};
use crate::model::{branch_views, BranchRef, BranchView, CommitId};
use vstd::prelude::*;

verus! {

/// The index of `branches`, built in their order: each branch with a target
/// is entered under that target, replacing a branch entered there before.
pub open spec fn index_of(branches: Seq<BranchView>) -> Map<Seq<u8>, BranchView>
    decreases branches.len(),
{
    if branches.len() == 0 {
        Map::empty()
    } else {
        let before = index_of(branches.drop_last());
        match branches.last().target {
            Some(id) => before.insert(id, branches.last()),
            None => before,
        }
    }
}

/// The reports that building the index of `branches` gives: one for each
/// branch without a target, in their order, naming the branch where it has a
/// name.
pub open spec fn untargeted_notes(branches: Seq<BranchView>) -> Seq<DiagnosticView>
    decreases branches.len(),
{
    if branches.len() == 0 {
        Seq::empty()
    } else {
        let before = untargeted_notes(branches.drop_last());
        match branches.last().target {
            Some(_) => before,
            None => before.push(DiagnosticView::NoTarget(branches.last().display_name())),
        }
    }
}

/// The name that `index` gives the commit `id`: that of the branch entered
/// under `id`, where there is one and it has a name.
pub open spec fn annotation(index: Map<Seq<u8>, BranchView>, id: Seq<u8>) -> Option<Seq<char>> {
    if index.contains_key(id) {
        index[id].display_name()
    } else {
        None
    }
}

/// One entry of the index.
struct Slot {
    id: CommitId,
    branch: BranchRef,
}

/// Whether no identity stands in two slots.
spec fn distinct_ids(slots: Seq<Slot>) -> bool {
    forall|i: int, j: int|
        0 <= i < slots.len() && 0 <= j < slots.len() && (#[trigger] slots[i]).id@ == (
        #[trigger] slots[j]).id@ ==> i == j
}

/// Whether `id` stands in the slot at `i`.
spec fn holds_at(slots: Seq<Slot>, id: Seq<u8>, i: int) -> bool {
    0 <= i < slots.len() && slots[i].id@ == id
}

/// The map that the slots stand for.
spec fn slots_map(slots: Seq<Slot>) -> Map<Seq<u8>, BranchView> {
    Map::new(
        |id: Seq<u8>| exists|i: int| holds_at(slots, id, i),
        |id: Seq<u8>| slots[choose|i: int| holds_at(slots, id, i)].branch@,
    )
}

/// A mapping from commit identity to the one branch kept for it.
pub struct BranchIndex {
    slots: Vec<Slot>,
}

impl View for BranchIndex {
    type V = Map<Seq<u8>, BranchView>;

    closed spec fn view(&self) -> Map<Seq<u8>, BranchView> {
        slots_map(self.slots@)
    }
}

impl BranchIndex {
    #[verifier::type_invariant]
    spec fn distinct(&self) -> bool {
        distinct_ids(self.slots@)
    }

    /// An index without entries.
    pub fn new() -> (r: BranchIndex)
        ensures
            r@ == Map::<Seq<u8>, BranchView>::empty(),
    {
        let r = BranchIndex { slots: Vec::new() };
        assert(r@ =~= Map::<Seq<u8>, BranchView>::empty()) by {
            assert forall|id: Seq<u8>| !r@.contains_key(id) by {
                if r@.contains_key(id) {
                    let i = choose|i: int| holds_at(r.slots@, id, i);
                    assert(holds_at(r.slots@, id, i));
                }
            }
        }
        r
    }

    /// The slot that holds `id`, if there is one.
    fn position(&self, id: &CommitId) -> (r: Option<usize>)
        ensures
            match r {
                Some(i) => holds_at(self.slots@, id@, i as int),
                None => forall|j: int| !holds_at(self.slots@, id@, j),
            },
    {
        let mut i: usize = 0;
        while i < self.slots.len()
            invariant
                i <= self.slots.len(),
                forall|j: int| 0 <= j < i ==> !holds_at(self.slots@, id@, j),
            decreases self.slots.len() - i,
        {
            if self.slots[i].id.same_as(id) {
                return Some(i);
            }
            i = i + 1;
        }
        None
    }

    /// The index with `branch` entered under `id`. A branch entered under
    /// `id` before is replaced.
    pub fn insert(self, id: CommitId, branch: BranchRef) -> (r: BranchIndex)
        ensures
            r@ == self@.insert(id@, branch@),
    {
        proof {
            use_type_invariant(&self);
        }
        let ghost before = self.slots@;
        let found = self.position(&id);
        let mut slots = self.slots;
        match found {
            Some(i) => {
                slots.set(i, Slot { id, branch });
            },
            None => {
                slots.push(Slot { id, branch });
            },
        }
        proof {
            let after = slots@;
            let at: int = match found {
                Some(i) => i as int,
                None => before.len() as int,
            };
            assert(holds_at(after, id@, at));
            assert forall|k: Seq<u8>, j: int| k != id@ implies (holds_at(after, k, j) <==> holds_at(
                before,
                k,
                j,
            )) by {}
            assert forall|j: int| holds_at(after, id@, j) implies j == at by {
                if j != at {
                    assert(holds_at(before, id@, j));
                    if found is Some {
                        assert(holds_at(before, id@, at));
                    }
                }
            }
            assert(distinct_ids(after)) by {
                assert forall|i: int, j: int|
                    0 <= i < after.len() && 0 <= j < after.len() && (#[trigger] after[i]).id@ == (
                    #[trigger] after[j]).id@ implies i == j by {
                    let k = after[i].id@;
                    assert(holds_at(after, k, i));
                    assert(holds_at(after, k, j));
                    if k != id@ {
                        assert(holds_at(before, k, i));
                        assert(holds_at(before, k, j));
                    }
                }
            }
            let target = slots_map(before).insert(id@, branch@);
            assert forall|k: Seq<u8>| slots_map(after).contains_key(k) <==> target.contains_key(
                k,
            ) by {
                if k != id@ {
                    if slots_map(after).contains_key(k) {
                        let j = choose|j: int| holds_at(after, k, j);
                        assert(holds_at(before, k, j));
                    }
                    if slots_map(before).contains_key(k) {
                        let j = choose|j: int| holds_at(before, k, j);
                        assert(holds_at(after, k, j));
                    }
                }
            }
            assert forall|k: Seq<u8>| slots_map(after).contains_key(k) implies slots_map(after)[k]
                == target[k] by {
                let j = choose|j: int| holds_at(after, k, j);
                assert(holds_at(after, k, j));
                if k == id@ {
                    assert(j == at);
                } else {
                    let b = choose|b: int| holds_at(before, k, b);
                    assert(holds_at(before, k, j));
                    assert(holds_at(before, k, b));
                    assert(before[j].id@ == before[b].id@);
                    assert(j == b);
                }
            }
            assert(slots_map(after) =~= target);
        }
        BranchIndex { slots }
    }

    /// The branch kept for the commit `id`, if there is one.
    pub fn get(&self, id: &CommitId) -> (r: Option<&BranchRef>)
        ensures
            match r {
                Some(b) => self@.contains_key(id@) && b@ == self@[id@],
                None => !self@.contains_key(id@),
            },
    {
        proof {
            use_type_invariant(self);
        }
        match self.position(id) {
            Some(i) => {
                proof {
                    let j = choose|j: int| holds_at(self.slots@, id@, j);
                    assert(holds_at(self.slots@, id@, i as int));
                    assert(self.slots@[j].id@ == self.slots@[i as int].id@);
                }
                Some(&self.slots[i].branch)
            },
            None => None,
        }
    }

    /// The name to show beside the commit `id`: that of the branch kept for
    /// it, where there is one and it has a name.
    pub fn branch_name(&self, id: &CommitId) -> (r: Option<String>)
        ensures
            (match r {
                Some(s) => Some(s@),
                None => None,
            }) == annotation(self@, id@),
    {
        match self.get(id) {
            Some(b) => b.display_name(),
            None => None,
        }
    }

    /// Builds the index of `branches` in their order. A branch without a
    /// target is left out and reported; nothing else can go wrong.
    pub fn build(branches: &Vec<BranchRef>) -> (r: (BranchIndex, Vec<Diagnostic>))
        ensures
            r.0@ == index_of(branch_views(branches@)),
            diagnostic_views(r.1@) == untargeted_notes(branch_views(branches@)),
    {
        let mut index = BranchIndex::new();
        let mut notes: Vec<Diagnostic> = Vec::new();
        let mut i: usize = 0;
        assert(diagnostic_views(notes@) =~= untargeted_notes(
            branch_views(branches@.take(0)),
        ));
        while i < branches.len()
            invariant
                i <= branches.len(),
                index@ == index_of(branch_views(branches@.take(i as int))),
                diagnostic_views(notes@) == untargeted_notes(
                    branch_views(branches@.take(i as int)),
                ),
            decreases branches.len() - i,
        {
            let branch = &branches[i];
            proof {
                let next = branch_views(branches@.take(i + 1));
                assert(next.drop_last() =~= branch_views(branches@.take(i as int)));
                assert(next.last() == branch@);
            }
            match branch.target {
                Some(id) => {
                    index = index.insert(id, branch.duplicate());
                },
                None => {
                    let ghost old_notes = notes@;
                    notes.push(Diagnostic::NoTarget(branch.display_name()));
                    assert(diagnostic_views(notes@) =~= diagnostic_views(old_notes).push(
                        DiagnosticView::NoTarget(branch@.display_name()),
                    ));
                },
            }
            i = i + 1;
        }
        assert(branches@.take(i as int) =~= branches@);
        (index, notes)
    }
}

/// Whether `branches` holds, after position `at`, no branch that points at
/// `id`.
pub open spec fn last_for(branches: Seq<BranchView>, at: int, id: Seq<u8>) -> bool {
    &&& 0 <= at < branches.len()
    &&& branches[at].target == Some(id)
    &&& forall|j: int| at < j < branches.len() ==> (#[trigger] branches[j]).target != Some(id)
}

/// The index holds an entry for exactly the commits that some branch points
/// at.
pub proof fn lemma_index_keys(branches: Seq<BranchView>, id: Seq<u8>)
    ensures
        index_of(branches).contains_key(id) <==> exists|i: int|
            0 <= i < branches.len() && (#[trigger] branches[i]).target == Some(id),
    decreases branches.len(),
{
    if branches.len() > 0 {
        let front = branches.drop_last();
        lemma_index_keys(front, id);
        if index_of(branches).contains_key(id) {
            if branches.last().target == Some(id) {
                assert(branches[branches.len() - 1].target == Some(id));
            } else {
                let i = choose|i: int| 0 <= i < front.len() && (#[trigger] front[i]).target == Some(id);
                assert(branches[i].target == Some(id));
            }
        }
        if exists|i: int| 0 <= i < branches.len() && (#[trigger] branches[i]).target == Some(id) {
            let i = choose|i: int| 0 <= i < branches.len() && (#[trigger] branches[i]).target == Some(id);
            if i < front.len() {
                assert(front[i].target == Some(id));
            }
        }
    }
}

/// Where several branches point at one commit, the index keeps the one that
/// was enumerated last, and the commit is shown with that branch's name.
pub proof fn lemma_last_branch_wins(branches: Seq<BranchView>, at: int, id: Seq<u8>)
    requires
        last_for(branches, at, id),
    ensures
        index_of(branches).contains_key(id),
        index_of(branches)[id] == branches[at],
        annotation(index_of(branches), id) == branches[at].display_name(),
    decreases branches.len(),
{
    if at < branches.len() - 1 {
        let front = branches.drop_last();
        assert(branches[branches.len() - 1].target != Some(id));
        assert forall|j: int| at < j < front.len() implies (#[trigger] front[j]).target != Some(
            id,
        ) by {
            assert(branches[j].target != Some(id));
        }
        lemma_last_branch_wins(front, at, id);
    }
}

} // verus!
