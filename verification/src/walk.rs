//! The stack walker: which commits of a history a stack listing visits, and
//! why it stops.

use crate::error::{StackError, StackErrorView};
use crate::model::{commit_views, CommitDescriptor, CommitView};
use vstd::prelude::*;

verus! {

/// The most entries a stack ever holds.
pub const STACK_LIMIT: usize = 10;

/// Where a walk stands. Every state but `Walking` ends the walk.
#[derive(Clone, Copy, Debug, PartialEq, Eq, Structural)]
pub enum WalkState {
    /// The walk goes on to the single parent of the commit just emitted.
    Walking,
    /// The bound on the number of entries was reached.
    BoundedStop,
    /// The commit just emitted has more than one parent.
    MergeStop,
    /// The commit just emitted has no parent.
    RootStop,
    /// The current position is not a branch, so no walk began.
    DetachedStop,
    /// A commit could not be read.
    ReadError,
}

/// The state of a walk that has emitted `emitted` commits, the last of which
/// has `parents` parents. The bound is tested first: the commit that fills
/// the stack ends the walk whatever its parents are.
pub open spec fn state_after(emitted: nat, parents: nat) -> WalkState {
    if emitted >= STACK_LIMIT {
        WalkState::BoundedStop
    } else if parents > 1 {
        WalkState::MergeStop
    } else if parents == 0 {
        WalkState::RootStop
    } else {
        WalkState::Walking
    }
}

/// The state of the walk once the commit at position `at` of `history` has
/// been emitted.
pub open spec fn state_at(history: Seq<CommitView>, at: int) -> WalkState {
    state_after((at + 1) as nat, history[at].parents.len())
}

/// How many commits of `history` a walk emits that has emitted `seen` of
/// them and is still walking. `history` holds the commits that can be read,
/// from the current position toward the root along first parents.
pub open spec fn visited_from(history: Seq<CommitView>, seen: nat) -> nat
    decreases history.len() - seen,
{
    if seen >= history.len() {
        history.len()
    } else if state_at(history, seen as int) != WalkState::Walking {
        seen + 1
    } else {
        visited_from(history, seen + 1)
    }
}

/// How many commits of `history` a walk from its start emits.
pub open spec fn visited(history: Seq<CommitView>) -> nat {
    visited_from(history, 0)
}

/// Whether the commits stand in order toward the root: each commit with a
/// parent is followed, where a commit follows it, by its first parent.
pub open spec fn is_chain(entries: Seq<CommitView>) -> bool {
    forall|i: int|
        0 <= i < entries.len() - 1 && (#[trigger] entries[i]).parents.len() > 0 ==> entries[i].parents[0]
            == entries[i + 1].id
}

/// Whether `read` is the commit that a walk which has emitted `entries`
/// asked for: any commit at the start, and then the first parent of the
/// commit emitted last.
pub open spec fn follows(entries: Seq<CommitView>, read: CommitView) -> bool {
    entries.len() == 0 || (entries.last().parents.len() > 0 && entries.last().parents[0]
        == read.id)
}

/// Why the walk over `history` ends. A walk that still wants a parent when
/// the readable history is used up ends in a read error, and so does one
/// that is handed a commit which is not the first parent of the one before.
pub open spec fn stop_of(history: Seq<CommitView>) -> WalkState {
    let n = visited(history);
    if n == 0 || state_at(history, n - 1) == WalkState::Walking || !is_chain(
        history.take(n as int),
    ) {
        WalkState::ReadError
    } else {
        state_at(history, n - 1)
    }
}

/// The stack that the walk over `history` yields: the commits it emitted, or
/// nothing where it ended in a read error.
pub open spec fn stack_of(history: Seq<CommitView>) -> Seq<CommitView> {
    if stop_of(history) == WalkState::ReadError {
        Seq::empty()
    } else {
        history.take(visited(history) as int)
    }
}

/// What makes `entries` with `stop` the outcome of a completed walk: between
/// one and ten commits, each but the last with exactly one parent, and the
/// last one ending the walk for the reason `stop`.
pub open spec fn is_stack(entries: Seq<CommitView>, stop: WalkState) -> bool {
    &&& 1 <= entries.len() <= STACK_LIMIT
    &&& forall|i: int| 0 <= i < entries.len() - 1 ==> (#[trigger] entries[i]).parents.len() == 1
    &&& stop == state_at(entries, entries.len() - 1)
    &&& stop != WalkState::Walking
}

/// The state of a walk that has emitted `emitted` commits, the last of which
/// has `parents` parents.
pub fn next_state(emitted: usize, parents: usize) -> (s: WalkState)
    ensures
        s == state_after(emitted as nat, parents as nat),
{
    if emitted >= STACK_LIMIT {
        WalkState::BoundedStop
    } else if parents > 1 {
        WalkState::MergeStop
    } else if parents == 0 {
        WalkState::RootStop
    } else {
        WalkState::Walking
    }
}

/// The outcome of a walk: the commits emitted, from the current position
/// toward the root, and the reason the walk ended.
#[derive(Debug)]
pub struct Walk {
    pub entries: Vec<CommitDescriptor>,
    pub stop: WalkState,
}

/// A walk that keeps walking from `seen` up to `k` and ends at `k` visits
/// exactly `k` commits.
pub proof fn lemma_visited_ends(history: Seq<CommitView>, seen: nat, k: nat)
    requires
        seen < k <= history.len(),
        forall|j: int| seen <= j < k - 1 ==> state_at(history, j) == WalkState::Walking,
        state_at(history, k - 1) != WalkState::Walking,
    ensures
        visited_from(history, seen) == k,
    decreases k - seen,
{
    if seen + 1 < k {
        assert(state_at(history, seen as int) == WalkState::Walking);
        lemma_visited_ends(history, seen + 1, k);
    }
}

/// What `visited_from` is: it lies between `seen` and the length of the
/// history, the walk keeps walking before its last commit, and it ends
/// early only at a commit that ends the walk.
pub proof fn lemma_visited_from(history: Seq<CommitView>, seen: nat)
    requires
        seen <= history.len(),
    ensures
        seen <= visited_from(history, seen) <= history.len(),
        seen < history.len() ==> seen < visited_from(history, seen),
        forall|j: int|
            seen <= j < visited_from(history, seen) - 1 ==> state_at(history, j)
                == WalkState::Walking,
        visited_from(history, seen) < history.len() ==> state_at(
            history,
            visited_from(history, seen) - 1,
        ) != WalkState::Walking,
    decreases history.len() - seen,
{
    if seen < history.len() && state_at(history, seen as int) == WalkState::Walking {
        lemma_visited_from(history, seen + 1);
    }
}

/// What is said of a commit that is not the one the walk asked for.
pub open spec fn mismatch_text() -> Seq<char> {
    "a parent is not the commit that its child names"@
}

/// What a walk does with a commit that it has read.
#[derive(Debug)]
pub enum Step {
    /// The commit was emitted and the walk goes on: these are the commits
    /// emitted so far, and the first parent of the last one is read next.
    Onward(Vec<CommitDescriptor>),
    /// The commit was emitted and ended the walk.
    Done(Walk),
    /// The commit is not the one that the walk asked for, so the walk ends
    /// with an error.
    Broken(StackError),
}

/// Takes one step of a walk that has emitted `entries` and has now read
/// `read`. A commit that is not the first parent of the commit emitted last
/// breaks the walk. Any other commit is emitted, and then the walk ends at
/// the bound, at a merge or at a root, and else goes on.
pub fn step(entries: Vec<CommitDescriptor>, read: CommitDescriptor) -> (s: Step)
    ensures
        match s {
            Step::Onward(all) => {
                &&& follows(commit_views(entries@), read@)
                &&& commit_views(all@) == commit_views(entries@).push(read@)
                &&& state_after(all@.len(), read@.parents.len()) == WalkState::Walking
            },
            Step::Done(walk) => {
                &&& follows(commit_views(entries@), read@)
                &&& commit_views(walk.entries@) == commit_views(entries@).push(read@)
                &&& walk.stop == state_after(walk.entries@.len(), read@.parents.len())
                &&& walk.stop != WalkState::Walking
            },
            Step::Broken(e) => {
                &&& !follows(commit_views(entries@), read@)
                &&& e@ == StackErrorView::CommitUnreadable(mismatch_text())
            },
        },
{
    let n = entries.len();
    if n > 0 {
        let last = &entries[n - 1];
        assert(commit_views(entries@).last() == last@);
        let named = last.parents.len() > 0 && last.parents[0].same_as(&read.id);
        if !named {
            return Step::Broken(
                StackError::CommitUnreadable(
                    String::from_str("a parent is not the commit that its child names"),
                ),
            );
        }
    }
    let parents = read.parent_count();
    let mut all = entries;
    all.push(read);
    assert(commit_views(all@) =~= commit_views(entries@).push(read@));
    let state = next_state(all.len(), parents);
    match state {
        WalkState::Walking => Step::Onward(all),
        _ => Step::Done(Walk { entries: all, stop: state }),
    }
}

/// Follows the walk over `history`, the commits that can be read from the
/// current position toward the root along first parents, and returns the
/// stack. Where the walk still wants a parent after the last commit of
/// `history`, or meets a commit that is not the first parent of the one
/// before it, it ends in `ReadError` with no entries.
pub fn walk_history(history: Vec<CommitDescriptor>) -> (w: Walk)
    ensures
        commit_views(w.entries@) == stack_of(commit_views(history@)),
        w.stop == stop_of(commit_views(history@)),
{
    let ghost h = commit_views(history@);
    let mut entries: Vec<CommitDescriptor> = Vec::new();
    let mut i: usize = 0;
    assert(commit_views(entries@) =~= h.take(0));
    while i < history.len()
        invariant
            i <= history.len(),
            h == commit_views(history@),
            commit_views(entries@) == h.take(i as int),
            forall|j: int| 0 <= j < i ==> state_at(h, j) == WalkState::Walking,
            is_chain(h.take(i as int)),
            visited_from(h, i as nat) == visited(h),
        decreases history.len() - i,
    {
        let ghost before = commit_views(entries@);
        let read = history[i].duplicate();
        assert(read@ == h[i as int]);
        proof {
            lemma_visited_from(h, i as nat);
        }
        match step(entries, read) {
            Step::Onward(all) => {
                proof {
                    assert(h.take(i + 1) =~= before.push(h[i as int]));
                    assert(state_at(h, i as int) == WalkState::Walking);
                    lemma_chain_grows(before, h[i as int]);
                }
                entries = all;
                i = i + 1;
            },
            Step::Done(walk) => {
                proof {
                    assert(h.take(i + 1) =~= before.push(h[i as int]));
                    assert(state_at(h, i as int) == walk.stop);
                    lemma_chain_grows(before, h[i as int]);
                    assert(visited(h) == i + 1);
                }
                return walk;
            },
            Step::Broken(_) => {
                proof {
                    let n = visited(h);
                    let seen = h.take(n as int);
                    assert(before.last() == h[i - 1]);
                    assert(state_at(h, i - 1) == WalkState::Walking);
                    assert(seen[i - 1] == h[i - 1]);
                    assert(seen[i - 1 + 1] == h[i as int]);
                    assert(!is_chain(seen));
                }
                return Walk { entries: Vec::new(), stop: WalkState::ReadError };
            },
        }
    }
    proof {
        if i > 0 {
            assert(state_at(h, i - 1) == WalkState::Walking);
        }
    }
    Walk { entries: Vec::new(), stop: WalkState::ReadError }
}

/// A chain stays a chain with the commit behind it that it asked for.
pub proof fn lemma_chain_grows(entries: Seq<CommitView>, read: CommitView)
    requires
        is_chain(entries),
        follows(entries, read),
    ensures
        is_chain(entries.push(read)),
{
    let all = entries.push(read);
    assert forall|i: int|
        0 <= i < all.len() - 1 && (#[trigger] all[i]).parents.len() > 0 implies all[i].parents[0]
        == all[i + 1].id by {
        if i < entries.len() - 1 {
            assert(all[i] == entries[i]);
            assert(all[i + 1] == entries[i + 1]);
        }
    }
}

/// The start of a chain is a chain.
pub proof fn lemma_chain_prefix(history: Seq<CommitView>, n: int)
    requires
        is_chain(history),
        0 <= n <= history.len(),
    ensures
        is_chain(history.take(n)),
{
    let front = history.take(n);
    assert forall|i: int|
        0 <= i < front.len() - 1 && (#[trigger] front[i]).parents.len() > 0 implies front[i].parents[0]
        == front[i + 1].id by {
        assert(front[i] == history[i]);
        assert(front[i + 1] == history[i + 1]);
    }
}

/// Whether each of the first `n` commits of `history` has exactly one parent.
pub open spec fn single_parent_before(history: Seq<CommitView>, n: int) -> bool {
    forall|i: int| 0 <= i < n ==> (#[trigger] history[i]).parents.len() == 1
}

/// A history without merges, in order toward the root, that ends in a root
/// commit and holds at most ten commits is listed whole and in its own
/// order.
pub proof fn lemma_linear_history_is_listed(history: Seq<CommitView>)
    requires
        1 <= history.len() <= STACK_LIMIT,
        is_chain(history),
        single_parent_before(history, history.len() - 1),
        history.last().parents.len() == 0,
    ensures
        stack_of(history) == history,
        stop_of(history) == (if history.len() < STACK_LIMIT {
            WalkState::RootStop
        } else {
            WalkState::BoundedStop
        }),
{
    let n = history.len();
    assert forall|j: int| 0 <= j < n - 1 implies state_at(history, j) == WalkState::Walking by {
        assert(history[j].parents.len() == 1);
    }
    lemma_visited_ends(history, 0, n);
    assert(history.take(n as int) =~= history);
}

/// Of a history of more than ten commits, in order toward the root, whose
/// first nine have one parent each, exactly the first ten are listed.
pub proof fn lemma_long_history_is_cut(history: Seq<CommitView>)
    requires
        history.len() > STACK_LIMIT,
        is_chain(history),
        single_parent_before(history, STACK_LIMIT - 1),
    ensures
        stack_of(history) == history.take(STACK_LIMIT as int),
        stack_of(history).len() == STACK_LIMIT,
        stop_of(history) == WalkState::BoundedStop,
{
    assert forall|j: int| 0 <= j < STACK_LIMIT - 1 implies state_at(history, j)
        == WalkState::Walking by {
        assert(history[j].parents.len() == 1);
    }
    lemma_visited_ends(history, 0, STACK_LIMIT as nat);
    lemma_chain_prefix(history, STACK_LIMIT as int);
}

/// The walk never looks past the tenth commit: two histories that agree on
/// their first ten commits give the same stack and end for the same reason.
pub proof fn lemma_walk_reads_no_further(first: Seq<CommitView>, second: Seq<CommitView>)
    requires
        first.len() >= STACK_LIMIT,
        second.len() >= STACK_LIMIT,
        first.take(STACK_LIMIT as int) == second.take(STACK_LIMIT as int),
    ensures
        stack_of(first) == stack_of(second),
        stop_of(first) == stop_of(second),
{
    lemma_visited_from(first, 0);
    let k = visited(first);
    if k > STACK_LIMIT {
        assert(state_at(first, STACK_LIMIT - 1) == WalkState::Walking);
    }
    assert(state_at(first, STACK_LIMIT - 1) != WalkState::Walking);
    assert(state_at(first, k - 1) != WalkState::Walking);
    assert forall|j: int| 0 <= j < STACK_LIMIT implies first[j] == second[j] by {
        assert(first[j] == first.take(STACK_LIMIT as int)[j]);
        assert(second[j] == second.take(STACK_LIMIT as int)[j]);
    }
    assert forall|j: int| 0 <= j < k - 1 implies state_at(second, j) == WalkState::Walking by {
        assert(state_at(first, j) == WalkState::Walking);
    }
    lemma_visited_ends(second, 0, k);
    assert(first.take(k as int) =~= second.take(k as int));
}

/// A merge among the first ten commits of a history in order toward the
/// root, with no merge before it, is the last commit listed. It is reported
/// as a merge unless it is the tenth commit, where the bound ends the walk
/// first.
pub proof fn lemma_merge_ends_walk(history: Seq<CommitView>, at: int)
    requires
        0 <= at < history.len(),
        at < STACK_LIMIT,
        is_chain(history),
        single_parent_before(history, at),
        history[at].parents.len() >= 2,
    ensures
        stack_of(history) == history.take(at + 1),
        stack_of(history).last() == history[at],
        stop_of(history) == (if at + 1 < STACK_LIMIT {
            WalkState::MergeStop
        } else {
            WalkState::BoundedStop
        }),
{
    assert forall|j: int| 0 <= j < at implies state_at(history, j) == WalkState::Walking by {
        assert(history[j].parents.len() == 1);
    }
    lemma_visited_ends(history, 0, (at + 1) as nat);
    lemma_chain_prefix(history, at + 1);
}

/// Every walk that ends without a read error yields a stack in order
/// toward the root, and one that ends in a read error yields nothing.
pub proof fn lemma_walk_yields_stack(history: Seq<CommitView>)
    ensures
        stop_of(history) != WalkState::ReadError ==> is_stack(stack_of(history), stop_of(history)),
        is_chain(stack_of(history)),
        stop_of(history) == WalkState::ReadError ==> stack_of(history).len() == 0,
        stack_of(history).len() <= STACK_LIMIT,
        stop_of(history) != WalkState::Walking,
        stop_of(history) != WalkState::DetachedStop,
{
    lemma_visited_from(history, 0);
    let k = visited(history);
    if stop_of(history) != WalkState::ReadError {
        let entries = stack_of(history);
        if k > STACK_LIMIT {
            assert(state_at(history, STACK_LIMIT - 1) == WalkState::Walking);
        }
        assert forall|i: int| 0 <= i < entries.len() - 1 implies (#[trigger] entries[i]).parents.len()
            == 1 by {
            assert(state_at(history, i) == WalkState::Walking);
        }
    }
}

/// The walk keeps the order of the history: its stack holds the first
/// commits of the history, beginning with the commit at the current
/// position.
pub proof fn lemma_walk_keeps_order(history: Seq<CommitView>)
    ensures
        stack_of(history).len() <= history.len(),
        forall|i: int| 0 <= i < stack_of(history).len() ==> stack_of(history)[i] == history[i],
{
    lemma_visited_from(history, 0);
}

/// A stack in order toward the root is the walk of its own commits.
pub proof fn lemma_stack_is_its_own_walk(entries: Seq<CommitView>, stop: WalkState)
    requires
        is_stack(entries, stop),
        is_chain(entries),
    ensures
        stack_of(entries) == entries,
        stop_of(entries) == stop,
{
    let n = entries.len();
    assert forall|j: int| 0 <= j < n - 1 implies state_at(entries, j) == WalkState::Walking by {
        assert(entries[j].parents.len() == 1);
    }
    lemma_visited_ends(entries, 0, n);
    assert(entries.take(n as int) =~= entries);
}

/// Whether an identity decides the commit: a commit of `entries` and a
/// commit of `history` with one identity are one commit.
pub open spec fn ids_decide(entries: Seq<CommitView>, history: Seq<CommitView>) -> bool {
    forall|i: int, j: int|
        0 <= i < entries.len() && 0 <= j < history.len() && (#[trigger] entries[i]).id == (
        #[trigger] history[j]).id ==> entries[i] == history[j]
}

/// A stack in order toward the root agrees with the history it began in,
/// as far as both reach into what the walk over the history visits.
proof fn lemma_stack_agrees(entries: Seq<CommitView>, stop: WalkState, history: Seq<CommitView>, at: int)
    requires
        is_stack(entries, stop),
        is_chain(entries),
        history.len() > 0,
        entries[0] == history[0],
        ids_decide(entries, history),
        stop_of(history) != WalkState::ReadError,
        0 <= at < entries.len(),
        at < visited(history),
    ensures
        entries[at] == history[at],
    decreases at,
{
    if at > 0 {
        lemma_stack_agrees(entries, stop, history, at - 1);
        lemma_visited_from(history, 0);
        let seen = history.take(visited(history) as int);
        assert(state_at(history, at - 1) == WalkState::Walking);
        assert(entries[at - 1].parents.len() == 1);
        assert(seen[at - 1] == history[at - 1]);
        assert(seen[at - 1 + 1] == history[at]);
        assert(entries[at - 1].parents[0] == entries[at - 1 + 1].id);
        assert(entries[at].id == history[at].id);
    }
}

/// A stack in order toward the root is the walk of the history it began
/// in: where its first commit is the first of a history whose walk comes
/// to its end, and an identity decides the commit, the stack holds exactly
/// the commits that the walk over the history visits, and ended for the
/// same reason.
pub proof fn lemma_stack_follows_history(
    entries: Seq<CommitView>,
    stop: WalkState,
    history: Seq<CommitView>,
)
    requires
        is_stack(entries, stop),
        is_chain(entries),
        history.len() > 0,
        entries[0] == history[0],
        ids_decide(entries, history),
        stop_of(history) != WalkState::ReadError,
    ensures
        entries == stack_of(history),
        stop == stop_of(history),
{
    lemma_visited_from(history, 0);
    let n = entries.len() as int;
    let k = visited(history) as int;
    if n < k {
        lemma_stack_agrees(entries, stop, history, n - 1);
        assert(state_at(history, n - 1) == WalkState::Walking);
        assert(state_at(entries, n - 1) == state_at(history, n - 1));
    } else if n > k {
        lemma_stack_agrees(entries, stop, history, k - 1);
        assert(entries[k - 1].parents.len() == 1);
        assert(state_at(entries, k - 1) == state_at(history, k - 1));
    }
    assert(n == k);
    assert forall|i: int| 0 <= i < n implies entries[i] == history.take(k)[i] by {
        lemma_stack_agrees(entries, stop, history, i);
    }
    assert(entries =~= history.take(k));
    assert(state_at(entries, n - 1) == state_at(history, k - 1));
}

} // verus!
