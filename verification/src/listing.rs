//! The listing: everything one run shows, put together from the branch
//! enumeration and the walk, and its lines in the order they are shown.

use crate::annotate::{annotate_all, annotated, entry_views, EntryView, StackEntry};
use crate::diagnostic::{diagnostic_views, message_text, Diagnostic, DiagnosticView};
use crate::index::{index_of, untargeted_notes, BranchIndex};
use crate::model::{branch_views, commit_views, BranchRef, BranchView, CommitView};
use crate::render::{chain_lines, chain_text, stack_line, stack_line_text, texts};
use crate::upstream::{
    resolution_views,
    resolutions_of,
    resolve_all,
    Resolution,
    ResolutionView,
};
use crate::walk::{
    ids_decide,
    is_chain,
    is_stack,
    lemma_linear_history_is_listed,
    lemma_long_history_is_cut,
    lemma_stack_follows_history,
    single_parent_before,
    stop_of,
    stack_of,
    Walk,
    WalkState,
    STACK_LIMIT,
};
use vstd::prelude::*;

verus! {

/// A listing, as a value.
pub struct ListingView {
    pub notes: Seq<DiagnosticView>,
    pub entries: Seq<EntryView>,
    pub stop: WalkState,
    pub chains: Seq<ResolutionView>,
}

/// What one run shows: the reports made before the stack, the stack with
/// its branch names, the reason the walk ended, and for each local branch
/// what its resolution gave.
#[derive(Debug)]
pub struct Listing {
    pub notes: Vec<Diagnostic>,
    pub entries: Vec<StackEntry>,
    pub stop: WalkState,
    pub chains: Vec<Resolution>,
}

impl View for Listing {
    type V = ListingView;

    open spec fn view(&self) -> ListingView {
        ListingView {
            notes: diagnostic_views(self.notes@),
            entries: entry_views(self.entries@),
            stop: self.stop,
            chains: resolution_views(self.chains@),
        }
    }
}

/// The listing for a current position that is no branch: one report, no
/// stack and no chains.
pub open spec fn detached_listing() -> ListingView {
    ListingView {
        notes: seq![DiagnosticView::DetachedHead],
        entries: Seq::empty(),
        stop: WalkState::DetachedStop,
        chains: Seq::empty(),
    }
}

/// The listing made from the enumerated `branches` and a walk that emitted
/// `commits` and ended in `stop`.
pub open spec fn listing_of(
    branches: Seq<BranchView>,
    commits: Seq<CommitView>,
    stop: WalkState,
) -> ListingView {
    ListingView {
        notes: untargeted_notes(branches),
        entries: annotated(commits, index_of(branches)),
        stop,
        chains: resolutions_of(branches),
    }
}

/// The commits of the entries, in their order.
pub open spec fn entry_commits(entries: Seq<EntryView>) -> Seq<CommitView> {
    entries.map_values(|e: EntryView| e.commit)
}

/// What every listing of a repository is: the one for a detached position,
/// or one whose entries are a stack in order toward the root, joined with
/// the index of some enumeration of branches that also gave its reports and
/// its chains.
pub open spec fn is_listing(l: ListingView) -> bool {
    l == detached_listing() || exists|branches: Seq<BranchView>|
        {
            &&& is_stack(entry_commits(l.entries), l.stop)
            &&& is_chain(entry_commits(l.entries))
            &&& l == #[trigger] listing_of(branches, entry_commits(l.entries), l.stop)
        }
}

/// What is reported after the stack: the merge that ended the walk.
pub open spec fn stop_notes(l: ListingView) -> Seq<DiagnosticView> {
    if l.stop == WalkState::MergeStop && l.entries.len() > 0 {
        seq![DiagnosticView::MergeCommit(l.entries.last().commit.id)]
    } else {
        Seq::empty()
    }
}

/// The lines that report `notes`, one for each.
pub open spec fn messages(notes: Seq<DiagnosticView>) -> Seq<Seq<char>> {
    notes.map_values(|d: DiagnosticView| message_text(d))
}

/// The lines of the stack, one for each entry.
pub open spec fn entry_lines(entries: Seq<EntryView>) -> Seq<Seq<char>> {
    entries.map_values(|e: EntryView| stack_line_text(e))
}

/// The lines of each diagram in `diagrams`.
pub open spec fn diagram_texts(diagrams: Seq<Vec<String>>) -> Seq<Seq<Seq<char>>> {
    diagrams.map_values(|d: Vec<String>| texts(d@))
}

/// The lines for all branches, in the order of the enumeration: for each
/// branch its reports, then its diagram. `diagrams` holds one diagram for
/// each branch, an empty one for a branch without a pair; where it does
/// not, there are no lines.
pub open spec fn chains_layout(
    chains: Seq<ResolutionView>,
    diagrams: Seq<Seq<Seq<char>>>,
) -> Seq<Seq<char>>
    decreases chains.len(),
{
    if chains.len() == 0 || diagrams.len() != chains.len() {
        Seq::empty()
    } else {
        chains_layout(chains.drop_last(), diagrams.drop_last()) + messages(chains.last().notes)
            + diagrams.last()
    }
}

/// All lines of a listing, laid out from the lines of its entries and the
/// diagrams of its branches, in the order they are shown: the reports made
/// before the stack, the stack, the merge that ended it, and the branches.
pub open spec fn listing_layout(
    l: ListingView,
    entry_lines: Seq<Seq<char>>,
    diagrams: Seq<Seq<Seq<char>>>,
) -> Seq<Seq<char>> {
    messages(l.notes) + entry_lines + messages(stop_notes(l)) + chains_layout(l.chains, diagrams)
}

/// The diagram of one branch, without styling: that of its pair, or no
/// line where it has none.
pub open spec fn plain_diagram(r: ResolutionView) -> Seq<Seq<char>> {
    match r.pair {
        Some(p) => chain_text(p),
        None => Seq::empty(),
    }
}

/// The diagrams of all branches, without styling.
pub open spec fn plain_diagrams(chains: Seq<ResolutionView>) -> Seq<Seq<Seq<char>>> {
    chains.map_values(|r: ResolutionView| plain_diagram(r))
}

/// All lines of a listing, without styling.
pub open spec fn listing_text(l: ListingView) -> Seq<Seq<char>> {
    listing_layout(l, entry_lines(l.entries), plain_diagrams(l.chains))
}

/// Appends to `lines` the line of each of `notes`.
fn push_messages(lines: &mut Vec<String>, notes: &Vec<Diagnostic>)
    ensures
        texts(final(lines)@) == texts(old(lines)@) + messages(diagnostic_views(notes@)),
{
    let mut i: usize = 0;
    assert(texts(lines@) =~= texts(old(lines)@) + messages(
        diagnostic_views(notes@.take(0)),
    ));
    while i < notes.len()
        invariant
            i <= notes.len(),
            texts(lines@) == texts(old(lines)@) + messages(
                diagnostic_views(notes@.take(i as int)),
            ),
        decreases notes.len() - i,
    {
        let ghost before = lines@;
        lines.push(notes[i].message());
        assert(texts(lines@) =~= texts(before).push(message_text(notes@[i as int]@)));
        assert(notes@.take(i + 1) =~= notes@.take(i as int).push(notes@[i as int]));
        assert(messages(diagnostic_views(notes@.take(i + 1))) =~= messages(
            diagnostic_views(notes@.take(i as int)),
        ).push(message_text(notes@[i as int]@)));
        i = i + 1;
    }
    assert(notes@.take(i as int) =~= notes@);
}

/// Appends to `lines` every line of `more`.
fn push_lines(lines: &mut Vec<String>, more: &Vec<String>)
    ensures
        texts(final(lines)@) == texts(old(lines)@) + texts(more@),
{
    let mut i: usize = 0;
    assert(texts(lines@) =~= texts(old(lines)@) + texts(more@.take(0)));
    while i < more.len()
        invariant
            i <= more.len(),
            texts(lines@) == texts(old(lines)@) + texts(more@.take(i as int)),
        decreases more.len() - i,
    {
        let ghost before = lines@;
        lines.push(more[i].clone());
        assert(texts(lines@) =~= texts(before).push(more@[i as int]@));
        assert(texts(more@.take(i + 1)) =~= texts(more@.take(i as int)).push(more@[i as int]@));
        i = i + 1;
    }
    assert(more@.take(i as int) =~= more@);
}

impl Listing {
    /// The listing for a current position that is no branch.
    pub fn detached() -> (r: Listing)
        ensures
            r@ == detached_listing(),
    {
        let mut notes: Vec<Diagnostic> = Vec::new();
        notes.push(Diagnostic::DetachedHead);
        let r = Listing {
            notes,
            entries: Vec::new(),
            stop: WalkState::DetachedStop,
            chains: Vec::new(),
        };
        assert(r@.notes =~= detached_listing().notes);
        assert(r@.entries =~= detached_listing().entries);
        assert(r@.chains =~= detached_listing().chains);
        r
    }

    /// Puts a listing together from the enumerated branches and a walk:
    /// builds the index, joins the walk with it, and resolves the upstream
    /// of every branch.
    pub fn assemble(branches: &Vec<BranchRef>, walk: &Walk) -> (r: Listing)
        ensures
            r@ == listing_of(branch_views(branches@), commit_views(walk.entries@), walk.stop),
    {
        let (index, notes) = BranchIndex::build(branches);
        let entries = annotate_all(&walk.entries, &index);
        let chains = resolve_all(branches);
        Listing { notes, entries, stop: walk.stop, chains }
    }

    /// What is reported after the stack: the merge that ended the walk.
    pub fn stop_note(&self) -> (r: Vec<Diagnostic>)
        ensures
            diagnostic_views(r@) == stop_notes(self@),
    {
        let mut notes: Vec<Diagnostic> = Vec::new();
        if self.stop == WalkState::MergeStop && self.entries.len() > 0 {
            let last = &self.entries[self.entries.len() - 1];
            notes.push(Diagnostic::MergeCommit(last.commit.id));
            assert(entry_views(self.entries@).last() == last@);
        }
        assert(diagnostic_views(notes@) =~= stop_notes(self@));
        notes
    }

    /// All lines of the listing, laid out from the lines of its entries and
    /// the diagrams of its branches, which may carry styling.
    pub fn layout(&self, entry_lines: &Vec<String>, diagrams: &Vec<Vec<String>>) -> (r: Vec<String>)
        ensures
            texts(r@) == listing_layout(self@, texts(entry_lines@), diagram_texts(diagrams@)),
    {
        let mut lines: Vec<String> = Vec::new();
        assert(texts(lines@) =~= Seq::<Seq<char>>::empty());
        push_messages(&mut lines, &self.notes);
        push_lines(&mut lines, entry_lines);
        let stop = self.stop_note();
        push_messages(&mut lines, &stop);
        let ghost body = texts(lines@);
        assert(body =~= messages(self@.notes) + texts(entry_lines@) + messages(stop_notes(self@)));
        if diagrams.len() != self.chains.len() {
            assert(texts(lines@) =~= body + Seq::<Seq<char>>::empty());
            return lines;
        }
        let ghost chains = resolution_views(self.chains@);
        let ghost pictures = diagram_texts(diagrams@);
        let mut k: usize = 0;
        assert(texts(lines@) =~= body + chains_layout(chains.take(0), pictures.take(0)));
        while k < self.chains.len()
            invariant
                k <= self.chains.len(),
                diagrams.len() == self.chains.len(),
                chains == resolution_views(self.chains@),
                pictures == diagram_texts(diagrams@),
                texts(lines@) == body + chains_layout(chains.take(k as int), pictures.take(k as int)),
            decreases self.chains.len() - k,
        {
            let ghost before = texts(lines@);
            push_messages(&mut lines, &self.chains[k].notes);
            push_lines(&mut lines, &diagrams[k]);
            proof {
                let next = chains.take(k + 1);
                let shown = pictures.take(k + 1);
                assert(next.drop_last() =~= chains.take(k as int));
                assert(shown.drop_last() =~= pictures.take(k as int));
                assert(next.last() == self.chains@[k as int]@);
                assert(shown.last() == texts(diagrams@[k as int]@));
                assert(texts(lines@) =~= before + messages(next.last().notes) + shown.last());
                assert(texts(lines@) =~= body + chains_layout(next, shown));
            }
            k = k + 1;
        }
        assert(chains.take(k as int) =~= chains);
        assert(pictures.take(k as int) =~= pictures);
        lines
    }

    /// All lines of the listing, without styling, in the order they are
    /// shown.
    pub fn lines(&self) -> (r: Vec<String>)
        ensures
            texts(r@) == listing_text(self@),
    {
        let mut stack: Vec<String> = Vec::new();
        let mut i: usize = 0;
        assert(texts(stack@) =~= entry_lines(entry_views(self.entries@.take(0))));
        while i < self.entries.len()
            invariant
                i <= self.entries.len(),
                texts(stack@) == entry_lines(entry_views(self.entries@.take(i as int))),
            decreases self.entries.len() - i,
        {
            let ghost before = stack@;
            stack.push(stack_line(&self.entries[i]));
            assert(texts(stack@) =~= texts(before).push(
                stack_line_text(self.entries@[i as int]@),
            ));
            assert(self.entries@.take(i + 1) =~= self.entries@.take(i as int).push(
                self.entries@[i as int],
            ));
            assert(entry_lines(entry_views(self.entries@.take(i + 1))) =~= entry_lines(
                entry_views(self.entries@.take(i as int)),
            ).push(stack_line_text(self.entries@[i as int]@)));
            i = i + 1;
        }
        assert(self.entries@.take(i as int) =~= self.entries@);
        let mut diagrams: Vec<Vec<String>> = Vec::new();
        let mut k: usize = 0;
        assert(diagram_texts(diagrams@) =~= plain_diagrams(
            resolution_views(self.chains@.take(0)),
        ));
        while k < self.chains.len()
            invariant
                k <= self.chains.len(),
                diagram_texts(diagrams@) == plain_diagrams(
                    resolution_views(self.chains@.take(k as int)),
                ),
            decreases self.chains.len() - k,
        {
            let ghost before = diagrams@;
            let diagram = match &self.chains[k].pair {
                Some(p) => chain_lines(p),
                None => Vec::new(),
            };
            assert(texts(diagram@) =~= plain_diagram(self.chains@[k as int]@));
            diagrams.push(diagram);
            assert(diagram_texts(diagrams@) =~= diagram_texts(before).push(
                plain_diagram(self.chains@[k as int]@),
            ));
            assert(self.chains@.take(k + 1) =~= self.chains@.take(k as int).push(
                self.chains@[k as int],
            ));
            assert(plain_diagrams(resolution_views(self.chains@.take(k + 1))) =~= plain_diagrams(
                resolution_views(self.chains@.take(k as int)),
            ).push(plain_diagram(self.chains@[k as int]@)));
            k = k + 1;
        }
        assert(self.chains@.take(k as int) =~= self.chains@);
        self.layout(&stack, &diagrams)
    }
}

/// What the current position alone decides: a position that is no branch
/// gives the listing that reports it, with no stack and no chains, and
/// nothing else is read. A position that is a branch decides nothing yet.
pub fn position_listing(on_branch: bool) -> (r: Option<Listing>)
    ensures
        match r {
            Some(l) => !on_branch && l@ == detached_listing(),
            None => on_branch,
        },
{
    if on_branch {
        None
    } else {
        Some(Listing::detached())
    }
}

/// The listing for a detached position is exactly one line, the report
/// that the current position is no branch, and holds no stack entry.
pub proof fn lemma_detached_listing_is_one_line()
    ensures
        detached_listing().entries.len() == 0,
        listing_text(detached_listing()) == seq![message_text(DiagnosticView::DetachedHead)],
        is_listing(detached_listing()),
{
    let l = detached_listing();
    assert(plain_diagrams(l.chains) =~= Seq::<Seq<Seq<char>>>::empty());
    assert(listing_text(l) =~= seq![message_text(DiagnosticView::DetachedHead)]);
}

/// A listing made from a completed walk in order toward the root shows one
/// entry for each commit of the walk, in the order of the walk, and is a
/// listing.
pub proof fn lemma_listing_shows_the_walk(
    branches: Seq<BranchView>,
    commits: Seq<CommitView>,
    stop: WalkState,
)
    requires
        is_stack(commits, stop),
        is_chain(commits),
    ensures
        is_listing(listing_of(branches, commits, stop)),
        listing_of(branches, commits, stop).entries.len() == commits.len(),
        entry_commits(listing_of(branches, commits, stop).entries) == commits,
{
    let l = listing_of(branches, commits, stop);
    assert(entry_commits(l.entries) =~= commits);
}

/// A listing with entries was made from a walk: its entries are a stack in
/// order toward the root.
pub proof fn lemma_listing_holds_a_stack(l: ListingView)
    requires
        is_listing(l),
        l.entries.len() > 0,
    ensures
        is_stack(entry_commits(l.entries), l.stop),
        is_chain(entry_commits(l.entries)),
{
}

/// A listing shows the walk of the history it began in: where its first
/// entry is the first commit of a history whose walk comes to its end, and
/// an identity decides the commit, its entries are exactly the commits
/// that the walk over the history visits, in their order, and the walk
/// ended for the same reason.
pub proof fn lemma_listing_follows_history(l: ListingView, history: Seq<CommitView>)
    requires
        is_listing(l),
        l.entries.len() > 0,
        history.len() > 0,
        l.entries[0].commit == history[0],
        ids_decide(entry_commits(l.entries), history),
        stop_of(history) != WalkState::ReadError,
    ensures
        entry_commits(l.entries) == stack_of(history),
        l.stop == stop_of(history),
{
    lemma_listing_holds_a_stack(l);
    lemma_stack_follows_history(entry_commits(l.entries), l.stop, history);
}

/// A listing that began at the first commit of a history without merges,
/// in order toward the root, that ends in a root commit and holds at most
/// ten commits, shows exactly the commits of the history in their order,
/// the commit of the current position first and the root last, and
/// reports no merge.
pub proof fn lemma_listing_of_linear_history(l: ListingView, history: Seq<CommitView>)
    requires
        is_listing(l),
        l.entries.len() > 0,
        l.entries[0].commit == history[0],
        ids_decide(entry_commits(l.entries), history),
        1 <= history.len() <= STACK_LIMIT,
        is_chain(history),
        single_parent_before(history, history.len() - 1),
        history.last().parents.len() == 0,
    ensures
        entry_commits(l.entries) == history,
        l.entries.len() == history.len(),
        l.stop == WalkState::RootStop || l.stop == WalkState::BoundedStop,
        stop_notes(l) == Seq::<DiagnosticView>::empty(),
{
    lemma_linear_history_is_listed(history);
    lemma_listing_follows_history(l, history);
    assert(entry_commits(l.entries).len() == l.entries.len());
}

/// A listing that began at the first commit of a history of more than ten
/// commits, in order toward the root, whose first nine have one parent
/// each, shows exactly the first ten commits in their order, whatever the
/// parents of the tenth and whatever lies behind it, ends at the bound and
/// reports no merge.
pub proof fn lemma_listing_of_long_history(l: ListingView, history: Seq<CommitView>)
    requires
        is_listing(l),
        l.entries.len() > 0,
        l.entries[0].commit == history[0],
        ids_decide(entry_commits(l.entries), history),
        history.len() > STACK_LIMIT,
        is_chain(history),
        single_parent_before(history, STACK_LIMIT - 1),
    ensures
        entry_commits(l.entries) == history.take(STACK_LIMIT as int),
        l.entries.len() == STACK_LIMIT,
        l.stop == WalkState::BoundedStop,
        stop_notes(l) == Seq::<DiagnosticView>::empty(),
{
    lemma_long_history_is_cut(history);
    lemma_listing_follows_history(l, history);
    assert(entry_commits(l.entries).len() == l.entries.len());
}

} // verus!
