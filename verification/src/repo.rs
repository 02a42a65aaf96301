//! Reading a repository: the calls into git2, and the listing made from
//! what they return. What a repository holds is not known to the proofs, so
//! the contracts here state what holds of every outcome; what is made of an
//! outcome is stated exactly by the functions that these call.

use crate::diagnostic::{message_text, Diagnostic, DiagnosticView};
use crate::error::{StackError, StackErrorView};
use crate::listing::{
    is_listing,
    lemma_listing_shows_the_walk,
    listing_text,
    position_listing,
    Listing,
    ListingView,
};
use crate::model::{branch_views, commit_views, BranchRef, CommitDescriptor, CommitId, NameLookup, UpstreamLookup, ID_BYTES};
use crate::render::texts;
use crate::walk::{follows, is_chain, is_stack, lemma_chain_grows, step, Step, Walk, STACK_LIMIT};
use vstd::prelude::*;

verus! {

#[verifier::external_type_specification]
#[verifier::external_body]
pub struct ExRepository(git2::Repository);

#[verifier::external_type_specification]
#[verifier::external_body]
pub struct ExReference<'repo>(git2::Reference<'repo>);

#[verifier::external_type_specification]
#[verifier::external_body]
pub struct ExBranch<'repo>(git2::Branch<'repo>);

#[verifier::external_type_specification]
#[verifier::external_body]
pub struct ExBranches<'repo>(git2::Branches<'repo>);

/// `git2::BranchType`: the two kinds of branches, local and remote. It has
/// no fields, so it is declared with its variants, and the library can name
/// the kind it asks for.
#[verifier::external_type_specification]
pub struct ExBranchType(git2::BranchType);

#[verifier::external_type_specification]
#[verifier::external_body]
pub struct ExCommit<'repo>(git2::Commit<'repo>);

#[verifier::external_type_specification]
#[verifier::external_body]
pub struct ExSignature<'a>(git2::Signature<'a>);

#[verifier::external_type_specification]
#[verifier::external_body]
pub struct ExTime(git2::Time);

#[verifier::external_type_specification]
#[verifier::external_body]
pub struct ExOid(git2::Oid);

#[verifier::external_type_specification]
#[verifier::external_body]
pub struct ExError(git2::Error);

/// `git2::Repository::head`: the reference that the current position
/// resolves to. Nothing is claimed of the result.
pub assume_specification[ git2::Repository::head ](repo: &git2::Repository) -> (r: Result<
    git2::Reference<'_>,
    git2::Error,
>)
;

/// `git2::Repository::branches`: an iterator over the branches of the kind
/// asked for. Nothing is claimed of the result.
pub assume_specification[ git2::Repository::branches ](
    repo: &git2::Repository,
    filter: Option<git2::BranchType>,
) -> (r: Result<git2::Branches<'_>, git2::Error>)
;

/// `git2::Reference::is_branch`: whether the reference is a local branch.
/// Nothing is claimed of the result.
pub assume_specification<'repo>[ git2::Reference::<'repo>::is_branch ](
    reference: &git2::Reference<'repo>,
) -> (r: bool)
;

/// `git2::Reference::target`: the identity that a direct reference points
/// at. Nothing is claimed of the result.
pub assume_specification<'repo>[ git2::Reference::<'repo>::target ](
    reference: &git2::Reference<'repo>,
) -> (r: Option<git2::Oid>)
;

/// `git2::Reference::peel_to_commit`: the commit that the reference leads
/// to. Nothing is claimed of the result.
pub assume_specification<'repo>[ git2::Reference::<'repo>::peel_to_commit ](
    reference: &git2::Reference<'repo>,
) -> (r: Result<git2::Commit<'repo>, git2::Error>)
;

/// `git2::Branch::get`: the reference that the branch is. Nothing is
/// claimed of the result.
pub assume_specification<'repo, 'a>[ git2::Branch::<'repo>::get ](
    branch: &'a git2::Branch<'repo>,
) -> (r: &'a git2::Reference<'repo>)
;

/// `git2::Branch::name`: the name of the branch, or nothing where it is not
/// valid UTF-8. Nothing is claimed of the result.
pub assume_specification<'repo, 'a>[ git2::Branch::<'repo>::name ](
    branch: &'a git2::Branch<'repo>,
) -> (r: Result<Option<&'a str>, git2::Error>)
;

/// `git2::Branch::upstream`: the branch that a local branch tracks. Nothing
/// is claimed of the result.
pub assume_specification<'repo>[ git2::Branch::<'repo>::upstream ](
    branch: &git2::Branch<'repo>,
) -> (r: Result<git2::Branch<'repo>, git2::Error>)
;

/// `git2::Oid::as_bytes`: the identity as a slice of bytes, which the crate
/// documents to be twenty bytes long.
pub assume_specification<'a>[ git2::Oid::as_bytes ](oid: &'a git2::Oid) -> (r: &'a [u8])
    ensures
        r@.len() == ID_BYTES,
;

/// `git2::Commit::id`: the identity of the commit. Nothing is claimed of
/// the result.
pub assume_specification<'repo>[ git2::Commit::<'repo>::id ](commit: &git2::Commit<'repo>) -> (r:
    git2::Oid)
;

/// `git2::Commit::summary`: the first paragraph of the commit message, or
/// nothing where it cannot be had. Nothing is claimed of the result.
pub assume_specification<'repo, 'a>[ git2::Commit::<'repo>::summary ](
    commit: &'a git2::Commit<'repo>,
) -> (r: Option<&'a str>)
;

/// `git2::Commit::author`: the author of the commit. Nothing is claimed of
/// the result.
pub assume_specification<'repo, 'a>[ git2::Commit::<'repo>::author ](
    commit: &'a git2::Commit<'repo>,
) -> (r: git2::Signature<'a>)
;

/// `git2::Commit::parent_count`: the number of parents of the commit.
/// Nothing is claimed of the result.
pub assume_specification<'repo>[ git2::Commit::<'repo>::parent_count ](
    commit: &git2::Commit<'repo>,
) -> (r: usize)
;

/// `git2::Commit::parent_id`: the identity of the parent at a position, or
/// an error where the commit has no parent there. Nothing is claimed of the
/// result.
pub assume_specification<'repo>[ git2::Commit::<'repo>::parent_id ](
    commit: &git2::Commit<'repo>,
    i: usize,
) -> (r: Result<git2::Oid, git2::Error>)
;

/// `git2::Commit::parent`: the parent at a position, read from the object
/// database, or an error where there is none or it cannot be read. Nothing
/// is claimed of the result.
pub assume_specification<'repo>[ git2::Commit::<'repo>::parent ](
    commit: &git2::Commit<'repo>,
    i: usize,
) -> (r: Result<git2::Commit<'repo>, git2::Error>)
;

/// `git2::Signature::name`: the name on the signature, or nothing where it
/// is not valid UTF-8. Nothing is claimed of the result.
pub assume_specification<'a, 'b>[ git2::Signature::<'a>::name ](
    signature: &'b git2::Signature<'a>,
) -> (r: Option<&'b str>)
;

/// `git2::Signature::when`: the time on the signature. Nothing is claimed
/// of the result.
pub assume_specification<'a>[ git2::Signature::<'a>::when ](signature: &git2::Signature<'a>) -> (r:
    git2::Time)
;

/// `git2::Time::seconds`: the time in seconds since the epoch. Nothing is
/// claimed of the result.
pub assume_specification[ git2::Time::seconds ](time: &git2::Time) -> (r: i64)
;

/// `git2::Repository::open`: the repository at `path`. Nothing is claimed
/// of the result.
#[verifier::external_body]
fn open_repository(path: &str) -> (r: Result<git2::Repository, git2::Error>) {
    git2::Repository::open(path)
}

/// `Iterator::next` of `git2::Branches`: the next branch of the
/// enumeration, without its kind. Nothing is claimed of the result.
#[verifier::external_body]
fn next_branch<'repo>(branches: &mut git2::Branches<'repo>) -> (r: Option<
    Result<git2::Branch<'repo>, git2::Error>,
>) {
    branches.next().map(|item| item.map(|pair| pair.0))
}

/// `git2::Error::code`: whether the error says that something was not
/// found. Nothing is claimed of the result.
#[verifier::external_body]
fn is_not_found(error: &git2::Error) -> (r: bool) {
    error.code() == git2::ErrorCode::NotFound
}

/// The `Debug` text of a `git2::Error`. Nothing is claimed of the result.
#[verifier::external_body]
fn error_text(error: &git2::Error) -> (r: String) {
    format!("{:?}", error)
}

/// What a report on a place is: the one line that says it holds no
/// repository, the one line of a read failure, or the lines of a listing.
pub open spec fn is_report(lines: Seq<Seq<char>>) -> bool {
    ||| lines == seq![message_text(DiagnosticView::NotARepository)]
    ||| exists|text: Seq<char>| lines == seq![#[trigger] message_text(DiagnosticView::ReadFailure(text))]
    ||| exists|l: ListingView| is_listing(l) && lines == #[trigger] listing_text(l)
}

/// What is reported where no repository could be opened: that there is
/// none, where the failure says that none was found, else the failure.
pub open spec fn open_failure_of(not_found: bool, text: Seq<char>) -> DiagnosticView {
    if not_found {
        DiagnosticView::NotARepository
    } else {
        DiagnosticView::ReadFailure(text)
    }
}

/// What is reported where no repository could be opened.
pub fn open_failure(not_found: bool, text: String) -> (d: Diagnostic)
    ensures
        d@ == open_failure_of(not_found, text@),
{
    if not_found {
        Diagnostic::NotARepository
    } else {
        Diagnostic::ReadFailure(text)
    }
}

/// The outcome of resolving an upstream that failed: no upstream is
/// configured, where the failure says that none was found, else the failure.
pub fn upstream_failure(not_found: bool, text: String) -> (u: UpstreamLookup)
    ensures
        not_found ==> u == UpstreamLookup::NotConfigured,
        !not_found ==> u == UpstreamLookup::Failed(text),
{
    if not_found {
        UpstreamLookup::NotConfigured
    } else {
        UpstreamLookup::Failed(text)
    }
}

/// The identity that `oid` holds.
fn identity(oid: &git2::Oid) -> (id: CommitId) {
    CommitId::from_exact(oid.as_bytes())
}

/// The outcome of reading the name of `branch`.
fn read_name(branch: &git2::Branch<'_>) -> (name: NameLookup) {
    let read = match branch.name() {
        Ok(n) => Ok(n),
        Err(e) => Err(error_text(&e)),
    };
    NameLookup::from_read(read)
}

/// The outcome of resolving the upstream of `branch`.
fn read_upstream(branch: &git2::Branch<'_>) -> (upstream: UpstreamLookup) {
    match branch.upstream() {
        Ok(followed) => {
            let read = match followed.name() {
                Ok(n) => Ok(n),
                Err(e) => Err(error_text(&e)),
            };
            UpstreamLookup::from_read(read)
        },
        Err(e) => upstream_failure(is_not_found(&e), error_text(&e)),
    }
}

/// One branch of the enumeration, as plain values.
fn read_branch(branch: &git2::Branch<'_>) -> (r: BranchRef) {
    let target = match branch.get().target() {
        Some(oid) => Some(identity(&oid)),
        None => None,
    };
    BranchRef { name: read_name(branch), target, upstream: read_upstream(branch) }
}

/// How an enumeration of branches stands after one of its steps.
#[derive(Debug)]
pub enum Gathering {
    /// The step gave a branch: the enumeration goes on with these.
    Open(Vec<BranchRef>),
    /// The step gave nothing more: these are all the branches.
    Complete(Vec<BranchRef>),
    /// The step failed, and with it the enumeration.
    Failed(StackError),
}

/// Takes one step of an enumeration that has found `found`: a branch is
/// added behind those found, the end of the enumeration completes it with
/// what was found, and a step that failed fails the enumeration as a
/// whole, with the text of the failure.
pub fn gather(found: Vec<BranchRef>, step: Option<Result<BranchRef, String>>) -> (g: Gathering)
    ensures
        match step {
            Some(Ok(branch)) => g matches Gathering::Open(all) && branch_views(all@)
                == branch_views(found@).push(branch@),
            None => g matches Gathering::Complete(all) && branch_views(all@) == branch_views(
                found@,
            ),
            Some(Err(text)) => g matches Gathering::Failed(e) && e@
                == StackErrorView::BranchesUnreadable(text@),
        },
{
    match step {
        Some(Ok(branch)) => {
            let mut all = found;
            all.push(branch);
            assert(branch_views(all@) =~= branch_views(found@).push(branch@));
            Gathering::Open(all)
        },
        None => Gathering::Complete(found),
        Some(Err(text)) => Gathering::Failed(StackError::BranchesUnreadable(text)),
    }
}

/// Enumerates the local branches of `repo`. The enumeration fails as a
/// whole where it cannot begin or one of its steps fails; what cannot be
/// read of a single branch is recorded in that branch.
pub fn read_branches(repo: &git2::Repository) -> (r: Result<Vec<BranchRef>, StackError>)
    ensures
        r matches Err(e) ==> e is BranchesUnreadable,
{
    let mut pending = match repo.branches(Some(git2::BranchType::Local)) {
        Ok(p) => p,
        Err(e) => {
            return Err(StackError::BranchesUnreadable(error_text(&e)));
        },
    };
    let mut branches: Vec<BranchRef> = Vec::new();
    let mut room: usize = usize::MAX;
    while room > 0
        decreases room,
    {
        let step = match next_branch(&mut pending) {
            Some(Ok(branch)) => Some(Ok(read_branch(&branch))),
            Some(Err(e)) => Some(Err(error_text(&e))),
            None => None,
        };
        match gather(branches, step) {
            Gathering::Open(all) => {
                branches = all;
            },
            Gathering::Complete(all) => {
                return Ok(all);
            },
            Gathering::Failed(e) => {
                return Err(e);
            },
        }
        room = room - 1;
    }
    Ok(branches)
}

/// One commit, as plain values. It fails where the identity of a parent
/// cannot be had.
fn describe(commit: &git2::Commit<'_>) -> (r: Result<CommitDescriptor, git2::Error>) {
    let id = identity(&commit.id());
    let summary = match commit.summary() {
        Some(s) => Some(String::from_str(s)),
        None => None,
    };
    let signature = commit.author();
    let author = match signature.name() {
        Some(a) => Some(String::from_str(a)),
        None => None,
    };
    let time = signature.when().seconds();
    let count = commit.parent_count();
    let mut parents: Vec<CommitId> = Vec::new();
    let mut i: usize = 0;
    while i < count
        invariant
            i <= count,
        decreases count - i,
    {
        match commit.parent_id(i) {
            Ok(oid) => {
                parents.push(identity(&oid));
            },
            Err(e) => {
                return Err(e);
            },
        }
        i = i + 1;
    }
    Ok(CommitDescriptor::new(id, summary, author, time, parents))
}

/// Walks from the commit that `head` leads to: takes a step of the walk
/// with each commit read, and reads the first parent where the step says
/// that the walk goes on. No commit is read that is not handed to a step,
/// so at most ten are read. A commit that cannot be read, or a parent that
/// is not the commit its child names, ends the walk with an error and no
/// stack.
pub fn walk_from(head: &git2::Reference<'_>) -> (r: Result<Walk, StackError>)
    ensures
        match r {
            Ok(w) => is_stack(commit_views(w.entries@), w.stop) && is_chain(
                commit_views(w.entries@),
            ),
            Err(e) => e is CommitUnreadable,
        },
{
    let mut commit = match head.peel_to_commit() {
        Ok(c) => c,
        Err(e) => {
            return Err(StackError::CommitUnreadable(error_text(&e)));
        },
    };
    let mut entries: Vec<CommitDescriptor> = Vec::new();
    loop
        invariant
            entries.len() < STACK_LIMIT,
            forall|i: int|
                0 <= i < entries.len() ==> (#[trigger] commit_views(entries@)[i]).parents.len()
                    == 1,
            is_chain(commit_views(entries@)),
        decreases STACK_LIMIT - entries.len(),
    {
        let descriptor = match describe(&commit) {
            Ok(d) => d,
            Err(e) => {
                return Err(StackError::CommitUnreadable(error_text(&e)));
            },
        };
        let ghost before = commit_views(entries@);
        proof {
            if follows(before, descriptor@) {
                lemma_chain_grows(before, descriptor@);
            }
        }
        match step(entries, descriptor) {
            Step::Onward(all) => {
                proof {
                    let now = commit_views(all@);
                    assert forall|i: int| 0 <= i < now.len() implies (#[trigger] now[i]).parents.len()
                        == 1 by {
                        if i < before.len() {
                            assert(now[i] == before[i]);
                        }
                    }
                }
                entries = all;
                commit = match commit.parent(0) {
                    Ok(parent) => parent,
                    Err(e) => {
                        return Err(StackError::CommitUnreadable(error_text(&e)));
                    },
                };
            },
            Step::Done(walk) => {
                proof {
                    let now = commit_views(walk.entries@);
                    assert forall|i: int| 0 <= i < now.len() - 1 implies (#[trigger] now[i]).parents.len()
                        == 1 by {
                        assert(now[i] == before[i]);
                    }
                }
                return Ok(walk);
            },
            Step::Broken(e) => {
                return Err(e);
            },
        }
    }
}

/// Lists the stack of `repo`: where the current position is a branch, the
/// walk from it joined with the index of the local branches, and the
/// upstream of every branch; else the listing that reports the detached
/// position. It fails where the current position, the branch enumeration
/// or a commit of the walk cannot be read.
pub fn list_stack(repo: &git2::Repository) -> (r: Result<Listing, StackError>)
    ensures
        r matches Ok(l) ==> is_listing(l@),
{
    let head = match repo.head() {
        Ok(h) => h,
        Err(e) => {
            return Err(StackError::HeadUnreadable(error_text(&e)));
        },
    };
    match position_listing(head.is_branch()) {
        Some(listing) => {
            return Ok(listing);
        },
        None => {},
    }
    let branches = match read_branches(repo) {
        Ok(b) => b,
        Err(e) => {
            return Err(e);
        },
    };
    let walk = match walk_from(&head) {
        Ok(w) => w,
        Err(e) => {
            return Err(e);
        },
    };
    proof {
        lemma_listing_shows_the_walk(
            branch_views(branches@),
            commit_views(walk.entries@),
            walk.stop,
        );
    }
    Ok(Listing::assemble(&branches, &walk))
}

/// The listing of the repository at the place `path`, or the one condition
/// that says why there is none: that the place holds no repository, or what
/// could not be read.
pub fn listing_at(path: &str) -> (r: Result<Listing, Diagnostic>)
    ensures
        match r {
            Ok(l) => is_listing(l@),
            Err(d) => d@ is NotARepository || d@ is ReadFailure,
        },
{
    match open_repository(path) {
        Ok(repo) => match list_stack(&repo) {
            Ok(listing) => Ok(listing),
            Err(e) => Err(e.diagnostic()),
        },
        Err(e) => Err(open_failure(is_not_found(&e), error_text(&e))),
    }
}

/// The lines to show for the place `path`, without styling: those of the
/// listing of the repository there, or the one line that says why there is
/// none.
pub fn list_at(path: &str) -> (lines: Vec<String>)
    ensures
        is_report(texts(lines@)),
{
    match listing_at(path) {
        Ok(listing) => listing.lines(),
        Err(note) => {
            let mut lines: Vec<String> = Vec::new();
            lines.push(note.message());
            assert(texts(lines@) =~= seq![message_text(note@)]);
            lines
        },
    }
}

/// Where no repository is found at a place, the report is one line, which
/// says that the place is no repository, whatever the text of the failure.
pub proof fn lemma_missing_repository_is_one_line(text: Seq<char>)
    ensures
        open_failure_of(true, text) == DiagnosticView::NotARepository,
        message_text(open_failure_of(true, text)) == "Error: Not a git repository."@,
        is_report(seq![message_text(open_failure_of(true, text))]),
{
}

} // verus!
