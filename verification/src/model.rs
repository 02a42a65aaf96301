//! The data of a stack listing: commit identities, commit descriptors and
//! branch references, each with the mathematical value that contracts speak of.

use vstd::prelude::*;

verus! {

/// Number of bytes in a commit identity.
pub const ID_BYTES: usize = 20;

/// Summary shown for a commit whose message has no readable first line.
pub open spec fn no_summary_text() -> Seq<char> {
    "<no summary>"@
}

/// Author shown for a commit whose author name is not readable.
pub open spec fn unknown_author_text() -> Seq<char> {
    "Unknown"@
}

/// The content-addressed identity of a commit: a fixed-width binary hash.
#[derive(Clone, Copy, Debug, PartialEq, Eq, Hash)]
pub struct CommitId {
    pub bytes: [u8; 20],
}

impl View for CommitId {
    type V = Seq<u8>;

    open spec fn view(&self) -> Seq<u8> {
        self.bytes@
    }
}

impl CommitId {
    /// Whether two identities are byte for byte the same.
    pub fn same_as(&self, other: &CommitId) -> (r: bool)
        ensures
            r == (self@ == other@),
    {
        let mut i: usize = 0;
        while i < ID_BYTES
            invariant
                i <= ID_BYTES,
                forall|k: int| 0 <= k < i ==> self.bytes@[k] == other.bytes@[k],
            decreases ID_BYTES - i,
        {
            if self.bytes[i] != other.bytes[i] {
                return false;
            }
            i = i + 1;
        }
        assert(self@ =~= other@);
        true
    }

    /// The identity that holds the bytes of `raw`, which has the width of
    /// an identity.
    pub(crate) fn from_exact(raw: &[u8]) -> (id: CommitId)
        requires
            raw@.len() == ID_BYTES,
        ensures
            id@ == raw@,
    {
        let mut bytes: [u8; 20] = [0u8; 20];
        let mut i: usize = 0;
        while i < ID_BYTES
            invariant
                i <= ID_BYTES,
                raw@.len() == ID_BYTES,
                forall|k: int| 0 <= k < i ==> bytes@[k] == raw@[k],
            decreases ID_BYTES - i,
        {
            bytes[i] = raw[i];
            i = i + 1;
        }
        assert(bytes@ =~= raw@);
        CommitId { bytes }
    }

    /// The identity that `raw` holds. There is one exactly where `raw` has
    /// the width of an identity, and it holds the bytes of `raw` in their
    /// order.
    pub fn from_bytes(raw: &[u8]) -> (r: Option<CommitId>)
        ensures
            match r {
                Some(id) => raw@.len() == ID_BYTES && id@ == raw@,
                None => raw@.len() != ID_BYTES,
            },
    {
        if raw.len() == ID_BYTES {
            Some(CommitId::from_exact(raw))
        } else {
            None
        }
    }
}

/// What a commit is, as a value.
pub struct CommitView {
    pub id: Seq<u8>,
    pub summary: Seq<char>,
    pub author: Seq<char>,
    pub time: int,
    pub parents: Seq<Seq<u8>>,
}

/// One commit as the stack walker sees it. `parents` has no entry for a root
/// commit, one for an ordinary commit and several for a merge.
#[derive(Debug)]
pub struct CommitDescriptor {
    pub id: CommitId,
    pub summary: String,
    pub author: String,
    pub time: i64,
    pub parents: Vec<CommitId>,
}

/// The identities in `ids`, each as its bytes.
pub open spec fn id_views(ids: Seq<CommitId>) -> Seq<Seq<u8>> {
    ids.map_values(|id: CommitId| id@)
}

impl View for CommitDescriptor {
    type V = CommitView;

    open spec fn view(&self) -> CommitView {
        CommitView {
            id: self.id@,
            summary: self.summary@,
            author: self.author@,
            time: self.time as int,
            parents: id_views(self.parents@),
        }
    }
}

/// The commits in `commits`, each as its value.
pub open spec fn commit_views(commits: Seq<CommitDescriptor>) -> Seq<CommitView> {
    commits.map_values(|c: CommitDescriptor| c@)
}

impl CommitDescriptor {
    /// Describes a commit from what was read of it. A missing summary or
    /// author name is replaced by its placeholder.
    pub fn new(
        id: CommitId,
        summary: Option<String>,
        author: Option<String>,
        time: i64,
        parents: Vec<CommitId>,
    ) -> (r: CommitDescriptor)
        ensures
            r@.id == id@,
            r@.summary == (match summary {
                Some(s) => s@,
                None => no_summary_text(),
            }),
            r@.author == (match author {
                Some(a) => a@,
                None => unknown_author_text(),
            }),
            r@.time == time,
            r@.parents == id_views(parents@),
    {
        let summary = match summary {
            Some(s) => s,
            None => String::from_str("<no summary>"),
        };
        let author = match author {
            Some(a) => a,
            None => String::from_str("Unknown"),
        };
        CommitDescriptor { id, summary, author, time, parents }
    }

    /// How many parents the commit has.
    pub fn parent_count(&self) -> (n: usize)
        ensures
            n == self@.parents.len(),
    {
        self.parents.len()
    }

    /// A copy of the descriptor.
    pub fn duplicate(&self) -> (r: CommitDescriptor)
        ensures
            r@ == self@,
    {
        let mut parents: Vec<CommitId> = Vec::new();
        let mut i: usize = 0;
        while i < self.parents.len()
            invariant
                i <= self.parents.len(),
                parents@ == self.parents@.take(i as int),
            decreases self.parents.len() - i,
        {
            parents.push(self.parents[i]);
            assert(self.parents@.take(i + 1) == self.parents@.take(i as int).push(
                self.parents@[i as int],
            ));
            i = i + 1;
        }
        assert(self.parents@.take(i as int) == self.parents@);
        CommitDescriptor {
            id: self.id,
            summary: self.summary.clone(),
            author: self.author.clone(),
            time: self.time,
            parents,
        }
    }
}

/// The outcome of reading a branch's own name, as a value.
pub enum NameView {
    Named(Seq<char>),
    Unnamed,
    Failed(Seq<char>),
}

/// The outcome of reading a branch's own name: a name, no name, or a read
/// error with its text.
#[derive(Debug)]
pub enum NameLookup {
    Named(String),
    Unnamed,
    Failed(String),
}

impl View for NameLookup {
    type V = NameView;

    open spec fn view(&self) -> NameView {
        match self {
            NameLookup::Named(s) => NameView::Named(s@),
            NameLookup::Unnamed => NameView::Unnamed,
            NameLookup::Failed(e) => NameView::Failed(e@),
        }
    }
}

/// The outcome of resolving a branch's upstream, as a value.
pub enum UpstreamView {
    Tracking(Seq<char>),
    Unnamed,
    NotConfigured,
    Failed(Seq<char>),
}

/// The outcome of resolving a branch's upstream: an upstream with its
/// name, an upstream whose name cannot be resolved, no upstream
/// configured, or a read error with its text.
#[derive(Debug)]
pub enum UpstreamLookup {
    Tracking(String),
    Unnamed,
    NotConfigured,
    Failed(String),
}

impl View for UpstreamLookup {
    type V = UpstreamView;

    open spec fn view(&self) -> UpstreamView {
        match self {
            UpstreamLookup::Tracking(s) => UpstreamView::Tracking(s@),
            UpstreamLookup::Unnamed => UpstreamView::Unnamed,
            UpstreamLookup::NotConfigured => UpstreamView::NotConfigured,
            UpstreamLookup::Failed(e) => UpstreamView::Failed(e@),
        }
    }
}

/// What a local branch is, as a value.
pub struct BranchView {
    pub name: NameView,
    pub target: Option<Seq<u8>>,
    pub upstream: UpstreamView,
}

impl BranchView {
    /// The branch's name, where one was read.
    pub open spec fn display_name(self) -> Option<Seq<char>> {
        match self.name {
            NameView::Named(s) => Some(s),
            _ => None,
        }
    }
}

/// A local branch as enumerated: its name, the commit it points at, and its
/// upstream, each of which may be missing.
#[derive(Debug)]
pub struct BranchRef {
    pub name: NameLookup,
    pub target: Option<CommitId>,
    pub upstream: UpstreamLookup,
}

impl View for BranchRef {
    type V = BranchView;

    open spec fn view(&self) -> BranchView {
        BranchView {
            name: self.name@,
            target: match self.target {
                Some(id) => Some(id@),
                None => None,
            },
            upstream: self.upstream@,
        }
    }
}

/// The branches in `branches`, each as its value.
pub open spec fn branch_views(branches: Seq<BranchRef>) -> Seq<BranchView> {
    branches.map_values(|b: BranchRef| b@)
}

/// The outcome that a read of a branch's own name stands for: the name
/// that was read, no name where none was read, or the failure with its
/// text.
pub open spec fn name_of_read(read: Result<Option<Seq<char>>, Seq<char>>) -> NameView {
    match read {
        Ok(Some(n)) => NameView::Named(n),
        Ok(None) => NameView::Unnamed,
        Err(text) => NameView::Failed(text),
    }
}

/// The outcome that a read of the name of an upstream stands for, once the
/// upstream itself was found: the name that was read, an upstream without
/// a name where none was read, or the failure with its text.
pub open spec fn upstream_of_read(read: Result<Option<Seq<char>>, Seq<char>>) -> UpstreamView {
    match read {
        Ok(Some(n)) => UpstreamView::Tracking(n),
        Ok(None) => UpstreamView::Unnamed,
        Err(text) => UpstreamView::Failed(text),
    }
}

/// What was read of a name, as a value.
pub open spec fn read_view(read: Result<Option<&str>, String>) -> Result<
    Option<Seq<char>>,
    Seq<char>,
> {
    match read {
        Ok(Some(n)) => Ok(Some(n@)),
        Ok(None) => Ok(None),
        Err(text) => Err(text@),
    }
}

impl NameLookup {
    /// The outcome of reading a branch's own name, from what the read gave.
    pub fn from_read(read: Result<Option<&str>, String>) -> (r: NameLookup)
        ensures
            r@ == name_of_read(read_view(read)),
    {
        match read {
            Ok(Some(n)) => NameLookup::Named(String::from_str(n)),
            Ok(None) => NameLookup::Unnamed,
            Err(text) => NameLookup::Failed(text),
        }
    }

    /// A copy of the lookup.
    pub fn duplicate(&self) -> (r: NameLookup)
        ensures
            r@ == self@,
    {
        match self {
            NameLookup::Named(s) => NameLookup::Named(s.clone()),
            NameLookup::Unnamed => NameLookup::Unnamed,
            NameLookup::Failed(e) => NameLookup::Failed(e.clone()),
        }
    }
}

impl UpstreamLookup {
    /// The outcome of resolving an upstream that was found, from what the
    /// read of its name gave.
    pub fn from_read(read: Result<Option<&str>, String>) -> (r: UpstreamLookup)
        ensures
            r@ == upstream_of_read(read_view(read)),
    {
        match read {
            Ok(Some(n)) => UpstreamLookup::Tracking(String::from_str(n)),
            Ok(None) => UpstreamLookup::Unnamed,
            Err(text) => UpstreamLookup::Failed(text),
        }
    }

    /// A copy of the lookup.
    pub fn duplicate(&self) -> (r: UpstreamLookup)
        ensures
            r@ == self@,
    {
        match self {
            UpstreamLookup::Tracking(s) => UpstreamLookup::Tracking(s.clone()),
            UpstreamLookup::Unnamed => UpstreamLookup::Unnamed,
            UpstreamLookup::NotConfigured => UpstreamLookup::NotConfigured,
            UpstreamLookup::Failed(e) => UpstreamLookup::Failed(e.clone()),
        }
    }
}

impl BranchRef {
    /// The branch's name, where one was read.
    pub fn display_name(&self) -> (r: Option<String>)
        ensures
            (match r {
                Some(s) => Some(s@),
                None => None,
            }) == self@.display_name(),
    {
        match &self.name {
            NameLookup::Named(s) => Some(s.clone()),
            _ => None,
        }
    }

    /// A copy of the branch reference.
    pub fn duplicate(&self) -> (r: BranchRef)
        ensures
            r@ == self@,
    {
        BranchRef {
            name: self.name.duplicate(),
            target: self.target,
            upstream: self.upstream.duplicate(),
        }
    }
}

} // verus!
