//! The questions the library asks about a repository and the answers it takes.
//!
//! The library never touches a repository or a remote. Where a decision needs
//! a fact, the deciding function returns the [`Query`] that would establish
//! it. Whoever drives the function performs the query, appends the [`Reply`]
//! to the list of replies so far, and calls again.

use crate::change::{DiffFile, DiffFileView, RangeContext, RangeView, RawDelta, file_views};
use crate::text::views;
use vstd::prelude::*;
use vstd::string::*;

verus! {

/// What a fetch asks the remote for.
#[derive(Clone, Debug, PartialEq, Eq)]
pub enum Refspec {
    /// Nothing in particular: what the remote is configured to hand out.
    Default,
    /// One branch, forced into its remote-tracking branch.
    Branch(String),
    /// Every branch whose name starts with the given text, each forced into
    /// the remote-tracking branch of the same name.
    BranchFamily(String),
    /// The head of a pull request, into a local branch.
    PullHead { number: String, branch: String },
}

/// What a [`Refspec`] holds, as values.
pub enum RefspecView {
    Default,
    Branch(Seq<char>),
    BranchFamily(Seq<char>),
    PullHead { number: Seq<char>, branch: Seq<char> },
}

impl View for Refspec {
    type V = RefspecView;

    open spec fn view(&self) -> RefspecView {
        match self {
            Refspec::Default => RefspecView::Default,
            Refspec::Branch(b) => RefspecView::Branch(b@),
            Refspec::BranchFamily(b) => RefspecView::BranchFamily(b@),
            Refspec::PullHead { number, branch } => RefspecView::PullHead {
                number: number@,
                branch: branch@,
            },
        }
    }
}

/// The text of a refspec as git reads it; empty for the default.
pub open spec fn spec_refspec_text(refspec: RefspecView) -> Seq<char> {
    match refspec {
        RefspecView::Default => Seq::empty(),
        RefspecView::Branch(b) => "+refs/heads/"@ + b + ":refs/remotes/origin/"@ + b,
        RefspecView::BranchFamily(b) => "+refs/heads/"@ + b + "*:refs/remotes/origin/"@ + b + "*"@,
        RefspecView::PullHead { number, branch } => "pull/"@ + number + "/head:"@ + branch,
    }
}

impl Refspec {
    /// The refspec as it is written on git's command line.
    pub fn text(&self) -> (out: String)
        ensures
            out@ == spec_refspec_text(self@),
    {
        match self {
            Refspec::Default => String::new(),
            Refspec::Branch(b) => {
                let mut out = String::from_str("+refs/heads/");
                out.append(b.as_str());
                out.append(":refs/remotes/origin/");
                out.append(b.as_str());
                out
            },
            Refspec::BranchFamily(b) => {
                let mut out = String::from_str("+refs/heads/");
                out.append(b.as_str());
                out.append("*:refs/remotes/origin/");
                out.append(b.as_str());
                out.append("*");
                out
            },
            Refspec::PullHead { number, branch } => {
                let mut out = String::from_str("pull/");
                out.append(number.as_str());
                out.append("/head:");
                out.append(branch.as_str());
                out
            },
        }
    }
}

/// One fetch: more history from the remote `origin`.
#[derive(Clone, Debug, PartialEq, Eq)]
pub struct FetchRequest {
    /// The submodule to fetch in, by its path; `None` for the repository.
    pub submodule: Option<String>,
    pub refspec: Refspec,
    /// By how many commits to deepen the history, if at all.
    pub deepen: Option<u32>,
    /// Further arguments for the fetch, as one text; may be empty.
    pub extra_args: String,
}

/// What a [`FetchRequest`] holds, as values.
pub struct FetchView {
    pub submodule: Option<Seq<char>>,
    pub refspec: RefspecView,
    pub deepen: Option<u32>,
    pub extra_args: Seq<char>,
}

impl View for FetchRequest {
    type V = FetchView;

    open spec fn view(&self) -> FetchView {
        FetchView {
            submodule: match self.submodule {
                Some(path) => Some(path@),
                None => None,
            },
            refspec: self.refspec@,
            deepen: self.deepen,
            extra_args: self.extra_args@,
        }
    }
}

/// A fact to establish, or an effect to bring about, before a decision.
#[derive(Clone, Debug, PartialEq, Eq)]
pub enum Query {
    /// Fetch from the remote. Answered by [`Reply::Status`].
    Fetch(FetchRequest),
    /// Create a local branch that tracks the remote branch of the same name.
    /// Answered by [`Reply::Status`].
    TrackBranch(String),
    /// The commit that `HEAD` points to. Answered by [`Reply::Commit`].
    Head,
    /// The most recent commit at or before a time. Answered by [`Reply::Commit`].
    CommitAtOrBefore(String),
    /// The commits made since a time, most recent first. Answered by
    /// [`Reply::Names`].
    CommitsSince(String),
    /// The tags, sorted by version, highest first. Answered by [`Reply::Names`].
    TagsByVersion,
    /// The commit that a name stands for. Answered by [`Reply::Commit`].
    ResolveRef(String),
    /// The tip of the remote-tracking branch of a branch. Answered by
    /// [`Reply::Commit`].
    RemoteBranchTip(String),
    /// Whether a commit is in the local graph. Answered by [`Reply::Status`].
    FindCommit(String),
    /// The first parent of a commit. Answered by [`Reply::Commit`].
    FirstParent(String),
    /// The merge base of two commits. Answered by [`Reply::Commit`].
    MergeBase(String, String),
    /// The deltas between the trees of two commits, changes inside submodules
    /// left out. Answered by [`Reply::Deltas`].
    TreeDiff { ancestor: String, current: String },
    /// The paths of the submodules of the repository. Answered by
    /// [`Reply::Names`].
    Submodules,
    /// The commit that the tree of `commit` records for the submodule at
    /// `path`. Answered by [`Reply::Commit`].
    Gitlink { commit: String, path: String },
    /// The changed files of a submodule for a range of its own, found by the
    /// same procedure in the submodule's repository. Answered by
    /// [`Reply::Files`].
    SubmoduleDiff { path: String, range: RangeContext },
}

/// What a [`Query`] holds, as values.
pub enum QueryView {
    Fetch(FetchView),
    TrackBranch(Seq<char>),
    Head,
    CommitAtOrBefore(Seq<char>),
    CommitsSince(Seq<char>),
    TagsByVersion,
    ResolveRef(Seq<char>),
    RemoteBranchTip(Seq<char>),
    FindCommit(Seq<char>),
    FirstParent(Seq<char>),
    MergeBase(Seq<char>, Seq<char>),
    TreeDiff { ancestor: Seq<char>, current: Seq<char> },
    Submodules,
    Gitlink { commit: Seq<char>, path: Seq<char> },
    SubmoduleDiff { path: Seq<char>, range: RangeView },
}

impl View for Query {
    type V = QueryView;

    open spec fn view(&self) -> QueryView {
        match self {
            Query::Fetch(request) => QueryView::Fetch(request@),
            Query::TrackBranch(branch) => QueryView::TrackBranch(branch@),
            Query::Head => QueryView::Head,
            Query::CommitAtOrBefore(time) => QueryView::CommitAtOrBefore(time@),
            Query::CommitsSince(time) => QueryView::CommitsSince(time@),
            Query::TagsByVersion => QueryView::TagsByVersion,
            Query::ResolveRef(name) => QueryView::ResolveRef(name@),
            Query::RemoteBranchTip(branch) => QueryView::RemoteBranchTip(branch@),
            Query::FindCommit(sha) => QueryView::FindCommit(sha@),
            Query::FirstParent(sha) => QueryView::FirstParent(sha@),
            Query::MergeBase(a, b) => QueryView::MergeBase(a@, b@),
            Query::TreeDiff { ancestor, current } => QueryView::TreeDiff {
                ancestor: ancestor@,
                current: current@,
            },
            Query::Submodules => QueryView::Submodules,
            Query::Gitlink { commit, path } => QueryView::Gitlink { commit: commit@, path: path@ },
            Query::SubmoduleDiff { path, range } => QueryView::SubmoduleDiff {
                path: path@,
                range: range@,
            },
        }
    }
}

/// The answer to a [`Query`]. An answer of another kind than the query asks
/// for counts as a failure to answer.
#[derive(Clone, Debug, PartialEq, Eq)]
pub enum Reply {
    /// Whether the operation succeeded, or the thing looked for exists.
    Status(bool),
    /// A commit id, or `None` where there is no such commit.
    Commit(Option<String>),
    /// A list of names or ids, in the order the provider gives them.
    Names(Vec<String>),
    /// The deltas of a tree diff, or `None` where it could not be computed.
    Deltas(Option<Vec<RawDelta>>),
    /// The changed files of a submodule, or `None` where they could not be found.
    Files(Option<Vec<DiffFile>>),
}

impl Reply {
    /// The reply reports success.
    pub open spec fn succeeded(&self) -> bool {
        *self matches Reply::Status(ok) && ok
    }

    /// The commit that the reply names, if it names one.
    pub open spec fn commit(&self) -> Option<Seq<char>> {
        match self {
            Reply::Commit(Some(sha)) => Some(sha@),
            _ => None,
        }
    }

    /// The commit that the reply names, or the empty text.
    pub open spec fn commit_or_empty(&self) -> Seq<char> {
        match self.commit() {
            Some(sha) => sha,
            None => Seq::empty(),
        }
    }

    /// The names that the reply lists; none where it lists nothing.
    pub open spec fn names(&self) -> Seq<Seq<char>> {
        match self {
            Reply::Names(list) => views(list@),
            _ => Seq::empty(),
        }
    }

    /// The deltas that the reply holds, if it holds any.
    pub open spec fn deltas(&self) -> Option<Seq<RawDelta>> {
        match self {
            Reply::Deltas(Some(list)) => Some(list@),
            _ => None,
        }
    }

    /// The files that the reply holds, if it holds any.
    pub open spec fn files(&self) -> Option<Seq<DiffFileView>> {
        match self {
            Reply::Files(Some(list)) => Some(file_views(list@)),
            _ => None,
        }
    }

    /// Whether the reply reports success.
    pub fn is_success(&self) -> (ok: bool)
        ensures
            ok == self.succeeded(),
    {
        match self {
            Reply::Status(ok) => *ok,
            _ => false,
        }
    }

    /// The commit that the reply names.
    pub fn get_commit(&self) -> (sha: Option<String>)
        ensures
            match sha {
                Some(s) => self.commit() == Some(s@),
                None => self.commit() is None,
            },
    {
        match self {
            Reply::Commit(Some(sha)) => Some(sha.clone()),
            _ => None,
        }
    }

    /// The commit that the reply names, or the empty text.
    pub fn get_commit_or_empty(&self) -> (sha: String)
        ensures
            sha@ == self.commit_or_empty(),
    {
        match self {
            Reply::Commit(Some(sha)) => sha.clone(),
            _ => String::new(),
        }
    }

    /// The names that the reply lists.
    pub fn get_names(&self) -> (list: Vec<String>)
        ensures
            views(list@) == self.names(),
    {
        match self {
            Reply::Names(list) => {
                let copy = list.clone();
                assert(views(copy@) =~= views(list@)) by {
                    assert(copy@.len() == list@.len());
                    assert forall|i: int| 0 <= i < copy@.len() implies copy@[i]@ == list@[i]@ by {
                        assert(cloned::<String>(list@[i], copy@[i]));
                    }
                }
                copy
            },
            _ => {
                let list: Vec<String> = Vec::new();
                assert(views(list@) =~= Seq::<Seq<char>>::empty());
                list
            },
        }
    }
}

/// Why a run cannot go on.
#[derive(Clone, Copy, Debug, PartialEq, Eq, Structural)]
pub enum Failure {
    /// The current commit is not in the local graph.
    CurrentCommitNotFound,
    /// The previous commit is not in the local graph.
    PreviousCommitNotFound,
    /// No previous commit could be determined.
    NoPreviousCommit,
    /// The previous and the current commit are the same.
    SimilarCommits,
    /// The two trees to compare do not differ.
    NoDifference,
    /// The merge base of the two commits is not in the local graph.
    MergeBaseNotFound,
    /// The trees could not be compared.
    DiffUnavailable,
    /// A submodule has no entry in one of the two trees, or its changes
    /// could not be found.
    SubmoduleNotFound,
}

/// Where the resolution of a range stands.
#[derive(Clone, Debug, PartialEq, Eq)]
pub enum Resolution {
    /// A further reply is needed: the one to this query.
    Need(Query),
    /// The range is determined.
    Resolved(RangeContext),
    /// The current commit has no predecessor: there is nothing to compare.
    InitialCommit,
    /// The run has to stop. The commits are given as far as they were known.
    Fatal { failure: Failure, previous: String, current: String },
}

/// What a [`Resolution`] holds, as values.
pub enum ResolutionView {
    Need(QueryView),
    Resolved(RangeView),
    InitialCommit,
    Fatal { failure: Failure, previous: Seq<char>, current: Seq<char> },
}

impl View for Resolution {
    type V = ResolutionView;

    open spec fn view(&self) -> ResolutionView {
        match self {
            Resolution::Need(query) => ResolutionView::Need(query@),
            Resolution::Resolved(range) => ResolutionView::Resolved(range@),
            Resolution::InitialCommit => ResolutionView::InitialCommit,
            Resolution::Fatal { failure, previous, current } => ResolutionView::Fatal {
                failure: *failure,
                previous: previous@,
                current: current@,
            },
        }
    }
}

/// The status a process ends with after this resolution: zero unless the run
/// has to stop for a failure.
pub open spec fn spec_exit_code(resolution: ResolutionView) -> u8 {
    match resolution {
        ResolutionView::Fatal { .. } => 1,
        _ => 0,
    }
}

impl Resolution {
    /// The status to end the process with.
    pub fn exit_code(&self) -> (code: u8)
        ensures
            code == spec_exit_code(self@),
    {
        match self {
            Resolution::Fatal { .. } => 1,
            _ => 0,
        }
    }
}

} // verus!
