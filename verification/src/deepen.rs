//! Remedying a shallow history: fetching more of a branch until the merge base
//! of two commits can be found, a bounded number of times.

use crate::protocol::{FetchView, Query, QueryView, Refspec, RefspecView, Reply};
use crate::resolve::{branch_fetch, spec_branch_fetch};
use vstd::prelude::*;

verus! {

/// How often the history is deepened for a merge base before giving up.
pub const MERGE_BASE_ATTEMPTS: u32 = 10;

/// Where the search for a merge base stands: a question, or the index of the
/// first reply that the search has not used.
#[derive(Clone, Debug, PartialEq, Eq)]
pub enum Deepened {
    Ask(Query),
    Done(usize),
}

/// What a [`Deepened`] holds, as values.
pub enum DeepenedView {
    Ask(QueryView),
    Done(int),
}

impl View for Deepened {
    type V = DeepenedView;

    open spec fn view(&self) -> DeepenedView {
        match self {
            Deepened::Ask(query) => DeepenedView::Ask(query@),
            Deepened::Done(next) => DeepenedView::Done(*next as int),
        }
    }
}

/// The fetch that deepens `branch` by `depth` commits.
pub open spec fn spec_deepen_fetch(branch: Seq<char>, depth: u32) -> FetchView {
    spec_branch_fetch(RefspecView::Branch(branch), Seq::empty(), depth)
}

/// The rounds that follow a merge base that was not found: each round fetches
/// more of `branch` and asks for the merge base of `a` and `b` again. The
/// search is over when a round finds it, or when no attempt is left.
pub open spec fn spec_deepen_rounds(
    branch: Seq<char>,
    depth: u32,
    a: Seq<char>,
    b: Seq<char>,
    replies: Seq<Reply>,
    at: int,
    attempts: nat,
) -> DeepenedView
    decreases attempts,
{
    if attempts == 0 {
        DeepenedView::Done(at)
    } else if replies.len() <= at {
        DeepenedView::Ask(QueryView::Fetch(spec_deepen_fetch(branch, depth)))
    } else if replies.len() <= at + 1 {
        DeepenedView::Ask(QueryView::MergeBase(a, b))
    } else if replies[at + 1].commit() is Some {
        DeepenedView::Done(at + 2)
    } else {
        spec_deepen_rounds(branch, depth, a, b, replies, at + 2, (attempts - 1) as nat)
    }
}

/// Looks for the merge base of `a` and `b`; if it is not in the local
/// history, deepens `branch` until it is, at most `MERGE_BASE_ATTEMPTS` times.
pub open spec fn spec_deepen(
    branch: Seq<char>,
    depth: u32,
    a: Seq<char>,
    b: Seq<char>,
    replies: Seq<Reply>,
    at: int,
) -> DeepenedView {
    if replies.len() <= at {
        DeepenedView::Ask(QueryView::MergeBase(a, b))
    } else if replies[at].commit() is Some {
        DeepenedView::Done(at + 1)
    } else {
        spec_deepen_rounds(branch, depth, a, b, replies, at + 1, MERGE_BASE_ATTEMPTS as nat)
    }
}

fn deepen_rounds(
    branch: &String,
    depth: u32,
    a: &String,
    b: &String,
    replies: &Vec<Reply>,
    at: usize,
    attempts: u32,
) -> (state: Deepened)
    requires
        at <= replies.len(),
    ensures
        state@ == spec_deepen_rounds(branch@, depth, a@, b@, replies@, at as int, attempts as nat),
        state matches Deepened::Done(next) ==> at <= next <= replies.len(),
    decreases attempts,
{
    if attempts == 0 {
        Deepened::Done(at)
    } else if replies.len() <= at {
        let none = String::new();
        Deepened::Ask(Query::Fetch(branch_fetch(Refspec::Branch(branch.clone()), &none, depth)))
    } else if replies.len() - at <= 1 {
        Deepened::Ask(Query::MergeBase(a.clone(), b.clone()))
    } else if replies[at + 1].get_commit().is_some() {
        Deepened::Done(at + 2)
    } else {
        deepen_rounds(branch, depth, a, b, replies, at + 2, attempts - 1)
    }
}

/// Looks for the merge base of `a` and `b`, deepening `branch` as long as it
/// is missing and attempts are left.
pub fn deepen_until_merge_base(
    branch: &String,
    depth: u32,
    a: &String,
    b: &String,
    replies: &Vec<Reply>,
    at: usize,
) -> (state: Deepened)
    ensures
        state@ == spec_deepen(branch@, depth, a@, b@, replies@, at as int),
        state matches Deepened::Done(next) ==> at < next <= replies.len(),
{
    if replies.len() <= at {
        Deepened::Ask(Query::MergeBase(a.clone(), b.clone()))
    } else if replies[at].get_commit().is_some() {
        Deepened::Done(at + 1)
    } else {
        deepen_rounds(branch, depth, a, b, replies, at + 1, MERGE_BASE_ATTEMPTS)
    }
}

/// The rounds use two replies each and never more rounds than attempts: with
/// that many replies at hand they ask for nothing, and they stop within them.
pub proof fn lemma_deepen_rounds_bounded(
    branch: Seq<char>,
    depth: u32,
    a: Seq<char>,
    b: Seq<char>,
    replies: Seq<Reply>,
    at: int,
    attempts: nat,
)
    requires
        0 <= at,
    ensures
        match spec_deepen_rounds(branch, depth, a, b, replies, at, attempts) {
            DeepenedView::Ask(_) => replies.len() < at + 2 * attempts,
            DeepenedView::Done(next) => at <= next <= at + 2 * attempts,
        },
    decreases attempts,
{
    if attempts > 0 && replies.len() > at + 1 && replies[at + 1].commit() is None {
        lemma_deepen_rounds_bounded(branch, depth, a, b, replies, at + 2, (attempts - 1) as nat);
    }
}

/// The whole search uses at most one reply more than its rounds: the history
/// is deepened at most `MERGE_BASE_ATTEMPTS` times.
pub proof fn lemma_deepen_bounded(
    branch: Seq<char>,
    depth: u32,
    a: Seq<char>,
    b: Seq<char>,
    replies: Seq<Reply>,
    at: int,
)
    requires
        0 <= at,
    ensures
        match spec_deepen(branch, depth, a, b, replies, at) {
            DeepenedView::Ask(_) => replies.len() < at + 1 + 2 * MERGE_BASE_ATTEMPTS,
            DeepenedView::Done(next) => at < next <= at + 1 + 2 * MERGE_BASE_ATTEMPTS,
        },
{
    lemma_deepen_rounds_bounded(branch, depth, a, b, replies, at + 1, MERGE_BASE_ATTEMPTS as nat);
}

/// The search only ever asks for a fetch of the branch or for the merge base
/// of the two commits it was given.
pub proof fn lemma_deepen_rounds_queries(
    branch: Seq<char>,
    depth: u32,
    a: Seq<char>,
    b: Seq<char>,
    replies: Seq<Reply>,
    at: int,
    attempts: nat,
)
    ensures
        spec_deepen_rounds(branch, depth, a, b, replies, at, attempts) matches DeepenedView::Ask(
            query,
        ) ==> query == QueryView::Fetch(spec_deepen_fetch(branch, depth)) || query
            == QueryView::MergeBase(a, b),
    decreases attempts,
{
    if attempts > 0 && replies.len() > at + 1 && replies[at + 1].commit() is None {
        lemma_deepen_rounds_queries(branch, depth, a, b, replies, at + 2, (attempts - 1) as nat);
    }
}

} // verus!
