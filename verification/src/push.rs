//! The range of a run that a push triggered.
//!
//! A push is always compared with two dots: the tree of the previous commit
//! against the tree of the current one.

use crate::change::{DiffOperator, RangeContext, RangeView};
use crate::protocol::{
    Failure, FetchView, Query, QueryView, Refspec, RefspecView, Reply, Resolution, ResolutionView,
    spec_exit_code,
};
use crate::resolve::{
    Step, StepView, branch_fetch, current_commit, is_zero_sha, spec_branch_fetch,
    spec_current_commit, spec_is_zero_sha, spec_submodule_fetch, submodule_fetch,
};
use vstd::prelude::*;

verus! {

/// What a push-triggered run is given.
#[derive(Clone, Debug, PartialEq, Eq)]
pub struct PushInputs {
    /// Further arguments for every fetch.
    pub extra_args: String,
    /// The push created a tag.
    pub is_tag: bool,
    /// The local history is cut off at some depth.
    pub is_shallow_clone: bool,
    /// The name of the branch or tag that was pushed.
    pub github_refname: String,
    /// The push was forced.
    pub github_event_forced: bool,
    /// The commit that the branch pointed to before the push, as the event
    /// gives it; empty or forty zeros where there was none.
    pub github_event_before: String,
    /// For a tag, the branch it was made from; may be empty.
    pub source_branch: String,
    /// The paths of the submodules of the repository.
    pub submodules: Vec<String>,
    /// By how many commits a fetch deepens the history.
    pub fetch_depth: u32,
    /// Compare the state at this time with what came before; may be empty.
    pub until: String,
    /// Compare with the state before the commits made since this time; may be
    /// empty.
    pub since: String,
    /// The current commit, where the caller names it; may be empty.
    pub sha: String,
    /// The previous commit, where the caller names it; may be empty.
    pub base_sha: String,
    /// Compare with the last commit that the remote had, where it is known.
    pub since_last_remote_commit: bool,
}

/// What the first fetch of a push asks for: the pushed branch, or for a tag
/// the branch it was made from, if that is known.
pub open spec fn push_refspec(inputs: PushInputs) -> RefspecView {
    if !inputs.is_tag {
        RefspecView::Branch(inputs.github_refname@)
    } else if inputs.source_branch@.len() > 0 {
        RefspecView::Branch(inputs.source_branch@)
    } else {
        RefspecView::Default
    }
}

/// The fetches that come before anything else: none for a full clone; for a
/// shallow one, the branch and then every submodule, each deepened by the
/// fetch depth. Whether they succeed is not looked at.
pub open spec fn push_fetches(inputs: PushInputs) -> Seq<FetchView> {
    if !inputs.is_shallow_clone {
        Seq::empty()
    } else {
        seq![spec_branch_fetch(push_refspec(inputs), inputs.extra_args@, inputs.fetch_depth)]
            + Seq::new(
            inputs.submodules@.len(),
            |i: int|
                spec_submodule_fetch(inputs.submodules@[i]@, inputs.extra_args@, inputs.fetch_depth),
        )
    }
}

/// The previous commit of an ordinary push, whose current commit has the first
/// parent `parent`: the commit the event names as the one before, where that
/// is asked for, the push was not forced and the event names one; else the
/// parent. A candidate that is the current commit itself gives way to the
/// parent.
pub open spec fn ordinary_previous(inputs: PushInputs, current: Seq<char>, parent: Seq<char>) -> Seq<
    char,
> {
    let before = inputs.github_event_before@;
    let candidate = if inputs.since_last_remote_commit && !inputs.github_event_forced
        && before.len() > 0 && !spec_is_zero_sha(before) {
        before
    } else {
        parent
    };
    if candidate == current {
        parent
    } else {
        candidate
    }
}

/// The last step: the previous commit has to be named, to exist, and to
/// differ from the current one.
pub open spec fn push_check_previous(
    previous: Seq<char>,
    current: Seq<char>,
    replies: Seq<Reply>,
    at: int,
) -> ResolutionView {
    if previous.len() == 0 {
        ResolutionView::Fatal { failure: Failure::NoPreviousCommit, previous, current }
    } else if replies.len() <= at {
        ResolutionView::Need(QueryView::FindCommit(previous))
    } else if !replies[at].succeeded() {
        ResolutionView::Fatal { failure: Failure::PreviousCommitNotFound, previous, current }
    } else if previous == current {
        ResolutionView::Fatal { failure: Failure::SimilarCommits, previous, current }
    } else {
        ResolutionView::Resolved(RangeView { previous, current, operator: DiffOperator::TwoDot })
    }
}

/// The previous commit, by the first of these that applies: the base commit
/// the caller names; the oldest of the commits made since the given time; for
/// a tag, the commit of the tag with the second highest version; else the
/// previous commit of an ordinary push. A current commit without a parent is
/// an initial commit.
pub open spec fn push_previous(
    inputs: PushInputs,
    current: Seq<char>,
    replies: Seq<Reply>,
    at: int,
) -> ResolutionView {
    if inputs.base_sha@.len() > 0 {
        push_check_previous(inputs.base_sha@, current, replies, at)
    } else if inputs.since@.len() > 0 {
        if replies.len() <= at {
            ResolutionView::Need(QueryView::CommitsSince(inputs.since@))
        } else {
            let commits = replies[at].names();
            let oldest = if commits.len() > 0 {
                commits.last()
            } else {
                Seq::empty()
            };
            push_check_previous(oldest, current, replies, at + 1)
        }
    } else if inputs.is_tag {
        if replies.len() <= at {
            ResolutionView::Need(QueryView::TagsByVersion)
        } else {
            let tags = replies[at].names();
            if tags.len() < 2 {
                ResolutionView::Fatal {
                    failure: Failure::NoPreviousCommit,
                    previous: Seq::empty(),
                    current,
                }
            } else if replies.len() <= at + 1 {
                ResolutionView::Need(QueryView::ResolveRef(tags[1]))
            } else {
                push_check_previous(replies[at + 1].commit_or_empty(), current, replies, at + 2)
            }
        }
    } else {
        if replies.len() <= at {
            ResolutionView::Need(QueryView::FirstParent(current))
        } else {
            match replies[at].commit() {
                None => ResolutionView::InitialCommit,
                Some(parent) => push_check_previous(
                    ordinary_previous(inputs, current, parent),
                    current,
                    replies,
                    at + 1,
                ),
            }
        }
    }
}

/// The current commit has to be in the local graph.
pub open spec fn push_check_current(
    inputs: PushInputs,
    current: Seq<char>,
    replies: Seq<Reply>,
    at: int,
) -> ResolutionView {
    if replies.len() <= at {
        ResolutionView::Need(QueryView::FindCommit(current))
    } else if !replies[at].succeeded() {
        ResolutionView::Fatal {
            failure: Failure::CurrentCommitNotFound,
            previous: Seq::empty(),
            current,
        }
    } else {
        push_previous(inputs, current, replies, at + 1)
    }
}

/// Where the resolution of a push stands after `replies`: first the fetches,
/// then the current commit, then the previous one.
pub open spec fn push_resolution(inputs: PushInputs, replies: Seq<Reply>) -> ResolutionView {
    let fetches = push_fetches(inputs);
    if replies.len() < fetches.len() {
        ResolutionView::Need(QueryView::Fetch(fetches[replies.len() as int]))
    } else {
        match spec_current_commit(inputs.until@, inputs.sha@, replies, fetches.len() as int) {
            StepView::Ask(query) => ResolutionView::Need(query),
            StepView::Got(current, next) => push_check_current(inputs, current, replies, next),
        }
    }
}

fn fatal(failure: Failure, previous: &String, current: &String) -> (resolution: Resolution)
    ensures
        resolution@ == (ResolutionView::Fatal { failure, previous: previous@, current: current@ }),
{
    Resolution::Fatal { failure, previous: previous.clone(), current: current.clone() }
}

fn check_previous(previous: &String, current: &String, replies: &Vec<Reply>, at: usize) -> (resolution:
    Resolution)
    requires
        at <= replies.len(),
    ensures
        resolution@ == push_check_previous(previous@, current@, replies@, at as int),
{
    if previous.as_str().is_empty() {
        fatal(Failure::NoPreviousCommit, previous, current)
    } else if replies.len() <= at {
        Resolution::Need(Query::FindCommit(previous.clone()))
    } else if !replies[at].is_success() {
        fatal(Failure::PreviousCommitNotFound, previous, current)
    } else if *previous == *current {
        fatal(Failure::SimilarCommits, previous, current)
    } else {
        Resolution::Resolved(
            RangeContext {
                previous: previous.clone(),
                current: current.clone(),
                operator: DiffOperator::TwoDot,
            },
        )
    }
}

/// The previous commit of an ordinary push.
pub fn choose_ordinary_previous(inputs: &PushInputs, current: &String, parent: &String) -> (previous:
    String)
    ensures
        previous@ == ordinary_previous(*inputs, current@, parent@),
{
    let before = &inputs.github_event_before;
    let candidate = if inputs.since_last_remote_commit && !inputs.github_event_forced
        && !before.as_str().is_empty() && !is_zero_sha(before.as_str()) {
        before
    } else {
        parent
    };
    if *candidate == *current {
        parent.clone()
    } else {
        candidate.clone()
    }
}

fn previous_commit(inputs: &PushInputs, current: &String, replies: &Vec<Reply>, at: usize) -> (resolution:
    Resolution)
    requires
        at <= replies.len(),
    ensures
        resolution@ == push_previous(*inputs, current@, replies@, at as int),
{
    if !inputs.base_sha.as_str().is_empty() {
        check_previous(&inputs.base_sha, current, replies, at)
    } else if !inputs.since.as_str().is_empty() {
        if replies.len() <= at {
            Resolution::Need(Query::CommitsSince(inputs.since.clone()))
        } else {
            let commits = replies[at].get_names();
            let oldest = if commits.len() > 0 {
                commits[commits.len() - 1].clone()
            } else {
                String::new()
            };
            check_previous(&oldest, current, replies, at + 1)
        }
    } else if inputs.is_tag {
        if replies.len() <= at {
            Resolution::Need(Query::TagsByVersion)
        } else {
            let tags = replies[at].get_names();
            if tags.len() < 2 {
                let none = String::new();
                fatal(Failure::NoPreviousCommit, &none, current)
            } else if replies.len() <= at + 1 {
                Resolution::Need(Query::ResolveRef(tags[1].clone()))
            } else {
                let previous = replies[at + 1].get_commit_or_empty();
                check_previous(&previous, current, replies, at + 2)
            }
        }
    } else {
        if replies.len() <= at {
            Resolution::Need(Query::FirstParent(current.clone()))
        } else {
            match replies[at].get_commit() {
                None => Resolution::InitialCommit,
                Some(parent) => {
                    let previous = choose_ordinary_previous(inputs, current, &parent);
                    check_previous(&previous, current, replies, at + 1)
                },
            }
        }
    }
}

fn check_current(inputs: &PushInputs, current: &String, replies: &Vec<Reply>, at: usize) -> (resolution:
    Resolution)
    requires
        at <= replies.len(),
    ensures
        resolution@ == push_check_current(*inputs, current@, replies@, at as int),
{
    if replies.len() <= at {
        Resolution::Need(Query::FindCommit(current.clone()))
    } else if !replies[at].is_success() {
        let none = String::new();
        fatal(Failure::CurrentCommitNotFound, &none, current)
    } else {
        previous_commit(inputs, current, replies, at + 1)
    }
}

/// The `k`-th of the fetches that open the resolution of a push.
pub fn push_fetch(inputs: &PushInputs, k: usize) -> (request: crate::protocol::FetchRequest)
    requires
        k < push_fetches(*inputs).len(),
    ensures
        request@ == push_fetches(*inputs)[k as int],
{
    if k == 0 {
        let refspec = if !inputs.is_tag {
            Refspec::Branch(inputs.github_refname.clone())
        } else if !inputs.source_branch.as_str().is_empty() {
            Refspec::Branch(inputs.source_branch.clone())
        } else {
            Refspec::Default
        };
        branch_fetch(refspec, &inputs.extra_args, inputs.fetch_depth)
    } else {
        submodule_fetch(&inputs.submodules[k - 1], &inputs.extra_args, inputs.fetch_depth)
    }
}

/// Resolves the previous and the current commit of a push.
///
/// `replies` holds the answers to the queries that earlier calls asked for, in
/// the order in which they were asked. The result is the next query, or the
/// outcome: the range, always with two dots; an initial commit; or a failure.
pub fn get_previous_and_current_sha_for_push_event(inputs: &PushInputs, replies: &Vec<Reply>) -> (resolution:
    Resolution)
    ensures
        resolution@ == push_resolution(*inputs, replies@),
{
    let mut first: usize = 0;
    if inputs.is_shallow_clone {
        if replies.len() <= inputs.submodules.len() {
            return Resolution::Need(Query::Fetch(push_fetch(inputs, replies.len())));
        }
        first = inputs.submodules.len() + 1;
    }
    match current_commit(&inputs.until, &inputs.sha, replies, first) {
        Step::Ask(query) => Resolution::Need(query),
        Step::Got(current, next) => check_current(inputs, &current, replies, next),
    }
}

/// A push never resolves to a range of one commit, and never to three dots.
pub proof fn lemma_push_range(inputs: PushInputs, replies: Seq<Reply>)
    ensures
        push_resolution(inputs, replies) matches ResolutionView::Resolved(range) ==> {
            &&& range.operator == DiffOperator::TwoDot
            &&& range.previous != range.current
            &&& range.previous.len() > 0
        },
{
}

/// Where the previous commit comes out equal to the current one, the run
/// stops with a failure and a status that is not zero: no range is produced.
pub proof fn lemma_push_similar_commits(previous: Seq<char>, current: Seq<char>, replies: Seq<Reply>, at: int)
    requires
        previous == current,
    ensures
        !(push_check_previous(previous, current, replies, at) is Resolved),
        !(push_check_previous(previous, current, replies, at) is InitialCommit),
        replies.len() > at ==> push_check_previous(previous, current, replies, at) is Fatal
            && spec_exit_code(push_check_previous(previous, current, replies, at)) != 0,
        replies.len() > at && previous.len() > 0 && replies[at].succeeded() ==> push_check_previous(
            previous,
            current,
            replies,
            at,
        ) == (ResolutionView::Fatal { failure: Failure::SimilarCommits, previous, current }),
{
}

/// The inputs of an ordinary push: no base commit named, no time given to
/// count from, and no tag.
pub open spec fn is_ordinary(inputs: PushInputs) -> bool {
    inputs.base_sha@.len() == 0 && inputs.since@.len() == 0 && !inputs.is_tag
}

/// An ordinary push whose current commit has no parent is an initial commit:
/// the run ends there, with status zero, and asks for nothing more.
pub proof fn lemma_push_initial_commit(inputs: PushInputs, current: Seq<char>, replies: Seq<Reply>, at: int)
    requires
        is_ordinary(inputs),
        0 <= at < replies.len(),
        replies[at].succeeded(),
        at + 1 < replies.len(),
        replies[at + 1].commit() is None,
    ensures
        push_check_current(inputs, current, replies, at) == ResolutionView::InitialCommit,
        spec_exit_code(push_check_current(inputs, current, replies, at)) == 0,
{
}

/// An ordinary push that was not forced, with the last remote commit asked
/// for and named by the event, resolves to that commit as the previous one,
/// with two dots, if it is in the local graph and is not the current commit.
pub proof fn lemma_push_since_last_remote_commit(
    inputs: PushInputs,
    current: Seq<char>,
    replies: Seq<Reply>,
    at: int,
)
    requires
        is_ordinary(inputs),
        inputs.since_last_remote_commit,
        !inputs.github_event_forced,
        inputs.github_event_before@.len() > 0,
        !spec_is_zero_sha(inputs.github_event_before@),
        inputs.github_event_before@ != current,
        0 <= at && at + 2 < replies.len(),
        replies[at].succeeded(),
        replies[at + 1].commit() is Some,
        replies[at + 2].succeeded(),
    ensures
        push_check_current(inputs, current, replies, at) == ResolutionView::Resolved(
            RangeView {
                previous: inputs.github_event_before@,
                current,
                operator: DiffOperator::TwoDot,
            },
        ),
{
}

/// The number of replies after which a push is resolved whatever they say:
/// one for each fetch, and at most five more.
pub open spec fn push_reply_bound(inputs: PushInputs) -> nat {
    push_fetches(inputs).len() + 5
}

/// The resolution of a push ends: with as many replies as the bound says, no
/// further query is asked.
pub proof fn lemma_push_terminates(inputs: PushInputs, replies: Seq<Reply>)
    requires
        replies.len() >= push_reply_bound(inputs),
    ensures
        !(push_resolution(inputs, replies) is Need),
{
}

/// The `i`-th of `replies` is what `answer` gave to the query that the
/// resolution asked for after the replies before it.
pub open spec fn push_answered<F: Fn(&Query) -> Reply>(
    inputs: PushInputs,
    answer: F,
    replies: Seq<Reply>,
    i: int,
) -> bool {
    exists|query: Query|
        push_resolution(inputs, replies.take(i)) == ResolutionView::Need(query@) && call_ensures(
            answer,
            (&query,),
            replies[i],
        )
}

/// Resolves a push to its outcome, asking `answer` for the reply to each query
/// in turn. The run ends within the bound on the replies; its outcome is the
/// resolution after the replies that `answer` gave, which are returned with
/// it.
pub fn resolve_push<F: Fn(&Query) -> Reply>(inputs: &PushInputs, answer: F) -> (found: (
    Resolution,
    Vec<Reply>,
))
    requires
        forall|query: &Query| call_requires(answer, (query,)),
    ensures
        !(found.0 is Need),
        found.0@ == push_resolution(*inputs, found.1@),
        found.1@.len() <= push_reply_bound(*inputs),
        forall|i: int|
            0 <= i < found.1@.len() ==> #[trigger] push_answered(*inputs, answer, found.1@, i),
{
    let mut replies: Vec<Reply> = Vec::new();
    loop
        invariant
            forall|query: &Query| call_requires(answer, (query,)),
            replies@.len() <= push_reply_bound(*inputs),
            forall|i: int|
                0 <= i < replies@.len() ==> #[trigger] push_answered(*inputs, answer, replies@, i),
        decreases push_reply_bound(*inputs) - replies@.len(),
    {
        proof {
            if replies@.len() >= push_reply_bound(*inputs) {
                lemma_push_terminates(*inputs, replies@);
            }
        }
        match get_previous_and_current_sha_for_push_event(inputs, &replies) {
            Resolution::Need(query) => {
                let reply = answer(&query);
                let ghost before = replies@;
                replies.push(reply);
                proof {
                    assert forall|i: int| 0 <= i < replies@.len() implies #[trigger] push_answered(
                        *inputs,
                        answer,
                        replies@,
                        i,
                    ) by {
                        if i < before.len() {
                            assert(push_answered(*inputs, answer, before, i));
                            assert(replies@.take(i) =~= before.take(i));
                        } else {
                            assert(replies@.take(i) =~= before);
                        }
                    }
                }
            },
            outcome => {
                return (outcome, replies);
            },
        }
    }
}

} // verus!
