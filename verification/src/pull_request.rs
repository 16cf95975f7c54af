//! The range of a run that a pull request triggered.
//!
//! A pull request is compared with three dots, from the merge base of its two
//! ends, unless it has no base branch, comes from a fork, or the local
//! history is too shallow to hold the merge base: then with two dots.

use crate::change::{DiffOperator, RangeContext, RangeView};
use crate::deepen::{Deepened, DeepenedView, deepen_until_merge_base, spec_deepen};
use crate::protocol::{
    Failure, FetchRequest, FetchView, Query, QueryView, Refspec, RefspecView, Reply, Resolution,
    ResolutionView, spec_exit_code,
};
use crate::resolve::{
    Step, StepView, branch_fetch, current_commit, spec_branch_fetch, spec_current_commit,
    spec_submodule_fetch, submodule_fetch,
};
use crate::text::{is_true, spec_is_true};
use vstd::prelude::*;

verus! {

/// What a run triggered by a pull request is given.
#[derive(Clone, Debug, PartialEq, Eq)]
pub struct PullRequestInputs {
    /// Further arguments for the fetches that open the resolution.
    pub extra_args: String,
    /// The head of the pull request before the event, as the event gives it.
    pub github_event_before: String,
    /// The branch the pull request is to be merged into; may be empty.
    pub github_event_pull_request_base_ref: String,
    /// The branch the pull request comes from.
    pub github_event_pull_request_head_ref: String,
    /// The text `true` where the head repository is a fork.
    pub github_event_head_repo_fork: String,
    /// The number of the pull request.
    pub github_event_pull_request_number: String,
    /// The commit of the base branch that the pull request was opened against.
    pub github_event_pull_request_base_sha: String,
    /// The paths of the submodules of the repository.
    pub submodules: Vec<String>,
    /// By how many commits a fetch deepens the history.
    pub fetch_depth: u32,
    /// The local history is cut off at some depth.
    pub is_shallow_clone: bool,
    /// Compare the state at this time with the base; may be empty.
    pub until: String,
    /// The current commit, where the caller names it; may be empty.
    pub sha: String,
    /// The previous commit, where the caller names it; may be empty.
    pub base_sha: String,
    /// Compare with the last commit that the remote had of this pull request.
    pub since_last_remote_commit: bool,
}

/// The operator to start from: three dots, or two where there is no base
/// branch or the head repository is a fork.
pub open spec fn pr_first_operator(inputs: PullRequestInputs) -> DiffOperator {
    if inputs.github_event_pull_request_base_ref@.len() == 0 || spec_is_true(
        inputs.github_event_head_repo_fork@,
    ) {
        DiffOperator::TwoDot
    } else {
        DiffOperator::ThreeDot
    }
}

/// The fetch that opens a shallow resolution: the head of the pull request
/// into the local head branch.
pub open spec fn pr_head_fetch(inputs: PullRequestInputs) -> FetchView {
    FetchView {
        submodule: None,
        refspec: RefspecView::PullHead {
            number: inputs.github_event_pull_request_number@,
            branch: inputs.github_event_pull_request_head_ref@,
        },
        deepen: None,
        extra_args: inputs.extra_args@,
    }
}

/// The second fetch, for when the first failed: the head branch itself.
pub open spec fn pr_fallback_fetch(inputs: PullRequestInputs) -> Seq<QueryView> {
    seq![
        QueryView::Fetch(
            spec_branch_fetch(
                RefspecView::BranchFamily(inputs.github_event_pull_request_head_ref@),
                inputs.extra_args@,
                inputs.fetch_depth,
            ),
        ),
    ]
}

/// Fetching the base branch and making a local branch that tracks it.
pub open spec fn pr_track_base(inputs: PullRequestInputs) -> Seq<QueryView> {
    seq![
        QueryView::Fetch(
            spec_branch_fetch(
                RefspecView::Branch(inputs.github_event_pull_request_base_ref@),
                inputs.extra_args@,
                inputs.fetch_depth,
            ),
        ),
        QueryView::TrackBranch(inputs.github_event_pull_request_base_ref@),
    ]
}

/// What follows the first fetch of a shallow resolution: the fallback fetch if
/// the first failed; the base branch, fetched and tracked, if the last remote
/// commit is asked for; and every submodule, deepened. Whether these succeed
/// is not looked at.
pub open spec fn pr_followup(inputs: PullRequestInputs, head_fetched: bool) -> Seq<QueryView> {
    (if head_fetched {
        Seq::empty()
    } else {
        pr_fallback_fetch(inputs)
    }) + (if inputs.since_last_remote_commit {
        pr_track_base(inputs)
    } else {
        Seq::empty()
    }) + Seq::new(
        inputs.submodules@.len(),
        |i: int|
            QueryView::Fetch(
                spec_submodule_fetch(inputs.submodules@[i]@, inputs.extra_args@, inputs.fetch_depth),
            ),
    )
}

/// The commit to diff from: the merge base under three dots where it is
/// known, else the previous commit.
pub open spec fn pr_ancestor(operator: DiffOperator, previous: Seq<char>, base: Option<Seq<char>>) -> Seq<
    char,
> {
    match (operator, base) {
        (DiffOperator::ThreeDot, Some(b)) => b,
        _ => previous,
    }
}

/// The last step: the previous commit has to exist, the two trees have to
/// differ, and the two commits have to be different ones.
pub open spec fn pr_validate(
    previous: Seq<char>,
    current: Seq<char>,
    operator: DiffOperator,
    base: Option<Seq<char>>,
    replies: Seq<Reply>,
    at: int,
) -> ResolutionView {
    if replies.len() <= at {
        ResolutionView::Need(QueryView::FindCommit(previous))
    } else if !replies[at].succeeded() {
        ResolutionView::Fatal { failure: Failure::PreviousCommitNotFound, previous, current }
    } else if replies.len() <= at + 1 {
        ResolutionView::Need(
            QueryView::TreeDiff { ancestor: pr_ancestor(operator, previous, base), current },
        )
    } else {
        match replies[at + 1].deltas() {
            None => ResolutionView::Fatal { failure: Failure::DiffUnavailable, previous, current },
            Some(deltas) => if deltas.len() == 0 {
                ResolutionView::Fatal { failure: Failure::NoDifference, previous, current }
            } else if previous == current {
                ResolutionView::Fatal { failure: Failure::SimilarCommits, previous, current }
            } else {
                ResolutionView::Resolved(RangeView { previous, current, operator })
            },
        }
    }
}

/// The operator is settled with the final pair of commits: where their merge
/// base is not in the local history, two dots it is.
pub open spec fn pr_settle_operator(
    inputs: PullRequestInputs,
    previous: Seq<char>,
    current: Seq<char>,
    replies: Seq<Reply>,
    at: int,
) -> ResolutionView {
    if replies.len() <= at {
        ResolutionView::Need(QueryView::MergeBase(previous, current))
    } else {
        let base = replies[at].commit();
        let operator = if base is None {
            DiffOperator::TwoDot
        } else {
            pr_first_operator(inputs)
        };
        pr_validate(previous, current, operator, base, replies, at + 1)
    }
}

/// A candidate that is empty or is the current commit gives way to the commit
/// the pull request was opened against.
pub open spec fn pr_fallback(inputs: PullRequestInputs, candidate: Seq<char>, current: Seq<char>) -> Seq<
    char,
> {
    if candidate.len() == 0 || candidate == current {
        inputs.github_event_pull_request_base_sha@
    } else {
        candidate
    }
}

/// The previous commit, by the first of these that applies: the base commit
/// the caller names; where the last remote commit is asked for, the commit
/// the event names as the one before, or the commit the pull request was
/// opened against if that one is not in the local graph; else the tip of the
/// base branch as the remote has it, the history deepened for the merge base
/// where the clone is shallow.
pub open spec fn pr_previous(
    inputs: PullRequestInputs,
    current: Seq<char>,
    replies: Seq<Reply>,
    at: int,
) -> ResolutionView {
    if inputs.base_sha@.len() > 0 {
        pr_settle_operator(inputs, inputs.base_sha@, current, replies, at)
    } else if inputs.since_last_remote_commit {
        if replies.len() <= at {
            ResolutionView::Need(QueryView::FindCommit(inputs.github_event_before@))
        } else {
            let candidate = if replies[at].succeeded() {
                inputs.github_event_before@
            } else {
                inputs.github_event_pull_request_base_sha@
            };
            pr_settle_operator(
                inputs,
                pr_fallback(inputs, candidate, current),
                current,
                replies,
                at + 1,
            )
        }
    } else {
        if replies.len() <= at {
            ResolutionView::Need(
                QueryView::RemoteBranchTip(inputs.github_event_pull_request_base_ref@),
            )
        } else {
            let tip = replies[at].commit_or_empty();
            let previous = pr_fallback(inputs, tip, current);
            if !inputs.is_shallow_clone {
                pr_settle_operator(inputs, previous, current, replies, at + 1)
            } else {
                match spec_deepen(
                    inputs.github_event_pull_request_base_ref@,
                    inputs.fetch_depth,
                    tip,
                    current,
                    replies,
                    at + 1,
                ) {
                    DeepenedView::Ask(query) => ResolutionView::Need(query),
                    DeepenedView::Done(next) => pr_settle_operator(
                        inputs,
                        previous,
                        current,
                        replies,
                        next,
                    ),
                }
            }
        }
    }
}

/// The current commit has to be in the local graph.
pub open spec fn pr_check_current(
    inputs: PullRequestInputs,
    current: Seq<char>,
    replies: Seq<Reply>,
    at: int,
) -> ResolutionView {
    if replies.len() <= at {
        ResolutionView::Need(QueryView::FindCommit(current))
    } else if !replies[at].succeeded() {
        ResolutionView::Fatal {
            failure: Failure::CurrentCommitNotFound,
            previous: Seq::empty(),
            current,
        }
    } else {
        pr_previous(inputs, current, replies, at + 1)
    }
}

/// The resolution from the current commit on.
pub open spec fn pr_after_fetches(inputs: PullRequestInputs, replies: Seq<Reply>, at: int) -> ResolutionView {
    match spec_current_commit(inputs.until@, inputs.sha@, replies, at) {
        StepView::Ask(query) => ResolutionView::Need(query),
        StepView::Got(current, next) => pr_check_current(inputs, current, replies, next),
    }
}

/// Where the resolution of a pull request stands after `replies`: for a
/// shallow clone the fetches first, then the current commit, the previous
/// one, the operator, and the check that there is something to compare.
pub open spec fn pr_resolution(inputs: PullRequestInputs, replies: Seq<Reply>) -> ResolutionView {
    if !inputs.is_shallow_clone {
        pr_after_fetches(inputs, replies, 0)
    } else if replies.len() == 0 {
        ResolutionView::Need(QueryView::Fetch(pr_head_fetch(inputs)))
    } else {
        let rest = pr_followup(inputs, replies[0].succeeded());
        if replies.len() <= rest.len() {
            ResolutionView::Need(rest[replies.len() - 1])
        } else {
            pr_after_fetches(inputs, replies, 1 + rest.len() as int)
        }
    }
}

fn fatal(failure: Failure, previous: &String, current: &String) -> (resolution: Resolution)
    ensures
        resolution@ == (ResolutionView::Fatal { failure, previous: previous@, current: current@ }),
{
    Resolution::Fatal { failure, previous: previous.clone(), current: current.clone() }
}

fn validate(
    previous: &String,
    current: &String,
    operator: DiffOperator,
    base: Option<String>,
    replies: &Vec<Reply>,
    at: usize,
) -> (resolution: Resolution)
    requires
        at <= replies.len(),
    ensures
        resolution@ == pr_validate(
            previous@,
            current@,
            operator,
            match base {
                Some(b) => Some(b@),
                None => None,
            },
            replies@,
            at as int,
        ),
{
    if replies.len() <= at {
        Resolution::Need(Query::FindCommit(previous.clone()))
    } else if !replies[at].is_success() {
        fatal(Failure::PreviousCommitNotFound, previous, current)
    } else if replies.len() - at <= 1 {
        let ancestor = match (operator, base) {
            (DiffOperator::ThreeDot, Some(b)) => b,
            _ => previous.clone(),
        };
        Resolution::Need(Query::TreeDiff { ancestor, current: current.clone() })
    } else {
        match &replies[at + 1] {
            Reply::Deltas(Some(deltas)) => {
                if deltas.len() == 0 {
                    fatal(Failure::NoDifference, previous, current)
                } else if *previous == *current {
                    fatal(Failure::SimilarCommits, previous, current)
                } else {
                    Resolution::Resolved(
                        RangeContext {
                            previous: previous.clone(),
                            current: current.clone(),
                            operator,
                        },
                    )
                }
            },
            _ => fatal(Failure::DiffUnavailable, previous, current),
        }
    }
}

/// The operator that a pull request starts from.
pub fn first_operator(inputs: &PullRequestInputs) -> (operator: DiffOperator)
    ensures
        operator == pr_first_operator(*inputs),
{
    if inputs.github_event_pull_request_base_ref.as_str().is_empty() || is_true(
        inputs.github_event_head_repo_fork.as_str(),
    ) {
        DiffOperator::TwoDot
    } else {
        DiffOperator::ThreeDot
    }
}

fn settle_operator(
    inputs: &PullRequestInputs,
    previous: &String,
    current: &String,
    replies: &Vec<Reply>,
    at: usize,
) -> (resolution: Resolution)
    requires
        at <= replies.len(),
    ensures
        resolution@ == pr_settle_operator(*inputs, previous@, current@, replies@, at as int),
{
    if replies.len() <= at {
        Resolution::Need(Query::MergeBase(previous.clone(), current.clone()))
    } else {
        let base = replies[at].get_commit();
        let operator = if base.is_none() {
            DiffOperator::TwoDot
        } else {
            first_operator(inputs)
        };
        validate(previous, current, operator, base, replies, at + 1)
    }
}

fn fallback(inputs: &PullRequestInputs, candidate: &String, current: &String) -> (previous: String)
    ensures
        previous@ == pr_fallback(*inputs, candidate@, current@),
{
    if candidate.as_str().is_empty() || *candidate == *current {
        inputs.github_event_pull_request_base_sha.clone()
    } else {
        candidate.clone()
    }
}

fn previous_commit(inputs: &PullRequestInputs, current: &String, replies: &Vec<Reply>, at: usize) -> (resolution:
    Resolution)
    requires
        at <= replies.len(),
    ensures
        resolution@ == pr_previous(*inputs, current@, replies@, at as int),
{
    if !inputs.base_sha.as_str().is_empty() {
        settle_operator(inputs, &inputs.base_sha, current, replies, at)
    } else if inputs.since_last_remote_commit {
        if replies.len() <= at {
            Resolution::Need(Query::FindCommit(inputs.github_event_before.clone()))
        } else {
            let candidate = if replies[at].is_success() {
                &inputs.github_event_before
            } else {
                &inputs.github_event_pull_request_base_sha
            };
            let previous = fallback(inputs, candidate, current);
            settle_operator(inputs, &previous, current, replies, at + 1)
        }
    } else {
        if replies.len() <= at {
            Resolution::Need(
                Query::RemoteBranchTip(inputs.github_event_pull_request_base_ref.clone()),
            )
        } else {
            let tip = replies[at].get_commit_or_empty();
            let previous = fallback(inputs, &tip, current);
            if !inputs.is_shallow_clone {
                settle_operator(inputs, &previous, current, replies, at + 1)
            } else {
                match deepen_until_merge_base(
                    &inputs.github_event_pull_request_base_ref,
                    inputs.fetch_depth,
                    &tip,
                    current,
                    replies,
                    at + 1,
                ) {
                    Deepened::Ask(query) => Resolution::Need(query),
                    Deepened::Done(next) => settle_operator(
                        inputs,
                        &previous,
                        current,
                        replies,
                        next,
                    ),
                }
            }
        }
    }
}

fn check_current(inputs: &PullRequestInputs, current: &String, replies: &Vec<Reply>, at: usize) -> (resolution:
    Resolution)
    requires
        at <= replies.len(),
    ensures
        resolution@ == pr_check_current(*inputs, current@, replies@, at as int),
{
    if replies.len() <= at {
        Resolution::Need(Query::FindCommit(current.clone()))
    } else if !replies[at].is_success() {
        let none = String::new();
        fatal(Failure::CurrentCommitNotFound, &none, current)
    } else {
        previous_commit(inputs, current, replies, at + 1)
    }
}

fn after_fetches(inputs: &PullRequestInputs, replies: &Vec<Reply>, at: usize) -> (resolution: Resolution)
    requires
        at <= replies.len(),
    ensures
        resolution@ == pr_after_fetches(*inputs, replies@, at as int),
{
    match current_commit(&inputs.until, &inputs.sha, replies, at) {
        Step::Ask(query) => Resolution::Need(query),
        Step::Got(current, next) => check_current(inputs, &current, replies, next),
    }
}

/// The fetch of the head of the pull request.
pub fn head_fetch(inputs: &PullRequestInputs) -> (request: FetchRequest)
    ensures
        request@ == pr_head_fetch(*inputs),
{
    FetchRequest {
        submodule: None,
        refspec: Refspec::PullHead {
            number: inputs.github_event_pull_request_number.clone(),
            branch: inputs.github_event_pull_request_head_ref.clone(),
        },
        deepen: None,
        extra_args: inputs.extra_args.clone(),
    }
}

/// Resolves the previous and the current commit of a pull request, and the
/// operator to compare them with.
///
/// `replies` holds the answers to the queries that earlier calls asked for, in
/// the order in which they were asked. The result is the next query, or the
/// outcome: the range, or a failure.
pub fn get_previous_and_current_sha_for_pull_request_event(
    inputs: &PullRequestInputs,
    replies: &Vec<Reply>,
) -> (resolution: Resolution)
    ensures
        resolution@ == pr_resolution(*inputs, replies@),
{
    if !inputs.is_shallow_clone {
        return after_fetches(inputs, replies, 0);
    }
    if replies.len() == 0 {
        return Resolution::Need(Query::Fetch(head_fetch(inputs)));
    }
    let head_fetched = replies[0].is_success();
    let ghost rest = pr_followup(*inputs, head_fetched);
    let ghost fallback_part = if head_fetched {
        Seq::<QueryView>::empty()
    } else {
        pr_fallback_fetch(*inputs)
    };
    let ghost track_part = if inputs.since_last_remote_commit {
        pr_track_base(*inputs)
    } else {
        Seq::<QueryView>::empty()
    };
    let mut k: usize = replies.len() - 1;
    if !head_fetched {
        if k == 0 {
            let request = branch_fetch(
                Refspec::BranchFamily(inputs.github_event_pull_request_head_ref.clone()),
                &inputs.extra_args,
                inputs.fetch_depth,
            );
            assert(rest[0] == pr_fallback_fetch(*inputs)[0]);
            return Resolution::Need(Query::Fetch(request));
        }
        k = k - 1;
    }
    if inputs.since_last_remote_commit {
        if k == 0 {
            let request = branch_fetch(
                Refspec::Branch(inputs.github_event_pull_request_base_ref.clone()),
                &inputs.extra_args,
                inputs.fetch_depth,
            );
            assert(rest[fallback_part.len() as int] == pr_track_base(*inputs)[0]);
            return Resolution::Need(Query::Fetch(request));
        }
        if k == 1 {
            assert(rest[fallback_part.len() as int + 1] == pr_track_base(*inputs)[1]);
            return Resolution::Need(
                Query::TrackBranch(inputs.github_event_pull_request_base_ref.clone()),
            );
        }
        k = k - 2;
    }
    assert(k == replies.len() - 1 - fallback_part.len() - track_part.len());
    assert(rest.len() == fallback_part.len() + track_part.len() + inputs.submodules@.len());
    if k < inputs.submodules.len() {
        let request = submodule_fetch(
            &inputs.submodules[k],
            &inputs.extra_args,
            inputs.fetch_depth,
        );
        assert(rest[replies.len() - 1] == QueryView::Fetch(
            spec_submodule_fetch(
                inputs.submodules@[k as int]@,
                inputs.extra_args@,
                inputs.fetch_depth,
            ),
        ));
        return Resolution::Need(Query::Fetch(request));
    }
    let at: usize = replies.len() - (k - inputs.submodules.len());
    after_fetches(inputs, replies, at)
}

/// A pull request never resolves to a range of one commit, and its resolution
/// never ends as an initial commit.
pub proof fn lemma_pr_range(inputs: PullRequestInputs, replies: Seq<Reply>)
    ensures
        pr_resolution(inputs, replies) matches ResolutionView::Resolved(range) ==> range.previous
            != range.current,
        !(pr_resolution(inputs, replies) is InitialCommit),
{
}

/// Without a base branch, or from a fork, the operator is two dots, whatever
/// else is given and whatever the replies say.
pub proof fn lemma_pr_two_dot_forced(inputs: PullRequestInputs, replies: Seq<Reply>)
    requires
        inputs.github_event_pull_request_base_ref@.len() == 0 || spec_is_true(
            inputs.github_event_head_repo_fork@,
        ),
    ensures
        pr_resolution(inputs, replies) matches ResolutionView::Resolved(range) ==> range.operator
            == DiffOperator::TwoDot,
{
}

/// Three dots are used only where the merge base of the final pair was found.
pub proof fn lemma_pr_three_dot_needs_merge_base(
    inputs: PullRequestInputs,
    previous: Seq<char>,
    current: Seq<char>,
    replies: Seq<Reply>,
    at: int,
)
    requires
        0 <= at,
    ensures
        pr_settle_operator(inputs, previous, current, replies, at) matches ResolutionView::Resolved(
            range,
        ) ==> (range.operator == DiffOperator::ThreeDot ==> at < replies.len()
            && replies[at].commit() is Some && pr_first_operator(inputs)
            == DiffOperator::ThreeDot),
{
}

/// Where the merge base of the final pair is not in the local history, the
/// operator is two dots. That alone is no failure: if the previous commit
/// exists, the trees differ and the commits are different ones, the range is
/// resolved.
pub proof fn lemma_pr_unreachable_merge_base(
    inputs: PullRequestInputs,
    previous: Seq<char>,
    current: Seq<char>,
    replies: Seq<Reply>,
    at: int,
)
    requires
        0 <= at < replies.len(),
        replies[at].commit() is None,
    ensures
        pr_settle_operator(inputs, previous, current, replies, at) matches ResolutionView::Resolved(
            range,
        ) ==> range.operator == DiffOperator::TwoDot,
        at + 2 < replies.len() && replies[at + 1].succeeded() && replies[at + 2].deltas() is Some
            && replies[at + 2].deltas().unwrap().len() > 0 && previous != current
            ==> pr_settle_operator(inputs, previous, current, replies, at)
            == ResolutionView::Resolved(
            RangeView { previous, current, operator: DiffOperator::TwoDot },
        ),
{
}

/// The same after the history was deepened in vain: when the search for the
/// merge base has used up its attempts and the merge base of the final pair is
/// still missing, the operator is two dots and the resolution goes on.
pub proof fn lemma_pr_deepening_exhausted(
    inputs: PullRequestInputs,
    tip: Seq<char>,
    current: Seq<char>,
    replies: Seq<Reply>,
    at: int,
    next: int,
)
    requires
        0 <= at,
        spec_deepen(
            inputs.github_event_pull_request_base_ref@,
            inputs.fetch_depth,
            tip,
            current,
            replies,
            at,
        ) == DeepenedView::Done(next),
        next < replies.len(),
        replies[next].commit() is None,
    ensures
        at < next <= at + 1 + 2 * crate::deepen::MERGE_BASE_ATTEMPTS,
        pr_settle_operator(
            inputs,
            pr_fallback(inputs, tip, current),
            current,
            replies,
            next,
        ) matches ResolutionView::Resolved(range) ==> range.operator == DiffOperator::TwoDot,
        !(pr_settle_operator(inputs, pr_fallback(inputs, tip, current), current, replies, next)
            matches ResolutionView::Fatal { failure, .. } && failure == Failure::MergeBaseNotFound),
{
    crate::deepen::lemma_deepen_bounded(
        inputs.github_event_pull_request_base_ref@,
        inputs.fetch_depth,
        tip,
        current,
        replies,
        at,
    );
}

/// Equal commits never make a range: where the previous commit is the current
/// one, the last step does not resolve, and once its replies are in it ends
/// with a failure and a status that is not zero.
pub proof fn lemma_pr_similar_commits(
    commit: Seq<char>,
    operator: DiffOperator,
    base: Option<Seq<char>>,
    replies: Seq<Reply>,
    at: int,
)
    requires
        0 <= at,
    ensures
        !(pr_validate(commit, commit, operator, base, replies, at) is Resolved),
        at + 1 < replies.len() ==> pr_validate(commit, commit, operator, base, replies, at) is Fatal
            && spec_exit_code(pr_validate(commit, commit, operator, base, replies, at)) != 0,
{
}

/// The number of replies after which a pull request is resolved whatever
/// they say: those of the opening fetches, at most two for the current
/// commit, one for the tip of the base branch, those of the search for its
/// merge base, and three for the last steps.
pub open spec fn pr_reply_bound(inputs: PullRequestInputs) -> nat {
    (4 + inputs.submodules@.len() + 2 + 1 + (1 + 2 * crate::deepen::MERGE_BASE_ATTEMPTS) + 3) as nat
}

/// The resolution of a pull request ends: with as many replies as the bound
/// says, no further query is asked.
pub proof fn lemma_pr_terminates(inputs: PullRequestInputs, replies: Seq<Reply>)
    requires
        replies.len() >= pr_reply_bound(inputs),
    ensures
        !(pr_resolution(inputs, replies) is Need),
{
    let first: int = if !inputs.is_shallow_clone {
        0
    } else {
        1 + pr_followup(inputs, replies[0].succeeded()).len() as int
    };
    assert(first <= 4 + inputs.submodules@.len());
    match spec_current_commit(inputs.until@, inputs.sha@, replies, first) {
        StepView::Ask(_) => {},
        StepView::Got(current, next) => {
            let at = next + 1;
            if inputs.base_sha@.len() == 0 && !inputs.since_last_remote_commit
                && inputs.is_shallow_clone {
                crate::deepen::lemma_deepen_bounded(
                    inputs.github_event_pull_request_base_ref@,
                    inputs.fetch_depth,
                    replies[at].commit_or_empty(),
                    current,
                    replies,
                    at + 1,
                );
            }
        },
    }
}

/// The `i`-th of `replies` is what `answer` gave to the query that the
/// resolution asked for after the replies before it.
pub open spec fn pr_answered<F: Fn(&Query) -> Reply>(
    inputs: PullRequestInputs,
    answer: F,
    replies: Seq<Reply>,
    i: int,
) -> bool {
    exists|query: Query|
        pr_resolution(inputs, replies.take(i)) == ResolutionView::Need(query@) && call_ensures(
            answer,
            (&query,),
            replies[i],
        )
}

/// Resolves a pull request to its outcome, asking `answer` for the reply to
/// each query in turn. The run ends within the bound on the replies; its
/// outcome is the resolution after the replies that `answer` gave, which are
/// returned with it.
pub fn resolve_pull_request<F: Fn(&Query) -> Reply>(inputs: &PullRequestInputs, answer: F) -> (found: (
    Resolution,
    Vec<Reply>,
))
    requires
        forall|query: &Query| call_requires(answer, (query,)),
    ensures
        !(found.0 is Need),
        found.0@ == pr_resolution(*inputs, found.1@),
        found.1@.len() <= pr_reply_bound(*inputs),
        forall|i: int|
            0 <= i < found.1@.len() ==> #[trigger] pr_answered(*inputs, answer, found.1@, i),
{
    let mut replies: Vec<Reply> = Vec::new();
    loop
        invariant
            forall|query: &Query| call_requires(answer, (query,)),
            replies@.len() <= pr_reply_bound(*inputs),
            forall|i: int|
                0 <= i < replies@.len() ==> #[trigger] pr_answered(*inputs, answer, replies@, i),
        decreases pr_reply_bound(*inputs) - replies@.len(),
    {
        proof {
            if replies@.len() >= pr_reply_bound(*inputs) {
                lemma_pr_terminates(*inputs, replies@);
            }
        }
        match get_previous_and_current_sha_for_pull_request_event(inputs, &replies) {
            Resolution::Need(query) => {
                let reply = answer(&query);
                let ghost before = replies@;
                replies.push(reply);
                proof {
                    assert forall|i: int| 0 <= i < replies@.len() implies #[trigger] pr_answered(
                        *inputs,
                        answer,
                        replies@,
                        i,
                    ) by {
                        if i < before.len() {
                            assert(pr_answered(*inputs, answer, before, i));
                            assert(replies@.take(i) =~= before.take(i));
                        } else {
                            assert(replies@.take(i) =~= before);
                        }
                    }
                }
            },
            outcome => {
                return (outcome, replies);
            },
        }
    }
}

} // verus!
