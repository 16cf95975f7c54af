//! What a run is made of: which kind of event it answers, what the resolver of
//! that kind is given, and how a failure is reported.

use crate::args::Args;
use crate::protocol::Failure;
use crate::pull_request::PullRequestInputs;
use crate::push::PushInputs;
use crate::text::{remove, spec_remove, starts_with, views};
use vstd::prelude::*;
use vstd::string::*;

verus! {

/// The event that triggered a run, with what its resolver is given.
#[derive(Clone, Debug, PartialEq, Eq)]
pub enum Event {
    Push(PushInputs),
    PullRequest(PullRequestInputs),
}

/// A ref that names a tag.
pub open spec fn spec_is_tag(github_ref: Seq<char>) -> bool {
    "refs/tags/"@.is_prefix_of(github_ref)
}

/// The further arguments of the fetches: for a tag, prune and leave the
/// submodules alone; else take no tags, prune, and fetch the submodules too.
pub open spec fn spec_extra_args(is_tag: bool) -> Seq<char> {
    if is_tag {
        "--prune --no-recurse-submodules"@
    } else {
        "--no-tags --prune --recurse-submodules"@
    }
}

/// The branch a tag was made from: the base ref of the event without the
/// prefix of branch refs. Not known for anything but a tag.
pub open spec fn spec_source_branch(is_tag: bool, base_ref: Seq<char>) -> Seq<char> {
    if is_tag {
        spec_remove(base_ref, "refs/heads/"@)
    } else {
        Seq::empty()
    }
}

/// Whether a ref names a tag.
pub fn is_tag_ref(github_ref: &str) -> (yes: bool)
    ensures
        yes == spec_is_tag(github_ref@),
{
    starts_with(github_ref, "refs/tags/")
}

/// The further arguments of the fetches of a run.
pub fn extra_args_for(is_tag: bool) -> (text: &'static str)
    ensures
        text@ == spec_extra_args(is_tag),
{
    if is_tag {
        "--prune --no-recurse-submodules"
    } else {
        "--no-tags --prune --recurse-submodules"
    }
}

/// The setting of `core.quotepath` that the option asks for: off for the text
/// `false`, else on.
pub fn quotepath_on(quotepath: &str) -> (on: bool)
    ensures
        on == (quotepath@ != "false"@),
{
    !crate::text::same(quotepath, "false")
}

/// A run answers a pull request if the event names the base branch of one,
/// else a push.
pub open spec fn is_pull_request(pull_request_base_ref: Seq<char>) -> bool {
    pull_request_base_ref.len() > 0
}

/// What the resolver of a push is given, for these options and variables.
pub open spec fn push_inputs_for(
    args: Args,
    github_ref: Seq<char>,
    github_event_base_ref: Seq<char>,
    github_refname: Seq<char>,
    github_event_before: Seq<char>,
    github_event_forced: bool,
    is_shallow_clone: bool,
    submodules: Seq<String>,
    inputs: PushInputs,
) -> bool {
    &&& inputs.is_tag == spec_is_tag(github_ref)
    &&& inputs.extra_args@ == spec_extra_args(inputs.is_tag)
    &&& inputs.source_branch@ == spec_source_branch(inputs.is_tag, github_event_base_ref)
    &&& inputs.is_shallow_clone == is_shallow_clone
    &&& inputs.github_refname@ == github_refname
    &&& inputs.github_event_forced == github_event_forced
    &&& inputs.github_event_before@ == github_event_before
    &&& views(inputs.submodules@) == views(submodules)
    &&& inputs.fetch_depth == args.fetch_depth
    &&& inputs.until@ == args.until@
    &&& inputs.since@ == args.since@
    &&& inputs.sha@ == args.sha@
    &&& inputs.base_sha@ == args.base_sha@
    &&& inputs.since_last_remote_commit == args.since_last_remote_commit
}

/// What the resolver of a pull request is given, for these options and
/// variables.
pub open spec fn pull_request_inputs_for(
    args: Args,
    github_ref: Seq<char>,
    github_event_before: Seq<char>,
    base_ref: Seq<char>,
    head_ref: Seq<char>,
    fork: Seq<char>,
    number: Seq<char>,
    base_sha: Seq<char>,
    is_shallow_clone: bool,
    submodules: Seq<String>,
    inputs: PullRequestInputs,
) -> bool {
    &&& inputs.extra_args@ == spec_extra_args(spec_is_tag(github_ref))
    &&& inputs.github_event_before@ == github_event_before
    &&& inputs.github_event_pull_request_base_ref@ == base_ref
    &&& inputs.github_event_pull_request_head_ref@ == head_ref
    &&& inputs.github_event_head_repo_fork@ == fork
    &&& inputs.github_event_pull_request_number@ == number
    &&& inputs.github_event_pull_request_base_sha@ == base_sha
    &&& views(inputs.submodules@) == views(submodules)
    &&& inputs.fetch_depth == args.fetch_depth
    &&& inputs.is_shallow_clone == is_shallow_clone
    &&& inputs.until@ == args.until@
    &&& inputs.sha@ == args.sha@
    &&& inputs.base_sha@ == args.base_sha@
    &&& inputs.since_last_remote_commit == args.since_last_remote_commit
}

/// Chooses the resolver for a run and puts together what it is given, from
/// the options, the variables of the run as `get_env_vars` reads them,
/// whether the clone is shallow, and the paths of the submodules.
pub fn plan_event(
    args: &Args,
    vars: &(
        String,
        String,
        String,
        String,
        String,
        String,
        String,
        String,
        String,
        String,
        String,
        bool,
    ),
    is_shallow_clone: bool,
    submodules: Vec<String>,
) -> (event: Event)
    ensures
        match event {
            Event::Push(inputs) => !is_pull_request(vars.6@) && push_inputs_for(
                *args,
                vars.2@,
                vars.3@,
                vars.9@,
                vars.10@,
                vars.11,
                is_shallow_clone,
                submodules@,
                inputs,
            ),
            Event::PullRequest(inputs) => is_pull_request(vars.6@) && pull_request_inputs_for(
                *args,
                vars.2@,
                vars.10@,
                vars.6@,
                vars.7@,
                vars.4@,
                vars.5@,
                vars.8@,
                is_shallow_clone,
                submodules@,
                inputs,
            ),
        },
{
    let is_tag = is_tag_ref(vars.2.as_str());
    let extra_args = String::from_str(extra_args_for(is_tag));
    if vars.6.as_str().is_empty() {
        let source_branch = if is_tag {
            remove(vars.3.as_str(), "refs/heads/")
        } else {
            String::new()
        };
        Event::Push(
            PushInputs {
                extra_args,
                is_tag,
                is_shallow_clone,
                github_refname: vars.9.clone(),
                github_event_forced: vars.11,
                github_event_before: vars.10.clone(),
                source_branch,
                submodules,
                fetch_depth: args.fetch_depth,
                until: args.until.clone(),
                since: args.since.clone(),
                sha: args.sha.clone(),
                base_sha: args.base_sha.clone(),
                since_last_remote_commit: args.since_last_remote_commit,
            },
        )
    } else {
        Event::PullRequest(
            PullRequestInputs {
                extra_args,
                github_event_before: vars.10.clone(),
                github_event_pull_request_base_ref: vars.6.clone(),
                github_event_pull_request_head_ref: vars.7.clone(),
                github_event_head_repo_fork: vars.4.clone(),
                github_event_pull_request_number: vars.5.clone(),
                github_event_pull_request_base_sha: vars.8.clone(),
                submodules,
                fetch_depth: args.fetch_depth,
                is_shallow_clone,
                until: args.until.clone(),
                sha: args.sha.clone(),
                base_sha: args.base_sha.clone(),
                since_last_remote_commit: args.since_last_remote_commit,
            },
        )
    }
}

/// What to tell the user about a failure.
pub open spec fn spec_message(failure: Failure) -> Seq<char> {
    match failure {
        Failure::CurrentCommitNotFound =>
            "The current commit doesn't exist in the repository. Make sure that the commit SHA is correct, and increase the fetch depth."@,
        Failure::PreviousCommitNotFound =>
            "The previous commit doesn't exist in the repository. Make sure that the commit SHA is correct, and increase the fetch depth."@,
        Failure::NoPreviousCommit => "Unable to locate a previous commit."@,
        Failure::SimilarCommits =>
            "Similar commit hashes detected: the previous commit is equivalent to the current commit. Please verify that both commits are valid, and increase the fetch depth."@,
        Failure::NoDifference =>
            "Unable to determine a difference between the previous and the current commit."@,
        Failure::MergeBaseNotFound =>
            "The merge base of the previous and the current commit is not in the local history. Increase the fetch depth."@,
        Failure::DiffUnavailable => "Unable to compare the trees of the two commits."@,
        Failure::SubmoduleNotFound =>
            "Unable to locate a submodule at the previous or the current commit."@,
    }
}

/// The message that goes with a failure.
pub fn message(failure: Failure) -> (text: &'static str)
    ensures
        text@ == spec_message(failure),
{
    match failure {
        Failure::CurrentCommitNotFound =>
            "The current commit doesn't exist in the repository. Make sure that the commit SHA is correct, and increase the fetch depth.",
        Failure::PreviousCommitNotFound =>
            "The previous commit doesn't exist in the repository. Make sure that the commit SHA is correct, and increase the fetch depth.",
        Failure::NoPreviousCommit => "Unable to locate a previous commit.",
        Failure::SimilarCommits =>
            "Similar commit hashes detected: the previous commit is equivalent to the current commit. Please verify that both commits are valid, and increase the fetch depth.",
        Failure::NoDifference =>
            "Unable to determine a difference between the previous and the current commit.",
        Failure::MergeBaseNotFound =>
            "The merge base of the previous and the current commit is not in the local history. Increase the fetch depth.",
        Failure::DiffUnavailable => "Unable to compare the trees of the two commits.",
        Failure::SubmoduleNotFound =>
            "Unable to locate a submodule at the previous or the current commit.",
    }
}

} // verus!
