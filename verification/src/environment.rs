//! The variables that the CI service sets for a run.

use crate::text::{is_true, same, spec_is_true};
use vstd::prelude::*;

verus! {

/// The value of the variable `name` among `vars` from index `from` on: that of
/// the first entry of that name, or the empty text where there is none.
pub open spec fn spec_lookup_from(vars: Seq<(String, String)>, name: Seq<char>, from: int) -> Seq<char>
    decreases vars.len() - from,
{
    if from < 0 || from >= vars.len() {
        Seq::empty()
    } else if vars[from].0@ == name {
        vars[from].1@
    } else {
        spec_lookup_from(vars, name, from + 1)
    }
}

/// The value of the variable `name`, or the empty text where it is not set.
pub open spec fn spec_lookup(vars: Seq<(String, String)>, name: Seq<char>) -> Seq<char> {
    spec_lookup_from(vars, name, 0)
}

/// Looks a variable up; one that is not set reads as the empty text.
pub fn get_env_var(vars: &Vec<(String, String)>, name: &str) -> (value: String)
    ensures
        value@ == spec_lookup(vars@, name@),
{
    let mut i: usize = 0;
    while i < vars.len()
        invariant
            i <= vars.len(),
            spec_lookup(vars@, name@) == spec_lookup_from(vars@, name@, i as int),
        decreases vars.len() - i,
    {
        if same(vars[i].0.as_str(), name) {
            return vars[i].1.clone();
        }
        i += 1;
    }
    String::new()
}

/// Reads the variables of a run out of the environment `vars`, a list of
/// names and values: the workspace, the output file, the ref, the base ref of
/// the event, the fork flag, the number, base ref, head ref and base commit of
/// the pull request, the name of the ref, the commit before the event, and
/// whether the push was forced, which it was if the variable reads `true`.
pub fn get_env_vars(vars: &Vec<(String, String)>) -> (found: (
    String,
    String,
    String,
    String,
    String,
    String,
    String,
    String,
    String,
    String,
    String,
    bool,
))
    ensures
        found.0@ == spec_lookup(vars@, "GITHUB_WORKSPACE"@),
        found.1@ == spec_lookup(vars@, "GITHUB_OUTPUT"@),
        found.2@ == spec_lookup(vars@, "GITHUB_REF"@),
        found.3@ == spec_lookup(vars@, "GITHUB_EVENT_BASE_REF"@),
        found.4@ == spec_lookup(vars@, "GITHUB_EVENT_HEAD_REPO_FORK"@),
        found.5@ == spec_lookup(vars@, "GITHUB_EVENT_PULL_REQUEST_NUMBER"@),
        found.6@ == spec_lookup(vars@, "GITHUB_EVENT_PULL_REQUEST_BASE_REF"@),
        found.7@ == spec_lookup(vars@, "GITHUB_EVENT_PULL_REQUEST_HEAD_REF"@),
        found.8@ == spec_lookup(vars@, "GITHUB_EVENT_PULL_REQUEST_BASE_SHA"@),
        found.9@ == spec_lookup(vars@, "GITHUB_REFNAME"@),
        found.10@ == spec_lookup(vars@, "GITHUB_EVENT_BEFORE"@),
        found.11 == spec_is_true(spec_lookup(vars@, "GITHUB_EVENT_FORCED"@)),
{
    let github_workspace = get_env_var(vars, "GITHUB_WORKSPACE");
    let github_output = get_env_var(vars, "GITHUB_OUTPUT");
    let github_ref = get_env_var(vars, "GITHUB_REF");
    let github_event_base_ref = get_env_var(vars, "GITHUB_EVENT_BASE_REF");
    let github_event_head_repo_fork = get_env_var(vars, "GITHUB_EVENT_HEAD_REPO_FORK");
    let github_event_pull_request_number = get_env_var(vars, "GITHUB_EVENT_PULL_REQUEST_NUMBER");
    let github_event_pull_request_base_ref = get_env_var(
        vars,
        "GITHUB_EVENT_PULL_REQUEST_BASE_REF",
    );
    let github_event_pull_request_head_ref = get_env_var(
        vars,
        "GITHUB_EVENT_PULL_REQUEST_HEAD_REF",
    );
    let github_event_pull_request_base_sha = get_env_var(
        vars,
        "GITHUB_EVENT_PULL_REQUEST_BASE_SHA",
    );
    let github_refname = get_env_var(vars, "GITHUB_REFNAME");
    let github_event_before = get_env_var(vars, "GITHUB_EVENT_BEFORE");
    let forced = get_env_var(vars, "GITHUB_EVENT_FORCED");
    let github_event_forced = is_true(forced.as_str());
    (
        github_workspace,
        github_output,
        github_ref,
        github_event_base_ref,
        github_event_head_repo_fork,
        github_event_pull_request_number,
        github_event_pull_request_base_ref,
        github_event_pull_request_head_ref,
        github_event_pull_request_base_sha,
        github_refname,
        github_event_before,
        github_event_forced,
    )
}

} // verus!
