//! What the two range resolvers share: how the current commit is found, how
//! submodules are deepened, and what counts as no commit at all.

use crate::protocol::{FetchRequest, FetchView, Query, QueryView, Refspec, RefspecView, Reply};
use vstd::prelude::*;

verus! {

/// The id that stands for "no commit": forty zeros.
pub open spec fn spec_is_zero_sha(sha: Seq<char>) -> bool {
    sha.len() == 40 && forall|i: int| 0 <= i < sha.len() ==> sha[i] == '0'
}

/// Whether `sha` is the id that stands for "no commit".
pub fn is_zero_sha(sha: &str) -> (zero: bool)
    ensures
        zero == spec_is_zero_sha(sha@),
{
    let chars = crate::text::chars_of(sha);
    if chars.len() != 40 {
        return false;
    }
    let mut i: usize = 0;
    while i < chars.len()
        invariant
            i <= chars.len(),
            chars@ == sha@,
            forall|k: int| 0 <= k < i ==> sha@[k] == '0',
        decreases chars.len() - i,
    {
        if chars[i] != '0' {
            return false;
        }
        i += 1;
    }
    true
}

/// The fetch that deepens one submodule.
pub open spec fn spec_submodule_fetch(path: Seq<char>, extra_args: Seq<char>, depth: u32) -> FetchView {
    FetchView {
        submodule: Some(path),
        refspec: RefspecView::Default,
        deepen: Some(depth),
        extra_args,
    }
}

/// The fetch that deepens one branch of the repository.
pub open spec fn spec_branch_fetch(refspec: RefspecView, extra_args: Seq<char>, depth: u32) -> FetchView {
    FetchView { submodule: None, refspec, deepen: Some(depth), extra_args }
}

/// The fetch that deepens the submodule at `path`.
pub fn submodule_fetch(path: &String, extra_args: &String, depth: u32) -> (request: FetchRequest)
    ensures
        request@ == spec_submodule_fetch(path@, extra_args@, depth),
{
    FetchRequest {
        submodule: Some(path.clone()),
        refspec: Refspec::Default,
        deepen: Some(depth),
        extra_args: extra_args.clone(),
    }
}

/// The fetch that deepens the repository itself for `refspec`.
pub fn branch_fetch(refspec: Refspec, extra_args: &String, depth: u32) -> (request: FetchRequest)
    ensures
        request@ == spec_branch_fetch(refspec@, extra_args@, depth),
{
    FetchRequest { submodule: None, refspec, deepen: Some(depth), extra_args: extra_args.clone() }
}

/// One step on the way to a commit: a question, or the commit together with
/// the index of the first reply that has not been used.
#[derive(Clone, Debug, PartialEq, Eq)]
pub enum Step {
    Ask(Query),
    Got(String, usize),
}

/// What a [`Step`] holds, as values.
pub enum StepView {
    Ask(QueryView),
    Got(Seq<char>, int),
}

impl View for Step {
    type V = StepView;

    open spec fn view(&self) -> StepView {
        match self {
            Step::Ask(query) => StepView::Ask(query@),
            Step::Got(sha, next) => StepView::Got(sha@, *next as int),
        }
    }
}

/// The current commit: the most recent one at or before `until` where that is
/// given, else `sha` where that is given, else the commit of `HEAD`. A lookup
/// that finds nothing gives the empty id.
pub open spec fn spec_current_commit(
    until: Seq<char>,
    sha: Seq<char>,
    replies: Seq<Reply>,
    at: int,
) -> StepView {
    if until.len() > 0 {
        if replies.len() <= at {
            StepView::Ask(QueryView::CommitAtOrBefore(until))
        } else {
            StepView::Got(replies[at].commit_or_empty(), at + 1)
        }
    } else if sha.len() == 0 {
        if replies.len() <= at {
            StepView::Ask(QueryView::Head)
        } else {
            StepView::Got(replies[at].commit_or_empty(), at + 1)
        }
    } else {
        StepView::Got(sha, at)
    }
}

/// Finds the current commit, or says what to ask for it.
pub fn current_commit(until: &String, sha: &String, replies: &Vec<Reply>, at: usize) -> (step: Step)
    ensures
        step@ == spec_current_commit(until@, sha@, replies@, at as int),
        step matches Step::Got(_, next) ==> at <= next && (at <= replies.len() ==> next
            <= replies.len()),
{
    if !until.as_str().is_empty() {
        if replies.len() <= at {
            Step::Ask(Query::CommitAtOrBefore(until.clone()))
        } else {
            Step::Got(replies[at].get_commit_or_empty(), at + 1)
        }
    } else if sha.as_str().is_empty() {
        if replies.len() <= at {
            Step::Ask(Query::Head)
        } else {
            Step::Got(replies[at].get_commit_or_empty(), at + 1)
        }
    } else {
        Step::Got(sha.clone(), at)
    }
}

} // verus!
