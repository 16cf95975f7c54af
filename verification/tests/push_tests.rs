use changed_files::change::{DiffOperator, RangeContext};
use changed_files::protocol::{Failure, FetchRequest, Query, Refspec, Reply, Resolution};
use changed_files::push::{
    choose_ordinary_previous, get_previous_and_current_sha_for_push_event, push_fetch,
    resolve_push, PushInputs,
};

const ZERO: &str = "0000000000000000000000000000000000000000";

/// A small repository: commits with their first parents, and what the log and
/// tag queries answer.
struct PushWorld {
    commits: Vec<(&'static str, Option<&'static str>)>,
    head: Option<&'static str>,
    at_or_before: Option<&'static str>,
    since: Vec<&'static str>,
    tags: Vec<(&'static str, &'static str)>,
}

impl PushWorld {
    fn linear() -> PushWorld {
        PushWorld {
            commits: vec![("c1", None), ("c2", Some("c1")), ("c3", Some("c2")), ("c4", Some("c3"))],
            head: Some("c4"),
            at_or_before: None,
            since: vec![],
            tags: vec![],
        }
    }

    fn answer(&self, query: &Query) -> Reply {
        match query {
            Query::Fetch(_) => Reply::Status(true),
            Query::Head => Reply::Commit(self.head.map(|s| s.to_string())),
            Query::CommitAtOrBefore(_) => Reply::Commit(self.at_or_before.map(|s| s.to_string())),
            Query::CommitsSince(_) => Reply::Names(self.since.iter().map(|s| s.to_string()).collect()),
            Query::TagsByVersion => Reply::Names(self.tags.iter().map(|t| t.0.to_string()).collect()),
            Query::ResolveRef(name) => Reply::Commit(
                self.tags.iter().find(|t| t.0 == name).map(|t| t.1.to_string()),
            ),
            Query::FindCommit(sha) => Reply::Status(self.commits.iter().any(|c| c.0 == sha)),
            Query::FirstParent(sha) => Reply::Commit(
                self.commits.iter().find(|c| c.0 == sha).and_then(|c| c.1).map(|s| s.to_string()),
            ),
            _ => Reply::Status(false),
        }
    }
}

fn push_inputs() -> PushInputs {
    PushInputs {
        extra_args: "--no-tags --prune --recurse-submodules".to_string(),
        is_tag: false,
        is_shallow_clone: false,
        github_refname: "main".to_string(),
        github_event_forced: false,
        github_event_before: String::new(),
        source_branch: String::new(),
        submodules: vec![],
        fetch_depth: 50,
        until: String::new(),
        since: String::new(),
        sha: String::new(),
        base_sha: String::new(),
        since_last_remote_commit: false,
    }
}

fn run_push(inputs: &PushInputs, world: &PushWorld) -> (Resolution, Vec<Query>) {
    let mut replies: Vec<Reply> = Vec::new();
    let mut asked: Vec<Query> = Vec::new();
    loop {
        assert!(asked.len() < 100, "the resolution did not end");
        match get_previous_and_current_sha_for_push_event(inputs, &replies) {
            Resolution::Need(query) => {
                replies.push(world.answer(&query));
                asked.push(query);
            }
            done => return (done, asked),
        }
    }
}

fn two_dot(previous: &str, current: &str) -> Resolution {
    Resolution::Resolved(RangeContext {
        previous: previous.to_string(),
        current: current.to_string(),
        operator: DiffOperator::TwoDot,
    })
}

fn fatal(failure: Failure, previous: &str, current: &str) -> Resolution {
    Resolution::Fatal { failure, previous: previous.to_string(), current: current.to_string() }
}

#[test]
fn push_compares_head_with_its_parent() {
    let (outcome, asked) = run_push(&push_inputs(), &PushWorld::linear());
    assert_eq!(outcome, two_dot("c3", "c4"));
    assert_eq!(
        asked,
        vec![
            Query::Head,
            Query::FindCommit("c4".to_string()),
            Query::FirstParent("c4".to_string()),
            Query::FindCommit("c3".to_string()),
        ]
    );
    assert_eq!(outcome.exit_code(), 0);
}

#[test]
fn push_since_last_remote_commit_uses_before() {
    let mut world = PushWorld::linear();
    world.commits.push(("abc123", None));
    world.commits.push(("current", Some("c4")));
    world.head = Some("current");
    let mut inputs = push_inputs();
    inputs.since_last_remote_commit = true;
    inputs.github_event_forced = false;
    inputs.github_event_before = "abc123".to_string();
    let (outcome, _) = run_push(&inputs, &world);
    assert_eq!(outcome, two_dot("abc123", "current"));
}

#[test]
fn push_initial_commit_is_a_short_circuit() {
    let mut world = PushWorld::linear();
    world.head = Some("c1");
    let (outcome, asked) = run_push(&push_inputs(), &world);
    assert_eq!(outcome, Resolution::InitialCommit);
    assert_eq!(outcome.exit_code(), 0);
    assert_eq!(asked.last(), Some(&Query::FirstParent("c1".to_string())));
}

#[test]
fn push_initial_commit_even_with_before_given() {
    let mut world = PushWorld::linear();
    world.head = Some("c1");
    let mut inputs = push_inputs();
    inputs.since_last_remote_commit = true;
    inputs.github_event_before = ZERO.to_string();
    let (outcome, _) = run_push(&inputs, &world);
    assert_eq!(outcome, Resolution::InitialCommit);
}

#[test]
fn push_forced_ignores_before() {
    let mut inputs = push_inputs();
    inputs.since_last_remote_commit = true;
    inputs.github_event_forced = true;
    inputs.github_event_before = "c1".to_string();
    let (outcome, _) = run_push(&inputs, &PushWorld::linear());
    assert_eq!(outcome, two_dot("c3", "c4"));
}

#[test]
fn push_before_is_ignored_unless_asked_for() {
    let mut inputs = push_inputs();
    inputs.since_last_remote_commit = false;
    inputs.github_event_before = "c1".to_string();
    let (outcome, _) = run_push(&inputs, &PushWorld::linear());
    assert_eq!(outcome, two_dot("c3", "c4"));
}

#[test]
fn push_zero_or_empty_before_falls_back_to_parent() {
    let mut inputs = push_inputs();
    inputs.since_last_remote_commit = true;
    inputs.github_event_before = ZERO.to_string();
    let (outcome, _) = run_push(&inputs, &PushWorld::linear());
    assert_eq!(outcome, two_dot("c3", "c4"));
    inputs.github_event_before = String::new();
    let (outcome, _) = run_push(&inputs, &PushWorld::linear());
    assert_eq!(outcome, two_dot("c3", "c4"));
}

#[test]
fn push_before_equal_to_current_steps_back_to_parent() {
    let mut inputs = push_inputs();
    inputs.since_last_remote_commit = true;
    inputs.github_event_before = "c4".to_string();
    let (outcome, _) = run_push(&inputs, &PushWorld::linear());
    assert_eq!(outcome, two_dot("c3", "c4"));
}

#[test]
fn choose_ordinary_previous_on_values() {
    let mut inputs = push_inputs();
    inputs.since_last_remote_commit = true;
    inputs.github_event_before = "b".to_string();
    let pick = |i: &PushInputs, current: &str, parent: &str| {
        choose_ordinary_previous(i, &current.to_string(), &parent.to_string())
    };
    assert_eq!(pick(&inputs, "c", "p"), "b");
    assert_eq!(pick(&inputs, "b", "p"), "p");
    inputs.github_event_forced = true;
    assert_eq!(pick(&inputs, "c", "p"), "p");
    inputs.github_event_forced = false;
    inputs.github_event_before = ZERO.to_string();
    assert_eq!(pick(&inputs, "c", "p"), "p");
    inputs.github_event_before = "000000000000000000000000000000000000000".to_string();
    assert_eq!(pick(&inputs, "c", "p"), "000000000000000000000000000000000000000");
    inputs.since_last_remote_commit = false;
    inputs.github_event_before = "b".to_string();
    assert_eq!(pick(&inputs, "c", "p"), "p");
    assert_eq!(pick(&inputs, "p", "p"), "p");
}

#[test]
fn push_similar_commits_are_fatal() {
    let mut inputs = push_inputs();
    inputs.base_sha = "c4".to_string();
    let (outcome, _) = run_push(&inputs, &PushWorld::linear());
    assert_eq!(outcome, fatal(Failure::SimilarCommits, "c4", "c4"));
    assert_ne!(outcome.exit_code(), 0);
}

#[test]
fn push_base_sha_overrides_everything() {
    let mut inputs = push_inputs();
    inputs.base_sha = "c1".to_string();
    inputs.since = "yesterday".to_string();
    inputs.is_tag = true;
    inputs.since_last_remote_commit = true;
    inputs.github_event_before = "c2".to_string();
    let (outcome, asked) = run_push(&inputs, &PushWorld::linear());
    assert_eq!(outcome, two_dot("c1", "c4"));
    assert_eq!(
        asked,
        vec![
            Query::Head,
            Query::FindCommit("c4".to_string()),
            Query::FindCommit("c1".to_string()),
        ]
    );
}

#[test]
fn push_sha_names_the_current_commit() {
    let mut inputs = push_inputs();
    inputs.sha = "c3".to_string();
    let (outcome, asked) = run_push(&inputs, &PushWorld::linear());
    assert_eq!(outcome, two_dot("c2", "c3"));
    assert_eq!(asked[0], Query::FindCommit("c3".to_string()));
}

#[test]
fn push_until_asks_the_log() {
    let mut world = PushWorld::linear();
    world.at_or_before = Some("c2");
    let mut inputs = push_inputs();
    inputs.until = "2023-01-01".to_string();
    inputs.sha = "c4".to_string();
    let (outcome, asked) = run_push(&inputs, &world);
    assert_eq!(outcome, two_dot("c1", "c2"));
    assert_eq!(asked[0], Query::CommitAtOrBefore("2023-01-01".to_string()));
}

#[test]
fn push_until_that_finds_nothing_is_fatal() {
    let mut inputs = push_inputs();
    inputs.until = "1970-01-01".to_string();
    let (outcome, _) = run_push(&inputs, &PushWorld::linear());
    assert_eq!(outcome, fatal(Failure::CurrentCommitNotFound, "", ""));
    assert_eq!(outcome.exit_code(), 1);
}

#[test]
fn push_since_takes_the_oldest_commit() {
    let mut world = PushWorld::linear();
    world.since = vec!["c4", "c3", "c2"];
    let mut inputs = push_inputs();
    inputs.since = "last week".to_string();
    let (outcome, asked) = run_push(&inputs, &world);
    assert_eq!(outcome, two_dot("c2", "c4"));
    assert!(asked.contains(&Query::CommitsSince("last week".to_string())));
}

#[test]
fn push_since_without_commits_has_no_previous() {
    let mut inputs = push_inputs();
    inputs.since = "tomorrow".to_string();
    let (outcome, _) = run_push(&inputs, &PushWorld::linear());
    assert_eq!(outcome, fatal(Failure::NoPreviousCommit, "", "c4"));
    assert_eq!(outcome.exit_code(), 1);
}

#[test]
fn push_tag_compares_with_second_tag() {
    let mut world = PushWorld::linear();
    world.tags = vec![("v2.0.0", "c4"), ("v1.0.0", "c2"), ("v0.1.0", "c1")];
    let mut inputs = push_inputs();
    inputs.is_tag = true;
    inputs.github_refname = "v2.0.0".to_string();
    let (outcome, asked) = run_push(&inputs, &world);
    assert_eq!(outcome, two_dot("c2", "c4"));
    assert_eq!(
        asked,
        vec![
            Query::Head,
            Query::FindCommit("c4".to_string()),
            Query::TagsByVersion,
            Query::ResolveRef("v1.0.0".to_string()),
            Query::FindCommit("c2".to_string()),
        ]
    );
}

#[test]
fn push_single_tag_has_no_previous() {
    let mut world = PushWorld::linear();
    world.tags = vec![("v1.0.0", "c4")];
    let mut inputs = push_inputs();
    inputs.is_tag = true;
    let (outcome, _) = run_push(&inputs, &world);
    assert_eq!(outcome, fatal(Failure::NoPreviousCommit, "", "c4"));
}

#[test]
fn push_current_commit_not_found() {
    let mut inputs = push_inputs();
    inputs.sha = "missing".to_string();
    let (outcome, _) = run_push(&inputs, &PushWorld::linear());
    assert_eq!(outcome, fatal(Failure::CurrentCommitNotFound, "", "missing"));
    assert_eq!(outcome.exit_code(), 1);
}

#[test]
fn push_previous_commit_not_found() {
    let mut inputs = push_inputs();
    inputs.base_sha = "missing".to_string();
    let (outcome, _) = run_push(&inputs, &PushWorld::linear());
    assert_eq!(outcome, fatal(Failure::PreviousCommitNotFound, "missing", "c4"));
}

#[test]
fn push_shallow_clone_deepens_branch_and_submodules_first() {
    let mut inputs = push_inputs();
    inputs.is_shallow_clone = true;
    inputs.submodules = vec!["libs/a".to_string(), "libs/b".to_string()];
    let (outcome, asked) = run_push(&inputs, &PushWorld::linear());
    assert_eq!(outcome, two_dot("c3", "c4"));
    let fetch = |submodule: Option<&str>, refspec: Refspec| {
        Query::Fetch(FetchRequest {
            submodule: submodule.map(|s| s.to_string()),
            refspec,
            deepen: Some(50),
            extra_args: "--no-tags --prune --recurse-submodules".to_string(),
        })
    };
    assert_eq!(asked[0], fetch(None, Refspec::Branch("main".to_string())));
    assert_eq!(asked[1], fetch(Some("libs/a"), Refspec::Default));
    assert_eq!(asked[2], fetch(Some("libs/b"), Refspec::Default));
    assert_eq!(asked[3], Query::Head);
    assert_eq!(asked.len(), 7);
}

#[test]
fn push_shallow_tag_fetches_source_branch() {
    let mut inputs = push_inputs();
    inputs.is_shallow_clone = true;
    inputs.is_tag = true;
    inputs.source_branch = "release".to_string();
    assert_eq!(push_fetch(&inputs, 0).refspec, Refspec::Branch("release".to_string()));
    inputs.source_branch = String::new();
    assert_eq!(push_fetch(&inputs, 0).refspec, Refspec::Default);
    inputs.is_tag = false;
    assert_eq!(push_fetch(&inputs, 0).refspec, Refspec::Branch("main".to_string()));
}

#[test]
fn push_fetch_failures_do_not_matter() {
    let mut inputs = push_inputs();
    inputs.is_shallow_clone = true;
    let replies = vec![
        Reply::Status(false),
        Reply::Commit(Some("c4".to_string())),
        Reply::Status(true),
        Reply::Commit(Some("c3".to_string())),
        Reply::Status(true),
    ];
    assert_eq!(get_previous_and_current_sha_for_push_event(&inputs, &replies), two_dot("c3", "c4"));
}

#[test]
fn push_full_clone_fetches_nothing() {
    let (_, asked) = run_push(&push_inputs(), &PushWorld::linear());
    assert!(asked.iter().all(|q| !matches!(q, Query::Fetch(_))));
}

#[test]
fn push_never_uses_three_dots() {
    let mut variants: Vec<PushInputs> = Vec::new();
    for flags in 0..16u32 {
        let mut inputs = push_inputs();
        inputs.is_tag = flags & 1 != 0;
        inputs.since_last_remote_commit = flags & 2 != 0;
        inputs.github_event_forced = flags & 4 != 0;
        inputs.is_shallow_clone = flags & 8 != 0;
        inputs.github_event_before = "c2".to_string();
        variants.push(inputs);
    }
    let mut world = PushWorld::linear();
    world.tags = vec![("v2", "c4"), ("v1", "c1")];
    for inputs in variants.iter() {
        match run_push(inputs, &world).0 {
            Resolution::Resolved(range) => {
                assert_eq!(range.operator, DiffOperator::TwoDot);
                assert_ne!(range.previous, range.current);
            }
            other => panic!("unexpected outcome {:?}", other),
        }
    }
}

#[test]
fn push_reply_of_another_kind_counts_as_no_answer() {
    let replies = vec![Reply::Status(true)];
    assert_eq!(
        get_previous_and_current_sha_for_push_event(&push_inputs(), &replies),
        Resolution::Need(Query::FindCommit(String::new()))
    );
    let replies = vec![Reply::Commit(Some("c4".to_string())), Reply::Commit(Some("c4".to_string()))];
    assert_eq!(
        get_previous_and_current_sha_for_push_event(&push_inputs(), &replies),
        fatal(Failure::CurrentCommitNotFound, "", "c4")
    );
}

#[test]
fn push_resolution_is_stable_under_further_replies() {
    let replies = vec![
        Reply::Commit(Some("c4".to_string())),
        Reply::Status(true),
        Reply::Commit(Some("c3".to_string())),
        Reply::Status(true),
        Reply::Status(false),
        Reply::Names(vec![]),
    ];
    assert_eq!(
        get_previous_and_current_sha_for_push_event(&push_inputs(), &replies),
        two_dot("c3", "c4")
    );
}

#[test]
fn resolve_push_runs_to_the_outcome() {
    let world = PushWorld::linear();
    let mut inputs = push_inputs();
    inputs.is_shallow_clone = true;
    inputs.submodules = vec!["sub".to_string()];
    let (outcome, replies) = resolve_push(&inputs, |query: &Query| world.answer(query));
    assert_eq!(outcome, two_dot("c3", "c4"));
    assert_eq!(replies.len(), 6);
    assert_eq!(get_previous_and_current_sha_for_push_event(&inputs, &replies), outcome);
    assert_eq!(run_push(&inputs, &world).0, outcome);
}

#[test]
fn resolve_push_ends_whatever_the_answers() {
    for flags in 0..8u32 {
        let mut inputs = push_inputs();
        inputs.is_shallow_clone = flags & 1 != 0;
        inputs.is_tag = flags & 2 != 0;
        if flags & 4 != 0 {
            inputs.since = "then".to_string();
        }
        inputs.submodules = vec!["a".to_string(), "b".to_string()];
        let answers: [fn(&Query) -> Reply; 4] = [
            |_| Reply::Status(true),
            |_| Reply::Commit(Some("x".to_string())),
            |_| Reply::Names(vec!["t1".to_string(), "t2".to_string()]),
            |_| Reply::Commit(None),
        ];
        for answer in answers.iter() {
            let (outcome, replies) = resolve_push(&inputs, answer);
            assert!(!matches!(outcome, Resolution::Need(_)));
            assert!(replies.len() <= 3 + 5);
        }
    }
}
