use changed_files::args::Args;
use changed_files::environment::{get_env_var, get_env_vars};
use changed_files::protocol::{Failure, Refspec, Reply, Resolution};
use changed_files::resolve::is_zero_sha;
use changed_files::run::{extra_args_for, is_tag_ref, message, plan_event, quotepath_on, Event};

fn environment(pairs: &[(&str, &str)]) -> Vec<(String, String)> {
    pairs.iter().map(|p| (p.0.to_string(), p.1.to_string())).collect()
}

fn options() -> Args {
    Args {
        separator: " ".to_string(),
        include_all_old_new_renamed_files: false,
        old_new_separator: ",".to_string(),
        old_new_files_separator: " ".to_string(),
        files: String::new(),
        files_separator: "\n".to_string(),
        files_from_source_file: String::new(),
        files_from_source_file_separator: "\n".to_string(),
        files_ignore: String::new(),
        files_ignore_separator: "\n".to_string(),
        files_ignore_from_source_file: String::new(),
        files_ignore_from_source_file_separator: "\n".to_string(),
        sha: "cafe".to_string(),
        base_sha: "beef".to_string(),
        since: "monday".to_string(),
        until: "friday".to_string(),
        path: ".".to_string(),
        quotepath: "true".to_string(),
        diff_relative: String::new(),
        dir_names: false,
        dir_names_max_depth: String::new(),
        dir_names_exclude_root: false,
        json: false,
        json_raw_format: false,
        fetch_depth: 25,
        since_last_remote_commit: true,
        write_output_files: false,
        output_dir: ".github/outputs".to_string(),
        match_directories: true,
    }
}

#[test]
fn env_var_that_is_not_set_is_empty() {
    let vars = environment(&[("A", "1"), ("B", "2")]);
    assert_eq!(get_env_var(&vars, "A"), "1");
    assert_eq!(get_env_var(&vars, "B"), "2");
    assert_eq!(get_env_var(&vars, "C"), "");
    assert_eq!(get_env_var(&vars, "a"), "");
    assert_eq!(get_env_var(&vec![], "A"), "");
}

#[test]
fn env_var_first_entry_wins() {
    let vars = environment(&[("A", "1"), ("A", "2")]);
    assert_eq!(get_env_var(&vars, "A"), "1");
}

#[test]
fn env_vars_of_a_run() {
    let vars = environment(&[
        ("GITHUB_EVENT_FORCED", "true"),
        ("GITHUB_WORKSPACE", "/work"),
        ("GITHUB_OUTPUT", "/out"),
        ("GITHUB_REF", "refs/heads/main"),
        ("GITHUB_EVENT_BASE_REF", "refs/heads/base"),
        ("GITHUB_EVENT_HEAD_REPO_FORK", "false"),
        ("GITHUB_EVENT_PULL_REQUEST_NUMBER", "7"),
        ("GITHUB_EVENT_PULL_REQUEST_BASE_REF", "main"),
        ("GITHUB_EVENT_PULL_REQUEST_HEAD_REF", "feature"),
        ("GITHUB_EVENT_PULL_REQUEST_BASE_SHA", "b45e"),
        ("GITHUB_REFNAME", "main"),
        ("GITHUB_EVENT_BEFORE", "bef0"),
        ("UNRELATED", "x"),
    ]);
    let found = get_env_vars(&vars);
    assert_eq!(found.0, "/work");
    assert_eq!(found.1, "/out");
    assert_eq!(found.2, "refs/heads/main");
    assert_eq!(found.3, "refs/heads/base");
    assert_eq!(found.4, "false");
    assert_eq!(found.5, "7");
    assert_eq!(found.6, "main");
    assert_eq!(found.7, "feature");
    assert_eq!(found.8, "b45e");
    assert_eq!(found.9, "main");
    assert_eq!(found.10, "bef0");
    assert!(found.11);
}

#[test]
fn env_vars_default_to_empty_and_not_forced() {
    let found = get_env_vars(&vec![]);
    assert_eq!(found.0, "");
    assert_eq!(found.6, "");
    assert_eq!(found.10, "");
    assert!(!found.11);
    let found = get_env_vars(&environment(&[("GITHUB_EVENT_FORCED", "TRUE")]));
    assert!(!found.11);
    let found = get_env_vars(&environment(&[("GITHUB_EVENT_FORCED", "false")]));
    assert!(!found.11);
}

#[test]
fn tag_refs_are_recognised() {
    assert!(is_tag_ref("refs/tags/v1.0.0"));
    assert!(is_tag_ref("refs/tags/"));
    assert!(!is_tag_ref("refs/heads/main"));
    assert!(!is_tag_ref("refs/tags"));
    assert!(!is_tag_ref(""));
}

#[test]
fn extra_args_depend_on_the_tag() {
    assert_eq!(extra_args_for(true), "--prune --no-recurse-submodules");
    assert_eq!(extra_args_for(false), "--no-tags --prune --recurse-submodules");
}

#[test]
fn quotepath_is_off_for_false_only() {
    assert!(!quotepath_on("false"));
    assert!(quotepath_on("true"));
    assert!(quotepath_on(""));
    assert!(quotepath_on("False"));
}

#[test]
fn zero_sha_is_forty_zeros() {
    assert!(is_zero_sha("0000000000000000000000000000000000000000"));
    assert!(!is_zero_sha("000000000000000000000000000000000000000"));
    assert!(!is_zero_sha("00000000000000000000000000000000000000000"));
    assert!(!is_zero_sha("0000000000000000000000000000000000000001"));
    assert!(!is_zero_sha(""));
}

#[test]
fn plan_event_for_a_push() {
    let vars = get_env_vars(&environment(&[
        ("GITHUB_REF", "refs/heads/main"),
        ("GITHUB_REFNAME", "main"),
        ("GITHUB_EVENT_BEFORE", "bef0"),
        ("GITHUB_EVENT_FORCED", "true"),
        ("GITHUB_EVENT_BASE_REF", "refs/heads/other"),
    ]));
    match plan_event(&options(), &vars, true, vec!["sub".to_string()]) {
        Event::Push(inputs) => {
            assert!(!inputs.is_tag);
            assert_eq!(inputs.extra_args, "--no-tags --prune --recurse-submodules");
            assert_eq!(inputs.source_branch, "");
            assert!(inputs.is_shallow_clone);
            assert_eq!(inputs.github_refname, "main");
            assert!(inputs.github_event_forced);
            assert_eq!(inputs.github_event_before, "bef0");
            assert_eq!(inputs.submodules, vec!["sub".to_string()]);
            assert_eq!(inputs.fetch_depth, 25);
            assert_eq!(inputs.until, "friday");
            assert_eq!(inputs.since, "monday");
            assert_eq!(inputs.sha, "cafe");
            assert_eq!(inputs.base_sha, "beef");
            assert!(inputs.since_last_remote_commit);
        }
        other => panic!("expected a push, got {:?}", other),
    }
}

#[test]
fn plan_event_for_a_tag() {
    let vars = get_env_vars(&environment(&[
        ("GITHUB_REF", "refs/tags/v2"),
        ("GITHUB_REFNAME", "v2"),
        ("GITHUB_EVENT_BASE_REF", "refs/heads/release"),
    ]));
    match plan_event(&options(), &vars, false, vec![]) {
        Event::Push(inputs) => {
            assert!(inputs.is_tag);
            assert_eq!(inputs.extra_args, "--prune --no-recurse-submodules");
            assert_eq!(inputs.source_branch, "release");
            assert!(!inputs.is_shallow_clone);
            assert!(!inputs.github_event_forced);
        }
        other => panic!("expected a push, got {:?}", other),
    }
}

#[test]
fn plan_event_for_a_pull_request() {
    let vars = get_env_vars(&environment(&[
        ("GITHUB_REF", "refs/pull/7/merge"),
        ("GITHUB_EVENT_PULL_REQUEST_BASE_REF", "main"),
        ("GITHUB_EVENT_PULL_REQUEST_HEAD_REF", "feature"),
        ("GITHUB_EVENT_PULL_REQUEST_NUMBER", "7"),
        ("GITHUB_EVENT_PULL_REQUEST_BASE_SHA", "b45e"),
        ("GITHUB_EVENT_HEAD_REPO_FORK", "true"),
        ("GITHUB_EVENT_BEFORE", "bef0"),
    ]));
    match plan_event(&options(), &vars, true, vec![]) {
        Event::PullRequest(inputs) => {
            assert_eq!(inputs.extra_args, "--no-tags --prune --recurse-submodules");
            assert_eq!(inputs.github_event_before, "bef0");
            assert_eq!(inputs.github_event_pull_request_base_ref, "main");
            assert_eq!(inputs.github_event_pull_request_head_ref, "feature");
            assert_eq!(inputs.github_event_head_repo_fork, "true");
            assert_eq!(inputs.github_event_pull_request_number, "7");
            assert_eq!(inputs.github_event_pull_request_base_sha, "b45e");
            assert!(inputs.is_shallow_clone);
            assert_eq!(inputs.fetch_depth, 25);
            assert_eq!(inputs.until, "friday");
            assert_eq!(inputs.sha, "cafe");
            assert_eq!(inputs.base_sha, "beef");
            assert!(inputs.since_last_remote_commit);
        }
        other => panic!("expected a pull request, got {:?}", other),
    }
}

#[test]
fn every_failure_has_a_message_and_a_status() {
    let failures = [
        Failure::CurrentCommitNotFound,
        Failure::PreviousCommitNotFound,
        Failure::NoPreviousCommit,
        Failure::SimilarCommits,
        Failure::NoDifference,
        Failure::MergeBaseNotFound,
        Failure::DiffUnavailable,
        Failure::SubmoduleNotFound,
    ];
    for failure in failures.iter() {
        assert!(!message(*failure).is_empty());
        let outcome = Resolution::Fatal {
            failure: *failure,
            previous: String::new(),
            current: String::new(),
        };
        assert_eq!(outcome.exit_code(), 1);
    }
    assert_eq!(message(Failure::NoPreviousCommit), "Unable to locate a previous commit.");
    assert_eq!(Resolution::InitialCommit.exit_code(), 0);
}

#[test]
fn refspec_texts() {
    assert_eq!(Refspec::Default.text(), "");
    assert_eq!(
        Refspec::Branch("main".to_string()).text(),
        "+refs/heads/main:refs/remotes/origin/main"
    );
    assert_eq!(
        Refspec::BranchFamily("feat".to_string()).text(),
        "+refs/heads/feat*:refs/remotes/origin/feat*"
    );
    assert_eq!(
        Refspec::PullHead { number: "42".to_string(), branch: "feat".to_string() }.text(),
        "pull/42/head:feat"
    );
}

#[test]
fn replies_read_leniently() {
    assert!(Reply::Status(true).is_success());
    assert!(!Reply::Status(false).is_success());
    assert!(!Reply::Commit(Some("a".to_string())).is_success());
    assert_eq!(Reply::Commit(Some("a".to_string())).get_commit(), Some("a".to_string()));
    assert_eq!(Reply::Commit(None).get_commit(), None);
    assert_eq!(Reply::Status(true).get_commit(), None);
    assert_eq!(Reply::Commit(None).get_commit_or_empty(), "");
    assert_eq!(Reply::Commit(Some("a".to_string())).get_commit_or_empty(), "a");
    assert_eq!(Reply::Names(vec!["x".to_string()]).get_names(), vec!["x".to_string()]);
    assert_eq!(Reply::Status(true).get_names(), Vec::<String>::new());
}
