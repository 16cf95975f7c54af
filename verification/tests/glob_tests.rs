use changed_files::glob_filter::{
    decide, get_glob_patterns, matches_any, split_by_flags, split_list, GlobFilter, SourceFile,
};

fn strings(items: &[&str]) -> Vec<String> {
    items.iter().map(|s| s.to_string()).collect()
}

fn filter_of(wanted: &[&str], ignored: &[&str]) -> GlobFilter {
    GlobFilter { wanted: strings(wanted), ignored: strings(ignored) }
}

fn source(name: &str, contents: Option<&str>) -> SourceFile {
    SourceFile { name: name.to_string(), contents: contents.map(|c| c.to_string()) }
}

fn law(wanted: &[&str], ignored: &[&str], path: &str) -> bool {
    let hit = |list: &[&str]| {
        list.iter().any(|p| glob::Pattern::new(&p.to_lowercase()).unwrap().matches(&path.to_lowercase()))
    };
    (wanted.is_empty() || hit(wanted)) && !hit(ignored)
}

#[test]
fn empty_filter_keeps_everything() {
    let filter = GlobFilter::empty();
    assert!(filter.matches("src/main.rs"));
    assert!(filter.matches(""));
    assert!(filter.matches(".hidden/file"));
}

#[test]
fn decide_combines_the_two_lists() {
    assert!(decide(0, false, false));
    assert!(!decide(0, false, true));
    assert!(decide(2, true, false));
    assert!(!decide(2, false, false));
    assert!(!decide(2, true, true));
    assert!(!decide(0, true, true));
}

#[test]
fn wanted_patterns_select_paths() {
    let filter = filter_of(&["*.rs", "docs/**"], &[]);
    assert!(filter.matches("main.rs"));
    assert!(filter.matches("src/main.rs"));
    assert!(filter.matches("docs/a/b.md"));
    assert!(!filter.matches("README.md"));
}

#[test]
fn ignored_patterns_win() {
    let filter = filter_of(&["src/*"], &["*.md"]);
    assert!(filter.matches("src/lib.rs"));
    assert!(!filter.matches("src/notes.md"));
    let only_ignored = filter_of(&[], &["*.md"]);
    assert!(only_ignored.matches("src/lib.rs"));
    assert!(!only_ignored.matches("README.md"));
}

#[test]
fn matching_ignores_ascii_case() {
    let filter = filter_of(&["SRC/*.RS"], &["*.Lock"]);
    assert!(filter.matches("src/main.rs"));
    assert!(filter.matches("Src/Main.Rs"));
    let locks = filter_of(&[], &["*.Lock"]);
    assert!(!locks.matches("cargo.LOCK"));
}

#[test]
fn question_mark_and_brackets() {
    let filter = filter_of(&["file?.tx[tT]", "[!a]bc"], &[]);
    assert!(filter.matches("file1.txt"));
    assert!(!filter.matches("file12.txt"));
    assert!(filter.matches("xbc"));
    assert!(!filter.matches("abc"));
}

#[test]
fn pattern_is_not_handed_back_as_its_own_match() {
    assert!(!matches_any(&strings(&["[a-c]"]), "[a-c]"));
    assert!(matches_any(&strings(&["[a-c]"]), "b"));
    assert!(!matches_any(&strings(&["a?"]), "a"));
    assert!(!matches_any(&strings(&[]), "a"));
}

#[test]
fn malformed_pattern_in_a_filter_matches_nothing() {
    let filter = filter_of(&["[", "*.rs"], &["a**b"]);
    assert!(filter.matches("x.rs"));
    assert!(!filter.matches("["));
    assert!(!filter.matches("ab"));
}

#[test]
fn composition_law_on_examples() {
    let wanted_sets: [&[&str]; 4] = [&[], &["*.rs"], &["src/*", "*.md"], &["a?c", "[x-z]*"]];
    let ignored_sets: [&[&str]; 4] = [&[], &["*.md"], &["src/gen*", "*.lock"], &["*"]];
    let paths = ["main.rs", "src/gen.rs", "README.md", "abc", "zebra", "Cargo.lock", "", "SRC/X.RS"];
    for wanted in wanted_sets.iter() {
        for ignored in ignored_sets.iter() {
            let filter = filter_of(wanted, ignored);
            for path in paths.iter() {
                assert_eq!(
                    filter.matches(path),
                    law(wanted, ignored, path),
                    "{:?} {:?} {:?}",
                    wanted,
                    ignored,
                    path
                );
            }
        }
    }
}

#[test]
fn split_list_of_empty_text_is_empty() {
    assert_eq!(split_list("", "\n"), Vec::<String>::new());
    assert_eq!(split_list("a\nb", "\n"), strings(&["a", "b"]));
    assert_eq!(split_list("a b", " "), strings(&["a", "b"]));
    assert_eq!(split_list("\n", "\n"), strings(&["", ""]));
}

#[test]
fn split_by_flags_parts_items() {
    let (set, unset) = split_by_flags(strings(&["a", "b", "c", "d"]), &vec![true, false, true]);
    assert_eq!(set, strings(&["a", "c"]));
    assert_eq!(unset, strings(&["b", "d"]));
    let (set, unset) = split_by_flags(strings(&[]), &vec![true]);
    assert!(set.is_empty() && unset.is_empty());
}

#[test]
fn build_from_inline_lists() {
    let built = get_glob_patterns("*.rs\nsrc/**", "\n", &vec![], "*.md,target/**", ",", &vec![]);
    assert_eq!(built.filter.wanted, strings(&["*.rs", "src/**"]));
    assert_eq!(built.filter.ignored, strings(&["*.md", "target/**"]));
    assert!(built.invalid.is_empty());
    assert!(built.invalid_ignore.is_empty());
    assert!(built.unreadable.is_empty());
    assert!(built.filter.matches("src/a.rs"));
    assert!(!built.filter.matches("src/a.md"));
}

#[test]
fn build_without_patterns_keeps_everything() {
    let built = get_glob_patterns("", "\n", &vec![], "", "\n", &vec![]);
    assert!(built.filter.wanted.is_empty());
    assert!(built.filter.ignored.is_empty());
    assert!(built.filter.matches("anything/at/all"));
}

#[test]
fn build_skips_malformed_patterns() {
    let built = get_glob_patterns("*.rs\na**b\n[", "\n", &vec![], "ok/*\nx***", "\n", &vec![]);
    assert_eq!(built.filter.wanted, strings(&["*.rs"]));
    assert_eq!(built.invalid, strings(&["a**b", "["]));
    assert_eq!(built.filter.ignored, strings(&["ok/*"]));
    assert_eq!(built.invalid_ignore, strings(&["x***"]));
}

#[test]
fn build_reads_source_files_line_by_line() {
    let wanted_files = vec![source("a.txt", Some("one/*\ntwo/*")), source("b.txt", Some("three"))];
    let ignored_files = vec![source("c.txt", Some("*.tmp"))];
    let built = get_glob_patterns("zero", "\n", &wanted_files, "", "\n", &ignored_files);
    assert_eq!(built.filter.wanted, strings(&["zero", "one/*", "two/*", "three"]));
    assert_eq!(built.filter.ignored, strings(&["*.tmp"]));
}

#[test]
fn build_reports_unreadable_source_files() {
    let wanted_files = vec![source("gone.txt", None), source("here.txt", Some("*.rs"))];
    let ignored_files = vec![source("also-gone.txt", None)];
    let built = get_glob_patterns("", "\n", &wanted_files, "", "\n", &ignored_files);
    assert_eq!(built.unreadable, strings(&["gone.txt", "also-gone.txt"]));
    assert_eq!(built.filter.wanted, strings(&["*.rs"]));
    assert!(built.filter.ignored.is_empty());
}

#[test]
fn build_drops_wanted_pattern_that_an_ignored_pattern_accepts() {
    let built = get_glob_patterns("*.rs\nsrc/*", "\n", &vec![], "*.RS", "\n", &vec![]);
    assert_eq!(built.filter.wanted, strings(&["src/*"]));
    assert_eq!(built.filter.ignored, strings(&["*.RS"]));
    assert!(!built.filter.matches("main.rs"));
    assert!(built.filter.matches("src/main.c"));
    assert!(!built.filter.matches("src/main.rs"));
}

#[test]
fn shared_pattern_text_is_ignored() {
    let built = get_glob_patterns("docs/*\n*.md", "\n", &vec![], "*.md", "\n", &vec![]);
    assert_eq!(built.filter.wanted, strings(&["docs/*"]));
    assert!(!built.filter.matches("README.md"));
    assert!(!built.filter.matches("docs/index.md"));
    assert!(built.filter.matches("docs/index.html"));
}

#[test]
fn shared_bracket_pattern_is_not_dropped() {
    let built = get_glob_patterns("[a-c]", "\n", &vec![], "[a-c]", "\n", &vec![]);
    assert_eq!(built.filter.wanted, strings(&["[a-c]"]));
    assert!(!built.filter.matches("b"));
    assert!(!built.filter.matches("x"));
}

#[test]
fn dropping_every_wanted_pattern_leaves_only_the_ignored_list() {
    let built = get_glob_patterns("*.rs", "\n", &vec![], "*.rs", "\n", &vec![]);
    assert!(built.filter.wanted.is_empty());
    assert!(built.filter.matches("a.txt"));
    assert!(!built.filter.matches("a.rs"));
}

#[test]
fn build_keeps_the_empty_pattern_of_a_trailing_separator() {
    let built = get_glob_patterns("*.rs\n", "\n", &vec![], "", "\n", &vec![]);
    assert_eq!(built.filter.wanted, strings(&["*.rs", ""]));
    assert!(built.filter.matches(""));
    assert!(built.filter.matches("a.rs"));
    assert!(!built.filter.matches("a.md"));
}
