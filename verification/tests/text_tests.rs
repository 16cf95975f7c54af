use changed_files::text::{
    chars_of, find, is_true, is_whitespace, matches_at, remove, same, split, starts_with, text_of,
    words,
};

fn std_split(s: &str, sep: &str) -> Vec<String> {
    s.split(sep).map(|p| p.to_string()).collect()
}

fn std_words(s: &str) -> Vec<String> {
    s.split_whitespace().map(|p| p.to_string()).collect()
}

#[test]
fn split_on_newline() {
    assert_eq!(split("a\nb\nc", "\n"), vec!["a", "b", "c"]);
}

#[test]
fn split_keeps_empty_pieces() {
    assert_eq!(split("a\n\nb\n", "\n"), vec!["a", "", "b", ""]);
    assert_eq!(split("\n", "\n"), vec!["", ""]);
}

#[test]
fn split_without_separator_is_one_piece() {
    assert_eq!(split("abc", ","), vec!["abc"]);
    assert_eq!(split("", ","), vec![""]);
}

#[test]
fn split_on_long_separator() {
    assert_eq!(split("a::b::c", "::"), vec!["a", "b", "c"]);
    assert_eq!(split("a:b::c:", "::"), vec!["a:b", "c:"]);
}

#[test]
fn split_scans_from_the_left() {
    assert_eq!(split("aaa", "aa"), vec!["", "a"]);
    assert_eq!(split("aaaa", "aa"), vec!["", "", ""]);
}

#[test]
fn split_on_empty_separator() {
    assert_eq!(split("abc", ""), vec!["", "a", "b", "c", ""]);
    assert_eq!(split("", ""), vec!["", ""]);
}

#[test]
fn split_agrees_with_std() {
    let texts = ["", "a", "a,b", ",a,,b,", "x--y---z", "héllo wörld", "日本語,テキスト", "aaaa", "abcabcabc"];
    let separators = [",", "--", "a", "bc", " ", "", "ö", "語,", "abcabcabcd"];
    for text in texts.iter() {
        for sep in separators.iter() {
            assert_eq!(split(text, sep), std_split(text, sep), "{:?} by {:?}", text, sep);
        }
    }
}

#[test]
fn words_of_git_version_output() {
    assert_eq!(words("git version 2.39.2\n"), vec!["git", "version", "2.39.2"]);
}

#[test]
fn words_agree_with_std() {
    let texts = [
        "",
        " ",
        "a",
        "  a  b\tc\n",
        "one\r\ntwo\r\n",
        "\u{a0}x\u{2003}y\u{3000}",
        "tab\tseparated\u{b}and\u{c}more",
        "no-break\u{202f}narrow\u{205f}math\u{1680}ogham\u{85}next\u{2028}line\u{2029}par",
        "zero\u{200b}width",
    ];
    for text in texts.iter() {
        assert_eq!(words(text), std_words(text), "{:?}", text);
    }
}

#[test]
fn whitespace_agrees_with_std() {
    let mut c: u32 = 0;
    while c < 0x3100 {
        if let Some(ch) = char::from_u32(c) {
            assert_eq!(is_whitespace(ch), ch.is_whitespace(), "{:x}", c);
        }
        c += 1;
    }
}

#[test]
fn remove_strips_every_occurrence() {
    assert_eq!(remove("refs/heads/main", "refs/heads/"), "main");
    assert_eq!(remove("refs/heads/a/refs/heads/b", "refs/heads/"), "a/b");
    assert_eq!(remove("main", "refs/heads/"), "main");
    assert_eq!(remove("", "refs/heads/"), "");
}

#[test]
fn remove_agrees_with_std() {
    let texts = ["", "aaa", "abcabc", "refs/heads/refs/heads/x", "xyz"];
    let patterns = ["a", "aa", "bc", "refs/heads/", "", "xyz"];
    for text in texts.iter() {
        for pat in patterns.iter() {
            assert_eq!(remove(text, pat), text.replace(pat, ""), "{:?} without {:?}", text, pat);
        }
    }
}

#[test]
fn starts_with_prefix() {
    assert!(starts_with("refs/tags/v1", "refs/tags/"));
    assert!(!starts_with("refs/heads/v1", "refs/tags/"));
    assert!(!starts_with("refs/tag", "refs/tags/"));
    assert!(starts_with("abc", ""));
    assert!(starts_with("", ""));
    assert!(!starts_with("", "a"));
}

#[test]
fn same_text() {
    assert!(same("abc", "abc"));
    assert!(!same("abc", "abd"));
    assert!(!same("abc", "ab"));
    assert!(!same("ab", "abc"));
    assert!(same("", ""));
}

#[test]
fn true_is_the_only_truth() {
    assert!(is_true("true"));
    assert!(!is_true("True"));
    assert!(!is_true("true "));
    assert!(!is_true(""));
    assert!(!is_true("false"));
    assert!(!is_true("1"));
}

#[test]
fn find_first_occurrence() {
    let s = chars_of("abcabc");
    let p = chars_of("bc");
    assert_eq!(find(&s, &p, 0), Some(1));
    assert_eq!(find(&s, &p, 1), Some(1));
    assert_eq!(find(&s, &p, 2), Some(4));
    assert_eq!(find(&s, &p, 5), None);
    assert_eq!(find(&s, &p, 100), None);
    assert_eq!(find(&p, &s, 0), None);
}

#[test]
fn matches_at_index() {
    let s = chars_of("abcabc");
    let p = chars_of("cab");
    assert!(matches_at(&s, &p, 2));
    assert!(!matches_at(&s, &p, 0));
    assert!(!matches_at(&s, &p, 5));
    assert!(!matches_at(&s, &p, usize::MAX));
    assert!(matches_at(&s, &chars_of(""), 6));
    assert!(!matches_at(&s, &chars_of(""), 7));
}

#[test]
fn chars_of_text() {
    assert_eq!(chars_of("aé日"), vec!['a', 'é', '日']);
    assert_eq!(chars_of(""), Vec::<char>::new());
}

#[test]
fn text_of_a_range_of_characters() {
    let chars = chars_of("héllo");
    assert_eq!(text_of(&chars, 0, 5), "héllo");
    assert_eq!(text_of(&chars, 1, 3), "él");
    assert_eq!(text_of(&chars, 2, 2), "");
    assert_eq!(text_of(&chars, 3, 100), "lo");
    assert_eq!(text_of(&chars, 4, 2), "");
    assert_eq!(text_of(&chars, 9, 12), "");
    assert_eq!(text_of(&vec![], 0, 0), "");
}

#[test]
fn split_of_a_long_list_is_quick() {
    let mut list = String::new();
    for i in 0..20000 {
        list.push_str(&format!("dir{}/**/*.rs\n", i));
    }
    let pieces = split(&list, "\n");
    assert_eq!(pieces.len(), 20001);
    assert_eq!(pieces[19999], "dir19999/**/*.rs");
    assert_eq!(pieces[20000], "");
    assert_eq!(words(&list).len(), 20000);
}
