use gitcode_pr_review::text::{chars_of, ends_with, last_path_segment, truncate};

#[test]
fn truncate_keeps_short_text() {
    assert_eq!(truncate("print(1)", 100), "print(1)");
    assert_eq!(truncate("print(1)", 8), "print(1)");
    assert_eq!(truncate("", 5), "");
}

#[test]
fn truncate_cuts_to_bound() {
    assert_eq!(truncate("print(1)", 5), "print");
    assert_eq!(truncate("abc", 1), "a");
}

#[test]
fn truncate_with_zero_bound_is_empty() {
    assert_eq!(truncate("anything at all", 0), "");
    assert_eq!(truncate("", 0), "");
}

#[test]
fn truncate_counts_characters_not_bytes() {
    let text = "héllo wörld";
    assert_eq!(truncate(text, 2), "hé");
    assert_eq!(truncate(text, 8), "héllo wö");
    let wide = "日本語のテキスト";
    assert_eq!(truncate(wide, 3), "日本語");
    assert_eq!(truncate(wide, 3).len(), 9);
    let mixed = "a😀b😀c";
    assert_eq!(truncate(mixed, 2), "a😀");
    assert_eq!(truncate(mixed, 4), "a😀b😀");
    assert_eq!(truncate(mixed, 5), mixed);
}

#[test]
fn truncate_result_is_valid_prefix() {
    let text = "ß∑😀x";
    for bound in 0..6usize {
        let cut = truncate(text, bound);
        assert!(text.starts_with(cut));
        assert!(cut.chars().count() <= bound);
        assert!(String::from_utf8(cut.as_bytes().to_vec()).is_ok());
        assert_eq!(cut.chars().count(), bound.min(4));
    }
}

#[test]
fn chars_of_lists_characters() {
    assert_eq!(chars_of("aé😀"), vec!['a', 'é', '😀']);
    assert_eq!(chars_of(""), Vec::<char>::new());
}

#[test]
fn ends_with_matches_suffix() {
    assert!(ends_with("README.md", ".md"));
    assert!(ends_with(".md", ".md"));
    assert!(ends_with("anything", ""));
    assert!(ends_with("", ""));
    assert!(!ends_with("md", ".md"));
    assert!(!ends_with("README.md.txt", ".md"));
    assert!(!ends_with("README.MD", ".md"));
    assert!(!ends_with("", ".md"));
    assert!(ends_with("naïve.é", ".é"));
}

#[test]
fn last_path_segment_takes_what_follows_last_slash() {
    assert_eq!(last_path_segment("https://gitcode.com/org/repo/pulls/42"), "42");
    assert_eq!(last_path_segment("a/b"), "b");
    assert_eq!(last_path_segment("/7"), "7");
}

#[test]
fn last_path_segment_without_slash_is_whole() {
    assert_eq!(last_path_segment("42"), "42");
    assert_eq!(last_path_segment(""), "");
}

#[test]
fn last_path_segment_after_trailing_slash_is_empty() {
    assert_eq!(last_path_segment("org/repo/pulls/"), "");
    assert_eq!(last_path_segment("/"), "");
    assert_eq!(last_path_segment("é/ü/"), "");
    assert_eq!(last_path_segment("é/ü"), "ü");
}
