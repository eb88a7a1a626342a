use gitcode_pr_review::filter::{denylist, eligible, matches_any_suffix};

#[test]
fn denied_suffixes_are_not_eligible() {
    assert!(!eligible("README.md"));
    assert!(!eligible("app.js"));
    assert!(!eligible("style.css"));
    assert!(!eligible("index.html"));
    assert!(!eligible("index.htm"));
    assert!(!eligible("docs/guide/intro.md"));
    assert!(!eligible(".md"));
}

#[test]
fn source_files_are_eligible() {
    assert!(eligible("a.py"));
    assert!(eligible("src/lib.rs"));
    assert!(eligible("main.ts"));
    assert!(eligible("app.jsx"));
    assert!(eligible("Makefile"));
    assert!(eligible(""));
}

#[test]
fn suffix_match_is_case_sensitive() {
    assert!(eligible("README.MD"));
    assert!(eligible("App.JS"));
    assert!(eligible("index.HTML"));
}

#[test]
fn suffix_must_stand_at_the_end() {
    assert!(eligible("notes.md.txt"));
    assert!(eligible("md"));
    assert!(eligible("a.html.bak"));
    assert!(!eligible("a.bak.html"));
}

#[test]
fn eligibility_is_stable() {
    for name in ["a.py", "a.md", "x.htm", "x.html", "weird.css.rs"] {
        assert_eq!(eligible(name), eligible(name));
    }
    let names = vec!["a.py", "a.md", "b.rs", "c.js", "d.go"];
    let once: Vec<&str> = names.iter().copied().filter(|n| eligible(n)).collect();
    let twice: Vec<&str> = once.iter().copied().filter(|n| eligible(n)).collect();
    assert_eq!(once, vec!["a.py", "b.rs", "d.go"]);
    assert_eq!(once, twice);
}

#[test]
fn denylist_holds_the_five_suffixes() {
    assert_eq!(denylist(), vec![".md", ".js", ".css", ".html", ".htm"]);
}

#[test]
fn matches_any_suffix_over_a_given_list() {
    let list = vec![".lock", ".svg"];
    assert!(matches_any_suffix("Cargo.lock", &list));
    assert!(matches_any_suffix("logo.svg", &list));
    assert!(!matches_any_suffix("README.md", &list));
    assert!(!matches_any_suffix("README.md", &Vec::new()));
}
