use gitcode_pr_review::report::{
    Report, ReviewFragment, ISSUES_TITLE, PREAMBLE, SENTINEL, SUMMARY_TITLE,
};

fn fragment(filename: &str, link: &str, issues: &str, summary: &str) -> ReviewFragment {
    ReviewFragment {
        filename: filename.to_string(),
        link: link.to_string(),
        issues: issues.to_string(),
        summary: summary.to_string(),
    }
}

#[test]
fn preamble_is_fixed() {
    assert_eq!(
        PREAMBLE,
        "Hello, I am a [code review agent](https://github.com/flows-network/github-pr-review/) on [flows.network](https://flows.network/). Here are my reviews of changed source code files in this PR.\n\n------\n\n"
    );
    assert_eq!(SENTINEL, "N/A");
    assert_eq!(ISSUES_TITLE, "#### Potential issues");
    assert_eq!(SUMMARY_TITLE, "#### Summary of changes");
}

#[test]
fn new_report_is_preamble_only() {
    let report = Report::new();
    assert_eq!(report.as_str(), PREAMBLE);
    assert_eq!(report.into_text(), PREAMBLE);
}

#[test]
fn append_writes_heading_and_sections() {
    let mut report = Report::new();
    report.append(&fragment("a.py", "http://x/a.py", "looks fine", "adds print"));
    let expected = format!(
        "{}{}",
        PREAMBLE,
        "## [a.py](http://x/a.py)\n\n#### Potential issues\n\nlooks fine\n\n#### Summary of changes\n\nadds print\n\n"
    );
    assert_eq!(report.as_str(), expected);
}

#[test]
fn append_keeps_order_and_earlier_text() {
    let a = fragment("a.py", "http://x/a.py", "ia", "sa");
    let b = fragment("b.rs", "http://x/b.rs", "ib", "sb");
    let mut report = Report::new();
    report.append(&a);
    let after_a = report.as_str().to_string();
    report.append(&b);
    let after_b = report.as_str().to_string();
    assert!(after_b.starts_with(&after_a));
    assert_eq!(
        after_b,
        format!(
            "{}{}{}",
            PREAMBLE,
            "## [a.py](http://x/a.py)\n\n#### Potential issues\n\nia\n\n#### Summary of changes\n\nsa\n\n",
            "## [b.rs](http://x/b.rs)\n\n#### Potential issues\n\nib\n\n#### Summary of changes\n\nsb\n\n"
        )
    );
    assert_eq!(after_b.matches(PREAMBLE).count(), 1);
}

#[test]
fn append_is_associative() {
    let fragments = vec![
        fragment("a.py", "la", "ia", "sa"),
        fragment("b.rs", "lb", "ib", "sb"),
        fragment("c.go", "lc", "ic", "sc"),
    ];
    let mut one_by_one = Report::new();
    for f in &fragments {
        one_by_one.append(f);
    }
    let mut tail = String::new();
    for f in &fragments {
        let mut single = Report::new();
        single.append(f);
        tail.push_str(&single.as_str()[PREAMBLE.len()..]);
    }
    assert_eq!(one_by_one.as_str(), format!("{}{}", PREAMBLE, tail));
}

#[test]
fn append_with_sentinel_sections() {
    let mut report = Report::new();
    report.append(&fragment("a.py", "u", SENTINEL, SENTINEL));
    assert_eq!(
        report.into_text(),
        format!(
            "{}## [a.py](u)\n\n#### Potential issues\n\nN/A\n\n#### Summary of changes\n\nN/A\n\n",
            PREAMBLE
        )
    );
}

#[test]
fn append_with_empty_fields() {
    let mut report = Report::new();
    report.append(&fragment("", "", "", ""));
    assert_eq!(
        report.as_str(),
        format!(
            "{}## []()\n\n#### Potential issues\n\n\n\n#### Summary of changes\n\n\n\n",
            PREAMBLE
        )
    );
}
