use gitcode_pr_review::files::{details_of, FileChange, FileDetail, Patch};

fn change(name: &str) -> FileChange {
    FileChange {
        sha: format!("sha-{}", name),
        filename: name.to_string(),
        additions: 3,
        deletions: -1,
        raw_url: format!("http://x/{}", name),
        patch: Patch {
            diff: format!("@@ {} @@", name),
            old_path: format!("old/{}", name),
            new_path: format!("new/{}", name),
            new_file: true,
            renamed_file: false,
            deleted_file: true,
        },
    }
}

#[test]
fn detail_from_change_flattens_patch() {
    let detail = FileDetail::from(change("a.py"));
    assert_eq!(
        detail,
        FileDetail {
            sha: "sha-a.py".to_string(),
            filename: "a.py".to_string(),
            additions: 3,
            deletions: -1,
            raw_url: "http://x/a.py".to_string(),
            diff: "@@ a.py @@".to_string(),
            old_path: "old/a.py".to_string(),
            new_path: "new/a.py".to_string(),
            new_file: true,
            renamed_file: false,
            deleted_file: true,
        }
    );
}

#[test]
fn detail_from_change_through_into() {
    let detail: FileDetail = change("b.rs").into();
    assert_eq!(detail.filename, "b.rs");
    assert_eq!(detail.diff, "@@ b.rs @@");
    assert!(!detail.renamed_file);
}

#[test]
fn details_of_keeps_order() {
    let details = details_of(vec![change("a.py"), change("b.md"), change("c.rs")]);
    let names: Vec<&str> = details.iter().map(|d| d.filename.as_str()).collect();
    assert_eq!(names, vec!["a.py", "b.md", "c.rs"]);
    assert_eq!(details[1], FileDetail::from(change("b.md")));
}

#[test]
fn details_of_empty_listing() {
    assert_eq!(details_of(Vec::new()), Vec::<FileDetail>::new());
}
