use gitcode_pr_review::endpoints::{comments_url, files_url};
use gitcode_pr_review::identity::{extract_pull_number, PullRequestIdentity};
use gitcode_pr_review::prompt::{
    build_prompt, system_instruction, Intent, REVIEW_INSTRUCTION, SUMMARY_INSTRUCTION,
};
use gitcode_pr_review::session::{build_request, section_text_of, CompletionRequest, ReviewContext};
use gitcode_pr_review::settings::ModelSettings;

#[test]
fn pull_number_is_last_segment() {
    assert_eq!(extract_pull_number("https://gitcode.com/org/repo/pulls/42"), "42");
    assert_eq!(extract_pull_number(".../42"), "42");
    assert_eq!(extract_pull_number("17"), "17");
    assert_eq!(extract_pull_number("org/repo/pulls/0"), "0");
    assert_eq!(extract_pull_number("a/b/draft"), "draft");
}

#[test]
fn pull_number_defaults_to_zero_when_absent() {
    assert_eq!(extract_pull_number(""), "0");
    assert_eq!(extract_pull_number("/"), "0");
}

#[test]
fn pull_number_of_reference_ending_in_slash() {
    assert_eq!(extract_pull_number("https://gitcode.com/org/repo/pulls/"), "0");
    assert_eq!(extract_pull_number("https://gitcode.com/org/repo/pulls/42/"), "0");
}

#[test]
fn identity_from_event() {
    let identity = PullRequestIdentity::from_event(
        "org/repo".to_string(),
        ".../42",
        "Fix bug".to_string(),
    );
    assert_eq!(
        identity,
        PullRequestIdentity {
            repository: "org/repo".to_string(),
            pull_number: "42".to_string(),
            title: "Fix bug".to_string(),
        }
    );
}

#[test]
fn identity_from_event_without_number() {
    let identity =
        PullRequestIdentity::from_event("org/repo".to_string(), "", "Fix bug".to_string());
    assert_eq!(identity.repository, "org/repo");
    assert_eq!(identity.pull_number, "0");
    assert_eq!(identity.title, "Fix bug");
    let context = ReviewContext::new(&identity, &ModelSettings::resolve(None, None, None, None));
    assert_eq!(context.pr_identifier, "PR#0");
}

#[test]
fn review_prompt_is_instruction_then_text() {
    assert_eq!(
        build_prompt(Intent::CodeReview, "print(1)"),
        "Review the following source code and report only major bugs or issues. The most important coding issues should be reported first. You should report NO MORE THAN 3 issues. Be very concise and explain each coding issue in one sentence. The code might be truncated. NEVER comment on the completeness of the source code.\n\nprint(1)"
    );
    assert_eq!(build_prompt(Intent::CodeReview, ""), REVIEW_INSTRUCTION);
}

#[test]
fn summary_prompt_is_instruction_then_diff() {
    assert_eq!(
        build_prompt(Intent::DiffSummary, "+print(1)"),
        "The following is a diff file. Please summarize key changes in short bullet points. List the most important changes first. You list should contain no more than the top 3 most important changes.  \n\n+print(1)"
    );
    assert_eq!(build_prompt(Intent::DiffSummary, ""), SUMMARY_INSTRUCTION);
}

#[test]
fn system_instruction_names_the_title() {
    assert_eq!(
        system_instruction("Fix bug"),
        "You are an experienced software developer. You will review a source code file and its patch related to the subject of \"Fix bug\". Please be as concise as possible while being accurate."
    );
}

#[test]
fn context_is_scoped_to_the_pull_request() {
    let identity = PullRequestIdentity::from_event(
        "org/repo".to_string(),
        "x/42",
        "Fix bug".to_string(),
    );
    let settings = ModelSettings::resolve(None, None, Some("100".to_string()), None);
    let context = ReviewContext::new(&identity, &settings);
    assert_eq!(context.pr_identifier, "PR#42");
    assert_eq!(context.system_instruction, system_instruction("Fix bug"));
    assert_eq!(context.model_name, "gpt-4o");
    assert_eq!(context.token_limit, 100);
    assert_eq!(context.character_budget(), 200);
    assert_eq!(context.duplicate(), context);
}

#[test]
fn request_carries_context_and_restarts() {
    let identity =
        PullRequestIdentity::from_event("org/repo".to_string(), "7", "T".to_string());
    let settings = ModelSettings::resolve(None, Some("m".to_string()), None, None);
    let context = ReviewContext::new(&identity, &settings);
    let request = build_request(&context, Intent::DiffSummary, "diff");
    assert_eq!(
        request,
        CompletionRequest {
            conversation_id: "PR#7".to_string(),
            prompt: format!("{}diff", SUMMARY_INSTRUCTION),
            model: "m".to_string(),
            token_limit: 16384,
            restart: true,
            system_prompt: system_instruction("T"),
        }
    );
}

#[test]
fn section_is_answer_or_sentinel() {
    assert_eq!(section_text_of(Some("looks fine".to_string())), "looks fine");
    assert_eq!(section_text_of(Some(String::new())), "");
    assert_eq!(section_text_of(None), "N/A");
}

#[test]
fn endpoints_name_repository_and_pull() {
    assert_eq!(
        files_url("DevCloudFE/vue-devui", "2", "tok"),
        "https://api.gitcode.com/api/v5/repos/DevCloudFE/vue-devui/pulls/2/files?access_token=tok"
    );
    assert_eq!(
        comments_url("org/repo", "42", "tok"),
        "https://api.gitcode.com/api/v5/repos/org/repo/pulls/42/comments?access_token=tok"
    );
}
