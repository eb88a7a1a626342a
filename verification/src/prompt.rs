//! The texts sent to the language model: the instruction that opens each request,
//! and the system instruction that ties a conversation to its pull request.

use vstd::prelude::*;

verus! {

/// Opens a request for a code review. The file's text follows it.
pub const REVIEW_INSTRUCTION: &'static str =
    "Review the following source code and report only major bugs or issues. The most important coding issues should be reported first. You should report NO MORE THAN 3 issues. Be very concise and explain each coding issue in one sentence. The code might be truncated. NEVER comment on the completeness of the source code.\n\n";

/// Opens a request for a summary of a diff. The diff follows it.
pub const SUMMARY_INSTRUCTION: &'static str =
    "The following is a diff file. Please summarize key changes in short bullet points. List the most important changes first. You list should contain no more than the top 3 most important changes.  \n\n";

/// The system instruction up to the title of the pull request.
pub const SYSTEM_OPENING: &'static str =
    "You are an experienced software developer. You will review a source code file and its patch related to the subject of \"";

/// The system instruction behind the title of the pull request.
pub const SYSTEM_CLOSING: &'static str =
    "\". Please be as concise as possible while being accurate.";

/// What a request asks the model for.
#[derive(Debug, Clone, Copy, PartialEq, Eq, Structural)]
pub enum Intent {
    /// Report the major issues of a source file.
    CodeReview,
    /// Summarise the key changes of a diff.
    DiffSummary,
}

/// The instruction that opens a request of the given intent.
pub open spec fn instruction(intent: Intent) -> Seq<char> {
    match intent {
        Intent::CodeReview => REVIEW_INSTRUCTION@,
        Intent::DiffSummary => SUMMARY_INSTRUCTION@,
    }
}

/// The user turn of a request: the instruction, then `text` as it is.
pub open spec fn prompt_text(intent: Intent, text: Seq<char>) -> Seq<char> {
    instruction(intent) + text
}

/// The system instruction for a pull request called `title`.
pub open spec fn system_text(title: Seq<char>) -> Seq<char> {
    SYSTEM_OPENING@ + title + SYSTEM_CLOSING@
}

/// Builds the user turn of a request: the instruction for `intent`, followed by
/// `text` unchanged.
pub fn build_prompt(intent: Intent, text: &str) -> (prompt: String)
    ensures
        prompt@ == prompt_text(intent, text@),
{
    let mut prompt = String::new();
    match intent {
        Intent::CodeReview => prompt.append(REVIEW_INSTRUCTION),
        Intent::DiffSummary => prompt.append(SUMMARY_INSTRUCTION),
    }
    prompt.append(text);
    assert(prompt@ =~= prompt_text(intent, text@));
    prompt
}

/// Builds the system instruction, which names the subject of the pull request.
pub fn system_instruction(title: &str) -> (system: String)
    ensures
        system@ == system_text(title@),
{
    let mut system = String::new();
    system.append(SYSTEM_OPENING);
    system.append(title);
    system.append(SYSTEM_CLOSING);
    assert(system@ =~= system_text(title@));
    system
}

} // verus!
