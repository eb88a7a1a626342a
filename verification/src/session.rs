//! The review session of one pull request: what is asked of the language model,
//! and what becomes of its answer.
//!
//! The session does not talk to the model itself. It builds each request in full
//! and turns each outcome into the text of a report section.

use crate::identity::{IdentityView, PullRequestIdentity};
use crate::prompt::{build_prompt, prompt_text, system_instruction, system_text, Intent};
use crate::report::SENTINEL;
use crate::settings::{budget_of, character_budget, ModelSettings};
use vstd::prelude::*;

verus! {

/// What the conversation of a pull request is called, up to the pull number.
pub const CONVERSATION_PREFIX: &'static str = "PR#";

/// What all requests of one invocation share.
#[derive(Debug, PartialEq, Eq)]
pub struct ReviewContext {
    /// Names the conversation: one for each pull request.
    pub pr_identifier: String,
    pub system_instruction: String,
    pub model_name: String,
    /// The size of the model's context, in tokens.
    pub token_limit: u32,
}

/// What a `ReviewContext` holds.
pub struct ContextView {
    pub pr_identifier: Seq<char>,
    pub system_instruction: Seq<char>,
    pub model_name: Seq<char>,
    pub token_limit: u32,
}

impl View for ReviewContext {
    type V = ContextView;

    open spec fn view(&self) -> ContextView {
        ContextView {
            pr_identifier: self.pr_identifier@,
            system_instruction: self.system_instruction@,
            model_name: self.model_name@,
            token_limit: self.token_limit,
        }
    }
}

impl ContextView {
    /// How many characters of a text are sent to the model at most.
    pub open spec fn budget(self) -> nat {
        budget_of(self.token_limit) as nat
    }
}

/// The context for the reviews of `identity` by the model `model_name`.
pub open spec fn context_for(identity: IdentityView, model_name: Seq<char>, token_limit: u32)
    -> ContextView {
    ContextView {
        pr_identifier: CONVERSATION_PREFIX@ + identity.pull_number,
        system_instruction: system_text(identity.title),
        model_name,
        token_limit,
    }
}

impl ReviewContext {
    /// Sets up the context of one invocation: the conversation is named after the
    /// pull number, the system instruction after the title.
    pub fn new(identity: &PullRequestIdentity, settings: &ModelSettings) -> (context: ReviewContext)
        ensures
            context@ == context_for(identity@, settings.model_name@, settings.token_limit),
    {
        let mut pr_identifier = String::new();
        pr_identifier.append(CONVERSATION_PREFIX);
        pr_identifier.append(identity.pull_number.as_str());
        assert(pr_identifier@ =~= CONVERSATION_PREFIX@ + identity.pull_number@);
        ReviewContext {
            pr_identifier,
            system_instruction: system_instruction(identity.title.as_str()),
            model_name: settings.model_name.clone(),
            token_limit: settings.token_limit,
        }
    }

    /// How many characters of a text are sent to the model at most: twice the
    /// token limit.
    pub fn character_budget(&self) -> (budget: usize)
        ensures
            budget == self@.budget(),
    {
        character_budget(self.token_limit)
    }

    /// A copy of the context.
    pub fn duplicate(&self) -> (copy: ReviewContext)
        ensures
            copy@ == self@,
    {
        ReviewContext {
            pr_identifier: self.pr_identifier.clone(),
            system_instruction: self.system_instruction.clone(),
            model_name: self.model_name.clone(),
            token_limit: self.token_limit,
        }
    }
}

/// One request to the language model, with everything the call needs.
#[derive(Debug, PartialEq, Eq)]
pub struct CompletionRequest {
    pub conversation_id: String,
    pub prompt: String,
    pub model: String,
    pub token_limit: u32,
    /// Whether the model is to answer without the history of the conversation.
    pub restart: bool,
    pub system_prompt: String,
}

/// What a `CompletionRequest` holds.
pub struct RequestView {
    pub conversation_id: Seq<char>,
    pub prompt: Seq<char>,
    pub model: Seq<char>,
    pub token_limit: u32,
    pub restart: bool,
    pub system_prompt: Seq<char>,
}

impl View for CompletionRequest {
    type V = RequestView;

    open spec fn view(&self) -> RequestView {
        RequestView {
            conversation_id: self.conversation_id@,
            prompt: self.prompt@,
            model: self.model@,
            token_limit: self.token_limit,
            restart: self.restart,
            system_prompt: self.system_prompt@,
        }
    }
}

/// The request that asks for `intent` on `text` within `context`. It belongs to
/// the conversation of the pull request and always restarts it, so that no file's
/// review leans on another's.
pub open spec fn request_for(context: ContextView, intent: Intent, text: Seq<char>)
    -> RequestView {
    RequestView {
        conversation_id: context.pr_identifier,
        prompt: prompt_text(intent, text),
        model: context.model_name,
        token_limit: context.token_limit,
        restart: true,
        system_prompt: context.system_instruction,
    }
}

/// The text of a section, given the model's answer: the answer as it is, and the
/// sentinel where the model gave none.
pub open spec fn section_of(answer: Option<Seq<char>>) -> Seq<char> {
    match answer {
        Some(text) => text,
        None => SENTINEL@,
    }
}

/// The view of a model's answer, where there is one.
pub open spec fn answer_view(answer: Option<String>) -> Option<Seq<char>> {
    match answer {
        Some(t) => Some(t@),
        None => None,
    }
}

/// Builds the request that asks for `intent` on `text`.
pub fn build_request(context: &ReviewContext, intent: Intent, text: &str) -> (request:
    CompletionRequest)
    ensures
        request@ == request_for(context@, intent, text@),
{
    CompletionRequest {
        conversation_id: context.pr_identifier.clone(),
        prompt: build_prompt(intent, text),
        model: context.model_name.clone(),
        token_limit: context.token_limit,
        restart: true,
        system_prompt: context.system_instruction.clone(),
    }
}

/// Turns the outcome of a request into the text of its section. A failed request
/// leaves the sentinel `N/A` in place of an answer.
pub fn section_text_of(answer: Option<String>) -> (text: String)
    ensures
        text@ == section_of(answer_view(answer)),
{
    match answer {
        Some(t) => t,
        None => String::from_str(SENTINEL),
    }
}

/// The conversations of two pull requests with different numbers never share a
/// name.
pub proof fn lemma_conversations_apart(
    first: IdentityView,
    second: IdentityView,
    model_name: Seq<char>,
    token_limit: u32,
)
    requires
        first.pull_number != second.pull_number,
    ensures
        context_for(first, model_name, token_limit).pr_identifier != context_for(
            second,
            model_name,
            token_limit,
        ).pr_identifier,
{
    let prefix = CONVERSATION_PREFIX@;
    let a = prefix + first.pull_number;
    let b = prefix + second.pull_number;
    if a == b {
        assert(first.pull_number =~= a.subrange(prefix.len() as int, a.len() as int));
        assert(second.pull_number =~= b.subrange(prefix.len() as int, b.len() as int));
    }
}

} // verus!
