//! A simpler, stand-alone agent: it sends a task to the model and labels the
//! whole reply as complete, rejected or partial by the words it holds.
use vstd::prelude::*;
use crate::llm_api::{turns_view, Message, Role, Turn, LLMAPI};
use crate::text::{chars_of, contains_chars, contains_seq, lower_of, lowercase};

verus! {

/// How a reply labels the task.
#[derive(Clone, Copy, Debug, PartialEq, Eq, Structural)]
pub enum ResponseKind {
    Complete,
    Reject,
    Partial,
}

/// An agent's answer to a task, with the reply's text.
#[derive(Debug, Clone, PartialEq)]
pub enum AgentResponse {
    /// The task was completed.
    Complete(String),
    /// The task was rejected.
    Reject(String),
    /// Part of the task was done.
    Partial(String),
}

impl View for AgentResponse {
    type V = (ResponseKind, Seq<char>);

    open spec fn view(&self) -> (ResponseKind, Seq<char>) {
        match self {
            AgentResponse::Complete(s) => (ResponseKind::Complete, s@),
            AgentResponse::Reject(s) => (ResponseKind::Reject, s@),
            AgentResponse::Partial(s) => (ResponseKind::Partial, s@),
        }
    }
}

/// The label of a lowercased reply: "complete" wins over "reject"; neither
/// means partial.
pub open spec fn kind_of(lowered: Seq<char>) -> ResponseKind {
    if contains_seq(lowered, "complete"@) {
        ResponseKind::Complete
    } else if contains_seq(lowered, "reject"@) {
        ResponseKind::Reject
    } else {
        ResponseKind::Partial
    }
}

impl AgentResponse {
    /// Labels `content` by `lowered`, its lowercased text.
    pub fn classify_lowered(content: String, lowered: &str) -> (r: AgentResponse)
        ensures
            r@ == (kind_of(lowered@), content@),
    {
        let l = chars_of(lowered);
        if contains_chars(&l, &chars_of("complete")) {
            AgentResponse::Complete(content)
        } else if contains_chars(&l, &chars_of("reject")) {
            AgentResponse::Reject(content)
        } else {
            AgentResponse::Partial(content)
        }
    }

    /// Labels a reply by the words it holds, in any case.
    pub fn from_reply(content: String) -> (r: AgentResponse)
        ensures
            r@ == (kind_of(lower_of(content@)), content@),
    {
        let lowered = lowercase(content.as_str());
        AgentResponse::classify_lowered(content, lowered.as_str())
    }
}

/// The prompt and conversation an agent works in.
pub struct AgentContext {
    pub system_prompt: String,
    pub conversation_history: Vec<Message>,
}

impl AgentContext {
    pub fn new(system_prompt: String) -> (r: Self)
        ensures
            r.system_prompt@ == system_prompt@,
            r.conversation_history.len() == 0,
    {
        AgentContext { system_prompt, conversation_history: Vec::new() }
    }

    /// Appends a turn to the conversation.
    pub fn add_message(&mut self, message: Message)
        ensures
            final(self).system_prompt == old(self).system_prompt,
            turns_view(final(self).conversation_history@) == turns_view(
                old(self).conversation_history@,
            ).push(message@),
    {
        let ghost m = message@;
        self.conversation_history.push(message);
        assert(turns_view(self.conversation_history@) =~= turns_view(
            old(self).conversation_history@,
        ).push(m));
    }
}

/// An agent: something that can describe what it does.
pub trait Agent {
    fn description(&self) -> &str;
}

/// An agent that hands tasks to a model through a client `C`.
pub struct BasicAgent<C> {
    description: String,
    llm_api: LLMAPI<C>,
}

impl<C> BasicAgent<C> {
    pub fn new(description: String, llm_api: LLMAPI<C>) -> (r: Self)
        ensures
            r.description_view() == description@,
            r.api() == llm_api,
    {
        BasicAgent { description, llm_api }
    }

    pub closed spec fn description_view(&self) -> Seq<char> {
        self.description@
    }

    pub closed spec fn api(&self) -> LLMAPI<C> {
        self.llm_api
    }

    /// The client that requests go through.
    pub fn llm_api(&self) -> (r: &LLMAPI<C>)
        ensures
            *r == self.api(),
    {
        &self.llm_api
    }

    /// Records a task as the user's turn, before it is sent.
    pub fn begin_task(&self, context: &mut AgentContext, task: &str)
        ensures
            final(context).system_prompt == old(context).system_prompt,
            turns_view(final(context).conversation_history@) == turns_view(
                old(context).conversation_history@,
            ).push(Turn { role: Role::User, content: task@ }),
    {
        context.add_message(Message { role: Role::User, content: String::from_str(task) });
    }

    /// Records the model's reply and labels it.
    pub fn finish_task(&self, context: &mut AgentContext, reply: Message) -> (r: AgentResponse)
        ensures
            final(context).system_prompt == old(context).system_prompt,
            turns_view(final(context).conversation_history@) == turns_view(
                old(context).conversation_history@,
            ).push(reply@),
            r@ == (kind_of(lower_of(reply.content@)), reply.content@),
    {
        let content = reply.content.clone();
        context.add_message(reply);
        AgentResponse::from_reply(content)
    }
}

impl<C> Agent for BasicAgent<C> {
    fn description(&self) -> (r: &str) {
        self.description.as_str()
    }
}

} // verus!
