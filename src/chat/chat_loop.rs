//! The turn controller: a four-state machine that decides, after every model
//! turn, whether the next input comes from the user, from a tool's surfaced
//! output, or whether the session is over.
//!
//! The controller makes no request itself. Its caller reads the user's line,
//! sends the request the controller hands out, and reports the reply or the
//! failure back; the controller keeps the conversation log and the state.
use vstd::prelude::*;
use crate::chat::dispatch::{
    dispatch, dispatch_ran, failed_at, failures_view, indicators_read, match_plan, names_view,
    plan_view, run_outcomes, Dispatch,
};
use crate::Error;
use crate::chat::tool_checker::{calls_view, check_for_tools, opt_view, parse_calls};
use crate::llm_api::{copy_messages, turns_view, Message, Role, Turn};
use crate::text::{chars_of, same_chars, slice_chars, string_of, trim, trim_bounds};
use crate::tools::{Tool, ToolRun};

verus! {

/// Where the next input comes from, or that the session is over.
#[derive(Clone, Copy, Debug, PartialEq, Eq, Structural)]
pub enum LoopStatus {
    UserInput,
    ToolInput,
    Exit,
    Error,
}

/// The text put before a user's task.
pub const TASK_PREFIX: &'static str = "Help me with my task. ";

/// The text put after a user's task.
pub const TASK_SUFFIX: &'static str =
    "\nKeep in mind to use the tools described in the system prompt";

/// A user's trimmed line, framed as a task.
pub open spec fn framed_task(line: Seq<char>) -> Seq<char> {
    TASK_PREFIX@ + line + TASK_SUFFIX@
}

/// The lines that end the session.
pub open spec fn is_exit_command(line: Seq<char>) -> bool {
    line == "/bye"@ || line == "/exit"@ || line == "/quit"@
}

/// The state of a controller.
pub struct ChatState {
    pub system_prompt: Seq<char>,
    pub history: Seq<Turn>,
    pub status: LoopStatus,
    pub queued: Seq<char>,
    pub pending: Option<Seq<char>>,
}

/// A request is in order: the state is neither `Exit` nor `Error`.
pub open spec fn is_active(s: LoopStatus) -> bool {
    s == LoopStatus::UserInput || s == LoopStatus::ToolInput
}

/// The input of the current cycle: in `ToolInput` a tool's surfaced output,
/// verbatim; in `UserInput` the framed task of the line the user gave, once
/// there is one.
pub open spec fn effective_input(s: ChatState) -> Option<Seq<char>> {
    if s.status == LoopStatus::ToolInput {
        Some(s.queued)
    } else if s.status == LoopStatus::UserInput {
        s.pending
    } else {
        None
    }
}

/// Drives the request/response cycle over a provider client `C`.
pub struct ChatLoop<C> {
    llm_api: C,
    system_prompt: String,
    conversation_history: Vec<Message>,
    status: LoopStatus,
    tool_input: String,
    pending: Option<String>,
}

impl<C> View for ChatLoop<C> {
    type V = ChatState;

    closed spec fn view(&self) -> ChatState {
        ChatState {
            system_prompt: self.system_prompt@,
            history: turns_view(self.conversation_history@),
            status: self.status,
            queued: self.tool_input@,
            pending: opt_view(self.pending),
        }
    }
}

/// The log holds whole exchanges: an input turn, then a reply turn.
pub open spec fn log_even(s: ChatState) -> bool {
    s.history.len() % 2 == 0
}

impl<C> ChatLoop<C> {
    #[verifier::type_invariant]
    spec fn whole_exchanges(&self) -> bool {
        self.conversation_history.len() % 2 == 0
    }

    /// The client that requests go through.
    pub closed spec fn client(&self) -> C {
        self.llm_api
    }

    pub fn new(llm_api: C, system_prompt: String) -> (r: Self)
        ensures
            r.client() == llm_api,
            r@.system_prompt == system_prompt@,
            r@.history.len() == 0,
            r@.status == LoopStatus::UserInput,
            r@.pending is None,
            log_even(r@),
    {
        ChatLoop {
            llm_api,
            system_prompt,
            conversation_history: Vec::new(),
            status: LoopStatus::UserInput,
            tool_input: String::new(),
            pending: None,
        }
    }

    /// A copy of the conversation log.
    pub fn get_conversation_history(&self) -> (r: Vec<Message>)
        ensures
            turns_view(r@) == self@.history,
            log_even(self@),
    {
        proof {
            use_type_invariant(self);
        }
        copy_messages(&self.conversation_history)
    }

    pub fn get_client(&self) -> (r: &C)
        ensures
            *r == self.client(),
    {
        &self.llm_api
    }

    pub fn system_prompt(&self) -> (r: &String)
        ensures
            r@ == self@.system_prompt,
    {
        &self.system_prompt
    }

    pub fn status(&self) -> (r: LoopStatus)
        ensures
            r == self@.status,
    {
        self.status
    }

    /// Whether the loop goes on: neither `Exit` nor `Error` was reached.
    pub fn is_running(&self) -> (r: bool)
        ensures
            r == is_active(self@.status),
    {
        self.status == LoopStatus::UserInput || self.status == LoopStatus::ToolInput
    }

    /// Takes a line typed by the user. An exit command ends the session and
    /// no request is made; any other line, trimmed and framed as a task,
    /// becomes the cycle's input and is returned to be sent. Outside
    /// `UserInput` the line is ignored.
    pub fn accept_user_line(&mut self, line: &str) -> (r: Option<String>)
        ensures
            final(self)@.history == old(self)@.history,
            final(self)@.system_prompt == old(self)@.system_prompt,
            final(self)@.queued == old(self)@.queued,
            final(self).client() == old(self).client(),
            log_even(final(self)@),
            old(self)@.status == LoopStatus::UserInput && is_exit_command(trim(line@)) ==> (
            final(self)@.status == LoopStatus::Exit && r is None && final(self)@.pending == old(
                self,
            )@.pending),
            old(self)@.status == LoopStatus::UserInput && !is_exit_command(trim(line@)) ==> (
            final(self)@.status == LoopStatus::UserInput && opt_view(r) == Some(
                framed_task(trim(line@)),
            ) && final(self)@.pending == opt_view(r)),
            old(self)@.status != LoopStatus::UserInput ==> (final(self)@.status
                == old(self)@.status && r is None && final(self)@.pending == old(self)@.pending),
    {
        proof {
            use_type_invariant(&*self);
        }
        if self.status != LoopStatus::UserInput {
            return None;
        }
        let v = chars_of(line);
        let (a, b) = trim_bounds(&v, 0, v.len());
        assert(v@.subrange(0, v.len() as int) =~= v@);
        let t = slice_chars(&v, a, b);
        if same_chars(&t, &chars_of("/bye")) || same_chars(&t, &chars_of("/exit")) || same_chars(
            &t,
            &chars_of("/quit"),
        ) {
            self.status = LoopStatus::Exit;
            return None;
        }
        let task = string_of(&t);
        let framed = String::from_str(TASK_PREFIX).concat(task.as_str()).concat(TASK_SUFFIX);
        self.pending = Some(framed.clone());
        Some(framed)
    }

    /// The input of the current cycle: a tool's output, verbatim, or the
    /// user's framed task once given. `None` when the user is still to be
    /// asked, or the session is over.
    pub fn next_input(&self) -> (r: Option<String>)
        ensures
            opt_view(r) == effective_input(self@),
    {
        if self.status == LoopStatus::ToolInput {
            Some(self.tool_input.clone())
        } else if self.status == LoopStatus::UserInput {
            match &self.pending {
                Some(p) => Some(p.clone()),
                None => None,
            }
        } else {
            None
        }
    }

    /// Records a successful provider reply to the cycle's input: that input
    /// and the reply are appended to the log, in that order, and the tool
    /// blocks of the reply are dispatched. Surfaced output makes it the next
    /// input (`ToolInput`); otherwise the user is asked next (`UserInput`).
    /// Returns the dispatch pass, failures included. With no input for the
    /// cycle, or in `Exit` or `Error`, nothing changes and nothing runs.
    pub fn on_reply<T: Tool>(&mut self, reply: Message, tools: &mut Vec<T>) -> (r: Dispatch)
        ensures
            final(self)@.system_prompt == old(self)@.system_prompt,
            final(self).client() == old(self).client(),
            log_even(final(self)@),
            effective_input(old(self)@) is None ==> final(self)@ == old(self)@ && final(tools)@
                == old(tools)@ && r.plan.len() == 0 && r.output is None && r.failures.len() == 0,
            effective_input(old(self)@) matches Some(input) ==> final(self)@.history == old(
                self,
            )@.history + seq![(Turn { role: Role::User, content: input }), reply@],
            effective_input(old(self)@) is Some ==> final(self)@.pending is None,
            effective_input(old(self)@) is Some ==> indicators_read(old(tools)@, r.indicators@),
            effective_input(old(self)@) is Some ==> plan_view(r.plan@) == match_plan(
                parse_calls(reply.content@),
                names_view(r.indicators@),
            ),
            effective_input(old(self)@) is Some ==> exists|ran: Seq<ToolRun>|
                #[trigger] dispatch_ran(
                    parse_calls(reply.content@),
                    old(tools)@,
                    final(tools)@,
                    plan_view(r.plan@),
                    ran,
                    opt_view(r.output),
                ) && failures_view(r.failures@) == failed_at(plan_view(r.plan@), run_outcomes(ran)),
            effective_input(old(self)@) is Some ==> match r.output {
                Some(x) => final(self)@.status == LoopStatus::ToolInput && final(self)@.queued
                    == x@,
                None => final(self)@.status == LoopStatus::UserInput,
            },
            effective_input(old(self)@) is Some && parse_calls(reply.content@).len() == 0
                ==> final(self)@.status == LoopStatus::UserInput,
    {
        proof {
            use_type_invariant(&*self);
        }
        let input = if self.status == LoopStatus::ToolInput {
            self.tool_input.clone()
        } else if self.status == LoopStatus::UserInput {
            match &self.pending {
                Some(p) => p.clone(),
                None => {
                    return Dispatch {
                        indicators: Vec::new(),
                        plan: Vec::new(),
                        output: None,
                        failures: Vec::new(),
                    };
                },
            }
        } else {
            return Dispatch {
                indicators: Vec::new(),
                plan: Vec::new(),
                output: None,
                failures: Vec::new(),
            };
        };
        self.pending = None;
        let calls = check_for_tools(reply.content.as_str());
        let d = dispatch(&calls, tools);
        let ghost before = turns_view(self.conversation_history@);
        let ghost reply_view = reply@;
        let ghost input_view = input@;
        let mut log: Vec<Message> = Vec::new();
        std::mem::swap(&mut log, &mut self.conversation_history);
        assert(turns_view(log@) == before);
        log.push(Message { role: Role::User, content: input });
        log.push(reply);
        assert(turns_view(log@) =~= before + seq![
            Turn { role: Role::User, content: input_view },
            reply_view,
        ]);
        std::mem::swap(&mut log, &mut self.conversation_history);
        self.take_dispatch_output(&d);
        proof {
            if parse_calls(reply.content@).len() == 0 {
                assert(match_plan(calls_view(calls@), names_view(d.indicators@)).len() == 0);
                assert forall|before_t: Seq<T>, after_t: Seq<T>, ran: Seq<ToolRun>| #[trigger]
                    dispatch_ran(
                        calls_view(calls@),
                        before_t,
                        after_t,
                        plan_view(d.plan@),
                        ran,
                        opt_view(d.output),
                    ) implies d.output is None by {
                    assert(run_outcomes(ran).len() == 0);
                }
            }
        }
        d
    }

    /// Sets the next state from a dispatch's output: surfaced output is
    /// queued as the next input (`ToolInput`), none asks the user (`UserInput`).
    fn take_dispatch_output(&mut self, d: &Dispatch)
        ensures
            final(self)@.system_prompt == old(self)@.system_prompt,
            final(self)@.history == old(self)@.history,
            final(self)@.pending == old(self)@.pending,
            final(self).client() == old(self).client(),
            match d.output {
                Some(x) => final(self)@.status == LoopStatus::ToolInput && final(self)@.queued == x@,
                None => final(self)@.status == LoopStatus::UserInput,
            },
    {
        proof {
            use_type_invariant(&*self);
        }
        match &d.output {
            Some(out) => {
                self.tool_input = out.clone();
                self.status = LoopStatus::ToolInput;
            },
            None => {
                self.status = LoopStatus::UserInput;
            },
        }
    }

    /// Records a failed provider call: an active session ends in `Error`.
    pub fn on_provider_error(&mut self)
        ensures
            final(self)@.history == old(self)@.history,
            final(self)@.system_prompt == old(self)@.system_prompt,
            final(self).client() == old(self).client(),
            is_active(old(self)@.status) ==> final(self)@.status == LoopStatus::Error,
            !is_active(old(self)@.status) ==> final(self)@.status == old(self)@.status,
            !is_active(final(self)@.status),
            log_even(final(self)@),
    {
        proof {
            use_type_invariant(&*self);
        }
        if self.status == LoopStatus::UserInput || self.status == LoopStatus::ToolInput {
            self.status = LoopStatus::Error;
        }
    }
}

} // verus!
