//! Agents: their conversation, memory and the decisions of a conversation turn.
//!
//! Talking to a language model and running tools happen outside this module; a
//! turn here is a state machine that says what to ask for next and records each
//! answer in the conversation.

use vstd::prelude::*;
use crate::chat::{ChatMessage, ChatSession, Role, ToolCall, is_plain, summary_text, model_messages};
use crate::error::{HeliosError, error_display};
use crate::text::{owned, push_str, str_eq, u64_to_string, decimal, starts_with, parse_u32, parse_u32_exec};
use crate::tools::ToolResult;

verus! {

/// The prefix of the metadata keys that hold an agent's memory.
pub open spec fn memory_prefix() -> Seq<char> {
    "agent:"@
}

/// An agent: a named conversation with settings, memory and the names of the
/// tools it may use.
#[derive(Debug)]
pub struct Agent {
    name: String,
    tool_names: Vec<String>,
    chat_session: ChatSession,
    max_iterations: usize,
    react_mode: bool,
    react_prompt: Option<String>,
}

impl Agent {
    /// The agent's name.
    pub closed spec fn spec_name(&self) -> Seq<char> {
        self.name@
    }

    /// The names of the registered tools, in registration order.
    pub closed spec fn spec_tools(&self) -> Seq<Seq<char>> {
        self.tool_names@.map_values(|t: String| t@)
    }

    /// The agent's conversation.
    pub closed spec fn session(&self) -> ChatSession {
        self.chat_session
    }

    /// The most tool rounds a turn may take.
    pub closed spec fn spec_max_iterations(&self) -> usize {
        self.max_iterations
    }

    /// Whether the agent reasons before acting.
    pub closed spec fn spec_react(&self) -> bool {
        self.react_mode
    }

    /// The question the agent puts to the model before acting, where it has one
    /// of its own.
    pub closed spec fn spec_react_prompt(&self) -> Option<Seq<char>> {
        match self.react_prompt {
            Some(p) => Some(p@),
            None => None,
        }
    }

    /// A new agent with an empty conversation, no tools, ten tool rounds per turn
    /// and no reasoning step.
    pub fn new(name: &str) -> (a: Self)
        ensures
            a.spec_name() == name@,
            a.spec_tools().len() == 0,
            a.session().messages@.len() == 0,
            a.session().system_prompt is None,
            a.session().metadata.pairs().len() == 0,
            a.spec_max_iterations() == 10,
            !a.spec_react(),
            a.spec_react_prompt() is None,
    {
        Agent {
            name: owned(name),
            tool_names: Vec::new(),
            chat_session: ChatSession::new(),
            max_iterations: 10,
            react_mode: false,
            react_prompt: None,
        }
    }

    /// The agent's name.
    pub fn name(&self) -> (s: &str)
        ensures
            s@ == self.spec_name(),
    {
        self.name.as_str()
    }

    /// Sets the system prompt of the agent's conversation.
    pub fn set_system_prompt(&mut self, prompt: &str)
        ensures
            final(self).session().system_prompt matches Some(p) && p@ == prompt@,
            final(self).session().messages == old(self).session().messages,
            final(self).session().metadata == old(self).session().metadata,
            final(self).spec_name() == old(self).spec_name(),
            final(self).spec_tools() == old(self).spec_tools(),
            final(self).spec_max_iterations() == old(self).spec_max_iterations(),
            final(self).spec_react() == old(self).spec_react(),
            final(self).spec_react_prompt() == old(self).spec_react_prompt(),
    {
        self.chat_session.system_prompt = Some(owned(prompt));
    }

    /// Registers a tool by name; registering a name twice keeps one entry.
    pub fn register_tool(&mut self, tool_name: &str)
        ensures
            old(self).spec_tools().contains(tool_name@) ==> final(self).spec_tools() == old(self).spec_tools(),
            !old(self).spec_tools().contains(tool_name@) ==> final(self).spec_tools() == old(self).spec_tools().push(tool_name@),
            final(self).session() == old(self).session(),
            final(self).spec_name() == old(self).spec_name(),
            final(self).spec_max_iterations() == old(self).spec_max_iterations(),
            final(self).spec_react() == old(self).spec_react(),
            final(self).spec_react_prompt() == old(self).spec_react_prompt(),
    {
        let mut i: usize = 0;
        while i < self.tool_names.len()
            invariant
                i <= self.tool_names@.len(),
                forall|j: int| 0 <= j < i ==> self.spec_tools()[j] != tool_name@,
            decreases self.tool_names@.len() - i,
        {
            if str_eq(self.tool_names[i].as_str(), tool_name) {
                assert(self.spec_tools()[i as int] == tool_name@);
                return;
            }
            i = i + 1;
        }
        let ghost before = self.spec_tools();
        assert(!before.contains(tool_name@));
        self.tool_names.push(owned(tool_name));
        assert(self.spec_tools() =~= before.push(tool_name@));
    }

    /// The names of the registered tools, in registration order.
    pub fn tool_names(&self) -> (ts: &Vec<String>)
        ensures
            ts@.map_values(|t: String| t@) == self.spec_tools(),
    {
        &self.tool_names
    }

    /// The agent's conversation.
    pub fn chat_session(&self) -> (s: &ChatSession)
        ensures
            *s == self.session(),
    {
        &self.chat_session
    }

    /// The agent's conversation, to change in place.
    pub fn chat_session_mut(&mut self) -> (s: &mut ChatSession)
        ensures
            *s == old(self).session(),
            final(self).session() == *final(s),
            final(self).spec_name() == old(self).spec_name(),
            final(self).spec_tools() == old(self).spec_tools(),
            final(self).spec_max_iterations() == old(self).spec_max_iterations(),
            final(self).spec_react() == old(self).spec_react(),
            final(self).spec_react_prompt() == old(self).spec_react_prompt(),
    {
        &mut self.chat_session
    }

    /// Removes all messages of the conversation.
    pub fn clear_history(&mut self)
        ensures
            final(self).session().messages@.len() == 0,
            final(self).session().system_prompt == old(self).session().system_prompt,
            final(self).session().metadata == old(self).session().metadata,
            final(self).spec_name() == old(self).spec_name(),
            final(self).spec_tools() == old(self).spec_tools(),
    {
        self.chat_session.clear();
    }

    /// Sets the most tool rounds a turn may take.
    pub fn set_max_iterations(&mut self, max: usize)
        ensures
            final(self).spec_max_iterations() == max,
            final(self).session() == old(self).session(),
            final(self).spec_name() == old(self).spec_name(),
            final(self).spec_tools() == old(self).spec_tools(),
            final(self).spec_react() == old(self).spec_react(),
            final(self).spec_react_prompt() == old(self).spec_react_prompt(),
    {
        self.max_iterations = max;
    }

    /// The most tool rounds a turn may take.
    pub fn max_iterations(&self) -> (n: usize)
        ensures
            n == self.spec_max_iterations(),
    {
        self.max_iterations
    }

    /// Turns the reasoning step before acting on or off.
    pub fn set_react_mode(&mut self, on: bool)
        ensures
            final(self).spec_react() == on,
            final(self).spec_react_prompt() == old(self).spec_react_prompt(),
            final(self).session() == old(self).session(),
            final(self).spec_name() == old(self).spec_name(),
            final(self).spec_tools() == old(self).spec_tools(),
            final(self).spec_max_iterations() == old(self).spec_max_iterations(),
    {
        self.react_mode = on;
    }

    /// Turns the reasoning step on, with `prompt` as the question put to the
    /// model in place of the usual one.
    pub fn set_react_prompt(&mut self, prompt: &str)
        ensures
            final(self).spec_react(),
            final(self).spec_react_prompt() == Some(prompt@),
            final(self).session() == old(self).session(),
            final(self).spec_name() == old(self).spec_name(),
            final(self).spec_tools() == old(self).spec_tools(),
            final(self).spec_max_iterations() == old(self).spec_max_iterations(),
    {
        self.react_mode = true;
        self.react_prompt = Some(owned(prompt));
    }

    /// Whether the agent reasons before acting.
    pub fn react_mode(&self) -> (b: bool)
        ensures
            b == self.spec_react(),
    {
        self.react_mode
    }

    /// The summary of the agent's conversation.
    pub fn get_session_summary(&self) -> (s: String)
        ensures
            s@ == summary_text(self.session().messages@, self.session().metadata.pairs()),
    {
        self.chat_session.get_summary()
    }

    /// Forgets the agent's memory: every metadata key under `agent:`; other
    /// metadata stays.
    pub fn clear_memory(&mut self)
        ensures
            final(self).session().metadata.map() == old(self).session().metadata.map().restrict(
                Set::new(|q: Seq<char>| !starts_with(q, memory_prefix())),
            ),
            final(self).session().messages == old(self).session().messages,
            final(self).session().system_prompt == old(self).session().system_prompt,
            final(self).spec_name() == old(self).spec_name(),
            final(self).spec_tools() == old(self).spec_tools(),
    {
        self.chat_session.metadata.retain_without_prefix("agent:");
    }

    /// Remembers `value` under `key` (stored as metadata `agent:<key>`).
    pub fn set_memory(&mut self, key: &str, value: &str)
        ensures
            final(self).session().metadata.map().dom() == old(self).session().metadata.map().dom().insert(memory_prefix() + key@),
            final(self).session().metadata.map()[memory_prefix() + key@]@ == value@,
            forall|k: Seq<char>|
                k != memory_prefix() + key@ && old(self).session().metadata.map().contains_key(k)
                    ==> final(self).session().metadata.map()[k] == old(self).session().metadata.map()[k],
            final(self).session().messages == old(self).session().messages,
            final(self).session().system_prompt == old(self).session().system_prompt,
            final(self).spec_name() == old(self).spec_name(),
            final(self).spec_tools() == old(self).spec_tools(),
            final(self).spec_max_iterations() == old(self).spec_max_iterations(),
            final(self).spec_react() == old(self).spec_react(),
            final(self).spec_react_prompt() == old(self).spec_react_prompt(),
    {
        let mut k = String::new();
        push_str(&mut k, "agent:");
        push_str(&mut k, key);
        self.chat_session.set_metadata(k.as_str(), value);
    }

    /// The remembered value for `key`, if any.
    pub fn get_memory(&self, key: &str) -> (r: Option<&String>)
        ensures
            match r {
                Some(v) => self.session().metadata.map().contains_key(memory_prefix() + key@) && *v
                    == self.session().metadata.map()[memory_prefix() + key@],
                None => !self.session().metadata.map().contains_key(memory_prefix() + key@),
            },
    {
        let mut k = String::new();
        push_str(&mut k, "agent:");
        push_str(&mut k, key);
        self.chat_session.get_metadata(k.as_str())
    }

    /// Forgets `key`, returning what was remembered for it.
    pub fn remove_memory(&mut self, key: &str) -> (r: Option<String>)
        ensures
            final(self).session().metadata.map() == old(self).session().metadata.map().remove(memory_prefix() + key@),
            r == (if old(self).session().metadata.map().contains_key(memory_prefix() + key@) {
                Some(old(self).session().metadata.map()[memory_prefix() + key@])
            } else {
                None
            }),
            final(self).session().messages == old(self).session().messages,
            final(self).spec_name() == old(self).spec_name(),
            final(self).spec_tools() == old(self).spec_tools(),
    {
        let mut k = String::new();
        push_str(&mut k, "agent:");
        push_str(&mut k, key);
        self.chat_session.remove_metadata(k.as_str())
    }

    /// Adds one to the counter remembered under `key` (a missing or unreadable
    /// value counts as 0), stores it as decimal text and returns it.
    pub fn increment_counter(&mut self, key: &str) -> (n: u32)
        requires
            counter_value(old(self).session().metadata.map(), key@) < u32::MAX,
        ensures
            n == counter_value(old(self).session().metadata.map(), key@) + 1,
            final(self).session().metadata.map().dom() == old(self).session().metadata.map().dom().insert(memory_prefix() + key@),
            final(self).session().metadata.map()[memory_prefix() + key@]@ == decimal(n as nat),
            forall|k: Seq<char>|
                k != memory_prefix() + key@ && old(self).session().metadata.map().contains_key(k)
                    ==> final(self).session().metadata.map()[k] == old(self).session().metadata.map()[k],
            final(self).session().messages == old(self).session().messages,
            final(self).spec_name() == old(self).spec_name(),
            final(self).spec_tools() == old(self).spec_tools(),
    {
        let current: u32 = match self.get_memory(key) {
            Some(v) => match parse_u32_exec(v.as_str()) {
                Some(x) => x,
                None => 0,
            },
            None => 0,
        };
        let next = current + 1;
        let text = u64_to_string(next as u64);
        self.set_memory(key, text.as_str());
        next
    }

    /// Adds one to the `tasks_completed` counter.
    pub fn increment_tasks_completed(&mut self) -> (n: u32)
        requires
            counter_value(old(self).session().metadata.map(), "tasks_completed"@) < u32::MAX,
        ensures
            n == counter_value(old(self).session().metadata.map(), "tasks_completed"@) + 1,
            final(self).session().metadata.map()[memory_prefix() + "tasks_completed"@]@ == decimal(n as nat),
            final(self).session().messages == old(self).session().messages,
    {
        self.increment_counter("tasks_completed")
    }
}

/// The counter remembered under `key`: its stored decimal value, or 0 when it is
/// missing or does not read as a `u32`.
pub open spec fn counter_value(meta: Map<Seq<char>, String>, key: Seq<char>) -> u32 {
    if meta.contains_key(memory_prefix() + key) {
        match parse_u32(meta[memory_prefix() + key]@) {
            Some(x) => x,
            None => 0,
        }
    } else {
        0
    }
}

/// The question put to the model before acting, in reasoning mode.
pub open spec fn reasoning_prompt() -> Seq<char> {
    "Before taking any action, think through this step by step:\n\n1. What is the user asking for?\n2. What information or tools do I need to answer this?\n3. What is my plan to solve this problem?\n\nProvide your reasoning in a clear, structured way."@
}

/// Where a conversation turn stands.
#[derive(Debug, Clone, Copy, PartialEq, Eq, Structural)]
pub enum TurnPhase {
    /// The model must first be asked to reason about the request.
    NeedReasoning,
    /// The model must be asked for a reply.
    NeedModel,
    /// Tools requested by the model are being run.
    RunningTools,
    /// The turn has ended.
    Finished,
}

/// What a turn asks of the outside world next.
#[derive(Debug)]
pub enum AgentAction {
    /// Ask the model, without tools, to reason over these messages.
    AskReasoning(Vec<ChatMessage>),
    /// Ask the model for a reply to these messages, offering the tools or not.
    AskModel { messages: Vec<ChatMessage>, offer_tools: bool },
    /// Run tool `name` with JSON `arguments` for the call `call_id`.
    RunTool { name: String, arguments: String, call_id: String },
    /// The turn ended with this reply.
    Reply(String),
    /// The turn ended with this error.
    Fail(HeliosError),
}

/// The state of one conversation turn: how many tool rounds it has taken and
/// the tool calls still to run.
#[derive(Debug)]
pub struct AgentTurn {
    /// Where the turn stands.
    pub phase: TurnPhase,
    /// Tool rounds taken so far.
    pub iterations: usize,
    /// The most tool rounds allowed.
    pub max_iterations: usize,
    /// Whether the model is offered tools.
    pub offer_tools: bool,
    /// The tool calls of the current round.
    pub calls: Vec<ToolCall>,
    /// The next call to run.
    pub next_call: usize,
    /// The reply, once the turn has one.
    pub reply: Option<String>,
    /// The question put to the model in the reasoning step.
    pub reasoning_prompt: String,
}

/// Whether a turn's state is consistent.
pub open spec fn turn_wf(t: AgentTurn) -> bool {
    &&& t.phase == TurnPhase::RunningTools ==> t.next_call < t.calls@.len() && t.iterations < t.max_iterations
    &&& t.phase == TurnPhase::Finished ==> t.reply is Some
    &&& t.iterations <= t.max_iterations
}

/// The text recorded for a tool's outcome: its output, or why it could not run.
pub open spec fn tool_outcome_text(r: Result<ToolResult, HeliosError>) -> Seq<char> {
    match r {
        Ok(res) => res.output@,
        Err(e) => "Tool execution failed: "@ + error_display(e),
    }
}

impl AgentTurn {
    /// A turn allowing `max_iterations` tool rounds, offering tools when
    /// `offer_tools`, and starting with a reasoning step when `reason_first`.
    pub fn new(max_iterations: usize, offer_tools: bool, reason_first: bool) -> (t: Self)
        ensures
            turn_wf(t),
            t.phase == (if reason_first { TurnPhase::NeedReasoning } else { TurnPhase::NeedModel }),
            t.iterations == 0,
            t.max_iterations == max_iterations,
            t.offer_tools == offer_tools,
            t.calls@.len() == 0,
            t.reasoning_prompt@ == reasoning_prompt(),
    {
        AgentTurn {
            phase: if reason_first { TurnPhase::NeedReasoning } else { TurnPhase::NeedModel },
            iterations: 0,
            max_iterations,
            offer_tools,
            calls: Vec::new(),
            next_call: 0,
            reply: None,
            reasoning_prompt: owned("Before taking any action, think through this step by step:\n\n1. What is the user asking for?\n2. What information or tools do I need to answer this?\n3. What is my plan to solve this problem?\n\nProvide your reasoning in a clear, structured way."),
        }
    }

    /// What to do next. Asking the model once the tool rounds are used up ends
    /// the turn with `AgentError("Maximum iterations reached")`.
    pub fn next_action(&self, session: &ChatSession) -> (a: AgentAction)
        requires
            turn_wf(*self),
        ensures
            match self.phase {
                TurnPhase::NeedReasoning => a matches AgentAction::AskReasoning(ms) && ms@.len() >= 1
                    && model_messages(*session, ms@.drop_last())
                    && is_plain(ms@.last(), Role::User, self.reasoning_prompt@)
                    && ms@.len() == session.messages@.len() + 1 + if session.system_prompt is Some { 1int } else { 0int },
                TurnPhase::NeedModel => if self.iterations >= self.max_iterations {
                    a matches AgentAction::Fail(HeliosError::AgentError(m)) && m@ == "Maximum iterations reached"@
                } else {
                    a matches AgentAction::AskModel { messages, offer_tools } && offer_tools == self.offer_tools
                        && model_messages(*session, messages@)
                        && messages@.len() == session.messages@.len() + if session.system_prompt is Some { 1int } else { 0int }
                },
                TurnPhase::RunningTools => a matches AgentAction::RunTool { name, arguments, call_id }
                    && name == self.calls@[self.next_call as int].function.name
                    && arguments == self.calls@[self.next_call as int].function.arguments
                    && call_id == self.calls@[self.next_call as int].id,
                TurnPhase::Finished => a matches AgentAction::Reply(r) && Some(r) == self.reply,
            },
    {
        match self.phase {
            TurnPhase::NeedReasoning => {
                let mut ms = session.get_messages();
                let ghost before = ms@;
                ms.push(ChatMessage::user(self.reasoning_prompt.as_str()));
                assert(ms@.drop_last() =~= before);
                AgentAction::AskReasoning(ms)
            },
            TurnPhase::NeedModel => {
                if self.iterations >= self.max_iterations {
                    AgentAction::Fail(HeliosError::AgentError(owned("Maximum iterations reached")))
                } else {
                    AgentAction::AskModel { messages: session.get_messages(), offer_tools: self.offer_tools }
                }
            },
            TurnPhase::RunningTools => {
                let c = &self.calls[self.next_call];
                AgentAction::RunTool {
                    name: c.function.name.clone(),
                    arguments: c.function.arguments.clone(),
                    call_id: c.id.clone(),
                }
            },
            TurnPhase::Finished => {
                match &self.reply {
                    Some(r) => AgentAction::Reply(r.clone()),
                    None => AgentAction::Reply(String::new()),
                }
            },
        }
    }

    /// Records the model's reasoning as a user note followed by an assistant
    /// acknowledgement, then asks the model for its reply.
    pub fn on_reasoning(&mut self, session: &mut ChatSession, content: &str)
        requires
            old(self).phase == TurnPhase::NeedReasoning,
            turn_wf(*old(self)),
        ensures
            turn_wf(*final(self)),
            final(self).phase == TurnPhase::NeedModel,
            final(self).iterations == old(self).iterations,
            final(self).max_iterations == old(self).max_iterations,
            final(session).messages@.len() == old(session).messages@.len() + 2,
            final(session).messages@.subrange(0, old(session).messages@.len() as int) == old(session).messages@,
            is_plain(final(session).messages@[old(session).messages@.len() as int], Role::User, "[Internal Reasoning]\n"@ + content@),
            is_plain(final(session).messages@[(old(session).messages@.len() + 1) as int], Role::Assistant, "[Reasoning complete, proceeding with action]"@),
            final(session).system_prompt == old(session).system_prompt,
            final(session).metadata == old(session).metadata,
    {
        let mut note = String::new();
        push_str(&mut note, "[Internal Reasoning]\n");
        push_str(&mut note, content);
        session.add_message(ChatMessage::user(note.as_str()));
        session.add_message(ChatMessage::assistant("[Reasoning complete, proceeding with action]"));
        assert(session.messages@.subrange(0, old(session).messages@.len() as int) =~= old(session).messages@);
        self.phase = TurnPhase::NeedModel;
    }

    /// Records the model's reply. A reply with tool calls is kept and its calls
    /// are run next (an empty list of calls counts as a finished round); any other
    /// reply ends the turn with its text.
    pub fn on_model_reply(&mut self, session: &mut ChatSession, reply: ChatMessage)
        requires
            old(self).phase == TurnPhase::NeedModel,
            old(self).iterations < old(self).max_iterations,
            turn_wf(*old(self)),
        ensures
            turn_wf(*final(self)),
            final(session).messages@ == old(session).messages@.push(reply),
            final(session).system_prompt == old(session).system_prompt,
            final(session).metadata == old(session).metadata,
            final(self).max_iterations == old(self).max_iterations,
            match reply.tool_calls {
                Some(calls) => if calls@.len() > 0 {
                    &&& final(self).phase == TurnPhase::RunningTools
                    &&& final(self).calls@ == calls@
                    &&& final(self).next_call == 0
                    &&& final(self).iterations == old(self).iterations
                } else {
                    &&& final(self).phase == TurnPhase::NeedModel
                    &&& final(self).iterations == old(self).iterations + 1
                },
                None => {
                    &&& final(self).phase == TurnPhase::Finished
                    &&& final(self).reply == Some(reply.content)
                    &&& final(self).iterations == old(self).iterations
                },
            },
    {
        let calls: Option<Vec<ToolCall>> = match &reply.tool_calls {
            Some(cs) => {
                let mut v: Vec<ToolCall> = Vec::new();
                let mut i: usize = 0;
                while i < cs.len()
                    invariant
                        i <= cs@.len(),
                        v@ == cs@.take(i as int),
                    decreases cs@.len() - i,
                {
                    v.push(cs[i].duplicate());
                    i = i + 1;
                    assert(v@ =~= cs@.take(i as int));
                }
                assert(cs@.take(cs@.len() as int) =~= cs@);
                Some(v)
            },
            None => None,
        };
        let content = reply.content.clone();
        session.add_message(reply);
        match calls {
            Some(v) => {
                if v.len() > 0 {
                    self.calls = v;
                    self.next_call = 0;
                    self.phase = TurnPhase::RunningTools;
                } else {
                    self.iterations = self.iterations + 1;
                    self.phase = TurnPhase::NeedModel;
                }
            },
            None => {
                self.reply = Some(content);
                self.phase = TurnPhase::Finished;
            },
        }
    }

    /// Records the outcome of the current tool call as a tool message answering
    /// it; after the last call of the round, the model is asked again.
    pub fn on_tool_result(&mut self, session: &mut ChatSession, result: Result<ToolResult, HeliosError>)
        requires
            old(self).phase == TurnPhase::RunningTools,
            turn_wf(*old(self)),
        ensures
            turn_wf(*final(self)),
            final(session).messages@.len() == old(session).messages@.len() + 1,
            final(session).messages@.drop_last() == old(session).messages@,
            final(session).messages@.last().role == Role::Tool,
            final(session).messages@.last().content@ == tool_outcome_text(result),
            final(session).messages@.last().tool_call_id == Some(old(self).calls@[old(self).next_call as int].id),
            final(session).system_prompt == old(session).system_prompt,
            final(session).metadata == old(session).metadata,
            final(self).calls == old(self).calls,
            final(self).max_iterations == old(self).max_iterations,
            old(self).next_call + 1 < old(self).calls@.len() ==> final(self).phase == TurnPhase::RunningTools
                && final(self).next_call == old(self).next_call + 1 && final(self).iterations == old(self).iterations,
            old(self).next_call + 1 == old(self).calls@.len() ==> final(self).phase == TurnPhase::NeedModel
                && final(self).iterations == old(self).iterations + 1,
    {
        let text = match &result {
            Ok(r) => r.output.clone(),
            Err(e) => {
                let mut t = String::new();
                push_str(&mut t, "Tool execution failed: ");
                push_str(&mut t, e.message().as_str());
                t
            },
        };
        let id = self.calls[self.next_call].id.clone();
        session.add_message(ChatMessage {
            role: Role::Tool,
            content: text,
            name: None,
            tool_calls: None,
            tool_call_id: Some(id),
        });
        assert(session.messages@.drop_last() =~= old(session).messages@);
        let n = self.calls.len();
        self.next_call = self.next_call + 1;
        if self.next_call == n {
            self.iterations = self.iterations + 1;
            self.phase = TurnPhase::NeedModel;
        }
    }
}

impl Agent {
    /// Starts a turn: records the user's message and sets up a turn with the
    /// agent's limits, offering its tools, reasoning first when in reasoning
    /// mode and tools are available.
    pub fn start_turn(&mut self, message: &str) -> (t: AgentTurn)
        ensures
            turn_wf(t),
            final(self).session().messages@.len() == old(self).session().messages@.len() + 1,
            final(self).session().messages@.drop_last() == old(self).session().messages@,
            is_plain(final(self).session().messages@.last(), Role::User, message@),
            final(self).session().system_prompt == old(self).session().system_prompt,
            final(self).session().metadata == old(self).session().metadata,
            final(self).spec_name() == old(self).spec_name(),
            final(self).spec_tools() == old(self).spec_tools(),
            final(self).spec_max_iterations() == old(self).spec_max_iterations(),
            final(self).spec_react() == old(self).spec_react(),
            final(self).spec_react_prompt() == old(self).spec_react_prompt(),
            t.phase == (if old(self).spec_react() && old(self).spec_tools().len() > 0 {
                TurnPhase::NeedReasoning
            } else {
                TurnPhase::NeedModel
            }),
            t.iterations == 0,
            t.max_iterations == old(self).spec_max_iterations(),
            t.offer_tools == (old(self).spec_tools().len() > 0),
            t.reasoning_prompt@ == (match old(self).spec_react_prompt() {
                Some(p) => p,
                None => reasoning_prompt(),
            }),
    {
        self.chat_session.add_user_message(message);
        let has_tools = self.tool_names.len() > 0;
        let mut t = AgentTurn::new(self.max_iterations, has_tools, self.react_mode && has_tools);
        match &self.react_prompt {
            Some(p) => {
                t.reasoning_prompt = p.clone();
            },
            None => {},
        }
        t
    }
}

/// A conversation made of exactly the given messages, with no system prompt or
/// metadata (what a request that carries its own history is answered from).
pub fn session_from_history(messages: Vec<ChatMessage>) -> (s: ChatSession)
    ensures
        s.messages@ == messages@,
        s.system_prompt is None,
        s.metadata.pairs().len() == 0,
{
    let mut s = ChatSession::new();
    s.messages = messages;
    s
}


/// Agent memory is kept apart from the rest of the session: after
/// `set_memory(key, value)` (as its contract describes the metadata),
/// `get_memory(key)` gives `value` back, every other memory is as it was, and
/// the bare key `key` is neither added nor changed.
pub proof fn lemma_memory_set_then_get(
    before: Map<Seq<char>, String>,
    after: Map<Seq<char>, String>,
    key: Seq<char>,
    value: Seq<char>,
    other: Seq<char>,
)
    requires
        after.dom() == before.dom().insert(memory_prefix() + key),
        after[memory_prefix() + key]@ == value,
        forall|k: Seq<char>| k != memory_prefix() + key && before.contains_key(k) ==> after[k] == before[k],
    ensures
        after.contains_key(memory_prefix() + key) && after[memory_prefix() + key]@ == value,
        other != key ==> (after.contains_key(memory_prefix() + other) == before.contains_key(memory_prefix() + other)
            && (before.contains_key(memory_prefix() + other) ==> after[memory_prefix() + other] == before[memory_prefix()
            + other])),
        after.contains_key(key) == before.contains_key(key),
        before.contains_key(key) ==> after[key] == before[key],
{
    reveal_strlit("agent:");
    assert((memory_prefix() + key).len() != key.len());
    if other != key {
        assert(memory_prefix() + other != memory_prefix() + key) by {
            assert((memory_prefix() + other).subrange(6, (memory_prefix() + other).len() as int) =~= other);
            assert((memory_prefix() + key).subrange(6, (memory_prefix() + key).len() as int) =~= key);
        }
    }
}

/// Clearing memory forgets every memory and keeps the other metadata: after
/// `clear_memory` (as its contract describes the metadata) no key under
/// `agent:` is left, and a key outside it keeps its value.
pub proof fn lemma_clear_memory_scoped(before: Map<Seq<char>, String>, key: Seq<char>, other: Seq<char>)
    requires
        !starts_with(other, memory_prefix()),
    ensures
        !before.restrict(Set::new(|q: Seq<char>| !starts_with(q, memory_prefix()))).contains_key(memory_prefix() + key),
        before.restrict(Set::new(|q: Seq<char>| !starts_with(q, memory_prefix()))).contains_key(other)
            == before.contains_key(other),
        before.contains_key(other) ==> before.restrict(Set::new(|q: Seq<char>| !starts_with(q, memory_prefix())))[other]
            == before[other],
{
    assert((memory_prefix() + key).subrange(0, memory_prefix().len() as int) =~= memory_prefix());
}

} // verus!
