//! Chat data: roles, messages and the conversation held by a session.

use vstd::prelude::*;
use crate::strmap::StringMap;
use crate::text::{decimal, push_str, str_eq, to_lowercase, lowercase, usize_to_string, owned};

verus! {

/// The role of a participant in a chat conversation.
#[derive(Debug, Clone, Copy, PartialEq, Eq, Structural)]
pub enum Role {
    /// The system, giving instructions to the assistant.
    System,
    /// The user, asking questions or giving commands.
    User,
    /// The assistant, answering the user.
    Assistant,
    /// A tool, giving the result of a function call.
    Tool,
}

/// The role named by an already lower-cased word; any other word names the assistant.
pub open spec fn role_of_word(w: Seq<char>) -> Role {
    if w == "system"@ {
        Role::System
    } else if w == "user"@ {
        Role::User
    } else if w == "assistant"@ {
        Role::Assistant
    } else if w == "tool"@ {
        Role::Tool
    } else {
        Role::Assistant
    }
}

impl<'a> From<&'a str> for Role {
    /// The role named by `s`, compared after lower-casing; unknown names give `Assistant`.
    fn from(s: &'a str) -> (r: Role) {
        let lower = to_lowercase(s);
        if str_eq(lower.as_str(), "system") {
            Role::System
        } else if str_eq(lower.as_str(), "user") {
            Role::User
        } else if str_eq(lower.as_str(), "assistant") {
            Role::Assistant
        } else if str_eq(lower.as_str(), "tool") {
            Role::Tool
        } else {
            Role::Assistant
        }
    }
}

impl<'a> vstd::std_specs::convert::FromSpecImpl<&'a str> for Role {
    open spec fn obeys_from_spec() -> bool {
        true
    }

    open spec fn from_spec(s: &'a str) -> Role {
        role_of_word(lowercase(s@))
    }
}

/// A function call requested by the assistant.
#[derive(Debug, Clone)]
pub struct FunctionCall {
    /// The name of the function to call.
    pub name: String,
    /// The arguments of the call, as JSON text.
    pub arguments: String,
}

/// A tool call requested by the assistant.
#[derive(Debug, Clone)]
pub struct ToolCall {
    /// The identifier of the call.
    pub id: String,
    /// The kind of call (e.g. "function").
    pub call_type: String,
    /// The function to call.
    pub function: FunctionCall,
}

/// One message of a conversation.
#[derive(Debug, Clone)]
pub struct ChatMessage {
    /// Who sent the message.
    pub role: Role,
    /// The text of the message.
    pub content: String,
    /// The name of the sender.
    pub name: Option<String>,
    /// The tool calls requested by the assistant.
    pub tool_calls: Option<Vec<ToolCall>>,
    /// The tool call this message answers.
    pub tool_call_id: Option<String>,
}

/// A message of the given role and text, with no name, tool calls or call id.
pub open spec fn plain_message(role: Role, content: String) -> ChatMessage {
    ChatMessage { role, content, name: None, tool_calls: None, tool_call_id: None }
}

/// Whether `m` is a plain message of role `role` whose text is `content`.
pub open spec fn is_plain(m: ChatMessage, role: Role, content: Seq<char>) -> bool {
    &&& m.role == role
    &&& m.content@ == content
    &&& m.name is None
    &&& m.tool_calls is None
    &&& m.tool_call_id is None
}

fn clone_opt_string(s: &Option<String>) -> (r: Option<String>)
    ensures
        r == *s,
{
    match s {
        Some(x) => Some(x.clone()),
        None => None,
    }
}

impl FunctionCall {
    /// An identical copy.
    pub fn duplicate(&self) -> (r: FunctionCall)
        ensures
            r == *self,
    {
        FunctionCall { name: self.name.clone(), arguments: self.arguments.clone() }
    }
}

impl ToolCall {
    /// An identical copy.
    pub fn duplicate(&self) -> (r: ToolCall)
        ensures
            r == *self,
    {
        ToolCall {
            id: self.id.clone(),
            call_type: self.call_type.clone(),
            function: self.function.duplicate(),
        }
    }
}

fn clone_calls(v: &Vec<ToolCall>) -> (r: Vec<ToolCall>)
    ensures
        r@ == v@,
{
    let mut r: Vec<ToolCall> = Vec::new();
    let mut i: usize = 0;
    while i < v.len()
        invariant
            i <= v@.len(),
            r@ == v@.take(i as int),
        decreases v@.len() - i,
    {
        r.push(v[i].duplicate());
        i = i + 1;
        assert(r@ =~= v@.take(i as int));
    }
    assert(v@.take(v@.len() as int) =~= v@);
    r
}

impl ChatMessage {
    /// A system message.
    pub fn system(content: &str) -> (m: Self)
        ensures
            is_plain(m, Role::System, content@),
    {
        ChatMessage {
            role: Role::System,
            content: owned(content),
            name: None,
            tool_calls: None,
            tool_call_id: None,
        }
    }

    /// A user message.
    pub fn user(content: &str) -> (m: Self)
        ensures
            is_plain(m, Role::User, content@),
    {
        ChatMessage {
            role: Role::User,
            content: owned(content),
            name: None,
            tool_calls: None,
            tool_call_id: None,
        }
    }

    /// An assistant message.
    pub fn assistant(content: &str) -> (m: Self)
        ensures
            is_plain(m, Role::Assistant, content@),
    {
        ChatMessage {
            role: Role::Assistant,
            content: owned(content),
            name: None,
            tool_calls: None,
            tool_call_id: None,
        }
    }

    /// A tool message answering the call `tool_call_id`.
    pub fn tool(content: &str, tool_call_id: &str) -> (m: Self)
        ensures
            m.role == Role::Tool,
            m.content@ == content@,
            m.name is None,
            m.tool_calls is None,
            m.tool_call_id matches Some(id) && id@ == tool_call_id@,
    {
        ChatMessage {
            role: Role::Tool,
            content: owned(content),
            name: None,
            tool_calls: None,
            tool_call_id: Some(owned(tool_call_id)),
        }
    }

    /// An identical copy.
    pub fn duplicate(&self) -> (r: ChatMessage)
        ensures
            r.role == self.role,
            r.content == self.content,
            r.name == self.name,
            r.tool_call_id == self.tool_call_id,
            match (r.tool_calls, self.tool_calls) {
                (Some(a), Some(b)) => a@ == b@,
                (None, None) => true,
                _ => false,
            },
    {
        ChatMessage {
            role: self.role,
            content: self.content.clone(),
            name: clone_opt_string(&self.name),
            tool_calls: match &self.tool_calls {
                Some(v) => Some(clone_calls(v)),
                None => None,
            },
            tool_call_id: clone_opt_string(&self.tool_call_id),
        }
    }
}

/// Whether `a` is an identical copy of `b`.
pub open spec fn same_message(a: ChatMessage, b: ChatMessage) -> bool {
    &&& a.role == b.role
    &&& a.content == b.content
    &&& a.name == b.name
    &&& a.tool_call_id == b.tool_call_id
    &&& match (a.tool_calls, b.tool_calls) {
        (Some(x), Some(y)) => x@ == y@,
        (None, None) => true,
        _ => false,
    }
}

/// The number of messages of role `r`.
pub open spec fn count_role(ms: Seq<ChatMessage>, r: Role) -> nat
    decreases ms.len(),
{
    if ms.len() == 0 {
        0
    } else {
        count_role(ms.drop_last(), r) + if ms.last().role == r {
            1nat
        } else {
            0nat
        }
    }
}

/// The metadata lines of a summary, one `  key: value` line per pair, in order.
pub open spec fn metadata_lines(ps: Seq<(Seq<char>, String)>) -> Seq<char>
    decreases ps.len(),
{
    if ps.len() == 0 {
        Seq::empty()
    } else {
        metadata_lines(ps.drop_last()) + "  "@ + ps.last().0 + ": "@ + ps.last().1@ + "\n"@
    }
}

/// The text of a session summary: message counts, then the metadata if there is any.
pub open spec fn summary_text(ms: Seq<ChatMessage>, meta: Seq<(Seq<char>, String)>) -> Seq<char> {
    "Total messages: "@ + decimal(ms.len()) + "\n"@ + "User messages: "@ + decimal(
        count_role(ms, Role::User),
    ) + "\n"@ + "Assistant messages: "@ + decimal(count_role(ms, Role::Assistant)) + "\n"@
        + "Tool messages: "@ + decimal(count_role(ms, Role::Tool)) + "\n"@ + if meta.len() == 0 {
        Seq::<char>::empty()
    } else {
        "\nSession metadata:\n"@ + metadata_lines(meta)
    }
}

/// Whether `out` is what a session sends to a model: the system prompt first,
/// when there is one, then copies of the session's messages.
pub open spec fn model_messages(s: ChatSession, out: Seq<ChatMessage>) -> bool {
    match s.system_prompt {
        Some(p) => {
            &&& out.len() == s.messages@.len() + 1
            &&& out[0] == plain_message(Role::System, p)
            &&& forall|i: int|
                0 <= i < s.messages@.len() ==> same_message(
                    #[trigger] out[i + 1],
                    s.messages@[i],
                )
        },
        None => {
            &&& out.len() == s.messages@.len()
            &&& forall|i: int|
                0 <= i < s.messages@.len() ==> same_message(
                    #[trigger] out[i],
                    s.messages@[i],
                )
        },
    }
}

/// A session's metadata as a map from keys to the texts of their values.
pub open spec fn session_metadata(s: ChatSession) -> Map<Seq<char>, Seq<char>> {
    s.metadata.map().map_values(|v: String| v@)
}

/// A change to a session's metadata: `set_metadata(key, value)` or
/// `remove_metadata(key)`, by their texts.
pub enum MetadataChange {
    /// `set_metadata(key, value)`.
    Put(Seq<char>, Seq<char>),
    /// `remove_metadata(key)`.
    Delete(Seq<char>),
}

/// The key a change is about.
pub open spec fn change_key(c: MetadataChange) -> Seq<char> {
    match c {
        MetadataChange::Put(k, _) => k,
        MetadataChange::Delete(k) => k,
    }
}

/// The metadata after the changes `cs`, in order, starting from `m`, as
/// `set_metadata` and `remove_metadata` state their effect.
pub open spec fn metadata_after(m: Map<Seq<char>, Seq<char>>, cs: Seq<MetadataChange>) -> Map<Seq<char>, Seq<char>>
    decreases cs.len(),
{
    if cs.len() == 0 {
        m
    } else {
        let before = metadata_after(m, cs.drop_last());
        match cs.last() {
            MetadataChange::Put(k, v) => before.insert(k, v),
            MetadataChange::Delete(k) => before.remove(k),
        }
    }
}

/// After `set_metadata(k, v)`, and no later change of key `k`, `get_metadata(k)`
/// gives `v`.
pub proof fn lemma_metadata_set_then_get(m: Map<Seq<char>, Seq<char>>, cs: Seq<MetadataChange>, i: int, k: Seq<char>, v: Seq<char>)
    requires
        0 <= i < cs.len(),
        cs[i] == MetadataChange::Put(k, v),
        forall|j: int| i < j < cs.len() ==> change_key(#[trigger] cs[j]) != k,
    ensures
        metadata_after(m, cs).contains_key(k),
        metadata_after(m, cs)[k] == v,
    decreases cs.len(),
{
    if i < cs.len() - 1 {
        assert forall|j: int| i < j < cs.drop_last().len() implies change_key(#[trigger] cs.drop_last()[j]) != k by {
            assert(cs.drop_last()[j] == cs[j]);
        }
        assert(cs.drop_last()[i] == cs[i]);
        lemma_metadata_set_then_get(m, cs.drop_last(), i, k, v);
        assert(change_key(cs[cs.len() - 1]) != k);
    }
}

/// A key that was never set, or was removed and not set again, is not found by
/// `get_metadata`.
pub proof fn lemma_metadata_unset_absent(m: Map<Seq<char>, Seq<char>>, cs: Seq<MetadataChange>, k: Seq<char>)
    requires
        !m.contains_key(k),
        forall|j: int| 0 <= j < cs.len() ==> !(#[trigger] cs[j] matches MetadataChange::Put(a, _) && a == k),
    ensures
        !metadata_after(m, cs).contains_key(k),
    decreases cs.len(),
{
    if cs.len() > 0 {
        assert forall|j: int| 0 <= j < cs.drop_last().len() implies !(#[trigger] cs.drop_last()[j] matches MetadataChange::Put(a, _) && a == k) by {
            assert(cs.drop_last()[j] == cs[j]);
        }
        lemma_metadata_unset_absent(m, cs.drop_last(), k);
        assert(!(cs[cs.len() - 1] matches MetadataChange::Put(a, _) && a == k));
    }
}

/// After `remove_metadata(k)`, and no later `set_metadata` of `k`,
/// `get_metadata(k)` finds nothing.
pub proof fn lemma_metadata_removed_absent(m: Map<Seq<char>, Seq<char>>, cs: Seq<MetadataChange>, i: int, k: Seq<char>)
    requires
        0 <= i < cs.len(),
        cs[i] == MetadataChange::Delete(k),
        forall|j: int| i < j < cs.len() ==> !(#[trigger] cs[j] matches MetadataChange::Put(a, _) && a == k),
    ensures
        !metadata_after(m, cs).contains_key(k),
    decreases cs.len(),
{
    if i < cs.len() - 1 {
        assert forall|j: int| i < j < cs.drop_last().len() implies !(#[trigger] cs.drop_last()[j] matches MetadataChange::Put(a, _) && a == k) by {
            assert(cs.drop_last()[j] == cs[j]);
        }
        assert(cs.drop_last()[i] == cs[i]);
        lemma_metadata_removed_absent(m, cs.drop_last(), i, k);
        assert(!(cs[cs.len() - 1] matches MetadataChange::Put(a, _) && a == k));
    }
}

/// Whether `states` are the metadata of a session seen across the calls `cs`
/// (`set_metadata` for `Put`, `remove_metadata` for `Delete`), in order:
/// `states[j + 1]` is what the call `cs[j]` leaves of `states[j]`, as those
/// functions state.
pub open spec fn metadata_trace(states: Seq<Map<Seq<char>, Seq<char>>>, cs: Seq<MetadataChange>) -> bool {
    &&& states.len() == cs.len() + 1
    &&& forall|j: int| 0 <= j < cs.len() ==> states[j + 1] == match #[trigger] cs[j] {
        MetadataChange::Put(k, v) => states[j].insert(k, v),
        MetadataChange::Delete(k) => states[j].remove(k),
    }
}

/// The metadata seen after the calls are those the changes give.
pub proof fn lemma_metadata_trace(states: Seq<Map<Seq<char>, Seq<char>>>, cs: Seq<MetadataChange>)
    requires
        metadata_trace(states, cs),
    ensures
        states.last() == metadata_after(states[0], cs),
    decreases cs.len(),
{
    if cs.len() > 0 {
        let init = cs.drop_last();
        let st = states.drop_last();
        assert forall|j: int| 0 <= j < init.len() implies st[j + 1] == match #[trigger] init[j] {
            MetadataChange::Put(k, v) => st[j].insert(k, v),
            MetadataChange::Delete(k) => st[j].remove(k),
        } by {
            assert(init[j] == cs[j]);
            assert(st[j + 1] == states[j + 1] && st[j] == states[j]);
        }
        lemma_metadata_trace(st, init);
        assert(cs[cs.len() - 1] == cs.last());
        assert(st.last() == states[cs.len() - 1]);
    }
}

/// Metadata read after set, over any sequence of calls: after
/// `set_metadata(k, v)`, with no later `set_metadata` or `remove_metadata` of
/// `k`, the session's metadata holds `v` under `k`, so `get_metadata(k)` gives
/// it; a key never set, or removed and not set again, is not there, so
/// `get_metadata` gives nothing for it.
pub proof fn lemma_metadata_calls(
    states: Seq<Map<Seq<char>, Seq<char>>>,
    cs: Seq<MetadataChange>,
    i: int,
    k: Seq<char>,
    v: Seq<char>,
    k2: Seq<char>,
)
    requires
        metadata_trace(states, cs),
    ensures
        0 <= i < cs.len() && cs[i] == MetadataChange::Put(k, v) && (forall|j: int|
            i < j < cs.len() ==> change_key(#[trigger] cs[j]) != k) ==> states.last().contains_key(k)
            && states.last()[k] == v,
        !states[0].contains_key(k2) && (forall|j: int|
            0 <= j < cs.len() ==> !(#[trigger] cs[j] matches MetadataChange::Put(a, _) && a == k2))
            ==> !states.last().contains_key(k2),
        0 <= i < cs.len() && cs[i] == MetadataChange::Delete(k2) && (forall|j: int|
            i < j < cs.len() ==> !(#[trigger] cs[j] matches MetadataChange::Put(a, _) && a == k2))
            ==> !states.last().contains_key(k2),
{
    lemma_metadata_trace(states, cs);
    if 0 <= i < cs.len() && cs[i] == MetadataChange::Put(k, v) && (forall|j: int|
        i < j < cs.len() ==> change_key(#[trigger] cs[j]) != k) {
        lemma_metadata_set_then_get(states[0], cs, i, k, v);
    }
    if !states[0].contains_key(k2) && (forall|j: int|
        0 <= j < cs.len() ==> !(#[trigger] cs[j] matches MetadataChange::Put(a, _) && a == k2)) {
        lemma_metadata_unset_absent(states[0], cs, k2);
    }
    if 0 <= i < cs.len() && cs[i] == MetadataChange::Delete(k2) && (forall|j: int|
        i < j < cs.len() ==> !(#[trigger] cs[j] matches MetadataChange::Put(a, _) && a == k2)) {
        lemma_metadata_removed_absent(states[0], cs, i, k2);
    }
}

/// A conversation: its messages, an optional system prompt and string metadata.
#[derive(Debug)]
pub struct ChatSession {
    /// The messages of the conversation, oldest first.
    pub messages: Vec<ChatMessage>,
    /// The system prompt, given to the model before the messages.
    pub system_prompt: Option<String>,
    /// Metadata attached to the session.
    pub metadata: StringMap<String>,
}

impl ChatSession {
    /// An empty session.
    pub fn new() -> (s: Self)
        ensures
            s.messages@.len() == 0,
            s.system_prompt is None,
            s.metadata.map() == Map::<Seq<char>, String>::empty(),
            s.metadata.pairs().len() == 0,
    {
        ChatSession { messages: Vec::new(), system_prompt: None, metadata: StringMap::new() }
    }

    /// The same session with its system prompt set to `prompt`.
    pub fn with_system_prompt(self, prompt: &str) -> (s: Self)
        ensures
            s.messages == self.messages,
            s.metadata == self.metadata,
            s.system_prompt matches Some(p) && p@ == prompt@,
    {
        let mut s = self;
        s.system_prompt = Some(owned(prompt));
        s
    }

    /// Appends a message.
    pub fn add_message(&mut self, message: ChatMessage)
        ensures
            final(self).messages@ == old(self).messages@.push(message),
            final(self).system_prompt == old(self).system_prompt,
            final(self).metadata == old(self).metadata,
    {
        self.messages.push(message);
    }

    /// Appends a user message.
    pub fn add_user_message(&mut self, content: &str)
        ensures
            final(self).messages@.len() == old(self).messages@.len() + 1,
            final(self).messages@.drop_last() == old(self).messages@,
            is_plain(final(self).messages@.last(), Role::User, content@),
            final(self).system_prompt == old(self).system_prompt,
            final(self).metadata == old(self).metadata,
    {
        self.messages.push(ChatMessage::user(content));
        assert(self.messages@.drop_last() =~= old(self).messages@);
    }

    /// Appends an assistant message.
    pub fn add_assistant_message(&mut self, content: &str)
        ensures
            final(self).messages@.len() == old(self).messages@.len() + 1,
            final(self).messages@.drop_last() == old(self).messages@,
            is_plain(final(self).messages@.last(), Role::Assistant, content@),
            final(self).system_prompt == old(self).system_prompt,
            final(self).metadata == old(self).metadata,
    {
        self.messages.push(ChatMessage::assistant(content));
        assert(self.messages@.drop_last() =~= old(self).messages@);
    }

    /// All messages to send to a model: the system prompt first, when there is
    /// one, then copies of the session's messages.
    pub fn get_messages(&self) -> (out: Vec<ChatMessage>)
        ensures
            model_messages(*self, out@),
    {
        let mut out: Vec<ChatMessage> = Vec::new();
        let off: usize = match &self.system_prompt {
            Some(p) => {
                out.push(
                    ChatMessage {
                        role: Role::System,
                        content: p.clone(),
                        name: None,
                        tool_calls: None,
                        tool_call_id: None,
                    },
                );
                1
            },
            None => 0,
        };
        let mut i: usize = 0;
        while i < self.messages.len()
            invariant
                i <= self.messages@.len(),
                out@.len() == off + i,
                off == (if self.system_prompt is Some { 1usize } else { 0usize }),
                self.system_prompt matches Some(p) ==> out@[0] == plain_message(Role::System, p),
                forall|j: int|
                    0 <= j < i ==> same_message(#[trigger] out@[j + off], self.messages@[j]),
            decreases self.messages@.len() - i,
        {
            out.push(self.messages[i].duplicate());
            i = i + 1;
        }
        assert forall|j: int| 0 <= j < self.messages@.len() implies same_message(
            #[trigger] out@[j + off],
            self.messages@[j],
        ) by {}
        proof {
            if off == 1 {
                assert forall|j: int| 0 <= j < self.messages@.len() implies same_message(
                    #[trigger] out@[j + 1],
                    self.messages@[j],
                ) by {
                    assert(same_message(out@[j + off], self.messages@[j]));
                }
            } else {
                assert forall|j: int| 0 <= j < self.messages@.len() implies same_message(
                    #[trigger] out@[j],
                    self.messages@[j],
                ) by {
                    assert(same_message(out@[j + off], self.messages@[j]));
                }
            }
        }
        out
    }

    /// Removes all messages; the system prompt and metadata stay.
    pub fn clear(&mut self)
        ensures
            final(self).messages@.len() == 0,
            final(self).system_prompt == old(self).system_prompt,
            final(self).metadata == old(self).metadata,
    {
        self.messages.clear();
    }

    /// Sets metadata key `key` to `value`.
    pub fn set_metadata(&mut self, key: &str, value: &str)
        ensures
            final(self).metadata.map().dom() == old(self).metadata.map().dom().insert(key@),
            final(self).metadata.map()[key@]@ == value@,
            forall|k: Seq<char>|
                k != key@ && old(self).metadata.map().contains_key(k)
                    ==> final(self).metadata.map()[k] == old(self).metadata.map()[k],
            session_metadata(*final(self)) == session_metadata(*old(self)).insert(key@, value@),
            final(self).messages == old(self).messages,
            final(self).system_prompt == old(self).system_prompt,
    {
        let _ = self.metadata.insert(owned(key), owned(value));
        assert(session_metadata(*self) =~= session_metadata(*old(self)).insert(key@, value@));
    }

    /// The metadata value for `key`, if set.
    pub fn get_metadata(&self, key: &str) -> (r: Option<&String>)
        ensures
            match r {
                Some(v) => self.metadata.map().contains_key(key@) && *v == self.metadata.map()[key@]
                    && session_metadata(*self).contains_key(key@) && session_metadata(*self)[key@] == v@,
                None => !self.metadata.map().contains_key(key@) && !session_metadata(*self).contains_key(key@),
            },
    {
        self.metadata.get(key)
    }

    /// Removes metadata key `key`, returning its value if it was set.
    pub fn remove_metadata(&mut self, key: &str) -> (r: Option<String>)
        ensures
            final(self).metadata.map() == old(self).metadata.map().remove(key@),
            r == (if old(self).metadata.map().contains_key(key@) {
                Some(old(self).metadata.map()[key@])
            } else {
                None
            }),
            session_metadata(*final(self)) == session_metadata(*old(self)).remove(key@),
            final(self).messages == old(self).messages,
            final(self).system_prompt == old(self).system_prompt,
    {
        let r = self.metadata.remove(key);
        assert(session_metadata(*self) =~= session_metadata(*old(self)).remove(key@));
        r
    }

    /// A text summary: message counts by role and the metadata, one pair per line.
    pub fn get_summary(&self) -> (out: String)
        ensures
            out@ == summary_text(self.messages@, self.metadata.pairs()),
    {
        let ms = &self.messages;
        let mut users: usize = 0;
        let mut assistants: usize = 0;
        let mut tools: usize = 0;
        let mut i: usize = 0;
        while i < ms.len()
            invariant
                i <= ms@.len(),
                users == count_role(ms@.take(i as int), Role::User),
                assistants == count_role(ms@.take(i as int), Role::Assistant),
                tools == count_role(ms@.take(i as int), Role::Tool),
                users <= i && assistants <= i && tools <= i,
            decreases ms@.len() - i,
        {
            assert(ms@.take(i + 1).drop_last() =~= ms@.take(i as int));
            match ms[i].role {
                Role::User => users = users + 1,
                Role::Assistant => assistants = assistants + 1,
                Role::Tool => tools = tools + 1,
                Role::System => {},
            }
            i = i + 1;
        }
        assert(ms@.take(ms@.len() as int) =~= ms@);
        let mut out = String::new();
        push_str(&mut out, "Total messages: ");
        push_str(&mut out, usize_to_string(ms.len()).as_str());
        push_str(&mut out, "\n");
        push_str(&mut out, "User messages: ");
        push_str(&mut out, usize_to_string(users).as_str());
        push_str(&mut out, "\n");
        push_str(&mut out, "Assistant messages: ");
        push_str(&mut out, usize_to_string(assistants).as_str());
        push_str(&mut out, "\n");
        push_str(&mut out, "Tool messages: ");
        push_str(&mut out, usize_to_string(tools).as_str());
        push_str(&mut out, "\n");
        let ghost head = out@;
        if !self.metadata.is_empty() {
            push_str(&mut out, "\nSession metadata:\n");
            let es = self.metadata.entries();
            let ghost ps = self.metadata.pairs();
            let ghost start = out@;
            let mut j: usize = 0;
            while j < es.len()
                invariant
                    j <= es@.len(),
                    es@.map_values(|e: (String, String)| (e.0@, e.1)) == ps,
                    out@ == start + metadata_lines(ps.take(j as int)),
                decreases es@.len() - j,
            {
                assert(ps.take(j + 1).drop_last() =~= ps.take(j as int));
                assert(ps[j as int] == (es@[j as int].0@, es@[j as int].1));
                push_str(&mut out, "  ");
                push_str(&mut out, es[j].0.as_str());
                push_str(&mut out, ": ");
                push_str(&mut out, es[j].1.as_str());
                push_str(&mut out, "\n");
                j = j + 1;
            }
            assert(ps.take(es@.len() as int) =~= ps);
        }
        out
    }
}

} // verus!
