//! Language-model plumbing that is pure computation: the shapes of responses and
//! stream chunks, reading a server-sent event stream, recognising a model family,
//! laying out a prompt for it, and the decisions of greedy decoding.

use vstd::prelude::*;
use crate::chat::{ChatMessage, Role, is_plain, role_of_word};
use crate::clock::{now, new_uuid};
use crate::error::HeliosError;
use crate::text::{
    owned, push_str, str_eq, chars_of, string_of, trim, trim_exec, starts_with, ends_with,
    split_on, split_on_exec, contains, str_contains, to_lowercase, lowercase, signed_decimal,
    i64_to_string, str_starts_with, str_ends_with, slice_range,
};

verus! {

/// Token counts of a request.
#[derive(Debug, Clone, Copy)]
pub struct Usage {
    /// Tokens of the prompt.
    pub prompt_tokens: u32,
    /// Tokens of the completion.
    pub completion_tokens: u32,
    /// Both together.
    pub total_tokens: u32,
}

/// What a stream chunk adds to the reply.
#[derive(Debug)]
pub struct Delta {
    /// The role of the reply, when the chunk names it.
    pub role: Option<String>,
    /// More text of the reply.
    pub content: Option<String>,
}

/// One choice of a stream chunk.
#[derive(Debug)]
pub struct StreamChoice {
    /// The choice's position.
    pub index: u32,
    /// What it adds.
    pub delta: Delta,
    /// Why generation stopped, at the end.
    pub finish_reason: Option<String>,
}

/// One event of a streamed completion.
#[derive(Debug)]
pub struct StreamChunk {
    /// The completion's id.
    pub id: String,
    /// The kind of object.
    pub object: String,
    /// When it was created, in seconds since the epoch.
    pub created: u64,
    /// The model that produced it.
    pub model: String,
    /// The choices it carries.
    pub choices: Vec<StreamChoice>,
}

/// One choice of a completion.
#[derive(Debug)]
pub struct Choice {
    /// The choice's position.
    pub index: u32,
    /// The message produced.
    pub message: ChatMessage,
    /// Why generation stopped.
    pub finish_reason: Option<String>,
}

/// A completed chat request.
#[derive(Debug)]
pub struct LLMResponse {
    /// The completion's id.
    pub id: String,
    /// The kind of object.
    pub object: String,
    /// When it was created, in seconds since the epoch.
    pub created: u64,
    /// The model that produced it.
    pub model: String,
    /// The choices produced.
    pub choices: Vec<Choice>,
    /// Token counts.
    pub usage: Usage,
}

/// The message of the first choice of a response; a response without choices is
/// `LLMError("No response from LLM")`.
pub fn first_message(resp: LLMResponse) -> (r: Result<ChatMessage, HeliosError>)
    ensures
        resp.choices@.len() > 0 ==> r == Ok::<ChatMessage, HeliosError>(resp.choices@[0].message),
        resp.choices@.len() == 0 ==> (r matches Err(HeliosError::LLMError(m)) && m@ == "No response from LLM"@),
{
    let mut choices = resp.choices;
    if choices.len() == 0 {
        Err(HeliosError::LLMError(owned("No response from LLM")))
    } else {
        let c = choices.remove(0);
        Ok(c.message)
    }
}

/// The error for a request that the server refused with `status` (its code and
/// reason) and the body `body`.
pub fn api_failure(status: &str, body: &str) -> (e: HeliosError)
    ensures
        e matches HeliosError::LLMError(m) && m@ == "LLM API request failed with status "@ + status@ + ": "@ + body@,
{
    let mut m = String::new();
    push_str(&mut m, "LLM API request failed with status ");
    push_str(&mut m, status);
    push_str(&mut m, ": ");
    push_str(&mut m, body);
    HeliosError::LLMError(m)
}

/// The data of a server-sent event line, if it carries any: the line is trimmed,
/// empty lines and the `data: [DONE]` marker carry none, and other lines carry
/// what follows `data: `.
pub open spec fn sse_payload(line: Seq<char>) -> Option<Seq<char>> {
    let t = trim(line);
    if t.len() == 0 || t == "data: [DONE]"@ {
        None
    } else if starts_with(t, "data: "@) {
        Some(t.subrange(6, t.len() as int))
    } else {
        None
    }
}

/// The data carried by the lines `ls`, in order.
pub open spec fn sse_payloads(ls: Seq<Seq<char>>) -> Seq<Seq<char>>
    decreases ls.len(),
{
    if ls.len() == 0 {
        Seq::empty()
    } else {
        let rest = sse_payloads(ls.drop_last());
        match sse_payload(ls.last()) {
            Some(d) => rest.push(d),
            None => rest,
        }
    }
}

/// The text of a server-sent event stream received so far that does not yet
/// end a line.
#[derive(Debug)]
pub struct SseBuffer {
    /// The unfinished line.
    pub pending: String,
}

impl SseBuffer {
    /// An empty buffer.
    pub fn new() -> (b: Self)
        ensures
            b.pending@.len() == 0,
    {
        SseBuffer { pending: String::new() }
    }

    /// Takes in more text of the stream and returns the data of the lines it
    /// completes, in order; the rest of the text waits for its line to end.
    pub fn push(&mut self, text: &str) -> (out: Vec<String>)
        ensures
            final(self).pending@ == split_on(old(self).pending@ + text@, "\n"@).last(),
            out@.map_values(|d: String| d@) == sse_payloads(split_on(old(self).pending@ + text@, "\n"@).drop_last()),
    {
        let mut all = String::new();
        push_str(&mut all, self.pending.as_str());
        push_str(&mut all, text);
        let cs = chars_of(all.as_str());
        let mut nl: Vec<char> = Vec::new();
        nl.push('\n');
        proof {
            reveal_strlit("\n");
            assert(nl@ =~= "\n"@);
        }
        let pieces = split_on_exec(cs.as_slice(), nl.as_slice());
        let ghost views = pieces@.map_values(|l: Vec<char>| l@);
        proof {
            lemma_split_nonempty(cs@, nl@);
        }
        let n = pieces.len() - 1;
        let mut out: Vec<String> = Vec::new();
        let mut i: usize = 0;
        while i < n
            invariant
                i <= n,
                n == pieces@.len() - 1,
                views == pieces@.map_values(|l: Vec<char>| l@),
                out@.map_values(|d: String| d@) == sse_payloads(views.take(i as int)),
            decreases n - i,
        {
            assert(views.take(i + 1).drop_last() =~= views.take(i as int));
            assert(views[i as int] == pieces@[i as int]@);
            let t = trim_exec(pieces[i].as_slice());
            let ts = string_of(t.as_slice());
            let ghost before = out@.map_values(|d: String| d@);
            if t.len() > 0 && !str_eq(ts.as_str(), "data: [DONE]") && str_starts_with(ts.as_str(), "data: ") {
                proof {
                    reveal_strlit("data: ");
                }
                let d = slice_range(t.as_slice(), 6, t.len());
                out.push(string_of(d.as_slice()));
                assert(out@.map_values(|d: String| d@) =~= before.push(t@.subrange(6, t@.len() as int)));
            }
            i = i + 1;
        }
        assert(views.take(n as int) =~= views.drop_last());
        self.pending = string_of(pieces[n].as_slice());
        out
    }
}

/// Splitting on a non-empty pattern gives at least one piece.
proof fn lemma_split_nonempty(s: Seq<char>, p: Seq<char>)
    requires
        p.len() > 0,
    ensures
        split_on(s, p).len() >= 1,
    decreases s.len(),
{
    let k = find_first_pos(s, p);
    if k >= 0 {
        crate::text::lemma_find_first(s, p);
        lemma_split_nonempty(s.subrange(k + p.len(), s.len() as int), p);
    }
}

spec fn find_first_pos(s: Seq<char>, p: Seq<char>) -> int {
    crate::text::find_first(s, p)
}

/// The reply being assembled from a stream: its text so far and its role, once named.
#[derive(Debug)]
pub struct StreamAccumulator {
    /// The text received so far.
    pub content: String,
    /// The role named by the stream, if any.
    pub role: Option<String>,
}

impl StreamAccumulator {
    /// Nothing received yet.
    pub fn new() -> (a: Self)
        ensures
            a.content@.len() == 0,
            a.role is None,
    {
        StreamAccumulator { content: String::new(), role: None }
    }

    /// Takes in a chunk: its first choice may name the role and add text. Returns
    /// the text it adds, to pass on to the listener.
    pub fn on_chunk(&mut self, chunk: &StreamChunk) -> (piece: Option<String>)
        ensures
            chunk.choices@.len() == 0 ==> piece is None && final(self).content == old(self).content
                && final(self).role == old(self).role,
            chunk.choices@.len() > 0 ==> {
                let d = chunk.choices@[0].delta;
                &&& final(self).role == (if d.role is Some { d.role } else { old(self).role })
                &&& piece == d.content
                &&& final(self).content@ == old(self).content@ + match d.content {
                    Some(c) => c@,
                    None => Seq::<char>::empty(),
                }
            },
    {
        if chunk.choices.len() == 0 {
            return None;
        }
        let d = &chunk.choices[0].delta;
        match &d.role {
            Some(r) => {
                self.role = Some(r.clone());
            },
            None => {},
        }
        match &d.content {
            Some(c) => {
                push_str(&mut self.content, c.as_str());
                Some(c.clone())
            },
            None => {
                assert(self.content@ =~= old(self).content@ + Seq::<char>::empty());
                None
            },
        }
    }

    /// The finished reply: of the role the stream named (the assistant when it
    /// named none), with the text received.
    pub fn finish(self) -> (m: ChatMessage)
        ensures
            m.role == role_of_word(lowercase(match self.role {
                Some(r) => r@,
                None => "assistant"@,
            })),
            m.content == self.content,
            m.name is None,
            m.tool_calls is None,
            m.tool_call_id is None,
    {
        let role = match &self.role {
            Some(r) => Role::from(r.as_str()),
            None => Role::from("assistant"),
        };
        ChatMessage { role, content: self.content, name: None, tool_calls: None, tool_call_id: None }
    }
}

/// The families of models that prompts are laid out for.
#[derive(Debug, Clone, PartialEq)]
pub enum ModelType {
    /// Qwen.
    Qwen,
    /// Qwen 2.
    Qwen2,
    /// Qwen 3.
    Qwen3,
    /// Llama.
    Llama,
    /// Llama 2.
    Llama2,
    /// Gemma.
    Gemma,
    /// Gemma 2.
    Gemma2,
    /// Mistral.
    Mistral,
    /// Any other model, by its repository name.
    Other(String),
}

/// The named family of a model, judged from its lower-cased repository name
/// `lower`: the first of qwen3, qwen2, qwen, llama2 (or llama-2), llama, gemma2,
/// gemma and mistral that it contains; none when it contains none of them.
pub open spec fn model_family(lower: Seq<char>) -> Option<ModelType> {
    if contains(lower, "qwen3"@) {
        Some(ModelType::Qwen3)
    } else if contains(lower, "qwen2"@) {
        Some(ModelType::Qwen2)
    } else if contains(lower, "qwen"@) {
        Some(ModelType::Qwen)
    } else if contains(lower, "llama2"@) || contains(lower, "llama-2"@) {
        Some(ModelType::Llama2)
    } else if contains(lower, "llama"@) {
        Some(ModelType::Llama)
    } else if contains(lower, "gemma2"@) {
        Some(ModelType::Gemma2)
    } else if contains(lower, "gemma"@) {
        Some(ModelType::Gemma)
    } else if contains(lower, "mistral"@) {
        Some(ModelType::Mistral)
    } else {
        None
    }
}

/// Whether `t` is the family of the model in repository `repo`: its named family,
/// or `Other` with the repository's name.
pub open spec fn is_family(t: ModelType, repo: Seq<char>, lower: Seq<char>) -> bool {
    match model_family(lower) {
        Some(f) => t == f,
        None => t matches ModelType::Other(s) && s@ == repo,
    }
}

impl ModelType {
    /// The family of the model in repository `repo`, from its lower-cased name.
    pub fn from_repo(repo: &str) -> (t: Self)
        ensures
            is_family(t, repo@, lowercase(repo@)),
    {
        let lower = to_lowercase(repo);
        let l = lower.as_str();
        if str_contains(l, "qwen3") {
            ModelType::Qwen3
        } else if str_contains(l, "qwen2") {
            ModelType::Qwen2
        } else if str_contains(l, "qwen") {
            ModelType::Qwen
        } else if str_contains(l, "llama2") || str_contains(l, "llama-2") {
            ModelType::Llama2
        } else if str_contains(l, "llama") {
            ModelType::Llama
        } else if str_contains(l, "gemma2") {
            ModelType::Gemma2
        } else if str_contains(l, "gemma") {
            ModelType::Gemma
        } else if str_contains(l, "mistral") {
            ModelType::Mistral
        } else {
            ModelType::Other(owned(repo))
        }
    }
}

/// The lower-case name of a role as chat templates write it.
pub open spec fn role_word(r: Role) -> Seq<char> {
    match r {
        Role::System => "system"@,
        Role::User => "user"@,
        Role::Assistant => "assistant"@,
        Role::Tool => "tool"@,
    }
}

/// The upper-case name of a role.
pub open spec fn role_caps(r: Role) -> Seq<char> {
    match r {
        Role::System => "SYSTEM"@,
        Role::User => "USER"@,
        Role::Assistant => "ASSISTANT"@,
        Role::Tool => "TOOL"@,
    }
}

/// The concatenation of `f` applied to each message, in order.
pub open spec fn concat_parts(ms: Seq<ChatMessage>, f: spec_fn(ChatMessage) -> Seq<char>) -> Seq<char>
    decreases ms.len(),
{
    if ms.len() == 0 {
        Seq::empty()
    } else {
        concat_parts(ms.drop_last(), f) + f(ms.last())
    }
}

/// A message in the ChatML layout of Qwen models.
pub open spec fn qwen_part(m: ChatMessage) -> Seq<char> {
    "<|im_start|>"@ + role_word(m.role) + "\n"@ + m.content@ + "\n<|im_end|>\n"@
}

/// A message in the Gemma layout: system and tool text as they are, user and
/// model turns marked.
pub open spec fn gemma_part(m: ChatMessage) -> Seq<char> {
    match m.role {
        Role::User => "<start_of_turn>user\n"@ + m.content@ + "<end_of_turn>\n"@,
        Role::Assistant => "<start_of_turn>model\n"@ + m.content@ + "<end_of_turn>\n"@,
        _ => m.content@,
    }
}

/// A message in the Mistral layout.
pub open spec fn mistral_part(m: ChatMessage) -> Seq<char> {
    match m.role {
        Role::System => m.content@ + "\n\n"@,
        Role::User => "[INST] "@ + m.content@ + " [/INST]"@,
        _ => m.content@ + "</s>[INST] "@,
    }
}

/// A message in the plain layout used for unknown models.
pub open spec fn default_part(m: ChatMessage) -> Seq<char> {
    role_caps(m.role) + ": "@ + m.content@ + "\n"@
}

/// A message in the layout of the llama.cpp provider: ChatML, with tool results inline.
pub open spec fn local_part(m: ChatMessage) -> Seq<char> {
    match m.role {
        Role::Tool => "Tool result: "@ + m.content@ + "\n"@,
        _ => qwen_part(m),
    }
}

/// A message in the Llama layout, after the text `prev` laid out so far: a user
/// turn opens with `[INST] ` unless it starts the prompt or one is already open.
pub open spec fn llama_part(prev: Seq<char>, m: ChatMessage) -> Seq<char> {
    match m.role {
        Role::System => "[INST] <<SYS>>\n"@ + m.content@ + "\n<</SYS>>\n\n"@,
        Role::User => (if prev.len() > 0 && !ends_with(prev, "[INST] "@) {
            "[INST] "@
        } else {
            Seq::<char>::empty()
        }) + m.content@ + " [/INST] "@,
        _ => m.content@ + " </s><s>[INST] "@,
    }
}

/// The Llama layout of the messages `ms`.
pub open spec fn llama_prompt(ms: Seq<ChatMessage>) -> Seq<char>
    decreases ms.len(),
{
    if ms.len() == 0 {
        Seq::empty()
    } else {
        let prev = llama_prompt(ms.drop_last());
        prev + llama_part(prev, ms.last())
    }
}

/// The prompt for a model of family `t` made from the messages `ms`.
pub open spec fn prompt_for(t: ModelType, ms: Seq<ChatMessage>) -> Seq<char> {
    match t {
        ModelType::Qwen | ModelType::Qwen2 | ModelType::Qwen3 => concat_parts(ms, |m: ChatMessage| qwen_part(m))
            + "<|im_start|>assistant\n"@,
        ModelType::Llama | ModelType::Llama2 => llama_prompt(ms),
        ModelType::Gemma | ModelType::Gemma2 => concat_parts(ms, |m: ChatMessage| gemma_part(m))
            + "<start_of_turn>model\n"@,
        ModelType::Mistral => concat_parts(ms, |m: ChatMessage| mistral_part(m)),
        ModelType::Other(_) => concat_parts(ms, |m: ChatMessage| default_part(m)),
    }
}

fn push_role_word(out: &mut String, r: Role)
    ensures
        final(out)@ == old(out)@ + role_word(r),
{
    match r {
        Role::System => push_str(out, "system"),
        Role::User => push_str(out, "user"),
        Role::Assistant => push_str(out, "assistant"),
        Role::Tool => push_str(out, "tool"),
    }
}

fn push_role_caps(out: &mut String, r: Role)
    ensures
        final(out)@ == old(out)@ + role_caps(r),
{
    match r {
        Role::System => push_str(out, "SYSTEM"),
        Role::User => push_str(out, "USER"),
        Role::Assistant => push_str(out, "ASSISTANT"),
        Role::Tool => push_str(out, "TOOL"),
    }
}

/// Lays out `messages` as a prompt for a model of family `t`.
pub fn format_messages(t: &ModelType, messages: &[ChatMessage]) -> (out: String)
    ensures
        out@ == prompt_for(*t, messages@),
{
    let mut out = String::new();
    let mut i: usize = 0;
    while i < messages.len()
        invariant
            i <= messages@.len(),
            out@ == match *t {
                ModelType::Qwen | ModelType::Qwen2 | ModelType::Qwen3 => concat_parts(
                    messages@.take(i as int),
                    |m: ChatMessage| qwen_part(m),
                ),
                ModelType::Llama | ModelType::Llama2 => llama_prompt(messages@.take(i as int)),
                ModelType::Gemma | ModelType::Gemma2 => concat_parts(
                    messages@.take(i as int),
                    |m: ChatMessage| gemma_part(m),
                ),
                ModelType::Mistral => concat_parts(messages@.take(i as int), |m: ChatMessage| mistral_part(m)),
                ModelType::Other(_) => concat_parts(messages@.take(i as int), |m: ChatMessage| default_part(m)),
            },
        decreases messages@.len() - i,
    {
        let m = &messages[i];
        assert(messages@.take(i + 1).drop_last() =~= messages@.take(i as int));
        assert(messages@.take(i + 1).last() == *m);
        let c = m.content.as_str();
        let ghost prev = out@;
        match t {
            ModelType::Qwen | ModelType::Qwen2 | ModelType::Qwen3 => {
                push_str(&mut out, "<|im_start|>");
                push_role_word(&mut out, m.role);
                push_str(&mut out, "\n");
                push_str(&mut out, c);
                push_str(&mut out, "\n<|im_end|>\n");
                assert(out@ =~= prev + qwen_part(*m));
            },
            ModelType::Llama | ModelType::Llama2 => {
                match m.role {
                    Role::System => {
                        push_str(&mut out, "[INST] <<SYS>>\n");
                        push_str(&mut out, c);
                        push_str(&mut out, "\n<</SYS>>\n\n");
                    },
                    Role::User => {
                        let open = !out.as_str().is_empty() && !str_ends_with(out.as_str(), "[INST] ");
                        if open {
                            push_str(&mut out, "[INST] ");
                        }
                        push_str(&mut out, c);
                        push_str(&mut out, " [/INST] ");
                    },
                    _ => {
                        push_str(&mut out, c);
                        push_str(&mut out, " </s><s>[INST] ");
                    },
                }
                assert(out@ =~= prev + llama_part(prev, *m));
            },
            ModelType::Gemma | ModelType::Gemma2 => {
                match m.role {
                    Role::User => {
                        push_str(&mut out, "<start_of_turn>user\n");
                        push_str(&mut out, c);
                        push_str(&mut out, "<end_of_turn>\n");
                    },
                    Role::Assistant => {
                        push_str(&mut out, "<start_of_turn>model\n");
                        push_str(&mut out, c);
                        push_str(&mut out, "<end_of_turn>\n");
                    },
                    _ => {
                        push_str(&mut out, c);
                    },
                }
                assert(out@ =~= prev + gemma_part(*m));
            },
            ModelType::Mistral => {
                match m.role {
                    Role::System => {
                        push_str(&mut out, c);
                        push_str(&mut out, "\n\n");
                    },
                    Role::User => {
                        push_str(&mut out, "[INST] ");
                        push_str(&mut out, c);
                        push_str(&mut out, " [/INST]");
                    },
                    _ => {
                        push_str(&mut out, c);
                        push_str(&mut out, "</s>[INST] ");
                    },
                }
                assert(out@ =~= prev + mistral_part(*m));
            },
            ModelType::Other(_) => {
                push_role_caps(&mut out, m.role);
                push_str(&mut out, ": ");
                push_str(&mut out, c);
                push_str(&mut out, "\n");
                assert(out@ =~= prev + default_part(*m));
            },
        }
        i = i + 1;
    }
    assert(messages@.take(messages@.len() as int) =~= messages@);
    match t {
        ModelType::Qwen | ModelType::Qwen2 | ModelType::Qwen3 => push_str(&mut out, "<|im_start|>assistant\n"),
        ModelType::Gemma | ModelType::Gemma2 => push_str(&mut out, "<start_of_turn>model\n"),
        _ => {},
    }
    out
}

/// Lays out `messages` as a prompt for the llama.cpp provider.
pub fn format_local_messages(messages: &[ChatMessage]) -> (out: String)
    ensures
        out@ == concat_parts(messages@, |m: ChatMessage| local_part(m)) + "<|im_start|>assistant\n"@,
{
    let mut out = String::new();
    let mut i: usize = 0;
    while i < messages.len()
        invariant
            i <= messages@.len(),
            out@ == concat_parts(messages@.take(i as int), |m: ChatMessage| local_part(m)),
        decreases messages@.len() - i,
    {
        let m = &messages[i];
        assert(messages@.take(i + 1).drop_last() =~= messages@.take(i as int));
        assert(messages@.take(i + 1).last() == *m);
        let ghost prev = out@;
        match m.role {
            Role::Tool => {
                push_str(&mut out, "Tool result: ");
                push_str(&mut out, m.content.as_str());
                push_str(&mut out, "\n");
            },
            _ => {
                push_str(&mut out, "<|im_start|>");
                push_role_word(&mut out, m.role);
                push_str(&mut out, "\n");
                push_str(&mut out, m.content.as_str());
                push_str(&mut out, "\n<|im_end|>\n");
            },
        }
        assert(out@ =~= prev + local_part(*m));
        i = i + 1;
    }
    assert(messages@.take(messages@.len() as int) =~= messages@);
    push_str(&mut out, "<|im_start|>assistant\n");
    out
}

/// The most tokens the llama.cpp provider generates for one reply.
pub const MAX_NEW_TOKENS: usize = 128;

/// Greedy decoding in progress: the text generated so far, the tokens drawn, the
/// position of the next token fed back to the model, and whether it has ended.
#[derive(Debug)]
pub struct GreedyDecode {
    /// The text generated so far.
    pub text: String,
    /// Tokens drawn so far.
    pub steps: usize,
    /// The position at which the next token is fed back.
    pub next_pos: i32,
    /// Whether the end-of-sequence token came.
    pub done: bool,
}

/// Whether a decoding's state is consistent: the positions of the tokens still
/// to be drawn fit in `i32`.
pub open spec fn decode_wf(d: GreedyDecode) -> bool {
    &&& d.steps <= MAX_NEW_TOKENS
    &&& d.next_pos >= 0
    &&& d.next_pos + (MAX_NEW_TOKENS - d.steps) <= i32::MAX
}

impl GreedyDecode {
    /// Decoding after a prompt of `prompt_len` tokens.
    pub fn new(prompt_len: usize) -> (d: Self)
        requires
            prompt_len + MAX_NEW_TOKENS <= i32::MAX,
        ensures
            decode_wf(d),
            d.text@.len() == 0,
            d.steps == 0,
            d.next_pos == prompt_len,
            !d.done,
    {
        GreedyDecode { text: String::new(), steps: 0, next_pos: prompt_len as i32, done: false }
    }

    /// Whether another token should be drawn: the end has not come and fewer
    /// than `MAX_NEW_TOKENS` were drawn.
    pub fn wants_token(&self) -> (b: bool)
        ensures
            b == (!self.done && self.steps < MAX_NEW_TOKENS),
    {
        !self.done && self.steps < MAX_NEW_TOKENS
    }

    /// Takes the drawn `token`, with `piece` its text when it has one. The
    /// end-of-sequence token `eos` ends the decoding; a token without text is
    /// passed over; any other token adds its text and is fed back to the model at
    /// the returned position.
    pub fn on_token(&mut self, token: i32, eos: i32, piece: Option<&str>) -> (feed: Option<i32>)
        requires
            decode_wf(*old(self)),
            !old(self).done,
            old(self).steps < MAX_NEW_TOKENS,
        ensures
            decode_wf(*final(self)),
            token == eos ==> final(self).done && feed is None && final(self).text == old(self).text
                && final(self).steps == old(self).steps && final(self).next_pos == old(self).next_pos,
            token != eos ==> {
                &&& !final(self).done
                &&& final(self).steps == old(self).steps + 1
                &&& match piece {
                    Some(p) => {
                        &&& final(self).text@ == old(self).text@ + p@
                        &&& feed == Some(old(self).next_pos)
                        &&& final(self).next_pos == old(self).next_pos + 1
                    },
                    None => {
                        &&& final(self).text == old(self).text
                        &&& feed is None
                        &&& final(self).next_pos == old(self).next_pos
                    },
                }
            },
    {
        if token == eos {
            self.done = true;
            return None;
        }
        self.steps = self.steps + 1;
        match piece {
            Some(p) => {
                push_str(&mut self.text, p);
                let pos = self.next_pos;
                self.next_pos = pos + 1;
                Some(pos)
            },
            None => None,
        }
    }
}

/// Whether `m` is the assistant's plain reply `text`.
pub open spec fn is_reply(m: ChatMessage, text: String) -> bool {
    is_plain(m, Role::Assistant, text@) && m.content == text
}

/// The response of the llama.cpp provider for the generated `text`, made at `secs`
/// seconds after the epoch.
pub fn local_response(text: String, secs: i64) -> (r: LLMResponse)
    ensures
        r.id@ == "local-"@ + signed_decimal(secs as int),
        r.object@ == "chat.completion"@,
        r.created == secs as u64,
        r.model@ == "local-model"@,
        r.choices@.len() == 1,
        r.choices@[0].index == 0,
        is_reply(r.choices@[0].message, text),
        r.choices@[0].finish_reason matches Some(f) && f@ == "stop"@,
        r.usage.prompt_tokens == 0 && r.usage.completion_tokens == 0 && r.usage.total_tokens == 0,
{
    let mut id = String::new();
    push_str(&mut id, "local-");
    push_str(&mut id, i64_to_string(secs).as_str());
    let mut choices: Vec<Choice> = Vec::new();
    choices.push(Choice {
        index: 0,
        message: ChatMessage { role: Role::Assistant, content: text, name: None, tool_calls: None, tool_call_id: None },
        finish_reason: Some(owned("stop")),
    });
    LLMResponse {
        id,
        object: owned("chat.completion"),
        created: secs as u64,
        model: owned("local-model"),
        choices,
        usage: Usage { prompt_tokens: 0, completion_tokens: 0, total_tokens: 0 },
    }
}

/// What the Candle provider's inference gives: it is not implemented, so always
/// an `LLMError` saying so.
pub fn candle_inference(prompt: &str, max_tokens: u32) -> (r: Result<String, HeliosError>)
    ensures
        r matches Err(HeliosError::LLMError(m))
            && m@ == "Inference not yet implemented for Candle provider. Model architecture detection and loading is in progress."@,
{
    Err(HeliosError::LLMError(owned("Inference not yet implemented for Candle provider. Model architecture detection and loading is in progress.")))
}

/// The response of the Candle provider for the generated `text`, with completion
/// id `candle-<id>`, made at `secs` seconds after the epoch by the model of repository `repo`.
pub fn candle_response(text: String, repo: &str, id: &str, secs: i64) -> (r: LLMResponse)
    ensures
        r.id@ == "candle-"@ + id@,
        r.object@ == "text_completion"@,
        r.created == secs as u64,
        r.model@ == repo@,
        r.choices@.len() == 1,
        r.choices@[0].index == 0,
        is_reply(r.choices@[0].message, text),
        r.choices@[0].finish_reason matches Some(f) && f@ == "stop"@,
        r.usage.prompt_tokens == 0 && r.usage.completion_tokens == 0 && r.usage.total_tokens == 0,
{
    let mut cid = String::new();
    push_str(&mut cid, "candle-");
    push_str(&mut cid, id);
    let mut choices: Vec<Choice> = Vec::new();
    choices.push(Choice {
        index: 0,
        message: ChatMessage { role: Role::Assistant, content: text, name: None, tool_calls: None, tool_call_id: None },
        finish_reason: Some(owned("stop")),
    });
    LLMResponse {
        id: cid,
        object: owned("text_completion"),
        created: secs as u64,
        model: owned(repo),
        choices,
        usage: Usage { prompt_tokens: 0, completion_tokens: 0, total_tokens: 0 },
    }
}

/// What the Candle provider does with a request: lays out the messages for the
/// model's family, runs inference with the request's token limit (the
/// configured one when the request sets none), and wraps the text in a response.
/// Inference is not implemented, so the outcome is its error.
pub fn candle_generate(t: &ModelType, repo: &str, messages: &[ChatMessage], max_tokens: Option<u32>, default_max: u32)
    -> (r: Result<LLMResponse, HeliosError>)
    ensures
        r matches Err(HeliosError::LLMError(m))
            && m@ == "Inference not yet implemented for Candle provider. Model architecture detection and loading is in progress."@,
{
    let prompt = format_messages(t, messages);
    let limit = match max_tokens {
        Some(n) => n,
        None => default_max,
    };
    match candle_inference(prompt.as_str(), limit) {
        Ok(text) => {
            let id = new_uuid();
            let now_t = now();
            Ok(candle_response(text, repo, id.as_str(), now_t.secs))
        },
        Err(e) => Err(e),
    }
}


/// An occurrence of `p` found in `x` is the first in `x + y` too.
proof fn lemma_find_first_prefix(x: Seq<char>, y: Seq<char>, p: Seq<char>)
    requires
        crate::text::find_first(x, p) >= 0,
    ensures
        crate::text::find_first(x + y, p) == crate::text::find_first(x, p),
{
    let s = x + y;
    crate::text::lemma_find_first(x, p);
    crate::text::lemma_find_first(s, p);
    let k = crate::text::find_first(x, p);
    assert(s.subrange(k, k + p.len()) =~= x.subrange(k, k + p.len()));
    assert(crate::text::occurs_at(s, p, k));
    let f = crate::text::find_first(s, p);
    if f >= 0 && f < k {
        assert(s.subrange(f, f + p.len()) =~= x.subrange(f, f + p.len()));
        assert(crate::text::occurs_at(x, p, f));
    }
}

/// Splitting `x + y` into lines: the finished lines of `x`, then the lines of
/// `x`'s unfinished line followed by `y`.
proof fn lemma_split_concat(x: Seq<char>, y: Seq<char>, p: Seq<char>)
    requires
        p.len() > 0,
    ensures
        split_on(x + y, p) == split_on(x, p).drop_last() + split_on(split_on(x, p).last() + y, p),
    decreases x.len(),
{
    lemma_split_nonempty(x, p);
    let k = crate::text::find_first(x, p);
    if k < 0 {
        assert(split_on(x, p) == seq![x]);
        assert(split_on(x, p).drop_last() =~= Seq::<Seq<char>>::empty());
        assert(Seq::<Seq<char>>::empty() + split_on(x + y, p) =~= split_on(x + y, p));
    } else {
        crate::text::lemma_find_first(x, p);
        lemma_find_first_prefix(x, y, p);
        let rest = x.subrange(k + p.len(), x.len() as int);
        assert((x + y).subrange(k + p.len(), (x + y).len() as int) =~= rest + y);
        assert((x + y).subrange(0, k) =~= x.subrange(0, k));
        lemma_split_concat(rest, y, p);
        lemma_split_nonempty(rest, p);
        let sr = split_on(rest, p);
        assert(split_on(x, p) == seq![x.subrange(0, k)] + sr);
        assert(split_on(x, p).drop_last() =~= seq![x.subrange(0, k)] + sr.drop_last());
        assert(split_on(x, p).last() == sr.last());
        assert(split_on(x + y, p) == seq![x.subrange(0, k)] + split_on(rest + y, p));
        assert(seq![x.subrange(0, k)] + (sr.drop_last() + split_on(sr.last() + y, p)) =~= (seq![x.subrange(0, k)]
            + sr.drop_last()) + split_on(sr.last() + y, p));
    }
}

/// The data of two runs of lines is the data of the first, then of the second.
proof fn lemma_payloads_concat(u: Seq<Seq<char>>, v: Seq<Seq<char>>)
    ensures
        sse_payloads(u + v) == sse_payloads(u) + sse_payloads(v),
    decreases v.len(),
{
    if v.len() == 0 {
        assert(u + v =~= u);
        assert(sse_payloads(u) + Seq::<Seq<char>>::empty() =~= sse_payloads(u));
    } else {
        assert((u + v).drop_last() =~= u + v.drop_last());
        assert((u + v).last() == v.last());
        lemma_payloads_concat(u, v.drop_last());
        match sse_payload(v.last()) {
            Some(d) => {
                assert(sse_payloads(u) + sse_payloads(v.drop_last()).push(d) =~= (sse_payloads(u) + sse_payloads(
                    v.drop_last(),
                )).push(d));
            },
            None => {},
        }
    }
}

/// Where the network splits the stream does not matter: pushing text in two
/// pieces gives the same data, in the same order, and leaves the same
/// unfinished line as pushing it at once.
pub proof fn lemma_sse_push_in_pieces(pending: Seq<char>, a: Seq<char>, b: Seq<char>)
    ensures
        ({
            let first = split_on(pending + a, "\n"@);
            let second = split_on(first.last() + b, "\n"@);
            let whole = split_on(pending + a + b, "\n"@);
            &&& sse_payloads(first.drop_last()) + sse_payloads(second.drop_last()) == sse_payloads(whole.drop_last())
            &&& second.last() == whole.last()
        }),
{
    reveal_strlit("\n");
    let nl = "\n"@;
    let first = split_on(pending + a, nl);
    let second = split_on(first.last() + b, nl);
    lemma_split_concat(pending + a, b, nl);
    lemma_split_nonempty(first.last() + b, nl);
    let whole = split_on(pending + a + b, nl);
    assert(whole == first.drop_last() + second);
    assert(whole.drop_last() =~= first.drop_last() + second.drop_last());
    lemma_payloads_concat(first.drop_last(), second.drop_last());
}

} // verus!
