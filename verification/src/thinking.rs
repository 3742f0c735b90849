//! Thinking tags in a model's reply: `<thinking>`/`<think>` open a stretch of
//! reasoning and `</thinking>`/`</think>` close it. A stream shows reasoning as
//! a row of dots; a finished reply drops it.

use vstd::prelude::*;
use crate::text::{chars_of, occurs_at, occurs_at_exec, push_char, push_str, utf8_len};

verus! {

/// The tag that begins right after a `<` at `i - 1`: 1 and its length for an
/// opening tag, 2 and its length for a closing one, 0 for none. `thinking>` is
/// tried first, then `/thinking>`, `think>` and `/think>`.
pub open spec fn tag_at(s: Seq<char>, i: int) -> (int, nat) {
    if occurs_at(s, "thinking>"@, i) {
        (1, 9)
    } else if occurs_at(s, "/thinking>"@, i) {
        (2, 10)
    } else if occurs_at(s, "think>"@, i) {
        (1, 6)
    } else if occurs_at(s, "/think>"@, i) {
        (2, 7)
    } else {
        (0, 0)
    }
}

/// What a stream shows of `s` from position `i` on, starting inside reasoning
/// when `inside`, with `buf` the reasoning since it opened; and whether it ends
/// inside reasoning, with what reasoning. An opening tag shows `\n💭 [Thinking`
/// and starts a new stretch; a closing tag shows `]\n`; inside reasoning each
/// character is kept and a dot is shown whenever the reasoning's UTF-8 length
/// becomes a multiple of three; outside, characters are shown as they are.
pub open spec fn stream_view(s: Seq<char>, i: int, inside: bool, buf: Seq<char>) -> (Seq<char>, bool, Seq<char>)
    decreases s.len() - i,
{
    if i < 0 || i >= s.len() {
        (Seq::empty(), inside, buf)
    } else {
        let t = tag_at(s, i + 1);
        if s[i] == '<' && t.0 == 1 {
            proof {
                lemma_tag_fits(s, i + 1);
            }
            let r = stream_view(s, i + 1 + t.1, true, Seq::empty());
            ("\n\u{1F4AD} [Thinking"@ + r.0, r.1, r.2)
        } else if s[i] == '<' && t.0 == 2 {
            proof {
                lemma_tag_fits(s, i + 1);
            }
            let r = stream_view(s, i + 1 + t.1, false, buf);
            ("]\n"@ + r.0, r.1, r.2)
        } else if inside {
            let nb = buf.push(s[i]);
            let r = stream_view(s, i + 1, true, nb);
            ((if utf8_len(nb) % 3 == 0 {
                seq!['.']
            } else {
                Seq::empty()
            }) + r.0, r.1, r.2)
        } else {
            let r = stream_view(s, i + 1, false, buf);
            (seq![s[i]] + r.0, r.1, r.2)
        }
    }
}

/// What is left of `s` from position `i` on once tags and reasoning are taken
/// out, starting inside reasoning when `inside`.
pub open spec fn content_view(s: Seq<char>, i: int, inside: bool) -> Seq<char>
    decreases s.len() - i,
{
    if i < 0 || i >= s.len() {
        Seq::empty()
    } else {
        let t = tag_at(s, i + 1);
        if s[i] == '<' && t.0 == 1 {
            proof {
                lemma_tag_fits(s, i + 1);
            }
            content_view(s, i + 1 + t.1, true)
        } else if s[i] == '<' && t.0 == 2 {
            proof {
                lemma_tag_fits(s, i + 1);
            }
            content_view(s, i + 1 + t.1, false)
        } else if inside {
            content_view(s, i + 1, true)
        } else {
            seq![s[i]] + content_view(s, i + 1, false)
        }
    }
}

/// The patterns of the four tags, without their `<`.
struct TagPatterns {
    open_long: Vec<char>,
    close_long: Vec<char>,
    open_short: Vec<char>,
    close_short: Vec<char>,
}

fn tag_patterns() -> (p: TagPatterns)
    ensures
        p.open_long@ == "thinking>"@,
        p.close_long@ == "/thinking>"@,
        p.open_short@ == "think>"@,
        p.close_short@ == "/think>"@,
{
    TagPatterns {
        open_long: chars_of("thinking>"),
        close_long: chars_of("/thinking>"),
        open_short: chars_of("think>"),
        close_short: chars_of("/think>"),
    }
}

fn tag_exec(p: &TagPatterns, s: &[char], i: usize) -> (r: (u8, usize))
    requires
        p.open_long@ == "thinking>"@,
        p.close_long@ == "/thinking>"@,
        p.open_short@ == "think>"@,
        p.close_short@ == "/think>"@,
    ensures
        r.0 as int == tag_at(s@, i as int).0,
        r.1 as nat == tag_at(s@, i as int).1,
{
    if occurs_at_exec(s, p.open_long.as_slice(), i) {
        (1, 9)
    } else if occurs_at_exec(s, p.close_long.as_slice(), i) {
        (2, 10)
    } else if occurs_at_exec(s, p.open_short.as_slice(), i) {
        (1, 6)
    } else if occurs_at_exec(s, p.close_short.as_slice(), i) {
        (2, 7)
    } else {
        (0, 0)
    }
}

/// A found tag lies within the text.
pub proof fn lemma_tag_fits(s: Seq<char>, i: int)
    requires
        tag_at(s, i).0 != 0,
    ensures
        i + tag_at(s, i).1 <= s.len(),
        tag_at(s, i).1 > 0,
{
    reveal_strlit("thinking>");
    reveal_strlit("/thinking>");
    reveal_strlit("think>");
    reveal_strlit("/think>");
}

/// Follows thinking tags across the chunks of a streamed reply.
#[derive(Debug)]
pub struct ThinkingTracker {
    in_thinking: bool,
    thinking_buffer: String,
    buffer_width_mod3: usize,
}

impl ThinkingTracker {
    /// Whether the stream is inside reasoning.
    pub closed spec fn inside(&self) -> bool {
        self.in_thinking
    }

    /// The reasoning since the current stretch opened.
    pub closed spec fn reasoning(&self) -> Seq<char> {
        self.thinking_buffer@
    }

    #[verifier::type_invariant]
    closed spec fn wf(self) -> bool {
        self.buffer_width_mod3 == utf8_len(self.thinking_buffer@) % 3
    }

    /// A tracker outside reasoning.
    pub fn new() -> (t: Self)
        ensures
            !t.inside(),
            t.reasoning().len() == 0,
    {
        ThinkingTracker { in_thinking: false, thinking_buffer: String::new(), buffer_width_mod3: 0 }
    }

    /// What the stream shows of the next chunk (`None` when it shows nothing).
    pub fn process_chunk(&mut self, chunk: &str) -> (out: Option<String>)
        ensures
            ({
                let r = stream_view(chunk@, 0, old(self).inside(), old(self).reasoning());
                &&& final(self).inside() == r.1
                &&& final(self).reasoning() == r.2
                &&& match out {
                    Some(o) => o@ == r.0 && r.0.len() > 0,
                    None => r.0.len() == 0,
                }
            }),
    {
        proof {
            use_type_invariant(&*self);
        }
        let s = chars_of(chunk);
        let pats = tag_patterns();
        let ghost r0 = stream_view(s@, 0, self.in_thinking, self.thinking_buffer@);
        let mut inside = self.in_thinking;
        let mut buf = String::new();
        push_str(&mut buf, self.thinking_buffer.as_str());
        let mut width = self.buffer_width_mod3;
        let mut out = String::new();
        let mut i: usize = 0;
        while i < s.len()
            invariant
                i <= s@.len(),
                s@ == chunk@,
                s@.len() == s.len(),
                pats.open_long@ == "thinking>"@,
                pats.close_long@ == "/thinking>"@,
                pats.open_short@ == "think>"@,
                pats.close_short@ == "/think>"@,
                width == utf8_len(buf@) % 3,
                ({
                    let ri = stream_view(s@, i as int, inside, buf@);
                    r0.0 == out@ + ri.0 && r0.1 == ri.1 && r0.2 == ri.2
                }),
            decreases s@.len() - i,
        {
            let c = s[i];
            let t = if c == '<' {
                tag_exec(&pats, s.as_slice(), i + 1)
            } else {
                (0u8, 0usize)
            };
            if c == '<' && t.0 != 0 {
                proof {
                    lemma_tag_fits(s@, i + 1);
                }
            }
            let ghost ri = stream_view(s@, i as int, inside, buf@);
            if c == '<' && t.0 == 1 {
                push_str(&mut out, "\n\u{1F4AD} [Thinking");
                inside = true;
                buf = String::new();
                width = 0;
                i = i + 1 + t.1;
            } else if c == '<' && t.0 == 2 {
                push_str(&mut out, "]\n");
                inside = false;
                i = i + 1 + t.1;
            } else if inside {
                let ghost old_buf = buf@;
                push_char(&mut buf, c);
                let cw = crate::text::width_of(c);
                proof {
                    assert(buf@.drop_last() =~= old_buf);
                    let a = utf8_len(old_buf);
                    assert((width + cw) % 3 == (a + cw) % 3) by (nonlinear_arith)
                        requires
                            width == a % 3,
                            a >= 0,
                            cw >= 0,
                    ;
                }
                width = (width + cw) % 3;
                if width == 0 {
                    push_char(&mut out, '.');
                }
                i = i + 1;
            } else {
                push_char(&mut out, c);
                i = i + 1;
            }
            assert(r0.0 =~= out@ + stream_view(s@, i as int, inside, buf@).0);
        }
        *self = ThinkingTracker { in_thinking: inside, thinking_buffer: buf, buffer_width_mod3: width };
        if out.as_str().is_empty() {
            None
        } else {
            Some(out)
        }
    }
}

/// The reply `content` with thinking tags and the reasoning between them taken out.
pub fn process_thinking_tags_in_content(content: &str) -> (out: String)
    ensures
        out@ == content_view(content@, 0, false),
{
    let s = chars_of(content);
    let pats = tag_patterns();
    let mut inside = false;
    let mut out = String::new();
    let mut i: usize = 0;
    while i < s.len()
        invariant
            i <= s@.len(),
            s@ == content@,
            s@.len() == s.len(),
            pats.open_long@ == "thinking>"@,
            pats.close_long@ == "/thinking>"@,
            pats.open_short@ == "think>"@,
            pats.close_short@ == "/think>"@,
            content_view(s@, 0, false) == out@ + content_view(s@, i as int, inside),
        decreases s@.len() - i,
    {
        let c = s[i];
        let t = if c == '<' {
            tag_exec(&pats, s.as_slice(), i + 1)
        } else {
            (0u8, 0usize)
        };
        if c == '<' && t.0 != 0 {
            proof {
                lemma_tag_fits(s@, i + 1);
            }
        }
        if c == '<' && t.0 == 1 {
            inside = true;
            i = i + 1 + t.1;
        } else if c == '<' && t.0 == 2 {
            inside = false;
            i = i + 1 + t.1;
        } else if inside {
            i = i + 1;
        } else {
            push_char(&mut out, c);
            i = i + 1;
        }
        assert(content_view(s@, 0, false) =~= out@ + content_view(s@, i as int, inside));
    }
    out
}

/// A reply without `<` has no tags: taking the reasoning out leaves it whole.
pub proof fn lemma_untagged_content_unchanged(s: Seq<char>)
    requires
        forall|j: int| 0 <= j < s.len() ==> s[j] != '<',
    ensures
        content_view(s, 0, false) == s,
{
    lemma_untagged_content_from(s, 0);
    assert(s.subrange(0, s.len() as int) =~= s);
}

proof fn lemma_untagged_content_from(s: Seq<char>, i: int)
    requires
        0 <= i <= s.len(),
        forall|j: int| 0 <= j < s.len() ==> s[j] != '<',
    ensures
        content_view(s, i, false) == s.subrange(i, s.len() as int),
    decreases s.len() - i,
{
    if i < s.len() {
        lemma_untagged_content_from(s, i + 1);
        assert(s.subrange(i, s.len() as int) =~= seq![s[i]] + s.subrange(i + 1, s.len() as int));
    } else {
        assert(s.subrange(i, s.len() as int) =~= Seq::<char>::empty());
    }
}

/// Outside reasoning, a chunk without `<` is shown as it is and the tracker
/// stays as it was.
pub proof fn lemma_untagged_chunk_shown(s: Seq<char>, buf: Seq<char>)
    requires
        forall|j: int| 0 <= j < s.len() ==> s[j] != '<',
    ensures
        stream_view(s, 0, false, buf) == (s, false, buf),
{
    lemma_untagged_stream_from(s, 0, buf);
    assert(s.subrange(0, s.len() as int) =~= s);
}

proof fn lemma_untagged_stream_from(s: Seq<char>, i: int, buf: Seq<char>)
    requires
        0 <= i <= s.len(),
        forall|j: int| 0 <= j < s.len() ==> s[j] != '<',
    ensures
        stream_view(s, i, false, buf) == (s.subrange(i, s.len() as int), false, buf),
    decreases s.len() - i,
{
    if i < s.len() {
        lemma_untagged_stream_from(s, i + 1, buf);
        assert(s.subrange(i, s.len() as int) =~= seq![s[i]] + s.subrange(i + 1, s.len() as int));
    } else {
        assert(s.subrange(i, s.len() as int) =~= Seq::<char>::empty());
    }
}

} // verus!
