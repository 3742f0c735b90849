//! A forest of agents: the agents by id, the context they share, the queue of
//! messages between them, and the decisions of a collaborative task.
//!
//! Talking to the agents' model happens outside this module: a collaborative task
//! here is a state machine that says which agent to ask what, and records each answer.

use vstd::prelude::*;
use crate::agent::Agent;
use crate::chat::{Role, is_plain};
use crate::error::HeliosError;
use crate::forest::{ForestMessage, SharedContext, TaskItem, TaskPlan, TaskStatus, count_status, is_message, task_index, find_task, ready_among, all_finished};
use crate::json::{JsonValue, json_str};
use crate::strmap::{StringMap, keys_of};
use crate::text::{owned, push_str, str_eq, str_starts_with, starts_with, decimal, usize_to_string, join, join_strings};

verus! {

/// The names of the tools that every agent of a forest is given, in the order
/// they are registered.
pub open spec fn forest_tool_names() -> Seq<Seq<char>> {
    seq!["send_message"@, "delegate_task"@, "share_context"@, "update_task_memory"@, "create_plan"@]
}

/// The tools of `ts` with the forest's tools added, each once, in order.
pub open spec fn with_tools(ts: Seq<Seq<char>>, more: Seq<Seq<char>>) -> Seq<Seq<char>>
    decreases more.len(),
{
    if more.len() == 0 {
        ts
    } else {
        let rest = with_tools(ts, more.drop_last());
        if rest.contains(more.last()) {
            rest
        } else {
            rest.push(more.last())
        }
    }
}

/// Whether agent `b` is agent `a` with the user messages `texts` appended to its
/// conversation, and nothing else changed.
pub open spec fn with_user_messages(a: Agent, b: Agent, texts: Seq<Seq<char>>) -> bool {
    &&& b.spec_name() == a.spec_name()
    &&& b.spec_tools() == a.spec_tools()
    &&& b.spec_max_iterations() == a.spec_max_iterations()
    &&& b.spec_react() == a.spec_react()
    &&& b.session().system_prompt == a.session().system_prompt
    &&& b.session().metadata == a.session().metadata
    &&& b.session().messages@.len() == a.session().messages@.len() + texts.len()
    &&& b.session().messages@.subrange(0, a.session().messages@.len() as int) == a.session().messages@
    &&& forall|j: int|
        0 <= j < texts.len() ==> is_plain(
            #[trigger] b.session().messages@[a.session().messages@.len() + j],
            Role::User,
            texts[j],
        )
}

/// The text that message `m` puts in the conversation of agent `k`, if it reaches
/// it: a direct message reaches its addressee, a broadcast every agent but its sender.
pub open spec fn delivery(m: ForestMessage, k: Seq<char>) -> Option<Seq<char>> {
    match m.to {
        Some(t) => if t@ == k {
            Some("Message from "@ + m.from@ + ": "@ + m.content@)
        } else {
            None
        },
        None => if m.from@ != k {
            Some("Broadcast from "@ + m.from@ + ": "@ + m.content@)
        } else {
            None
        },
    }
}

/// The texts that the messages `ms`, in order, put in the conversation of agent `k`.
pub open spec fn deliveries(ms: Seq<ForestMessage>, k: Seq<char>) -> Seq<Seq<char>>
    decreases ms.len(),
{
    if ms.len() == 0 {
        Seq::empty()
    } else {
        let rest = deliveries(ms.drop_last(), k);
        match delivery(ms.last(), k) {
            Some(t) => rest.push(t),
            None => rest,
        }
    }
}

/// Appending one more user message extends `with_user_messages`.
proof fn lemma_one_more_message(a: Agent, b: Agent, c: Agent, texts: Seq<Seq<char>>, t: Seq<char>)
    requires
        with_user_messages(a, b, texts),
        c.spec_name() == b.spec_name(),
        c.spec_tools() == b.spec_tools(),
        c.spec_max_iterations() == b.spec_max_iterations(),
        c.spec_react() == b.spec_react(),
        c.session().system_prompt == b.session().system_prompt,
        c.session().metadata == b.session().metadata,
        c.session().messages@.len() == b.session().messages@.len() + 1,
        c.session().messages@.drop_last() == b.session().messages@,
        is_plain(c.session().messages@.last(), Role::User, t),
    ensures
        with_user_messages(a, c, texts.push(t)),
{
    let n = a.session().messages@.len();
    assert(c.session().messages@.subrange(0, n as int) =~= b.session().messages@.subrange(0, n as int));
    assert forall|j: int| 0 <= j < texts.push(t).len() implies is_plain(
        #[trigger] c.session().messages@[n + j],
        Role::User,
        texts.push(t)[j],
    ) by {
        if j < texts.len() {
            assert(c.session().messages@[n + j] == b.session().messages@[n + j]);
        }
    }
}

/// Receiving `t1` and then `t2` is receiving `t1 + t2`.
proof fn lemma_received_trans(a: Agent, b: Agent, c: Agent, t1: Seq<Seq<char>>, t2: Seq<Seq<char>>)
    requires
        with_user_messages(a, b, t1),
        with_user_messages(b, c, t2),
    ensures
        with_user_messages(a, c, t1 + t2),
{
    let n = a.session().messages@.len();
    let nb = b.session().messages@.len();
    assert(c.session().messages@.subrange(0, n as int) =~= c.session().messages@.subrange(0, nb as int).subrange(0, n as int));
    assert forall|j: int| 0 <= j < (t1 + t2).len() implies is_plain(
        #[trigger] c.session().messages@[n + j],
        Role::User,
        (t1 + t2)[j],
    ) by {
        if j < t1.len() {
            assert(c.session().messages@[n + j] == c.session().messages@.subrange(0, nb as int)[n + j]);
        } else {
            assert(c.session().messages@[n + j] == c.session().messages@[nb + (j - t1.len())]);
        }
    }
}

/// A group of agents that work together: the agents by id, in the order they
/// joined, the context they share and the messages waiting to be delivered.
#[derive(Debug)]
pub struct ForestOfAgents {
    /// The agents, by id.
    pub agents: StringMap<Agent>,
    /// What every agent can read and write.
    pub shared_context: SharedContext,
    /// Messages sent and not yet delivered, oldest first.
    pub message_queue: Vec<ForestMessage>,
    /// The most rounds a collaboration may take (twice this many for a plan).
    pub max_iterations: usize,
}

impl ForestOfAgents {
    /// An empty forest allowing ten rounds.
    pub fn new() -> (f: Self)
        ensures
            f.agents.pairs().len() == 0,
            f.shared_context.data.pairs().len() == 0,
            f.shared_context.message_history@.len() == 0,
            f.shared_context.metadata.pairs().len() == 0,
            f.shared_context.current_plan is None,
            f.message_queue@.len() == 0,
            f.max_iterations == 10,
    {
        ForestOfAgents::with_max_iterations(10)
    }

    /// An empty forest allowing `max_iterations` rounds.
    pub fn with_max_iterations(max_iterations: usize) -> (f: Self)
        ensures
            f.agents.pairs().len() == 0,
            f.shared_context.data.pairs().len() == 0,
            f.shared_context.message_history@.len() == 0,
            f.shared_context.metadata.pairs().len() == 0,
            f.shared_context.current_plan is None,
            f.message_queue@.len() == 0,
            f.max_iterations == max_iterations,
    {
        ForestOfAgents {
            agents: StringMap::new(),
            shared_context: SharedContext::new(),
            message_queue: Vec::new(),
            max_iterations,
        }
    }

    /// Adds `agent` under `id`, giving it the forest's tools. An id already in
    /// use is refused with `AgentError("Agent with ID '<id>' already exists")`.
    pub fn add_agent(&mut self, id: String, agent: Agent) -> (r: Result<(), HeliosError>)
        ensures
            old(self).agents.map().contains_key(id@) ==> {
                &&& r matches Err(HeliosError::AgentError(m)) && m@ == "Agent with ID '"@ + id@ + "' already exists"@
                &&& *final(self) == *old(self)
            },
            !old(self).agents.map().contains_key(id@) ==> {
                &&& r is Ok
                &&& final(self).agents.pairs().len() == old(self).agents.pairs().len() + 1
                &&& final(self).agents.pairs().drop_last() == old(self).agents.pairs()
                &&& final(self).agents.pairs().last().0 == id@
                &&& final(self).agents.map() == old(self).agents.map().insert(id@, final(self).agents.pairs().last().1)
                &&& {
                    let b = final(self).agents.pairs().last().1;
                    &&& b.spec_tools() == with_tools(agent.spec_tools(), forest_tool_names())
                    &&& b.spec_name() == agent.spec_name()
                    &&& b.session() == agent.session()
                    &&& b.spec_max_iterations() == agent.spec_max_iterations()
                    &&& b.spec_react() == agent.spec_react()
                }
                &&& final(self).shared_context == old(self).shared_context
                &&& final(self).message_queue == old(self).message_queue
                &&& final(self).max_iterations == old(self).max_iterations
            },
    {
        if self.agents.contains_key(id.as_str()) {
            let mut m = String::new();
            push_str(&mut m, "Agent with ID '");
            push_str(&mut m, id.as_str());
            push_str(&mut m, "' already exists");
            return Err(HeliosError::AgentError(m));
        }
        let mut agent = agent;
        let ghost t0 = agent.spec_tools();
        let ghost names = forest_tool_names();
        proof {
            reveal_strlit("send_message");
            reveal_strlit("delegate_task");
            reveal_strlit("share_context");
            reveal_strlit("update_task_memory");
            reveal_strlit("create_plan");
            assert(with_tools(t0, names.take(0)) == t0);
        }
        agent.register_tool("send_message");
        assert(names.take(1).drop_last() =~= names.take(0));
        assert(agent.spec_tools() == with_tools(t0, names.take(1)));
        agent.register_tool("delegate_task");
        assert(names.take(2).drop_last() =~= names.take(1));
        assert(agent.spec_tools() == with_tools(t0, names.take(2)));
        agent.register_tool("share_context");
        assert(names.take(3).drop_last() =~= names.take(2));
        assert(agent.spec_tools() == with_tools(t0, names.take(3)));
        agent.register_tool("update_task_memory");
        assert(names.take(4).drop_last() =~= names.take(3));
        assert(agent.spec_tools() == with_tools(t0, names.take(4)));
        agent.register_tool("create_plan");
        assert(names.take(5).drop_last() =~= names.take(4));
        assert(agent.spec_tools() == with_tools(t0, names.take(5)));
        assert(names.take(5) =~= names);
        let ghost b = agent;
        let _ = self.agents.insert(id, agent);
        assert(self.agents.pairs().drop_last() =~= old(self).agents.pairs());
        Ok(())
    }
}

/// Whether the agents `now` are the agents `before`, in the same order under the
/// same ids, each having received what the messages `ms` deliver to it.
pub open spec fn agents_received(
    before: Seq<(Seq<char>, Agent)>,
    now: Seq<(Seq<char>, Agent)>,
    ms: Seq<ForestMessage>,
) -> bool {
    &&& now.len() == before.len()
    &&& forall|j: int|
        0 <= j < before.len() ==> #[trigger] now[j].0 == before[j].0 && with_user_messages(
            before[j].1,
            now[j].1,
            deliveries(ms, before[j].0),
        )
}

/// Adds the user message `text` to the conversation of the agent at position `i`.
fn deliver(agents: &mut StringMap<Agent>, i: usize, text: &str)
    requires
        i < old(agents).pairs().len(),
    ensures
        final(agents).pairs().len() == old(agents).pairs().len(),
        forall|j: int| 0 <= j < old(agents).pairs().len() && j != i ==> #[trigger] final(agents).pairs()[j]
            == old(agents).pairs()[j],
        final(agents).pairs()[i as int].0 == old(agents).pairs()[i as int].0,
        with_user_messages(old(agents).pairs()[i as int].1, final(agents).pairs()[i as int].1, seq![text@]),
{
    let mut a = agents.replace_at(i, Agent::new(""));
    let ghost a0 = a;
    a.chat_session_mut().add_user_message(text);
    proof {
        assert(with_user_messages(a0, a0, Seq::empty())) by {
            assert(a0.session().messages@.subrange(0, a0.session().messages@.len() as int) =~= a0.session().messages@);
        }
        lemma_one_more_message(a0, a0, a, Seq::empty(), text@);
        assert(Seq::<Seq<char>>::empty().push(text@) =~= seq![text@]);
    }
    let _ = agents.replace_at(i, a);
}

/// The deliveries of one more message extend those of the ones before it.
proof fn lemma_deliveries_step(ms: Seq<ForestMessage>, q: int, k: Seq<char>)
    requires
        0 <= q < ms.len(),
    ensures
        deliveries(ms.take(q + 1), k) == match delivery(ms[q], k) {
            Some(t) => deliveries(ms.take(q), k).push(t),
            None => deliveries(ms.take(q), k),
        },
{
    assert(ms.take(q + 1).drop_last() =~= ms.take(q));
    assert(ms.take(q + 1).last() == ms[q]);
}

impl ForestOfAgents {
    /// Delivers every queued message, oldest first, and empties the queue: a
    /// direct message goes to its addressee (and is dropped if there is no such
    /// agent), a broadcast to every agent but its sender, each as a user message.
    #[verifier::spinoff_prover]
    pub fn process_messages(&mut self) -> (r: Result<(), HeliosError>)
        ensures
            r is Ok,
            final(self).message_queue@.len() == 0,
            agents_received(old(self).agents.pairs(), final(self).agents.pairs(), old(self).message_queue@),
            final(self).shared_context == old(self).shared_context,
            final(self).max_iterations == old(self).max_iterations,
    {
        let mut queue: Vec<ForestMessage> = Vec::new();
        std::mem::swap(&mut queue, &mut self.message_queue);
        let ghost before = self.agents.pairs();
        let mut q: usize = 0;
        proof {
            assert forall|j: int| 0 <= j < before.len() implies #[trigger] self.agents.pairs()[j].0 == before[j].0
                && with_user_messages(before[j].1, self.agents.pairs()[j].1, deliveries(queue@.take(0), before[j].0)) by {
                assert(queue@.take(0) =~= Seq::<ForestMessage>::empty());
                let a = before[j].1;
                assert(a.session().messages@.subrange(0, a.session().messages@.len() as int) =~= a.session().messages@);
            }
        }
        while q < queue.len()
            invariant
                q <= queue@.len(),
                self.message_queue@.len() == 0,
                agents_received(before, self.agents.pairs(), queue@.take(q as int)),
                self.shared_context == old(self).shared_context,
                self.max_iterations == old(self).max_iterations,
            decreases queue@.len() - q,
        {
            let m = &queue[q];
            let ghost mid = self.agents.pairs();
            match &m.to {
                Some(t) => {
                    let mut text = String::new();
                    push_str(&mut text, "Message from ");
                    push_str(&mut text, m.from.as_str());
                    push_str(&mut text, ": ");
                    push_str(&mut text, m.content.as_str());
                    match self.agents.position(t.as_str()) {
                        Some(i) => {
                            deliver(&mut self.agents, i, text.as_str());
                            proof {
                                assert forall|j: int| 0 <= j < before.len() implies #[trigger] self.agents.pairs()[j].0
                                    == before[j].0 && with_user_messages(before[j].1, self.agents.pairs()[j].1,
                                    deliveries(queue@.take(q + 1), before[j].0)) by {
                                    lemma_deliveries_step(queue@, q as int, before[j].0);
                                    assert(mid[j].0 == before[j].0);
                                    if j == i {
                                        assert(delivery(queue@[q as int], before[j].0) == Some(text@));
                                        lemma_received_trans(before[j].1, mid[j].1, self.agents.pairs()[j].1,
                                            deliveries(queue@.take(q as int), before[j].0), seq![text@]);
                                        assert(deliveries(queue@.take(q as int), before[j].0) + seq![text@]
                                            =~= deliveries(queue@.take(q as int), before[j].0).push(text@));
                                    } else {
                                        assert(delivery(queue@[q as int], before[j].0) is None);
                                    }
                                }
                            }
                        },
                        None => {
                            proof {
                                assert forall|j: int| 0 <= j < before.len() implies #[trigger] self.agents.pairs()[j].0
                                    == before[j].0 && with_user_messages(before[j].1, self.agents.pairs()[j].1,
                                    deliveries(queue@.take(q + 1), before[j].0)) by {
                                    lemma_deliveries_step(queue@, q as int, before[j].0);
                                    assert(keys_of(mid)[j] == mid[j].0);
                                    assert(delivery(queue@[q as int], before[j].0) is None);
                                }
                            }
                        },
                    }
                },
                None => {
                    let mut text = String::new();
                    push_str(&mut text, "Broadcast from ");
                    push_str(&mut text, m.from.as_str());
                    push_str(&mut text, ": ");
                    push_str(&mut text, m.content.as_str());
                    let n = self.agents.len();
                    let mut i: usize = 0;
                    while i < n
                        invariant
                            i <= n,
                            n == before.len(),
                            self.agents.pairs().len() == n,
                            self.message_queue@.len() == 0,
                            self.shared_context == old(self).shared_context,
                            self.max_iterations == old(self).max_iterations,
                            forall|j: int| 0 <= j < n ==> #[trigger] self.agents.pairs()[j].0 == before[j].0,
                            forall|j: int| 0 <= j < i ==> with_user_messages(before[j].1, #[trigger] self.agents.pairs()[j].1,
                                deliveries(queue@.take(q + 1), before[j].0)),
                            forall|j: int| i <= j < n ==> #[trigger] self.agents.pairs()[j] == mid[j],
                        decreases n - i,
                    {
                        let ghost cur = self.agents.pairs();
                        proof {
                            lemma_deliveries_step(queue@, q as int, before[i as int].0);
                        }
                        let es = self.agents.entries();
                        let is_sender = str_eq(es[i].0.as_str(), m.from.as_str());
                        assert(es@.map_values(|e: (String, Agent)| (e.0@, e.1))[i as int].0 == es@[i as int].0@);
                        if !is_sender {
                            deliver(&mut self.agents, i, text.as_str());
                            proof {
                                assert(delivery(queue@[q as int], before[i as int].0) == Some(text@));
                                lemma_received_trans(before[i as int].1, mid[i as int].1, self.agents.pairs()[i as int].1,
                                    deliveries(queue@.take(q as int), before[i as int].0), seq![text@]);
                                assert(deliveries(queue@.take(q as int), before[i as int].0) + seq![text@]
                                    =~= deliveries(queue@.take(q as int), before[i as int].0).push(text@));
                            }
                        } else {
                            assert(delivery(queue@[q as int], before[i as int].0) is None);
                        }
                        i = i + 1;
                    }
                    assert forall|j: int| 0 <= j < before.len() implies #[trigger] self.agents.pairs()[j].0
                        == before[j].0 && with_user_messages(before[j].1, self.agents.pairs()[j].1,
                        deliveries(queue@.take(q + 1), before[j].0)) by {}
                    assert(agents_received(before, self.agents.pairs(), queue@.take(q + 1)));
                },
            }
            q = q + 1;
        }
        assert(queue@.take(queue@.len() as int) =~= queue@);
        Ok(())
    }
}

impl ForestOfAgents {
    /// Removes the agent `id`, returning it if it was there; the others keep their order.
    pub fn remove_agent(&mut self, id: &str) -> (r: Option<Agent>)
        ensures
            final(self).agents.map() == old(self).agents.map().remove(id@),
            r == (if old(self).agents.map().contains_key(id@) {
                Some(old(self).agents.map()[id@])
            } else {
                None
            }),
            final(self).shared_context == old(self).shared_context,
            final(self).message_queue == old(self).message_queue,
            final(self).max_iterations == old(self).max_iterations,
    {
        self.agents.remove(id)
    }

    /// The agent `id`, if there is one.
    pub fn get_agent(&self, id: &str) -> (r: Option<&Agent>)
        ensures
            match r {
                Some(a) => self.agents.map().contains_key(id@) && *a == self.agents.map()[id@],
                None => !self.agents.map().contains_key(id@),
            },
    {
        self.agents.get(id)
    }

    /// The ids of the agents, in the order they joined.
    pub fn list_agents(&self) -> (ids: Vec<String>)
        ensures
            ids@.map_values(|s: String| s@) == keys_of(self.agents.pairs()),
    {
        let es = self.agents.entries();
        let mut ids: Vec<String> = Vec::new();
        let mut i: usize = 0;
        while i < es.len()
            invariant
                i <= es@.len(),
                es@.map_values(|e: (String, Agent)| (e.0@, e.1)) == self.agents.pairs(),
                ids@.map_values(|s: String| s@) == keys_of(self.agents.pairs()).take(i as int),
            decreases es@.len() - i,
        {
            ids.push(es[i].0.clone());
            assert(es@.map_values(|e: (String, Agent)| (e.0@, e.1))[i as int].0 == es@[i as int].0@);
            assert(ids@.map_values(|s: String| s@) =~= keys_of(self.agents.pairs()).take(i + 1));
            i = i + 1;
        }
        assert(keys_of(self.agents.pairs()).take(es@.len() as int) =~= keys_of(self.agents.pairs()));
        ids
    }

    /// Queues a message from agent `from` to agent `to` (to every other agent
    /// when `to` is `None`) and records it in the shared history. An unknown
    /// sender is refused with `AgentError("Agent '<from>' not found")`.
    pub fn send_message(&mut self, from: &str, to: Option<&str>, content: String) -> (r: Result<(), HeliosError>)
        ensures
            !old(self).agents.map().contains_key(from@) ==> {
                &&& r matches Err(HeliosError::AgentError(m)) && m@ == "Agent '"@ + from@ + "' not found"@
                &&& *final(self) == *old(self)
            },
            old(self).agents.map().contains_key(from@) ==> {
                let to_text = match to {
                    Some(t) => Some(t@),
                    None => None,
                };
                &&& r is Ok
                &&& final(self).message_queue@.len() == old(self).message_queue@.len() + 1
                &&& final(self).message_queue@.drop_last() == old(self).message_queue@
                &&& is_message(final(self).message_queue@.last(), from@, to_text, content@, Seq::empty())
                &&& final(self).shared_context.message_history@.len() == old(self).shared_context.message_history@.len() + 1
                &&& final(self).shared_context.message_history@.drop_last() == old(self).shared_context.message_history@
                &&& is_message(final(self).shared_context.message_history@.last(), from@, to_text, content@, Seq::empty())
                &&& final(self).shared_context.data == old(self).shared_context.data
                &&& final(self).shared_context.metadata == old(self).shared_context.metadata
                &&& final(self).shared_context.current_plan == old(self).shared_context.current_plan
                &&& final(self).agents == old(self).agents
                &&& final(self).max_iterations == old(self).max_iterations
            },
    {
        if !self.agents.contains_key(from) {
            let mut m = String::new();
            push_str(&mut m, "Agent '");
            push_str(&mut m, from);
            push_str(&mut m, "' not found");
            return Err(HeliosError::AgentError(m));
        }
        let message = match to {
            Some(t) => ForestMessage::new(owned(from), Some(owned(t)), content),
            None => ForestMessage::broadcast(owned(from), content),
        };
        assert(message.metadata.pairs() =~= Seq::empty());
        self.message_queue.push(message.duplicate());
        self.shared_context.add_message(message);
        assert(self.message_queue@.drop_last() =~= old(self).message_queue@);
        assert(self.shared_context.message_history@.drop_last() =~= old(self).shared_context.message_history@);
        Ok(())
    }

    /// The context the agents share.
    pub fn get_shared_context(&self) -> (c: &SharedContext)
        ensures
            *c == self.shared_context,
    {
        &self.shared_context
    }

    /// Sets shared value `key`.
    pub fn set_shared_context(&mut self, key: String, value: JsonValue)
        ensures
            final(self).shared_context.data.map() == old(self).shared_context.data.map().insert(key@, value),
            final(self).shared_context.message_history == old(self).shared_context.message_history,
            final(self).shared_context.metadata == old(self).shared_context.metadata,
            final(self).shared_context.current_plan == old(self).shared_context.current_plan,
            final(self).agents == old(self).agents,
            final(self).message_queue == old(self).message_queue,
            final(self).max_iterations == old(self).max_iterations,
    {
        self.shared_context.set(key, value);
    }
}

/// The request to the coordinator to plan `task` for the team named in `team`.
pub open spec fn planning_prompt(task: Seq<char>, team: Seq<char>) -> Seq<char> {
    "You are coordinating a collaborative task. Create a detailed plan using the 'create_plan' tool.\n\nTask: "@
        + task + "\n\nAvailable team members and their expertise:\n"@ + team
        + "\n\nBreak this "@ + "task into subtasks and assign each to the most appropriate agent. Use the create_plan tool with a JSON array of tasks. Each task should have:\n- id: unique identifier (e.g., 'task_1')\n- description: what needs to be done\n- assigned_to: agent name\n- dependencies: array of task IDs that must complete first (use [] if none)\n\nCreate the plan now."@
}

/// The request to the coordinator when no plan was made.
pub open spec fn fallback_prompt(task: Seq<char>, team: Seq<char>) -> Seq<char> {
    "Complete this "@ + "task: "@ + task + "\nYou can delegate to: "@ + team
}

/// The line of the shared memory that shows a completed task.
pub open spec fn completed_line(t: TaskItem) -> Seq<char> {
    let r = match t.result {
        Some(r) => r@,
        None => "No result"@,
    };
    "  \u{2713} ["@ + t.assigned_to@ + "] "@ + t.description@ + ": "@ + r + "\n"@
}

/// The lines of the completed tasks among `ts`, in plan order.
pub open spec fn completed_lines(ts: Seq<TaskItem>) -> Seq<char>
    decreases ts.len(),
{
    if ts.len() == 0 {
        Seq::empty()
    } else {
        completed_lines(ts.drop_last()) + if ts.last().status == TaskStatus::Completed {
            completed_line(ts.last())
        } else {
            Seq::empty()
        }
    }
}

/// Whether a shared key is one of the task's own bookkeeping keys, which the
/// shared memory does not show.
pub open spec fn is_bookkeeping_key(k: Seq<char>) -> bool {
    starts_with(k, "current_task"@) || starts_with(k, "involved_agents"@) || starts_with(k, "task_status"@)
}

/// The lines of the shared data: each key that is not bookkeeping, with the
/// JSON text of its value from `rendered`.
pub open spec fn data_lines(keys: Seq<Seq<char>>, rendered: Seq<Seq<char>>) -> Seq<char>
    decreases keys.len(),
{
    if keys.len() == 0 {
        Seq::empty()
    } else {
        let n = (keys.len() - 1) as int;
        data_lines(keys.drop_last(), rendered.take(n)) + if is_bookkeeping_key(keys.last()) {
            Seq::empty()
        } else {
            "  \u{2022} "@ + keys.last() + ": "@ + rendered[n] + "\n"@
        }
    }
}

/// What an agent is told of the shared memory before its task: the plan's
/// objective, progress and completed tasks, then the shared data.
pub open spec fn memory_info(plan: Option<TaskPlan>, keys: Seq<Seq<char>>, rendered: Seq<Seq<char>>) -> Seq<char> {
    let head = "\n=== SHARED TASK MEMORY ===\n"@;
    let plan_part = match plan {
        Some(p) => "Overall Objective: "@ + p.objective@ + "\nProgress: "@ + decimal(
            count_status(p.tasks@, TaskStatus::Completed),
        ) + "/"@ + decimal(p.tasks@.len()) + " tasks completed\n\nCompleted Tasks:\n"@ + completed_lines(p.tasks@),
        None => Seq::empty(),
    };
    head + plan_part + "\nShared Data:\n"@ + data_lines(keys, rendered) + "=========================\n\n"@
}

/// The request to an agent to carry out task `id`, described by `desc`.
pub open spec fn task_prompt_text(info: Seq<char>, desc: Seq<char>, id: Seq<char>) -> Seq<char> {
    info + "Your assigned task: "@ + desc
        + "\n\nComplete this "@ + "task and use the 'update_task_memory' tool to save your results to the shared memory. The task_id is '"@
        + id + "'. Include key findings and data that other agents might need.\n\nProvide a complete response with your results."@
}

/// The lines of the summary for each task, with its result when it has one.
pub open spec fn result_lines(ts: Seq<TaskItem>) -> Seq<char>
    decreases ts.len(),
{
    if ts.len() == 0 {
        Seq::empty()
    } else {
        let t = ts.last();
        result_lines(ts.drop_last()) + "\n["@ + t.assigned_to@ + "] "@ + t.description@ + "\n"@ + match t.result {
            Some(r) => "Result: "@ + r@ + "\n"@,
            None => Seq::empty(),
        }
    }
}

/// The summary of a finished collaboration.
pub open spec fn completion_summary(plan: Option<TaskPlan>) -> Seq<char> {
    "=== TASK COMPLETION SUMMARY ===\n\n"@ + match plan {
        Some(p) => "Objective: "@ + p.objective@ + "\nStatus: All tasks completed ("@ + decimal(
            count_status(p.tasks@, TaskStatus::Completed),
        ) + "/"@ + decimal(p.tasks@.len()) + " tasks)\n\nTask Results:\n"@ + result_lines(p.tasks@),
        None => Seq::empty(),
    }
}

/// The request to the coordinator to answer `task` from the `summary`.
pub open spec fn synthesis_prompt(task: Seq<char>, summary: Seq<char>) -> Seq<char> {
    "Based on the completed tasks, provide a comprehensive final answer to the original request.\n\nOriginal Task: "@
        + task + "\n\n"@ + summary + "\n\nSynthesize all the information into a cohesive, complete response."@
}

fn planning_prompt_exec(task: &str, team: &str) -> (out: String)
    ensures
        out@ == planning_prompt(task@, team@),
{
    let mut out = String::new();
    push_str(&mut out, "You are coordinating a collaborative task. Create a detailed plan using the 'create_plan' tool.\n\nTask: ");
    push_str(&mut out, task);
    push_str(&mut out, "\n\nAvailable team members and their expertise:\n");
    push_str(&mut out, team);
    push_str(&mut out, "\n\nBreak this ");
    push_str(&mut out, "task into subtasks and assign each to the most appropriate agent. Use the create_plan tool with a JSON array of tasks. Each task should have:\n- id: unique identifier (e.g., 'task_1')\n- description: what needs to be done\n- assigned_to: agent name\n- dependencies: array of task IDs that must complete first (use [] if none)\n\nCreate the plan now.");
    assert(out@ =~= planning_prompt(task@, team@));
    out
}

fn fallback_prompt_exec(task: &str, team: &str) -> (out: String)
    ensures
        out@ == fallback_prompt(task@, team@),
{
    let mut out = String::new();
    push_str(&mut out, "Complete this ");
    push_str(&mut out, "task: ");
    push_str(&mut out, task);
    push_str(&mut out, "\nYou can delegate to: ");
    push_str(&mut out, team);
    assert(out@ =~= fallback_prompt(task@, team@));
    out
}

fn completed_lines_exec(ts: &Vec<TaskItem>) -> (out: String)
    ensures
        out@ == completed_lines(ts@),
{
    let mut out = String::new();
    let mut i: usize = 0;
    while i < ts.len()
        invariant
            i <= ts@.len(),
            out@ == completed_lines(ts@.take(i as int)),
        decreases ts@.len() - i,
    {
        assert(ts@.take(i + 1).drop_last() =~= ts@.take(i as int));
        let t = &ts[i];
        if t.status == TaskStatus::Completed {
            push_str(&mut out, "  \u{2713} [");
            push_str(&mut out, t.assigned_to.as_str());
            push_str(&mut out, "] ");
            push_str(&mut out, t.description.as_str());
            push_str(&mut out, ": ");
            match &t.result {
                Some(r) => push_str(&mut out, r.as_str()),
                None => push_str(&mut out, "No result"),
            }
            push_str(&mut out, "\n");
            assert(out@ =~= completed_lines(ts@.take(i as int)) + completed_line(*t));
        } else {
            assert(out@ =~= completed_lines(ts@.take(i as int)) + Seq::<char>::empty());
        }
        i = i + 1;
    }
    assert(ts@.take(ts@.len() as int) =~= ts@);
    out
}

fn result_lines_exec(ts: &Vec<TaskItem>) -> (out: String)
    ensures
        out@ == result_lines(ts@),
{
    let mut out = String::new();
    let mut i: usize = 0;
    while i < ts.len()
        invariant
            i <= ts@.len(),
            out@ == result_lines(ts@.take(i as int)),
        decreases ts@.len() - i,
    {
        assert(ts@.take(i + 1).drop_last() =~= ts@.take(i as int));
        let t = &ts[i];
        let ghost before = out@;
        push_str(&mut out, "\n[");
        push_str(&mut out, t.assigned_to.as_str());
        push_str(&mut out, "] ");
        push_str(&mut out, t.description.as_str());
        push_str(&mut out, "\n");
        match &t.result {
            Some(r) => {
                push_str(&mut out, "Result: ");
                push_str(&mut out, r.as_str());
                push_str(&mut out, "\n");
            },
            None => {},
        }
        assert(out@ =~= result_lines(ts@.take(i + 1)));
        i = i + 1;
    }
    assert(ts@.take(ts@.len() as int) =~= ts@);
    out
}

/// The text of the shared memory shown to an agent, with `rendered[i]` the JSON
/// text of the `i`-th shared value.
pub fn memory_info_exec(ctx: &SharedContext, rendered: &Vec<String>) -> (out: String)
    requires
        rendered@.len() == ctx.data.pairs().len(),
    ensures
        out@ == memory_info(ctx.current_plan, keys_of(ctx.data.pairs()), rendered@.map_values(|r: String| r@)),
{
    let mut out = String::new();
    push_str(&mut out, "\n=== SHARED TASK MEMORY ===\n");
    match &ctx.current_plan {
        Some(p) => {
            let (done, total) = p.get_progress();
            push_str(&mut out, "Overall Objective: ");
            push_str(&mut out, p.objective.as_str());
            push_str(&mut out, "\nProgress: ");
            push_str(&mut out, usize_to_string(done).as_str());
            push_str(&mut out, "/");
            push_str(&mut out, usize_to_string(total).as_str());
            push_str(&mut out, " tasks completed\n\nCompleted Tasks:\n");
            push_str(&mut out, completed_lines_exec(&p.tasks).as_str());
        },
        None => {},
    }
    let ghost head = out@;
    push_str(&mut out, "\nShared Data:\n");
    let es = ctx.data.entries();
    let ghost keys = keys_of(ctx.data.pairs());
    let ghost rv = rendered@.map_values(|r: String| r@);
    let ghost mid = out@;
    let mut i: usize = 0;
    while i < es.len()
        invariant
            i <= es@.len(),
            es@.len() == rendered@.len(),
            es@.map_values(|e: (String, JsonValue)| (e.0@, e.1)) == ctx.data.pairs(),
            keys == keys_of(ctx.data.pairs()),
            rv == rendered@.map_values(|r: String| r@),
            out@ == mid + data_lines(keys.take(i as int), rv.take(i as int)),
        decreases es@.len() - i,
    {
        assert(keys.take(i + 1).drop_last() =~= keys.take(i as int));
        assert(rv.take(i + 1).take(i as int) =~= rv.take(i as int));
        assert(keys.take(i + 1).last() == es@[i as int].0@) by {
            assert(es@.map_values(|e: (String, JsonValue)| (e.0@, e.1))[i as int].0 == es@[i as int].0@);
        }
        let k = es[i].0.as_str();
        let skip = str_starts_with(k, "current_task") || str_starts_with(k, "involved_agents")
            || str_starts_with(k, "task_status");
        if !skip {
            push_str(&mut out, "  \u{2022} ");
            push_str(&mut out, k);
            push_str(&mut out, ": ");
            push_str(&mut out, rendered[i].as_str());
            push_str(&mut out, "\n");
        }
        assert(out@ =~= mid + data_lines(keys.take(i + 1), rv.take(i + 1)));
        i = i + 1;
    }
    assert(keys.take(es@.len() as int) =~= keys);
    assert(rv.take(es@.len() as int) =~= rv);
    push_str(&mut out, "=========================\n\n");
    assert(out@ =~= memory_info(ctx.current_plan, keys, rv));
    out
}

/// The summary of a finished collaboration, from the shared context.
pub fn completion_summary_exec(ctx: &SharedContext) -> (out: String)
    ensures
        out@ == completion_summary(ctx.current_plan),
{
    let mut out = String::new();
    push_str(&mut out, "=== TASK COMPLETION SUMMARY ===\n\n");
    match &ctx.current_plan {
        Some(p) => {
            let (done, total) = p.get_progress();
            push_str(&mut out, "Objective: ");
            push_str(&mut out, p.objective.as_str());
            push_str(&mut out, "\nStatus: All tasks completed (");
            push_str(&mut out, usize_to_string(done).as_str());
            push_str(&mut out, "/");
            push_str(&mut out, usize_to_string(total).as_str());
            push_str(&mut out, " tasks)\n\nTask Results:\n");
            push_str(&mut out, result_lines_exec(&p.tasks).as_str());
        },
        None => {},
    }
    assert(out@ =~= completion_summary(ctx.current_plan));
    out
}

fn synthesis_prompt_exec(task: &str, summary: &str) -> (out: String)
    ensures
        out@ == synthesis_prompt(task@, summary@),
{
    let mut out = String::new();
    push_str(&mut out, "Based on the completed tasks, provide a comprehensive final answer to the original request.\n\nOriginal Task: ");
    push_str(&mut out, task);
    push_str(&mut out, "\n\n");
    push_str(&mut out, summary);
    push_str(&mut out, "\n\nSynthesize all the information into a cohesive, complete response.");
    assert(out@ =~= synthesis_prompt(task@, summary@));
    out
}

/// Where a collaborative task stands.
#[derive(Debug, Clone, Copy, PartialEq, Eq, Structural)]
pub enum CollabPhase {
    /// Waiting for the coordinator's plan.
    Planning,
    /// Carrying out the plan.
    Executing,
    /// Waiting for an agent's work on a task.
    RunningTask,
    /// Waiting for the coordinator to do the task alone, for want of a plan.
    Fallback,
    /// Waiting for the coordinator's final answer.
    Synthesizing,
    /// Over.
    Done,
}

/// What the driver of a collaborative task does next.
#[derive(Debug)]
pub enum CollabStep {
    /// Have agent `agent` answer `prompt` (a chat turn), then report the reply.
    Ask { agent: String, prompt: String },
    /// Have agent `agent` carry out task `task_id`: build its request with
    /// `CollabRun::task_prompt`, have the agent answer it, then report the reply.
    RunTask { agent: String, task_id: String, description: String },
    /// Pause for 100 ms while tasks are in progress, then advance.
    Wait,
    /// Advance.
    Continue,
    /// The collaboration is over with this outcome.
    Finish(Result<String, HeliosError>),
}

/// The state of a collaborative task: who coordinates it, what it is, and how
/// far the plan has been carried out.
#[derive(Debug)]
pub struct CollabRun {
    /// The coordinating agent.
    pub initiator: String,
    /// The task as the user gave it.
    pub task: String,
    /// The ids of the agents involved, joined by ", ".
    pub team: String,
    /// Where the task stands.
    pub phase: CollabPhase,
    /// Rounds taken so far.
    pub iteration: usize,
    /// The most rounds allowed.
    pub max_rounds: usize,
    /// The ready tasks of the current round: (id, description, assigned agent).
    pub batch: Vec<(String, String, String)>,
    /// The next task of the round to start.
    pub next: usize,
    /// Whether a round is under way.
    pub in_batch: bool,
    /// The task an agent is working on: (id, description).
    pub running: Option<(String, String)>,
}

/// Whether a collaboration's state is consistent.
pub open spec fn collab_wf(r: CollabRun) -> bool {
    &&& r.iteration <= r.max_rounds
    &&& r.next <= r.batch@.len()
    &&& r.in_batch ==> r.iteration < r.max_rounds
    &&& r.phase == CollabPhase::RunningTask ==> r.running is Some
}

/// Whether `new` is `old` with the first task `id`, if there is one, given status `s`.
pub open spec fn plan_status_set(old: Option<TaskPlan>, new: Option<TaskPlan>, id: Seq<char>, s: TaskStatus) -> bool {
    match (old, new) {
        (None, None) => true,
        (Some(p), Some(q)) => {
            let k = task_index(p.tasks@, id);
            &&& q.plan_id == p.plan_id
            &&& q.objective == p.objective
            &&& q.task_order == p.task_order
            &&& q.created_at == p.created_at
            &&& if k < 0 {
                q.tasks@ == p.tasks@
            } else {
                q.tasks@ == p.tasks@.update(k, TaskItem { status: s, ..p.tasks@[k] })
            }
        },
        _ => false,
    }
}

/// Whether `new` is `old` with the first task `id` completed with `result`, when
/// that task is in progress; otherwise `new` is `old`.
pub open spec fn plan_task_completed(old: Option<TaskPlan>, new: Option<TaskPlan>, id: Seq<char>, result: String) -> bool {
    match (old, new) {
        (None, None) => true,
        (Some(p), Some(q)) => {
            let k = task_index(p.tasks@, id);
            &&& q.plan_id == p.plan_id
            &&& q.objective == p.objective
            &&& q.task_order == p.task_order
            &&& q.created_at == p.created_at
            &&& if k >= 0 && p.tasks@[k].status == TaskStatus::InProgress {
                q.tasks@ == p.tasks@.update(
                    k,
                    TaskItem { status: TaskStatus::Completed, result: Some(result), ..p.tasks@[k] },
                )
            } else {
                q.tasks@ == p.tasks@
            }
        },
        _ => false,
    }
}

/// Whether the context `new` is `old` with only its plan changed.
pub open spec fn only_plan_changed(old: SharedContext, new: SharedContext) -> bool {
    &&& new.data == old.data
    &&& new.message_history == old.message_history
    &&& new.metadata == old.metadata
}

/// The batch of a round: each ready task's id, description and agent.
pub open spec fn batch_of(ts: Seq<TaskItem>) -> Seq<(Seq<char>, Seq<char>, Seq<char>)> {
    ts.map_values(|t: TaskItem| (t.id@, t.description@, t.assigned_to@))
}

/// The view of a batch.
pub open spec fn batch_view(b: Seq<(String, String, String)>) -> Seq<(Seq<char>, Seq<char>, Seq<char>)> {
    b.map_values(|e: (String, String, String)| (e.0@, e.1@, e.2@))
}

/// Whether some task is in progress.
pub open spec fn any_in_progress(ts: Seq<TaskItem>) -> bool {
    exists|i: int| 0 <= i < ts.len() && #[trigger] ts[i].status == TaskStatus::InProgress
}

/// The rounds a collaboration has left.
pub open spec fn rounds_left(r: CollabRun) -> int {
    r.max_rounds - r.iteration
}

/// Whether the collaboration `new` is nearer its end than `old`: fewer rounds
/// left; or as many, with a round begun; or the same round further on.
pub open spec fn progressed(new: CollabRun, old: CollabRun) -> bool {
    ||| rounds_left(new) < rounds_left(old)
    ||| rounds_left(new) == rounds_left(old) && !old.in_batch && new.in_batch
    ||| rounds_left(new) == rounds_left(old) && old.in_batch && new.in_batch && new.batch@ == old.batch@
        && new.next > old.next
}

/// Whether `s` asks agent `agent` to answer `prompt`.
pub open spec fn is_ask(s: CollabStep, agent: Seq<char>, prompt: Seq<char>) -> bool {
    s matches CollabStep::Ask { agent: a, prompt: p } && a@ == agent && p@ == prompt
}

/// The first of `ids` that is not in `present`, by position, or -1.
pub open spec fn missing_index(ids: Seq<Seq<char>>, present: Set<Seq<char>>) -> int
    decreases ids.len(),
{
    if ids.len() == 0 {
        -1
    } else {
        let r = missing_index(ids.drop_last(), present);
        if r >= 0 {
            r
        } else if !present.contains(ids.last()) {
            ids.len() - 1
        } else {
            -1
        }
    }
}

/// Whether `v` is a JSON array of the strings `ids`.
pub open spec fn is_string_array(v: JsonValue, ids: Seq<Seq<char>>) -> bool {
    v matches JsonValue::Array(a) && a@.len() == ids.len() && forall|i: int|
        0 <= i < ids.len() ==> json_str(#[trigger] a@[i]) == Some(ids[i])
}

fn set_status(ctx: &mut SharedContext, id: &str, s: TaskStatus)
    ensures
        plan_status_set(old(ctx).current_plan, final(ctx).current_plan, id@, s),
        only_plan_changed(*old(ctx), *final(ctx)),
{
    let mut cur: Option<TaskPlan> = None;
    std::mem::swap(&mut cur, &mut ctx.current_plan);
    match cur {
        None => {},
        Some(mut plan) => {
            match find_task(&plan.tasks, id) {
                Some(i) => {
                    let ghost old_tasks = plan.tasks@;
                    let mut t = plan.tasks.remove(i);
                    let ghost t0 = t;
                    t.status = s;
                    assert(t == TaskItem { status: s, ..t0 });
                    plan.tasks.insert(i, t);
                    assert(plan.tasks@ =~= old_tasks.update(i as int, TaskItem { status: s, ..t0 }));
                },
                None => {},
            }
            ctx.current_plan = Some(plan);
        },
    }
}

fn complete_if_running(ctx: &mut SharedContext, id: &str, result: String)
    ensures
        plan_task_completed(old(ctx).current_plan, final(ctx).current_plan, id@, result),
        only_plan_changed(*old(ctx), *final(ctx)),
{
    let mut cur: Option<TaskPlan> = None;
    std::mem::swap(&mut cur, &mut ctx.current_plan);
    match cur {
        None => {},
        Some(mut plan) => {
            match find_task(&plan.tasks, id) {
                Some(i) => {
                    if plan.tasks[i].status == TaskStatus::InProgress {
                        let ghost old_tasks = plan.tasks@;
                        let mut t = plan.tasks.remove(i);
                        let ghost t0 = t;
                        t.status = TaskStatus::Completed;
                        t.result = Some(result);
                        assert(t == TaskItem { status: TaskStatus::Completed, result: Some(result), ..t0 });
                        plan.tasks.insert(i, t);
                        assert(plan.tasks@ =~= old_tasks.update(
                            i as int,
                            TaskItem { status: TaskStatus::Completed, result: Some(result), ..t0 },
                        ));
                    }
                },
                None => {},
            }
            ctx.current_plan = Some(plan);
        },
    }
}

fn synthesize(run: &mut CollabRun, forest: &ForestOfAgents) -> (step: CollabStep)
    ensures
        final(run).phase == CollabPhase::Synthesizing,
        final(run).initiator == old(run).initiator,
        final(run).task == old(run).task,
        final(run).team == old(run).team,
        final(run).iteration == old(run).iteration,
        final(run).max_rounds == old(run).max_rounds,
        final(run).batch == old(run).batch,
        final(run).next == old(run).next,
        final(run).in_batch == old(run).in_batch,
        final(run).running == old(run).running,
        is_ask(step, old(run).initiator@, synthesis_prompt(old(run).task@, completion_summary(forest.shared_context.current_plan))),
{
    let summary = completion_summary_exec(&forest.shared_context);
    let prompt = synthesis_prompt_exec(run.task.as_str(), summary.as_str());
    run.phase = CollabPhase::Synthesizing;
    CollabStep::Ask { agent: run.initiator.clone(), prompt }
}

impl CollabRun {
    /// Starts a collaborative task on `task`, coordinated by `initiator`, with the
    /// agents `involved`. Every involved agent must be in the forest (else
    /// `AgentError("Agent '<id>' not found")` for the first that is not), and so
    /// must the coordinator (else `AgentError("Initiator agent '<id>' not found")`).
    /// The task, the team and the status `planning` are shared, and the coordinator
    /// is asked for a plan.
    pub fn start(forest: &mut ForestOfAgents, initiator: &str, task: &str, involved: &Vec<String>) -> (r: Result<
        (CollabRun, CollabStep),
        HeliosError,
    >)
        requires
            old(forest).max_iterations <= usize::MAX / 2,
        ensures
            ({
                let ids = involved@.map_values(|s: String| s@);
                let present = old(forest).agents.map().dom();
                let m = missing_index(ids, present);
                if m >= 0 {
                    &&& r matches Err(HeliosError::AgentError(e)) && e@ == "Agent '"@ + ids[m] + "' not found"@
                    &&& *final(forest) == *old(forest)
                } else if !present.contains(initiator@) {
                    &&& r matches Err(HeliosError::AgentError(e)) && e@ == "Initiator agent '"@ + initiator@ + "' not found"@
                    &&& *final(forest) == *old(forest)
                } else {
                    &&& r matches Ok((run, step)) && {
                        &&& collab_wf(run)
                        &&& run.phase == CollabPhase::Planning
                        &&& run.initiator@ == initiator@
                        &&& run.task@ == task@
                        &&& run.team@ == join(ids, ", "@)
                        &&& run.iteration == 0
                        &&& run.max_rounds == 2 * old(forest).max_iterations
                        &&& !run.in_batch
                        &&& is_ask(step, initiator@, planning_prompt(task@, join(ids, ", "@)))
                    }
                    &&& final(forest).shared_context.data.map().dom() == old(forest).shared_context.data.map().dom()
                        .insert("current_task"@).insert("involved_agents"@).insert("task_status"@)
                    &&& forall|k: Seq<char>| k != "current_task"@ && k != "involved_agents"@ && k != "task_status"@
                        && old(forest).shared_context.data.map().contains_key(k) ==> final(forest).shared_context.data.map()[k]
                        == old(forest).shared_context.data.map()[k]
                    &&& json_str(final(forest).shared_context.data.map()["current_task"@]) == Some(task@)
                    &&& is_string_array(final(forest).shared_context.data.map()["involved_agents"@], ids)
                    &&& json_str(final(forest).shared_context.data.map()["task_status"@]) == Some("planning"@)
                    &&& final(forest).shared_context.message_history == old(forest).shared_context.message_history
                    &&& final(forest).shared_context.metadata == old(forest).shared_context.metadata
                    &&& final(forest).shared_context.current_plan == old(forest).shared_context.current_plan
                    &&& final(forest).agents == old(forest).agents
                    &&& final(forest).message_queue == old(forest).message_queue
                    &&& final(forest).max_iterations == old(forest).max_iterations
                }
            }),
    {
        let ghost ids = involved@.map_values(|s: String| s@);
        let ghost present = forest.agents.map().dom();
        let mut i: usize = 0;
        while i < involved.len()
            invariant
                i <= involved@.len(),
                ids == involved@.map_values(|s: String| s@),
                present == forest.agents.map().dom(),
                missing_index(ids.take(i as int), present) < 0,
                *forest == *old(forest),
            decreases involved@.len() - i,
        {
            assert(ids.take(i + 1).drop_last() =~= ids.take(i as int));
            if !forest.agents.contains_key(involved[i].as_str()) {
                proof {
                    lemma_missing_prefix(ids, (i + 1) as int, present);
                }
                let mut e = String::new();
                push_str(&mut e, "Agent '");
                push_str(&mut e, involved[i].as_str());
                push_str(&mut e, "' not found");
                return Err(HeliosError::AgentError(e));
            }
            i = i + 1;
        }
        assert(ids.take(involved@.len() as int) =~= ids);
        if !forest.agents.contains_key(initiator) {
            let mut e = String::new();
            push_str(&mut e, "Initiator agent '");
            push_str(&mut e, initiator);
            push_str(&mut e, "' not found");
            return Err(HeliosError::AgentError(e));
        }
        let team = join_strings(involved, ", ");
        let mut team_json: Vec<JsonValue> = Vec::new();
        let mut j: usize = 0;
        while j < involved.len()
            invariant
                j <= involved@.len(),
                ids == involved@.map_values(|s: String| s@),
                team_json@.len() == j,
                forall|q: int| 0 <= q < j ==> json_str(#[trigger] team_json@[q]) == Some(ids[q]),
            decreases involved@.len() - j,
        {
            team_json.push(JsonValue::String(involved[j].clone()));
            j = j + 1;
        }
        let ghost d0 = forest.shared_context.data.map();
        forest.shared_context.set(owned("current_task"), JsonValue::String(owned(task)));
        forest.shared_context.set(owned("involved_agents"), JsonValue::Array(team_json));
        forest.shared_context.set(owned("task_status"), JsonValue::String(owned("planning")));
        proof {
            reveal_strlit("current_task");
            reveal_strlit("involved_agents");
            reveal_strlit("task_status");
            assert("current_task"@[0] != "involved_agents"@[0]);
            assert("current_task"@[0] != "task_status"@[0]);
            assert("involved_agents"@[0] != "task_status"@[0]);
            assert(forest.shared_context.data.map().dom() =~= d0.dom().insert("current_task"@).insert(
                "involved_agents"@,
            ).insert("task_status"@));
        }
        let prompt = planning_prompt_exec(task, team.as_str());
        let run = CollabRun {
            initiator: owned(initiator),
            task: owned(task),
            team,
            phase: CollabPhase::Planning,
            iteration: 0,
            max_rounds: forest.max_iterations * 2,
            batch: Vec::new(),
            next: 0,
            in_batch: false,
            running: None,
        };
        Ok((run, CollabStep::Ask { agent: owned(initiator), prompt }))
    }
}

/// The first missing id of a prefix is the first missing id of the whole.
proof fn lemma_missing_prefix(ids: Seq<Seq<char>>, n: int, present: Set<Seq<char>>)
    requires
        0 <= n <= ids.len(),
        missing_index(ids.take(n), present) >= 0,
    ensures
        missing_index(ids, present) == missing_index(ids.take(n), present),
    decreases ids.len() - n,
{
    if n < ids.len() {
        assert(ids.take(n + 1).drop_last() =~= ids.take(n));
        lemma_missing_prefix(ids, n + 1, present);
    } else {
        assert(ids.take(n) =~= ids);
    }
}

impl CollabRun {
    /// Takes the next step of carrying out the plan.
    ///
    /// Within a round, the next ready task is marked in progress and its agent is
    /// asked to carry it out (a task whose agent is not in the forest is passed
    /// over); after the last task of a round, the round is counted. Between rounds:
    /// once the rounds are used up, the plan is complete, or nothing is ready or in
    /// progress, the coordinator is asked for the final answer; without a plan it is
    /// asked to do the task alone; with nothing ready but something in progress, the
    /// round is counted and the driver waits; otherwise the ready tasks make the
    /// next round.
    pub fn advance(&mut self, forest: &mut ForestOfAgents) -> (step: CollabStep)
        requires
            old(self).phase == CollabPhase::Executing,
            collab_wf(*old(self)),
        ensures
            collab_wf(*final(self)),
            final(self).initiator == old(self).initiator,
            final(self).task == old(self).task,
            final(self).team == old(self).team,
            final(self).max_rounds == old(self).max_rounds,
            final(forest).agents == old(forest).agents,
            final(forest).message_queue == old(forest).message_queue,
            final(forest).max_iterations == old(forest).max_iterations,
            only_plan_changed(old(forest).shared_context, final(forest).shared_context),
            step is Continue || step is Wait || step is RunTask ==> final(self).phase != CollabPhase::Done && progressed(*final(self), *old(self)),
            old(self).in_batch && old(self).next < old(self).batch@.len() ==> {
                let e = batch_view(old(self).batch@)[old(self).next as int];
                &&& plan_status_set(old(forest).shared_context.current_plan, final(forest).shared_context.current_plan, e.0, TaskStatus::InProgress)
                &&& final(self).next == old(self).next + 1
                &&& final(self).batch == old(self).batch
                &&& final(self).in_batch
                &&& final(self).iteration == old(self).iteration
                &&& if old(forest).agents.map().contains_key(e.2) {
                    &&& final(self).phase == CollabPhase::RunningTask
                    &&& final(self).running matches Some(rt) && rt.0@ == e.0 && rt.1@ == e.1
                    &&& step matches CollabStep::RunTask { agent, task_id, description } && agent@ == e.2
                        && task_id@ == e.0 && description@ == e.1
                } else {
                    &&& final(self).phase == CollabPhase::Executing
                    &&& step is Continue
                }
            },
            old(self).in_batch && old(self).next == old(self).batch@.len() ==> {
                &&& final(self).phase == CollabPhase::Executing
                &&& !final(self).in_batch
                &&& final(self).iteration == old(self).iteration + 1
                &&& final(forest).shared_context == old(forest).shared_context
                &&& step is Continue
            },
            !old(self).in_batch ==> {
                let plan = old(forest).shared_context.current_plan;
                let synth = synthesis_prompt(old(self).task@, completion_summary(plan));
                &&& final(forest).shared_context == old(forest).shared_context
                &&& if old(self).iteration >= old(self).max_rounds {
                    final(self).phase == CollabPhase::Synthesizing && is_ask(step, old(self).initiator@, synth)
                } else {
                    match plan {
                        None => final(self).phase == CollabPhase::Fallback && is_ask(
                            step,
                            old(self).initiator@,
                            fallback_prompt(old(self).task@, old(self).team@),
                        ),
                        Some(p) => {
                            let ready = ready_among(p.tasks@, p.tasks@);
                            if all_finished(p.tasks@) || (ready.len() == 0 && !any_in_progress(p.tasks@)) {
                                final(self).phase == CollabPhase::Synthesizing && is_ask(step, old(self).initiator@, synth)
                            } else if ready.len() == 0 {
                                &&& final(self).phase == CollabPhase::Executing
                                &&& step is Wait
                                &&& final(self).iteration == old(self).iteration + 1
                                &&& !final(self).in_batch
                            } else {
                                &&& final(self).phase == CollabPhase::Executing
                                &&& step is Continue
                                &&& final(self).in_batch
                                &&& batch_view(final(self).batch@) == batch_of(ready)
                                &&& final(self).next == 0
                                &&& final(self).iteration == old(self).iteration
                            }
                        },
                    }
                }
            },
    {
        if self.in_batch {
            if self.next < self.batch.len() {
                let i = self.next;
                let id = self.batch[i].0.clone();
                let desc = self.batch[i].1.clone();
                let agent = self.batch[i].2.clone();
                assert(batch_view(self.batch@)[i as int] == (id@, desc@, agent@));
                set_status(&mut forest.shared_context, id.as_str(), TaskStatus::InProgress);
                self.next = i + 1;
                if forest.agents.contains_key(agent.as_str()) {
                    self.phase = CollabPhase::RunningTask;
                    self.running = Some((id.clone(), desc.clone()));
                    return CollabStep::RunTask { agent, task_id: id, description: desc };
                } else {
                    return CollabStep::Continue;
                }
            } else {
                self.in_batch = false;
                self.iteration = self.iteration + 1;
                return CollabStep::Continue;
            }
        }
        if self.iteration >= self.max_rounds {
            return synthesize(self, forest);
        }
        let ready: Vec<(String, String, String)> = match &forest.shared_context.current_plan {
            None => {
                let prompt = fallback_prompt_exec(self.task.as_str(), self.team.as_str());
                self.phase = CollabPhase::Fallback;
                return CollabStep::Ask { agent: self.initiator.clone(), prompt };
            },
            Some(p) => {
                if p.is_complete() {
                    return synthesize(self, forest);
                }
                let ts = p.get_next_ready_tasks();
                let mut out: Vec<(String, String, String)> = Vec::new();
                let mut k: usize = 0;
                while k < ts.len()
                    invariant
                        k <= ts@.len(),
                        batch_view(out@) == batch_of(ts@.map_values(|t: &TaskItem| *t).take(k as int)),
                    decreases ts@.len() - k,
                {
                    let t = ts[k];
                    let ghost tv = ts@.map_values(|t: &TaskItem| *t);
                    let ghost before = out@;
                    out.push((t.id.clone(), t.description.clone(), t.assigned_to.clone()));
                    proof {
                        assert(tv[k as int] == *t);
                        assert(tv.take(k + 1) =~= tv.take(k as int).push(*t));
                        assert(batch_of(tv.take(k + 1)) =~= batch_of(tv.take(k as int)).push(
                            (t.id@, t.description@, t.assigned_to@),
                        ));
                        assert(batch_view(out@) =~= batch_view(before).push((t.id@, t.description@, t.assigned_to@)));
                    }
                    k = k + 1;
                }
                assert(ts@.map_values(|t: &TaskItem| *t).take(ts@.len() as int) =~= ts@.map_values(|t: &TaskItem| *t));
                if out.len() == 0 {
                    let mut busy = false;
                    let mut q: usize = 0;
                    while q < p.tasks.len()
                        invariant
                            q <= p.tasks@.len(),
                            busy == exists|z: int| 0 <= z < q && #[trigger] p.tasks@[z].status == TaskStatus::InProgress,
                        decreases p.tasks@.len() - q,
                    {
                        if p.tasks[q].status == TaskStatus::InProgress {
                            busy = true;
                        }
                        q = q + 1;
                    }
                    if !busy {
                        return synthesize(self, forest);
                    }
                    self.iteration = self.iteration + 1;
                    return CollabStep::Wait;
                }
                out
            },
        };
        self.batch = ready;
        self.next = 0;
        self.in_batch = true;
        CollabStep::Continue
    }

    /// Records the reply that the last step asked for. An error ends the
    /// collaboration with that error. The coordinator's plan lets the work begin;
    /// an agent's work completes its task (when the task is still in progress)
    /// with the reply as result; the coordinator's answer alone, for want of a
    /// plan, ends the collaboration with it; and its final answer marks the shared
    /// status `completed` and ends the collaboration with it.
    pub fn on_reply(&mut self, forest: &mut ForestOfAgents, reply: Result<String, HeliosError>) -> (step: CollabStep)
        requires
            old(self).phase == CollabPhase::Planning || old(self).phase == CollabPhase::RunningTask
                || old(self).phase == CollabPhase::Fallback || old(self).phase == CollabPhase::Synthesizing,
            collab_wf(*old(self)),
        ensures
            collab_wf(*final(self)),
            final(self).initiator == old(self).initiator,
            final(self).task == old(self).task,
            final(self).team == old(self).team,
            final(self).max_rounds == old(self).max_rounds,
            final(self).iteration == old(self).iteration,
            final(self).batch == old(self).batch,
            final(self).next == old(self).next,
            final(self).in_batch == old(self).in_batch,
            final(forest).agents == old(forest).agents,
            final(forest).message_queue == old(forest).message_queue,
            final(forest).max_iterations == old(forest).max_iterations,
            final(forest).shared_context.message_history == old(forest).shared_context.message_history,
            final(forest).shared_context.metadata == old(forest).shared_context.metadata,
            match reply {
                Err(e) => {
                    &&& step matches CollabStep::Finish(Err(e2)) && e2 == e
                    &&& final(self).phase == CollabPhase::Done
                    &&& final(forest).shared_context == old(forest).shared_context
                },
                Ok(text) => match old(self).phase {
                    CollabPhase::Planning => {
                        &&& final(self).phase == CollabPhase::Executing
                        &&& step is Continue
                        &&& final(forest).shared_context == old(forest).shared_context
                    },
                    CollabPhase::RunningTask => {
                        &&& final(self).phase == CollabPhase::Executing
                        &&& step is Continue
                        &&& final(forest).shared_context.data == old(forest).shared_context.data
                        &&& plan_task_completed(
                            old(forest).shared_context.current_plan,
                            final(forest).shared_context.current_plan,
                            old(self).running->Some_0.0@,
                            text,
                        )
                    },
                    CollabPhase::Fallback => {
                        &&& final(self).phase == CollabPhase::Done
                        &&& step matches CollabStep::Finish(Ok(t)) && t == text
                        &&& final(forest).shared_context == old(forest).shared_context
                    },
                    _ => {
                        &&& final(self).phase == CollabPhase::Done
                        &&& step matches CollabStep::Finish(Ok(t)) && t == text
                        &&& final(forest).shared_context.data.map() == old(forest).shared_context.data.map().insert(
                            "task_status"@,
                            final(forest).shared_context.data.map()["task_status"@],
                        )
                        &&& json_str(final(forest).shared_context.data.map()["task_status"@]) == Some("completed"@)
                        &&& final(forest).shared_context.current_plan == old(forest).shared_context.current_plan
                    },
                },
            },
    {
        match reply {
            Err(e) => {
                self.phase = CollabPhase::Done;
                CollabStep::Finish(Err(e))
            },
            Ok(text) => {
                match self.phase {
                    CollabPhase::Planning => {
                        self.phase = CollabPhase::Executing;
                        CollabStep::Continue
                    },
                    CollabPhase::RunningTask => {
                        match &self.running {
                            Some(rt) => {
                                complete_if_running(&mut forest.shared_context, rt.0.as_str(), text);
                            },
                            None => {},
                        }
                        self.phase = CollabPhase::Executing;
                        CollabStep::Continue
                    },
                    CollabPhase::Fallback => {
                        self.phase = CollabPhase::Done;
                        CollabStep::Finish(Ok(text))
                    },
                    _ => {
                        forest.shared_context.set(owned("task_status"), JsonValue::String(owned("completed")));
                        self.phase = CollabPhase::Done;
                        CollabStep::Finish(Ok(text))
                    },
                }
            },
        }
    }

    /// The request to the agent working on the current task: the shared memory
    /// (with `rendered[i]` the JSON text of the `i`-th shared value), then the task.
    pub fn task_prompt(&self, ctx: &SharedContext, rendered: &Vec<String>) -> (out: String)
        requires
            self.phase == CollabPhase::RunningTask,
            collab_wf(*self),
            rendered@.len() == ctx.data.pairs().len(),
        ensures
            out@ == task_prompt_text(
                memory_info(ctx.current_plan, keys_of(ctx.data.pairs()), rendered@.map_values(|r: String| r@)),
                self.running->Some_0.1@,
                self.running->Some_0.0@,
            ),
    {
        let info = memory_info_exec(ctx, rendered);
        let (id, desc) = match &self.running {
            Some(rt) => (rt.0.as_str(), rt.1.as_str()),
            None => ("", ""),
        };
        let mut out = String::new();
        push_str(&mut out, info.as_str());
        push_str(&mut out, "Your assigned task: ");
        push_str(&mut out, desc);
        push_str(&mut out, "\n\nComplete this ");
        push_str(&mut out, "task and use the 'update_task_memory' tool to save your results to the shared memory. The task_id is '");
        push_str(&mut out, id);
        push_str(&mut out, "'. Include key findings and data that other agents might need.\n\nProvide a complete response with your results.");
        assert(out@ =~= task_prompt_text(info@, desc@, id@));
        out
    }
}


/// Whether agent `id` of `agents` has a message to answer: its conversation
/// ends with a user message.
pub open spec fn needs_reply(agents: StringMap<Agent>, id: Seq<char>) -> bool {
    agents.map().contains_key(id) && agents.map()[id].session().messages@.len() > 0
        && agents.map()[id].session().messages@.last().role == Role::User
}

/// The involved agents that must answer, in order.
pub open spec fn repliers(agents: StringMap<Agent>, ids: Seq<Seq<char>>) -> Seq<Seq<char>>
    decreases ids.len(),
{
    if ids.len() == 0 {
        Seq::empty()
    } else {
        let rest = repliers(agents, ids.drop_last());
        if needs_reply(agents, ids.last()) {
            rest.push(ids.last())
        } else {
            rest
        }
    }
}

impl ForestOfAgents {
    /// The involved agents whose conversations end with a message they have not
    /// answered, in the order given.
    pub fn agents_to_respond(&self, involved: &Vec<String>) -> (out: Vec<String>)
        ensures
            out@.map_values(|s: String| s@) == repliers(self.agents, involved@.map_values(|s: String| s@)),
    {
        let ghost ids = involved@.map_values(|s: String| s@);
        let mut out: Vec<String> = Vec::new();
        let mut i: usize = 0;
        while i < involved.len()
            invariant
                i <= involved@.len(),
                ids == involved@.map_values(|s: String| s@),
                out@.map_values(|s: String| s@) == repliers(self.agents, ids.take(i as int)),
            decreases involved@.len() - i,
        {
            assert(ids.take(i + 1).drop_last() =~= ids.take(i as int));
            assert(ids.take(i + 1).last() == involved@[i as int]@);
            match self.agents.get(involved[i].as_str()) {
                Some(a) => {
                    let ms = &a.chat_session().messages;
                    if ms.len() > 0 && ms[ms.len() - 1].role == Role::User {
                        let ghost before = out@.map_values(|s: String| s@);
                        out.push(involved[i].clone());
                        assert(out@.map_values(|s: String| s@) =~= before.push(involved@[i as int]@));
                    }
                },
                None => {},
            }
            i = i + 1;
        }
        assert(ids.take(involved@.len() as int) =~= ids);
        out
    }

    /// One round of answering messages, the rounds counted from 0: while rounds
    /// are left, the queued messages are delivered and the involved agents left
    /// with an unanswered message are returned, to be asked for their answers;
    /// none are returned, and nothing is delivered, once `max_iterations` rounds
    /// have run. An empty result ends the rounds.
    pub fn respond_round(&mut self, involved: &Vec<String>, round: usize) -> (who: Vec<String>)
        ensures
            round >= old(self).max_iterations ==> who@.len() == 0 && *final(self) == *old(self),
            round < old(self).max_iterations ==> {
                &&& final(self).message_queue@.len() == 0
                &&& agents_received(old(self).agents.pairs(), final(self).agents.pairs(), old(self).message_queue@)
                &&& final(self).shared_context == old(self).shared_context
                &&& final(self).max_iterations == old(self).max_iterations
                &&& who@.map_values(|s: String| s@) == repliers(final(self).agents, involved@.map_values(|s: String| s@))
            },
    {
        if round >= self.max_iterations {
            return Vec::new();
        }
        let _ = self.process_messages();
        self.agents_to_respond(involved)
    }
}

} // verus!
