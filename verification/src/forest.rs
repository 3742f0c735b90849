//! The Forest of Agents: task plans, shared context and the messages that agents
//! send one another.

use vstd::prelude::*;
use crate::clock::{Timestamp, now, now_rfc3339, is_utc_time_text};
use crate::error::HeliosError;
use crate::json::{JsonValue, str_arg, json_str, json_get};
use crate::strmap::StringMap;
use crate::text::{str_eq, owned, push_str, join, join_strings, decimal, signed_decimal, i64_to_string, usize_to_string};
use crate::tools::{ToolResult, is_success, is_tool_error};

verus! {

/// The identifier of an agent in the forest.
pub type AgentId = String;

/// The status of a task in a collaborative plan.
#[derive(Debug, Clone, Copy, PartialEq, Eq, Structural)]
pub enum TaskStatus {
    /// Not started.
    Pending,
    /// Being worked on.
    InProgress,
    /// Finished with a result.
    Completed,
    /// Given up.
    Failed,
}

impl TaskStatus {
    /// The status as lower-case text.
    pub fn as_str(&self) -> (s: &'static str)
        ensures
            s@ == match *self {
                TaskStatus::Pending => "pending"@,
                TaskStatus::InProgress => "in_progress"@,
                TaskStatus::Completed => "completed"@,
                TaskStatus::Failed => "failed"@,
            },
    {
        match self {
            TaskStatus::Pending => "pending",
            TaskStatus::InProgress => "in_progress",
            TaskStatus::Completed => "completed",
            TaskStatus::Failed => "failed",
        }
    }
}

/// A task of a collaborative plan.
#[derive(Debug)]
pub struct TaskItem {
    /// The task's identifier.
    pub id: String,
    /// What the task is.
    pub description: String,
    /// The agent the task is assigned to.
    pub assigned_to: AgentId,
    /// The current status.
    pub status: TaskStatus,
    /// The result, once there is one.
    pub result: Option<String>,
    /// The tasks that must complete before this one.
    pub dependencies: Vec<String>,
    /// Metadata about the task.
    pub metadata: StringMap<String>,
}

impl TaskItem {
    /// A pending task with no result, dependencies or metadata.
    pub fn new(id: String, description: String, assigned_to: AgentId) -> (t: Self)
        ensures
            t.id == id,
            t.description == description,
            t.assigned_to == assigned_to,
            t.status == TaskStatus::Pending,
            t.result is None,
            t.dependencies@.len() == 0,
            t.metadata.pairs().len() == 0,
    {
        TaskItem {
            id,
            description,
            assigned_to,
            status: TaskStatus::Pending,
            result: None,
            dependencies: Vec::new(),
            metadata: StringMap::new(),
        }
    }

    /// The same task with its dependencies replaced by `deps`.
    pub fn with_dependencies(self, deps: Vec<String>) -> (t: Self)
        ensures
            t.id == self.id,
            t.description == self.description,
            t.assigned_to == self.assigned_to,
            t.status == self.status,
            t.result == self.result,
            t.dependencies == deps,
            t.metadata == self.metadata,
    {
        let mut t = self;
        t.dependencies = deps;
        t
    }
}

/// The index of the first task with id `id`, or -1.
pub open spec fn task_index(ts: Seq<TaskItem>, id: Seq<char>) -> int
    decreases ts.len(),
{
    if ts.len() == 0 {
        -1
    } else if ts[0].id@ == id {
        0
    } else {
        let r = task_index(ts.drop_first(), id);
        if r < 0 {
            -1
        } else {
            r + 1
        }
    }
}

/// `task_index` finds the first task with the id, or says there is none.
pub proof fn lemma_task_index(ts: Seq<TaskItem>, id: Seq<char>)
    ensures
        -1 <= task_index(ts, id) < ts.len(),
        task_index(ts, id) >= 0 ==> ts[task_index(ts, id)].id@ == id && forall|j: int|
            0 <= j < task_index(ts, id) ==> ts[j].id@ != id,
        task_index(ts, id) < 0 ==> forall|j: int| 0 <= j < ts.len() ==> ts[j].id@ != id,
    decreases ts.len(),
{
    if ts.len() > 0 && ts[0].id@ != id {
        lemma_task_index(ts.drop_first(), id);
        assert forall|j: int| 0 < j < ts.len() implies ts[j] == ts.drop_first()[j - 1] by {}
    }
}

/// A dependency is met when the first task with its id is completed, or when no
/// task has its id.
pub open spec fn dependency_met(ts: Seq<TaskItem>, dep: Seq<char>) -> bool {
    let k = task_index(ts, dep);
    k < 0 || ts[k].status == TaskStatus::Completed
}

/// A task is ready when it is pending and all its dependencies are met.
pub open spec fn is_ready(ts: Seq<TaskItem>, t: TaskItem) -> bool {
    &&& t.status == TaskStatus::Pending
    &&& forall|j: int| 0 <= j < t.dependencies@.len() ==> dependency_met(ts, #[trigger] t.dependencies@[j]@)
}

/// The tasks of `ts` that are ready, in plan order, judged against `all`.
pub open spec fn ready_among(all: Seq<TaskItem>, ts: Seq<TaskItem>) -> Seq<TaskItem>
    decreases ts.len(),
{
    if ts.len() == 0 {
        Seq::empty()
    } else {
        let rest = ready_among(all, ts.drop_last());
        if is_ready(all, ts.last()) {
            rest.push(ts.last())
        } else {
            rest
        }
    }
}

/// The number of tasks with the given status.
pub open spec fn count_status(ts: Seq<TaskItem>, s: TaskStatus) -> nat
    decreases ts.len(),
{
    if ts.len() == 0 {
        0
    } else {
        count_status(ts.drop_last(), s) + if ts.last().status == s {
            1nat
        } else {
            0nat
        }
    }
}

/// Whether every task has finished, as completed or failed.
pub open spec fn all_finished(ts: Seq<TaskItem>) -> bool {
    forall|i: int|
        0 <= i < ts.len() ==> (#[trigger] ts[i].status == TaskStatus::Completed || ts[i].status
            == TaskStatus::Failed)
}

/// The position of the first task with id `id`, if any.
pub fn find_task(ts: &Vec<TaskItem>, id: &str) -> (r: Option<usize>)
    ensures
        match r {
            Some(i) => i < ts@.len() && i as int == task_index(ts@, id@) && ts@[i as int].id@ == id@,
            None => task_index(ts@, id@) < 0,
        },
{
    proof {
        lemma_task_index(ts@, id@);
    }
    let mut i: usize = 0;
    while i < ts.len()
        invariant
            i <= ts@.len(),
            forall|j: int| 0 <= j < i ==> ts@[j].id@ != id@,
        decreases ts@.len() - i,
    {
        if str_eq(ts[i].id.as_str(), id) {
            assert(task_index(ts@, id@) == i) by {
                let m = task_index(ts@, id@);
                if m < 0 {
                    assert(ts@[i as int].id@ != id@);
                } else if m > i {
                }
            }
            return Some(i);
        }
        i = i + 1;
    }
    assert(task_index(ts@, id@) < 0) by {
        let m = task_index(ts@, id@);
        if m >= 0 {
            assert(ts@[m].id@ == id@);
        }
    }
    None
}

/// A collaborative plan: an objective broken into tasks.
#[derive(Debug)]
pub struct TaskPlan {
    /// The plan's identifier.
    pub plan_id: String,
    /// The overall goal.
    pub objective: String,
    /// The tasks, in the order they were added.
    pub tasks: Vec<TaskItem>,
    /// The ids of the tasks, in the order they were added.
    pub task_order: Vec<String>,
    /// When the plan was created.
    pub created_at: Timestamp,
}

impl TaskPlan {
    /// An empty plan, created now.
    pub fn new(plan_id: String, objective: String) -> (p: Self)
        ensures
            p.plan_id == plan_id,
            p.objective == objective,
            p.tasks@.len() == 0,
            p.task_order@.len() == 0,
    {
        TaskPlan { plan_id, objective, tasks: Vec::new(), task_order: Vec::new(), created_at: now() }
    }

    /// Adds a task at the end of the plan.
    pub fn add_task(&mut self, task: TaskItem)
        ensures
            final(self).tasks@ == old(self).tasks@.push(task),
            final(self).task_order@.len() == old(self).task_order@.len() + 1,
            final(self).task_order@.drop_last() == old(self).task_order@,
            final(self).task_order@.last()@ == task.id@,
            final(self).plan_id == old(self).plan_id,
            final(self).objective == old(self).objective,
    {
        self.task_order.push(task.id.clone());
        self.tasks.push(task);
        assert(self.task_order@.drop_last() =~= old(self).task_order@);
    }

    /// The first task with id `task_id`, if any.
    pub fn get_task(&self, task_id: &str) -> (r: Option<&TaskItem>)
        ensures
            match r {
                Some(t) => task_index(self.tasks@, task_id@) >= 0 && *t == self.tasks@[task_index(
                    self.tasks@,
                    task_id@,
                )],
                None => task_index(self.tasks@, task_id@) < 0,
            },
    {
        match find_task(&self.tasks, task_id) {
            Some(i) => Some(&self.tasks[i]),
            None => None,
        }
    }

    /// The first task with id `task_id`, to change in place.
    pub fn get_task_mut(&mut self, task_id: &str) -> (r: Option<&mut TaskItem>)
        ensures
            match r {
                Some(t) => {
                    let i = task_index(old(self).tasks@, task_id@);
                    &&& i >= 0
                    &&& *t == old(self).tasks@[i]
                    &&& final(self).tasks@ == old(self).tasks@.update(i, *final(t))
                },
                None => task_index(old(self).tasks@, task_id@) < 0 && *final(self) == *old(self),
            },
            final(self).plan_id == old(self).plan_id,
            final(self).objective == old(self).objective,
            final(self).task_order == old(self).task_order,
    {
        match find_task(&self.tasks, task_id) {
            Some(i) => Some(&mut self.tasks[i]),
            None => None,
        }
    }

    /// The tasks that can start now: pending, with every dependency met, in plan order.
    pub fn get_next_ready_tasks(&self) -> (out: Vec<&TaskItem>)
        ensures
            out@.map_values(|t: &TaskItem| *t) == ready_among(self.tasks@, self.tasks@),
    {
        let ts = &self.tasks;
        let mut out: Vec<&TaskItem> = Vec::new();
        let mut i: usize = 0;
        while i < ts.len()
            invariant
                i <= ts@.len(),
                out@.map_values(|t: &TaskItem| *t) == ready_among(ts@, ts@.take(i as int)),
            decreases ts@.len() - i,
        {
            let t = &ts[i];
            let mut ok = t.status == TaskStatus::Pending;
            let mut j: usize = 0;
            while ok && j < t.dependencies.len()
                invariant
                    j <= t.dependencies@.len(),
                    ok ==> t.status == TaskStatus::Pending,
                    ok ==> forall|m: int| 0 <= m < j ==> dependency_met(ts@, #[trigger] t.dependencies@[m]@),
                    !ok ==> !is_ready(ts@, *t),
                decreases t.dependencies@.len() - j + if ok { 1int } else { 0int },
            {
                match find_task(ts, t.dependencies[j].as_str()) {
                    Some(k) => {
                        if ts[k].status != TaskStatus::Completed {
                            ok = false;
                            assert(!dependency_met(ts@, t.dependencies@[j as int]@));
                        }
                    },
                    None => {},
                }
                if ok {
                    j = j + 1;
                }
            }
            assert(ts@.take(i + 1).drop_last() =~= ts@.take(i as int));
            assert(ts@.take(i + 1).last() == *t);
            let ghost before = out@.map_values(|t: &TaskItem| *t);
            if ok {
                out.push(t);
                assert(out@.map_values(|t: &TaskItem| *t) =~= before.push(*t));
            }
            i = i + 1;
        }
        assert(ts@.take(ts@.len() as int) =~= ts@);
        out
    }

    /// Whether every task is completed or failed.
    pub fn is_complete(&self) -> (b: bool)
        ensures
            b == all_finished(self.tasks@),
    {
        let mut i: usize = 0;
        while i < self.tasks.len()
            invariant
                i <= self.tasks@.len(),
                all_finished(self.tasks@.take(i as int)),
            decreases self.tasks@.len() - i,
        {
            let s = self.tasks[i].status;
            if !(s == TaskStatus::Completed || s == TaskStatus::Failed) {
                assert(!(self.tasks@[i as int].status == TaskStatus::Completed
                    || self.tasks@[i as int].status == TaskStatus::Failed));
                return false;
            }
            i = i + 1;
            assert forall|k: int| 0 <= k < i implies (#[trigger] self.tasks@.take(i as int)[k].status
                == TaskStatus::Completed || self.tasks@.take(i as int)[k].status
                == TaskStatus::Failed) by {
                if k < i - 1 {
                    assert(self.tasks@.take(i as int)[k] == self.tasks@.take(i - 1)[k]);
                }
            }
        }
        assert(self.tasks@.take(self.tasks@.len() as int) =~= self.tasks@);
        true
    }

    /// The number of completed tasks and the number of tasks.
    pub fn get_progress(&self) -> (r: (usize, usize))
        ensures
            r.0 == count_status(self.tasks@, TaskStatus::Completed),
            r.1 == self.tasks@.len(),
    {
        let mut done: usize = 0;
        let mut i: usize = 0;
        while i < self.tasks.len()
            invariant
                i <= self.tasks@.len(),
                done == count_status(self.tasks@.take(i as int), TaskStatus::Completed),
                done <= i,
            decreases self.tasks@.len() - i,
        {
            assert(self.tasks@.take(i + 1).drop_last() =~= self.tasks@.take(i as int));
            if self.tasks[i].status == TaskStatus::Completed {
                done = done + 1;
            }
            i = i + 1;
        }
        assert(self.tasks@.take(self.tasks@.len() as int) =~= self.tasks@);
        (done, self.tasks.len())
    }
}

impl TaskPlan {
    /// The tasks in the order their ids were recorded: for each recorded id,
    /// the first task with that id (ids with no task are skipped).
    pub fn tasks_in_order(&self) -> (out: Vec<&TaskItem>)
        ensures
            out@.map_values(|t: &TaskItem| *t) == ordered_tasks(self.tasks@, self.task_order@),
    {
        let mut out: Vec<&TaskItem> = Vec::new();
        let mut i: usize = 0;
        while i < self.task_order.len()
            invariant
                i <= self.task_order@.len(),
                out@.map_values(|t: &TaskItem| *t) == ordered_tasks(
                    self.tasks@,
                    self.task_order@.take(i as int),
                ),
            decreases self.task_order@.len() - i,
        {
            assert(self.task_order@.take(i + 1).drop_last() =~= self.task_order@.take(i as int));
            let ghost before = out@.map_values(|t: &TaskItem| *t);
            match find_task(&self.tasks, self.task_order[i].as_str()) {
                Some(k) => {
                    out.push(&self.tasks[k]);
                    assert(out@.map_values(|t: &TaskItem| *t) =~= before.push(self.tasks@[k as int]));
                },
                None => {},
            }
            i = i + 1;
        }
        assert(self.task_order@.take(self.task_order@.len() as int) =~= self.task_order@);
        out
    }
}

/// For each id, the first task with it, skipping ids that no task has.
pub open spec fn ordered_tasks(ts: Seq<TaskItem>, ids: Seq<String>) -> Seq<TaskItem>
    decreases ids.len(),
{
    if ids.len() == 0 {
        Seq::empty()
    } else {
        let rest = ordered_tasks(ts, ids.drop_last());
        let k = task_index(ts, ids.last()@);
        if k < 0 {
            rest
        } else {
            rest.push(ts[k])
        }
    }
}

/// Every task that `get_next_ready_tasks` returns is a task of the plan that is
/// pending and whose dependencies are all met.
pub proof fn lemma_ready_tasks_are_ready(all: Seq<TaskItem>, ts: Seq<TaskItem>)
    ensures
        forall|i: int|
            0 <= i < ready_among(all, ts).len() ==> ts.contains(#[trigger] ready_among(all, ts)[i])
                && is_ready(all, ready_among(all, ts)[i]),
    decreases ts.len(),
{
    if ts.len() > 0 {
        lemma_ready_tasks_are_ready(all, ts.drop_last());
        let rest = ready_among(all, ts.drop_last());
        assert forall|i: int| 0 <= i < ready_among(all, ts).len() implies ts.contains(
            #[trigger] ready_among(all, ts)[i],
        ) && is_ready(all, ready_among(all, ts)[i]) by {
            if i < rest.len() {
                assert(ready_among(all, ts)[i] == rest[i]);
                let j = choose|j: int| 0 <= j < ts.drop_last().len() && ts.drop_last()[j] == rest[i];
                assert(ts[j] == rest[i]);
            } else {
                assert(ts[ts.len() - 1] == ts.last());
            }
        }
    }
}

/// A plan whose tasks have all finished (completed or failed) has no ready task.
pub proof fn lemma_finished_plan_has_no_ready_tasks(all: Seq<TaskItem>, ts: Seq<TaskItem>)
    requires
        all_finished(ts),
    ensures
        ready_among(all, ts).len() == 0,
    decreases ts.len(),
{
    if ts.len() > 0 {
        assert(all_finished(ts.drop_last())) by {
            assert forall|i: int| 0 <= i < ts.drop_last().len() implies (#[trigger] ts.drop_last()[i].status
                == TaskStatus::Completed || ts.drop_last()[i].status == TaskStatus::Failed) by {
                assert(ts.drop_last()[i] == ts[i]);
            }
        }
        lemma_finished_plan_has_no_ready_tasks(all, ts.drop_last());
        assert(ts[ts.len() - 1].status == TaskStatus::Completed || ts[ts.len() - 1].status
            == TaskStatus::Failed);
    }
}

/// Progress never exceeds the number of tasks, and reaches it exactly when every
/// task is completed.
pub proof fn lemma_progress_bounds(ts: Seq<TaskItem>)
    ensures
        count_status(ts, TaskStatus::Completed) <= ts.len(),
        count_status(ts, TaskStatus::Completed) == ts.len() <==> forall|i: int|
            0 <= i < ts.len() ==> #[trigger] ts[i].status == TaskStatus::Completed,
    decreases ts.len(),
{
    if ts.len() > 0 {
        lemma_progress_bounds(ts.drop_last());
        if forall|i: int| 0 <= i < ts.len() ==> #[trigger] ts[i].status == TaskStatus::Completed {
            assert forall|i: int| 0 <= i < ts.drop_last().len() implies #[trigger] ts.drop_last()[i].status
                == TaskStatus::Completed by {
                assert(ts.drop_last()[i] == ts[i]);
            }
            assert(ts[ts.len() - 1].status == TaskStatus::Completed);
        }
        if count_status(ts, TaskStatus::Completed) == ts.len() {
            assert forall|i: int| 0 <= i < ts.len() implies #[trigger] ts[i].status
                == TaskStatus::Completed by {
                if i < ts.len() - 1 {
                    assert(ts.drop_last()[i] == ts[i]);
                }
            }
        }
    }
}

/// A message between agents of the forest.
#[derive(Debug)]
pub struct ForestMessage {
    /// The sender.
    pub from: AgentId,
    /// The recipient; `None` for a broadcast to every other agent.
    pub to: Option<AgentId>,
    /// The text of the message.
    pub content: String,
    /// Metadata attached to the message.
    pub metadata: StringMap<String>,
    /// When the message was created.
    pub timestamp: Timestamp,
}

/// Whether `m` is a message from `from` to `to` with text `content` and the given metadata pairs.
pub open spec fn is_message(
    m: ForestMessage,
    from: Seq<char>,
    to: Option<Seq<char>>,
    content: Seq<char>,
    meta: Seq<(Seq<char>, String)>,
) -> bool {
    &&& m.from@ == from
    &&& match (m.to, to) {
        (Some(a), Some(b)) => a@ == b,
        (None, None) => true,
        _ => false,
    }
    &&& m.content@ == content
    &&& m.metadata.pairs() == meta
}

fn clone_opt(s: &Option<String>) -> (r: Option<String>)
    ensures
        r == *s,
{
    match s {
        Some(x) => Some(x.clone()),
        None => None,
    }
}

impl ForestMessage {
    /// A message created now, with no metadata.
    pub fn new(from: AgentId, to: Option<AgentId>, content: String) -> (m: Self)
        ensures
            m.from == from,
            m.to == to,
            m.content == content,
            m.metadata.pairs().len() == 0,
    {
        ForestMessage { from, to, content, metadata: StringMap::new(), timestamp: now() }
    }

    /// A message to every other agent.
    pub fn broadcast(from: AgentId, content: String) -> (m: Self)
        ensures
            m.from == from,
            m.to is None,
            m.content == content,
            m.metadata.pairs().len() == 0,
    {
        Self::new(from, None, content)
    }

    /// The same message with metadata `key` set to `value`.
    pub fn with_metadata(self, key: String, value: String) -> (m: Self)
        ensures
            m.from == self.from,
            m.to == self.to,
            m.content == self.content,
            m.metadata.map() == self.metadata.map().insert(key@, value),
    {
        let mut m = self;
        let _ = m.metadata.insert(key, value);
        m
    }

    /// An identical copy.
    pub fn duplicate(&self) -> (r: Self)
        ensures
            r.from == self.from,
            r.to == self.to,
            r.content == self.content,
            r.metadata.pairs() == self.metadata.pairs(),
            r.timestamp == self.timestamp,
    {
        ForestMessage {
            from: self.from.clone(),
            to: clone_opt(&self.to),
            content: self.content.clone(),
            metadata: self.metadata.duplicate(),
            timestamp: self.timestamp,
        }
    }
}

/// Data shared by every agent of a forest.
#[derive(Debug)]
pub struct SharedContext {
    /// Shared values by key.
    pub data: StringMap<JsonValue>,
    /// Every message sent between agents, oldest first.
    pub message_history: Vec<ForestMessage>,
    /// Global metadata.
    pub metadata: StringMap<String>,
    /// The plan being carried out, if any.
    pub current_plan: Option<TaskPlan>,
}

impl SharedContext {
    /// An empty context.
    pub fn new() -> (c: Self)
        ensures
            c.data.pairs().len() == 0,
            c.data.map() == Map::<Seq<char>, JsonValue>::empty(),
            c.message_history@.len() == 0,
            c.metadata.pairs().len() == 0,
            c.current_plan is None,
    {
        SharedContext {
            data: StringMap::new(),
            message_history: Vec::new(),
            metadata: StringMap::new(),
            current_plan: None,
        }
    }

    /// Sets shared value `key`.
    pub fn set(&mut self, key: String, value: JsonValue)
        ensures
            final(self).data.map() == old(self).data.map().insert(key@, value),
            final(self).message_history == old(self).message_history,
            final(self).metadata == old(self).metadata,
            final(self).current_plan == old(self).current_plan,
    {
        let _ = self.data.insert(key, value);
    }

    /// The shared value `key`, if set.
    pub fn get(&self, key: &str) -> (r: Option<&JsonValue>)
        ensures
            match r {
                Some(v) => self.data.map().contains_key(key@) && *v == self.data.map()[key@],
                None => !self.data.map().contains_key(key@),
            },
    {
        self.data.get(key)
    }

    /// Removes shared value `key`, returning it if it was set.
    pub fn remove(&mut self, key: &str) -> (r: Option<JsonValue>)
        ensures
            final(self).data.map() == old(self).data.map().remove(key@),
            r == (if old(self).data.map().contains_key(key@) {
                Some(old(self).data.map()[key@])
            } else {
                None
            }),
            final(self).message_history == old(self).message_history,
            final(self).metadata == old(self).metadata,
            final(self).current_plan == old(self).current_plan,
    {
        self.data.remove(key)
    }

    /// Appends a message to the history.
    pub fn add_message(&mut self, message: ForestMessage)
        ensures
            final(self).message_history@ == old(self).message_history@.push(message),
            final(self).data == old(self).data,
            final(self).metadata == old(self).metadata,
            final(self).current_plan == old(self).current_plan,
    {
        self.message_history.push(message);
    }

    /// The last `limit` messages of the history (all of them when there are fewer).
    pub fn get_recent_messages(&self, limit: usize) -> (r: &[ForestMessage])
        ensures
            r@ == self.message_history@.subrange(
                if limit >= self.message_history@.len() {
                    0
                } else {
                    self.message_history@.len() - limit
                },
                self.message_history@.len() as int,
            ),
    {
        let len = self.message_history.len();
        let start = if limit >= len { 0 } else { len - limit };
        vstd::slice::slice_subrange(self.message_history.as_slice(), start, len)
    }

    /// Makes `plan` the current plan.
    pub fn set_plan(&mut self, plan: TaskPlan)
        ensures
            final(self).current_plan == Some(plan),
            final(self).data == old(self).data,
            final(self).message_history == old(self).message_history,
            final(self).metadata == old(self).metadata,
    {
        self.current_plan = Some(plan);
    }

    /// The current plan, if any.
    pub fn get_plan(&self) -> (r: Option<&TaskPlan>)
        ensures
            match r {
                Some(p) => self.current_plan == Some(*p),
                None => self.current_plan is None,
            },
    {
        self.current_plan.as_ref()
    }

    /// The current plan, to change in place.
    pub fn get_plan_mut(&mut self) -> (r: Option<&mut TaskPlan>)
        ensures
            match r {
                Some(p) => old(self).current_plan == Some(*p) && final(self).current_plan == Some(
                    *final(p),
                ),
                None => old(self).current_plan is None && final(self).current_plan is None,
            },
            final(self).data == old(self).data,
            final(self).message_history == old(self).message_history,
            final(self).metadata == old(self).metadata,
    {
        self.current_plan.as_mut()
    }

    /// Drops the current plan.
    pub fn clear_plan(&mut self)
        ensures
            final(self).current_plan is None,
            final(self).data == old(self).data,
            final(self).message_history == old(self).message_history,
            final(self).metadata == old(self).metadata,
    {
        self.current_plan = None;
    }
}

/// The text of a delegation message for `task` with optional extra `context`.
pub open spec fn delegation_text(task: Seq<char>, context: Seq<char>) -> Seq<char> {
    if context.len() == 0 {
        "Task delegated: "@ + task
    } else {
        "Task delegated: "@ + task + "\nContext: "@ + context
    }
}

/// What the `send_message` tool does for agent `agent_id`: queue a message to the
/// agent named in `to` (or to everyone) with text `message`, and record it in the history.
pub fn send_message_tool(
    agent_id: &str,
    args: &JsonValue,
    queue: &mut Vec<ForestMessage>,
    ctx: &mut SharedContext,
) -> (r: Result<ToolResult, HeliosError>)
    ensures
        str_arg(*args, "message"@) is None ==> is_tool_error(r, "Missing 'message' parameter"@)
            && final(queue)@ == old(queue)@ && *final(ctx) == *old(ctx),
        str_arg(*args, "message"@) matches Some(msg) ==> {
            &&& r matches Ok(res) && is_success(res, "Message sent successfully"@)
            &&& final(queue)@.len() == old(queue)@.len() + 1
            &&& final(queue)@.drop_last() == old(queue)@
            &&& is_message(final(queue)@.last(), agent_id@, str_arg(*args, "to"@), msg, Seq::empty())
            &&& final(ctx).message_history@.len() == old(ctx).message_history@.len() + 1
            &&& final(ctx).message_history@.drop_last() == old(ctx).message_history@
            &&& is_message(final(ctx).message_history@.last(), agent_id@, str_arg(*args, "to"@), msg, Seq::empty())
            &&& final(ctx).data == old(ctx).data
            &&& final(ctx).current_plan == old(ctx).current_plan
        },
{
    let message = match args.str_member("message") {
        Some(m) => owned(m),
        None => {
            return Err(HeliosError::ToolError(owned("Missing 'message' parameter")));
        },
    };
    let to = match args.str_member("to") {
        Some(t) => Some(owned(t)),
        None => None,
    };
    let fm = ForestMessage::new(owned(agent_id), to, message);
    assert(fm.metadata.pairs() =~= Seq::empty());
    queue.push(fm.duplicate());
    ctx.add_message(fm);
    assert(queue@.drop_last() =~= old(queue)@);
    assert(ctx.message_history@.drop_last() =~= old(ctx).message_history@);
    Ok(ToolResult::success("Message sent successfully"))
}

/// What the `delegate_task` tool does for agent `agent_id`: queue a delegation
/// message to agent `to` describing `task` (and `context` when given), with
/// metadata `type = task_delegation` and `task`, and record it in the history.
pub fn delegate_task_tool(
    agent_id: &str,
    args: &JsonValue,
    queue: &mut Vec<ForestMessage>,
    ctx: &mut SharedContext,
) -> (r: Result<ToolResult, HeliosError>)
    ensures
        str_arg(*args, "to"@) is None ==> is_tool_error(r, "Missing 'to' parameter"@)
            && final(queue)@ == old(queue)@ && *final(ctx) == *old(ctx),
        str_arg(*args, "to"@) is Some && str_arg(*args, "task"@) is None ==> is_tool_error(
            r,
            "Missing 'task' parameter"@,
        ) && final(queue)@ == old(queue)@ && *final(ctx) == *old(ctx),
        match (str_arg(*args, "to"@), str_arg(*args, "task"@)) {
            (Some(to), Some(task)) => {
            let context = match str_arg(*args, "context"@) {
                Some(c) => c,
                None => Seq::<char>::empty(),
            };
            &&& r matches Ok(res) && is_success(res, "Task delegated to agent '"@ + to + "'"@)
            &&& final(queue)@.len() == old(queue)@.len() + 1
            &&& final(queue)@.drop_last() == old(queue)@
            &&& final(queue)@.last().from@ == agent_id@
            &&& final(queue)@.last().to matches Some(t) && t@ == to
            &&& final(queue)@.last().content@ == delegation_text(task, context)
            &&& final(queue)@.last().metadata.map().dom() == set!["type"@, "task"@]
            &&& final(queue)@.last().metadata.map()["type"@]@ == "task_delegation"@
            &&& final(queue)@.last().metadata.map()["task"@]@ == task
            &&& final(ctx).message_history@.len() == old(ctx).message_history@.len() + 1
            &&& final(ctx).message_history@.drop_last() == old(ctx).message_history@
            &&& final(ctx).message_history@.last().content@ == delegation_text(task, context)
            &&& final(ctx).data == old(ctx).data
            &&& final(ctx).current_plan == old(ctx).current_plan
            },
            _ => true,
        },
{
    let to = match args.str_member("to") {
        Some(t) => t,
        None => {
            return Err(HeliosError::ToolError(owned("Missing 'to' parameter")));
        },
    };
    let task = match args.str_member("task") {
        Some(t) => t,
        None => {
            return Err(HeliosError::ToolError(owned("Missing 'task' parameter")));
        },
    };
    let context = match args.str_member("context") {
        Some(c) => c,
        None => "",
    };
    proof {
        reveal_strlit("");
        assert(""@ =~= Seq::<char>::empty());
    }
    let mut message = String::new();
    push_str(&mut message, "Task delegated: ");
    push_str(&mut message, task);
    if !context.is_empty() {
        push_str(&mut message, "\nContext: ");
        push_str(&mut message, context);
    }
    assert(message@ =~= delegation_text(task@, context@));
    let fm = ForestMessage::new(owned(agent_id), Some(owned(to)), message)
        .with_metadata(owned("type"), owned("task_delegation"))
        .with_metadata(owned("task"), owned(task));
    assert(fm.metadata.map().dom() =~= set!["type"@, "task"@]);
    proof {
        reveal_strlit("type");
        reveal_strlit("task");
        assert("type"@[1] != "task"@[1]);
        assert("type"@ != "task"@);
    }
    queue.push(fm.duplicate());
    ctx.add_message(fm);
    assert(queue@.drop_last() =~= old(queue)@);
    assert(ctx.message_history@.drop_last() =~= old(ctx).message_history@);
    let mut out = String::new();
    push_str(&mut out, "Task delegated to agent '");
    push_str(&mut out, to);
    push_str(&mut out, "'");
    assert(out@ =~= "Task delegated to agent '"@ + to@ + "'"@);
    Ok(ToolResult::success(out.as_str()))
}

/// Whether the shared data changed only at `key`, where it now holds `v`.
pub open spec fn data_set_at(
    new: Map<Seq<char>, JsonValue>,
    old: Map<Seq<char>, JsonValue>,
    key: Seq<char>,
) -> bool {
    &&& new.dom() == old.dom().insert(key)
    &&& forall|k: Seq<char>| k != key && old.contains_key(k) ==> new[k] == old[k]
}

/// Whether `x` is the record that `share_context` stores: `{"metadata":
/// {"description", "shared_by", "timestamp"}, "value"}`, with the given texts.
pub open spec fn is_share_record(x: JsonValue, value: Seq<char>, agent: Seq<char>, desc: Seq<char>) -> bool {
    match x {
        JsonValue::Object(ms) => {
            &&& ms@.len() == 2
            &&& ms@[0].0@ == "metadata"@
            &&& ms@[1].0@ == "value"@
            &&& json_str(ms@[1].1) == Some(value)
            &&& match ms@[0].1 {
                JsonValue::Object(mm) => {
                    &&& mm@.len() == 3
                    &&& mm@[0].0@ == "description"@
                    &&& json_str(mm@[0].1) == Some(desc)
                    &&& mm@[1].0@ == "shared_by"@
                    &&& json_str(mm@[1].1) == Some(agent)
                    &&& mm@[2].0@ == "timestamp"@
                    &&& (mm@[2].1 matches JsonValue::String(t) && is_utc_time_text(t@))
                },
                _ => false,
            }
        },
        _ => false,
    }
}

/// Whether `x` is the record that `update_task_memory` stores: `{"agent", "data",
/// "task", "timestamp"}`, with the given texts.
pub open spec fn is_task_data_record(x: JsonValue, agent: Seq<char>, data: Seq<char>, task: Seq<char>) -> bool {
    match x {
        JsonValue::Object(ms) => {
            &&& ms@.len() == 4
            &&& ms@[0].0@ == "agent"@
            &&& json_str(ms@[0].1) == Some(agent)
            &&& ms@[1].0@ == "data"@
            &&& json_str(ms@[1].1) == Some(data)
            &&& ms@[2].0@ == "task"@
            &&& json_str(ms@[2].1) == Some(task)
            &&& ms@[3].0@ == "timestamp"@
            &&& (ms@[3].1 matches JsonValue::String(t) && is_utc_time_text(t@))
        },
        _ => false,
    }
}

fn text_value(s: &str) -> (v: JsonValue)
    ensures
        json_str(v) == Some(s@),
{
    JsonValue::String(owned(s))
}

/// What the `share_context` tool does for agent `agent_id`: store `value` under
/// `key` in the shared data, with who shared it, when (the current time as RFC 3339
/// text), and the optional description.
pub fn share_context_tool(agent_id: &str, args: &JsonValue, ctx: &mut SharedContext) -> (r: Result<
    ToolResult,
    HeliosError,
>)
    ensures
        match (str_arg(*args, "key"@), str_arg(*args, "value"@)) {
            (None, _) => is_tool_error(r, "Missing 'key' parameter"@) && *final(ctx) == *old(ctx),
            (Some(_), None) => is_tool_error(r, "Missing 'value' parameter"@) && *final(ctx) == *old(ctx),
            (Some(key), Some(value)) => {
                let desc = match str_arg(*args, "description"@) {
                    Some(d) => d,
                    None => Seq::<char>::empty(),
                };
                &&& r matches Ok(res) && is_success(res, "Information shared with key '"@ + key + "'"@)
                &&& data_set_at(final(ctx).data.map(), old(ctx).data.map(), key)
                &&& is_share_record(final(ctx).data.map()[key], value, agent_id@, desc)
                &&& final(ctx).message_history == old(ctx).message_history
                &&& final(ctx).current_plan == old(ctx).current_plan
            },
        },
{
    let key = match args.str_member("key") {
        Some(k) => k,
        None => {
            return Err(HeliosError::ToolError(owned("Missing 'key' parameter")));
        },
    };
    let value = match args.str_member("value") {
        Some(v) => v,
        None => {
            return Err(HeliosError::ToolError(owned("Missing 'value' parameter")));
        },
    };
    let description = match args.str_member("description") {
        Some(d) => d,
        None => "",
    };
    proof {
        reveal_strlit("");
        assert(""@ =~= Seq::<char>::empty());
    }
    let mut meta: Vec<(String, JsonValue)> = Vec::new();
    meta.push((owned("description"), text_value(description)));
    meta.push((owned("shared_by"), text_value(agent_id)));
    meta.push((owned("timestamp"), JsonValue::String(now_rfc3339())));
    let mut rec: Vec<(String, JsonValue)> = Vec::new();
    rec.push((owned("metadata"), JsonValue::Object(meta)));
    rec.push((owned("value"), text_value(value)));
    let record = JsonValue::Object(rec);
    assert(is_share_record(record, value@, agent_id@, description@));
    ctx.set(owned(key), record);
    let mut out = String::new();
    push_str(&mut out, "Information shared with key '");
    push_str(&mut out, key);
    push_str(&mut out, "'");
    assert(out@ =~= "Information shared with key '"@ + key@ + "'"@);
    Ok(ToolResult::success(out.as_str()))
}

/// What the `update_task_memory` tool does for agent `agent_id`: mark task
/// `task_id` of the current plan completed with `result`, and when extra `data`
/// is given store it under `task_data_<task_id>`.
pub fn update_task_memory_tool(agent_id: &str, args: &JsonValue, ctx: &mut SharedContext) -> (r:
    Result<ToolResult, HeliosError>)
    ensures
        match (str_arg(*args, "task_id"@), str_arg(*args, "result"@)) {
            (None, _) => is_tool_error(r, "Missing 'task_id' parameter"@) && *final(ctx) == *old(ctx),
            (Some(_), None) => is_tool_error(r, "Missing 'result' parameter"@) && *final(ctx)
                == *old(ctx),
            (Some(id), Some(result)) => {
                let data = match str_arg(*args, "data"@) {
                    Some(d) => d,
                    None => Seq::<char>::empty(),
                };
                match old(ctx).current_plan {
                    None => is_tool_error(r, "No active task plan found"@) && *final(ctx) == *old(ctx),
                    Some(plan) => {
                        let k = task_index(plan.tasks@, id);
                        if k < 0 {
                            is_tool_error(r, "Task '"@ + id + "' not found in current plan"@)
                                && *final(ctx) == *old(ctx)
                        } else {
                            &&& r matches Ok(res) && is_success(
                                res,
                                "Task '"@ + id + "' marked as completed. Results saved to shared memory."@,
                            )
                            &&& final(ctx).current_plan matches Some(np) && {
                                &&& np.plan_id == plan.plan_id
                                &&& np.objective == plan.objective
                                &&& np.task_order == plan.task_order
                                &&& np.tasks@.len() == plan.tasks@.len()
                                &&& forall|j: int| 0 <= j < plan.tasks@.len() && j != k ==> np.tasks@[j] == plan.tasks@[j]
                                &&& np.tasks@[k].status == TaskStatus::Completed
                                &&& np.tasks@[k].result matches Some(t) && t@ == result
                                &&& np.tasks@[k].id == plan.tasks@[k].id
                                &&& np.tasks@[k].description == plan.tasks@[k].description
                                &&& np.tasks@[k].assigned_to == plan.tasks@[k].assigned_to
                                &&& np.tasks@[k].dependencies == plan.tasks@[k].dependencies
                            }
                            &&& data.len() == 0 ==> final(ctx).data == old(ctx).data
                            &&& data.len() > 0 ==> {
                                let dk = "task_data_"@ + id;
                                &&& data_set_at(final(ctx).data.map(), old(ctx).data.map(), dk)
                                &&& is_task_data_record(final(ctx).data.map()[dk], agent_id@, data, plan.tasks@[k].description@)
                            }
                            &&& final(ctx).message_history == old(ctx).message_history
                        }
                    },
                }
            },
        },
{
    let task_id = match args.str_member("task_id") {
        Some(k) => k,
        None => {
            return Err(HeliosError::ToolError(owned("Missing 'task_id' parameter")));
        },
    };
    let result = match args.str_member("result") {
        Some(v) => v,
        None => {
            return Err(HeliosError::ToolError(owned("Missing 'result' parameter")));
        },
    };
    let data = match args.str_member("data") {
        Some(d) => d,
        None => "",
    };
    proof {
        reveal_strlit("");
        assert(""@ =~= Seq::<char>::empty());
    }
    let mut cur: Option<TaskPlan> = None;
    std::mem::swap(&mut cur, &mut ctx.current_plan);
    let description = match cur {
        None => {
            return Err(HeliosError::ToolError(owned("No active task plan found")));
        },
        Some(mut plan) => {
            match find_task(&plan.tasks, task_id) {
                None => {
                    ctx.current_plan = Some(plan);
                    let mut m = String::new();
                    push_str(&mut m, "Task '");
                    push_str(&mut m, task_id);
                    push_str(&mut m, "' not found in current plan");
                    assert(m@ =~= "Task '"@ + task_id@ + "' not found in current plan"@);
                    return Err(HeliosError::ToolError(m));
                },
                Some(i) => {
                    let mut task = plan.tasks.remove(i);
                    task.status = TaskStatus::Completed;
                    task.result = Some(owned(result));
                    let d = task.description.clone();
                    plan.tasks.insert(i, task);
                    ctx.current_plan = Some(plan);
                    d
                },
            }
        },
    };
    if !data.is_empty() {
        let mut dk = String::new();
        push_str(&mut dk, "task_data_");
        push_str(&mut dk, task_id);
        let mut rec: Vec<(String, JsonValue)> = Vec::new();
        rec.push((owned("agent"), text_value(agent_id)));
        rec.push((owned("data"), text_value(data)));
        rec.push((owned("task"), JsonValue::String(description)));
        rec.push((owned("timestamp"), JsonValue::String(now_rfc3339())));
        ctx.set(dk, JsonValue::Object(rec));
    }
    let mut out = String::new();
    push_str(&mut out, "Task '");
    push_str(&mut out, task_id);
    push_str(&mut out, "' marked as completed. Results saved to shared memory.");
    assert(out@ =~= "Task '"@ + task_id@ + "' marked as completed. Results saved to shared memory."@);
    Ok(ToolResult::success(out.as_str()))
}

/// Why a task given to `create_plan` cannot be read, if it cannot: it must be an
/// object with string members `id`, `description` and `assigned_to`.
pub open spec fn task_error(v: JsonValue) -> Option<Seq<char>> {
    if !(v is Object) {
        Some("Each task must be a JSON object"@)
    } else if str_arg(v, "id"@) is None {
        Some("Task missing 'id' field"@)
    } else if str_arg(v, "description"@) is None {
        Some("Task missing 'description' field"@)
    } else if str_arg(v, "assigned_to"@) is None {
        Some("Task missing 'assigned_to' field"@)
    } else {
        None
    }
}

/// The error of the first task that cannot be read.
pub open spec fn first_task_error(vs: Seq<JsonValue>) -> Option<Seq<char>>
    decreases vs.len(),
{
    if vs.len() == 0 {
        None
    } else {
        match task_error(vs[0]) {
            Some(e) => Some(e),
            None => first_task_error(vs.drop_first()),
        }
    }
}

/// The texts of the string elements of `vs`, in order; other elements are skipped.
pub open spec fn string_items(vs: Seq<JsonValue>) -> Seq<Seq<char>>
    decreases vs.len(),
{
    if vs.len() == 0 {
        Seq::empty()
    } else {
        let rest = string_items(vs.drop_last());
        match json_str(vs.last()) {
            Some(s) => rest.push(s),
            None => rest,
        }
    }
}

/// The dependencies a task object names: the strings of its `dependencies` array,
/// or none when that member is missing or not an array.
pub open spec fn task_deps(v: JsonValue) -> Seq<Seq<char>> {
    match json_get(v, "dependencies"@) {
        Some(JsonValue::Array(a)) => string_items(a@),
        _ => Seq::empty(),
    }
}

/// Whether `t` is the pending task that the task object `v` describes.
pub open spec fn task_from_json(t: TaskItem, v: JsonValue) -> bool {
    &&& str_arg(v, "id"@) == Some(t.id@)
    &&& str_arg(v, "description"@) == Some(t.description@)
    &&& str_arg(v, "assigned_to"@) == Some(t.assigned_to@)
    &&& t.status == TaskStatus::Pending
    &&& t.result is None
    &&& t.dependencies@.map_values(|d: String| d@) == task_deps(v)
    &&& t.metadata.pairs().len() == 0
}

/// The line that `create_plan` reports for a task.
pub open spec fn plan_line(t: TaskItem) -> Seq<char> {
    "  \u{2022} ["@ + t.id@ + "] "@ + t.description@ + " (assigned to: "@ + t.assigned_to@ + ")"@
}

/// What `create_plan` reports for a plan with tasks `ts`.
pub open spec fn plan_created_text(ts: Seq<TaskItem>) -> Seq<char> {
    "Plan created with "@ + decimal(ts.len()) + " tasks:\n"@ + join(
        ts.map_values(|t: TaskItem| plan_line(t)),
        "\n"@,
    )
}

fn string_items_exec(vs: &Vec<JsonValue>) -> (out: Vec<String>)
    ensures
        out@.map_values(|d: String| d@) == string_items(vs@),
{
    let mut out: Vec<String> = Vec::new();
    let mut i: usize = 0;
    while i < vs.len()
        invariant
            i <= vs@.len(),
            out@.map_values(|d: String| d@) == string_items(vs@.take(i as int)),
        decreases vs@.len() - i,
    {
        assert(vs@.take(i + 1).drop_last() =~= vs@.take(i as int));
        let ghost before = out@.map_values(|d: String| d@);
        match vs[i].as_str() {
            Some(s) => {
                out.push(owned(s));
                assert(out@.map_values(|d: String| d@) =~= before.push(s@));
            },
            None => {},
        }
        i = i + 1;
    }
    assert(vs@.take(vs@.len() as int) =~= vs@);
    out
}

fn task_from_value(v: &JsonValue) -> (r: Result<TaskItem, HeliosError>)
    ensures
        match task_error(*v) {
            Some(e) => is_tool_error(r, e),
            None => r matches Ok(t) && task_from_json(t, *v),
        },
{
    let is_object = match v {
        JsonValue::Object(_) => true,
        _ => false,
    };
    if !is_object {
        return Err(HeliosError::ToolError(owned("Each task must be a JSON object")));
    }
    let id = match v.str_member("id") {
        Some(s) => owned(s),
        None => {
            return Err(HeliosError::ToolError(owned("Task missing 'id' field")));
        },
    };
    let description = match v.str_member("description") {
        Some(s) => owned(s),
        None => {
            return Err(HeliosError::ToolError(owned("Task missing 'description' field")));
        },
    };
    let assigned_to = match v.str_member("assigned_to") {
        Some(s) => owned(s),
        None => {
            return Err(HeliosError::ToolError(owned("Task missing 'assigned_to' field")));
        },
    };
    let deps = match v.get("dependencies") {
        Some(JsonValue::Array(a)) => string_items_exec(a),
        _ => Vec::new(),
    };
    proof {
        if !(json_get(*v, "dependencies"@) matches Some(JsonValue::Array(_))) {
            assert(deps@.map_values(|d: String| d@) =~= Seq::<Seq<char>>::empty());
        }
    }
    Ok(TaskItem::new(id, description, assigned_to).with_dependencies(deps))
}

fn plan_line_exec(t: &TaskItem) -> (out: String)
    ensures
        out@ == plan_line(*t),
{
    let mut out = String::new();
    push_str(&mut out, "  \u{2022} [");
    push_str(&mut out, t.id.as_str());
    push_str(&mut out, "] ");
    push_str(&mut out, t.description.as_str());
    push_str(&mut out, " (assigned to: ");
    push_str(&mut out, t.assigned_to.as_str());
    push_str(&mut out, ")");
    assert(out@ =~= plan_line(*t));
    out
}

/// Whether `p` is the plan that `create_plan` builds from the task objects `vs`
/// for `objective`.
pub open spec fn plan_from_json(p: TaskPlan, objective: Seq<char>, vs: Seq<JsonValue>) -> bool {
    &&& p.objective@ == objective
    &&& p.tasks@.len() == vs.len()
    &&& forall|i: int| 0 <= i < vs.len() ==> task_from_json(#[trigger] p.tasks@[i], vs[i])
    &&& p.task_order@.map_values(|s: String| s@) == p.tasks@.map_values(|t: TaskItem| t.id@)
}

/// What the `create_plan` tool does, with the plan stamped `secs` seconds after the
/// epoch and `tasks` the outcome of parsing the `tasks` argument as a JSON array
/// (the parser's message on failure). On success the plan replaces the current one.
pub fn create_plan_at(args: &JsonValue, tasks: Result<Vec<JsonValue>, String>, secs: i64, ctx: &mut SharedContext)
    -> (r: Result<ToolResult, HeliosError>)
    ensures
        str_arg(*args, "objective"@) is None ==> is_tool_error(r, "Missing 'objective' parameter"@)
            && *final(ctx) == *old(ctx),
        str_arg(*args, "objective"@) is Some && str_arg(*args, "tasks"@) is None ==> is_tool_error(
            r,
            "Missing 'tasks' parameter"@,
        ) && *final(ctx) == *old(ctx),
        match (str_arg(*args, "objective"@), str_arg(*args, "tasks"@), tasks) {
            (Some(_), Some(_), Err(e)) => is_tool_error(r, "Invalid JSON for tasks: "@ + e@) && *final(ctx) == *old(ctx),
            (Some(objective), Some(_), Ok(vs)) => match first_task_error(vs@) {
                Some(e) => is_tool_error(r, e) && *final(ctx) == *old(ctx),
                None => {
                    &&& final(ctx).current_plan matches Some(p) && {
                        &&& p.plan_id@ == "plan_"@ + signed_decimal(secs as int)
                        &&& plan_from_json(p, objective, vs@)
                        &&& r matches Ok(res) && is_success(res, plan_created_text(p.tasks@))
                    }
                    &&& final(ctx).data == old(ctx).data
                    &&& final(ctx).message_history == old(ctx).message_history
                    &&& final(ctx).metadata == old(ctx).metadata
                },
            },
            _ => true,
        },
{
    let objective = match args.str_member("objective") {
        Some(o) => o,
        None => {
            return Err(HeliosError::ToolError(owned("Missing 'objective' parameter")));
        },
    };
    if args.str_member("tasks").is_none() {
        return Err(HeliosError::ToolError(owned("Missing 'tasks' parameter")));
    }
    let vs = match tasks {
        Ok(vs) => vs,
        Err(e) => {
            let mut m = String::new();
            push_str(&mut m, "Invalid JSON for tasks: ");
            push_str(&mut m, e.as_str());
            return Err(HeliosError::ToolError(m));
        },
    };
    let mut id = String::new();
    push_str(&mut id, "plan_");
    push_str(&mut id, i64_to_string(secs).as_str());
    let mut plan = TaskPlan::new(id, owned(objective));
    let mut lines: Vec<String> = Vec::new();
    let mut i: usize = 0;
    assert(vs@.skip(0) =~= vs@);
    while i < vs.len()
        invariant
            i <= vs@.len(),
            first_task_error(vs@) == first_task_error(vs@.skip(i as int)),
            plan.task_order@.len() == i,
            lines@.len() == i,
            plan.plan_id@ == "plan_"@ + signed_decimal(secs as int),
            plan.objective@ == objective@,
            plan.tasks@.len() == i,
            forall|j: int| 0 <= j < i ==> task_from_json(#[trigger] plan.tasks@[j], vs@[j]),
            plan.task_order@.map_values(|s: String| s@) == plan.tasks@.map_values(|t: TaskItem| t.id@),
            lines@.map_values(|l: String| l@) == plan.tasks@.map_values(|t: TaskItem| plan_line(t)),
            *ctx == *old(ctx),
        decreases vs@.len() - i,
    {
        assert(vs@.skip(i as int).drop_first() =~= vs@.skip(i + 1));
        assert(vs@.skip(i as int)[0] == vs@[i as int]);
        let t = match task_from_value(&vs[i]) {
            Ok(t) => t,
            Err(e) => {
                return Err(e);
            },
        };
        let ghost old_lines = lines@;
        lines.push(plan_line_exec(&t));
        let ghost old_tasks = plan.tasks@;
        let ghost old_order = plan.task_order@;
        let ghost tg = t;
        plan.add_task(t);
        proof {
            assert forall|j: int| 0 <= j < plan.tasks@.len() implies #[trigger] lines@[j]@
                == plan_line(plan.tasks@[j]) by {
                if j < old_tasks.len() {
                    assert(lines@[j] == old_lines[j]);
                    assert(old_lines.map_values(|l: String| l@)[j] == old_tasks.map_values(|t: TaskItem| plan_line(t))[j]);
                }
            }
            assert forall|j: int| 0 <= j < plan.tasks@.len() implies #[trigger] plan.task_order@[j]@
                == plan.tasks@[j].id@ by {
                if j < old_tasks.len() {
                    assert(plan.task_order@[j] == old_order[j]);
                    assert(old_order.map_values(|s: String| s@)[j] == old_tasks.map_values(|t: TaskItem| t.id@)[j]);
                }
            }
            assert(plan.task_order@.map_values(|s: String| s@) =~= plan.tasks@.map_values(|t: TaskItem| t.id@));
            assert(lines@.map_values(|l: String| l@) =~= plan.tasks@.map_values(|t: TaskItem| plan_line(t)));
        }
        i = i + 1;
    }
    assert(vs@.skip(vs@.len() as int) =~= Seq::<JsonValue>::empty());
    let mut out = String::new();
    push_str(&mut out, "Plan created with ");
    push_str(&mut out, usize_to_string(plan.tasks.len()).as_str());
    push_str(&mut out, " tasks:\n");
    push_str(&mut out, join_strings(&lines, "\n").as_str());
    assert(out@ =~= plan_created_text(plan.tasks@));
    ctx.set_plan(plan);
    Ok(ToolResult::success(out.as_str()))
}

/// What the `create_plan` tool does now: `create_plan_at` stamped with the
/// current time, whatever the clock reads.
pub fn create_plan_tool(args: &JsonValue, tasks: Result<Vec<JsonValue>, String>, ctx: &mut SharedContext)
    -> (r: Result<ToolResult, HeliosError>)
    ensures
        str_arg(*args, "objective"@) is None ==> is_tool_error(r, "Missing 'objective' parameter"@)
            && *final(ctx) == *old(ctx),
        str_arg(*args, "objective"@) is Some && str_arg(*args, "tasks"@) is None ==> is_tool_error(
            r,
            "Missing 'tasks' parameter"@,
        ) && *final(ctx) == *old(ctx),
        match (str_arg(*args, "objective"@), str_arg(*args, "tasks"@), tasks) {
            (Some(_), Some(_), Err(e)) => is_tool_error(r, "Invalid JSON for tasks: "@ + e@) && *final(ctx) == *old(ctx),
            (Some(objective), Some(_), Ok(vs)) => match first_task_error(vs@) {
                Some(e) => is_tool_error(r, e) && *final(ctx) == *old(ctx),
                None => {
                    &&& final(ctx).current_plan matches Some(p) && {
                        &&& exists|secs: i64| p.plan_id@ == "plan_"@ + signed_decimal(secs as int)
                        &&& plan_from_json(p, objective, vs@)
                        &&& r matches Ok(res) && is_success(res, plan_created_text(p.tasks@))
                    }
                    &&& final(ctx).data == old(ctx).data
                    &&& final(ctx).message_history == old(ctx).message_history
                    &&& final(ctx).metadata == old(ctx).metadata
                },
            },
            _ => true,
        },
{
    let t = now();
    create_plan_at(args, tasks, t.secs, ctx)
}


/// Whether task `t` may start in plan `ts`, as the plan's users read it: it is
/// pending, and each of its dependencies that names a task of the plan names
/// one (the first with that id) whose status is completed.
pub open spec fn waits_for_nothing(ts: Seq<TaskItem>, t: TaskItem) -> bool {
    &&& t.status == TaskStatus::Pending
    &&& forall|j: int, k: int|
        0 <= j < t.dependencies@.len() && 0 <= k < ts.len() && (#[trigger] ts[k]).id@
            == (#[trigger] t.dependencies@[j])@ && (forall|m: int| 0 <= m < k ==> (#[trigger] ts[m]).id@ != ts[k].id@)
            ==> ts[k].status == TaskStatus::Completed
}

/// `is_ready` holds of exactly the tasks that wait for nothing.
proof fn lemma_is_ready_iff(ts: Seq<TaskItem>, t: TaskItem)
    ensures
        is_ready(ts, t) <==> waits_for_nothing(ts, t),
{
    if is_ready(ts, t) {
        assert forall|j: int, k: int|
            0 <= j < t.dependencies@.len() && 0 <= k < ts.len() && (#[trigger] ts[k]).id@
                == (#[trigger] t.dependencies@[j])@ && (forall|m: int| 0 <= m < k ==> (#[trigger] ts[m]).id@ != ts[k].id@)
            implies ts[k].status == TaskStatus::Completed by {
            let d = t.dependencies@[j]@;
            assert(dependency_met(ts, d));
            lemma_task_index(ts, d);
            let k0 = task_index(ts, d);
            if k0 < 0 {
                assert(ts[k].id@ != d);
            } else if k0 < k {
                assert(ts[k0].id@ != ts[k].id@);
            } else if k0 > k {
                assert(ts[k].id@ != d);
            }
        }
    }
    if waits_for_nothing(ts, t) {
        assert forall|j: int| 0 <= j < t.dependencies@.len() implies dependency_met(ts, #[trigger] t.dependencies@[j]@) by {
            let d = t.dependencies@[j]@;
            lemma_task_index(ts, d);
            let k0 = task_index(ts, d);
            if k0 >= 0 {
                assert(forall|m: int| 0 <= m < k0 ==> (#[trigger] ts[m]).id@ != ts[k0].id@);
                assert(ts[k0].id@ == t.dependencies@[j]@);
            }
        }
    }
}

/// `ready_among` keeps, in order, the tasks that wait for nothing.
proof fn lemma_ready_among_filter(all: Seq<TaskItem>, ts: Seq<TaskItem>)
    ensures
        ready_among(all, ts) == ts.filter(|t: TaskItem| waits_for_nothing(all, t)),
    decreases ts.len(),
{
    reveal(Seq::filter);
    if ts.len() > 0 {
        lemma_ready_among_filter(all, ts.drop_last());
        lemma_is_ready_iff(all, ts.last());
    }
}

/// The ready tasks of a plan: `get_next_ready_tasks` gives, in plan order,
/// exactly the pending tasks each of whose dependencies that names a task of
/// the plan names a completed one. A task that depends on one still pending,
/// in progress or failed waits.
pub proof fn lemma_ready_tasks_wait_for_dependencies(ts: Seq<TaskItem>)
    ensures
        ready_among(ts, ts) == ts.filter(|t: TaskItem| waits_for_nothing(ts, t)),
        forall|i: int|
            0 <= i < ready_among(ts, ts).len() ==> waits_for_nothing(ts, #[trigger] ready_among(ts, ts)[i]),
        forall|i: int| 0 <= i < ts.len() && waits_for_nothing(ts, #[trigger] ts[i]) ==> ready_among(ts, ts).contains(ts[i]),
{
    lemma_ready_among_filter(ts, ts);
    let p = |t: TaskItem| waits_for_nothing(ts, t);
    broadcast use vstd::seq_lib::group_filter_ensures;
    assert forall|i: int| 0 <= i < ts.len() && waits_for_nothing(ts, #[trigger] ts[i]) implies ready_among(ts, ts).contains(ts[i]) by {
        assert(p(ts[i]));
    }
    assert forall|i: int| 0 <= i < ready_among(ts, ts).len() implies waits_for_nothing(ts, #[trigger] ready_among(ts, ts)[i]) by {
        assert(p(ts.filter(p)[i]));
    }
}

} // verus!
