//! Automatic orchestration of a forest of agents: the prompt that asks a model
//! for a plan, the reading of the plan it answers, the task each spawned agent
//! gets, and the summary of their results.

use vstd::prelude::*;
use crate::error::{HeliosError, error_display};
use crate::json::{JsonValue, JsonNumber, json_get, json_str, str_arg, u64_arg};
use crate::strmap::StringMap;
use crate::text::{owned, push_str, decimal, join, join_strings, usize_to_string};

verus! {

/// How the orchestrator configured one spawned agent.
#[derive(Debug, Clone)]
pub struct AgentConfig {
    /// The agent's name.
    pub name: String,
    /// Its specialised system prompt.
    pub system_prompt: String,
    /// The positions of the tools it may use.
    pub tool_indices: Vec<usize>,
    /// Its role.
    pub role: String,
}

/// The plan the orchestrator made for a task.
#[derive(Debug)]
pub struct OrchestrationPlan {
    /// The task.
    pub task: String,
    /// How many agents the orchestrator asked for.
    pub num_agents: usize,
    /// Why.
    pub reasoning: String,
    /// The agents to spawn.
    pub agents: Vec<AgentConfig>,
    /// The sub-task of each agent, by agent name.
    pub task_breakdown: StringMap<String>,
}

/// Whether `r` is `Err(AgentError(m))` with text `m`.
pub open spec fn is_agent_error<T>(r: Result<T, HeliosError>, m: Seq<char>) -> bool {
    r matches Err(HeliosError::AgentError(e)) && e@ == m
}

/// The line that describes tool `i` to the orchestrator.
pub open spec fn tool_info_line(i: int, t: (String, String)) -> Seq<char> {
    "- Tool "@ + decimal(i as nat) + ": "@ + t.0@ + " ("@ + t.1@ + ")"@
}

/// The orchestrator's system prompt before the tool list.
pub open spec fn orchestrator_head() -> Seq<char> {
    "You are an expert task orchestrator. Your job is to analyze a task and create an optimal plan for a forest of AI agents to complete it.\n\nAvailable tools:\n"@
}

/// The orchestrator's system prompt after the tool list.
pub open spec fn orchestrator_tail() -> Seq<char> {
    "\n\nGiven the task, you must:\n1. Determine the optimal number of agents (1-5)\n2. Define each agent's role and specialization\n3. Create specialized system prompts for each agent\n4. Assign tools to each agent based on their role\n5. Break down the task into subtasks for each agent\n\nRespond with ONLY a JSON object with this structure (no markdown, no extra text):\n{\n  \"num_agents\": <number>,\n  \"reasoning\": \"<brief explanation>\",\n  \"agents\": [\n    {\n      \"name\": \"<agent_name>\",\n      \"role\": \"<role>\",\n      \"system_prompt\": \"<specialized_prompt>\",\n      \"tool_indices\": [<indices>]\n    }\n  ],\n  \"task_breakdown\": {\n    \"<agent_name>\": \"<specific_task_for_this_agent>\"\n  }\n}"@
}

/// The orchestrator's system prompt for tools given as (name, description):
/// the instructions with one line per tool, numbered from 0.
pub fn orchestrator_prompt(tools: &Vec<(String, String)>) -> (out: String)
    ensures
        out@ == orchestrator_head() + join(
            Seq::new(tools@.len(), |i: int| tool_info_line(i, tools@[i])),
            "\n"@,
        ) + orchestrator_tail(),
{
    let mut lines: Vec<String> = Vec::new();
    let mut i: usize = 0;
    while i < tools.len()
        invariant
            i <= tools@.len(),
            lines@.map_values(|l: String| l@) == Seq::new(i as nat, |j: int| tool_info_line(j, tools@[j])),
        decreases tools@.len() - i,
    {
        let mut l = owned("- Tool ");
        push_str(&mut l, usize_to_string(i).as_str());
        push_str(&mut l, ": ");
        push_str(&mut l, tools[i].0.as_str());
        push_str(&mut l, " (");
        push_str(&mut l, tools[i].1.as_str());
        push_str(&mut l, ")");
        assert(l@ == tool_info_line(i as int, tools@[i as int]));
        let ghost before = lines@.map_values(|l: String| l@);
        lines.push(l);
        assert(lines@.map_values(|l: String| l@) =~= before.push(tool_info_line(i as int, tools@[i as int])));
        assert(Seq::new((i + 1) as nat, |j: int| tool_info_line(j, tools@[j])) =~= Seq::new(
            i as nat,
            |j: int| tool_info_line(j, tools@[j]),
        ).push(tool_info_line(i as int, tools@[i as int])));
        i = i + 1;
    }
    let info = join_strings(&lines, "\n");
    let mut out = owned("You are an expert task orchestrator. Your job is to analyze a task and create an optimal plan for a forest of AI agents to complete it.\n\nAvailable tools:\n");
    push_str(&mut out, info.as_str());
    push_str(&mut out, "\n\nGiven the task, you must:\n1. Determine the optimal number of agents (1-5)\n2. Define each agent's role and specialization\n3. Create specialized system prompts for each agent\n4. Assign tools to each agent based on their role\n5. Break down the task into subtasks for each agent\n\nRespond with ONLY a JSON object with this structure (no markdown, no extra text):\n{\n  \"num_agents\": <number>,\n  \"reasoning\": \"<brief explanation>\",\n  \"agents\": [\n    {\n      \"name\": \"<agent_name>\",\n      \"role\": \"<role>\",\n      \"system_prompt\": \"<specialized_prompt>\",\n      \"tool_indices\": [<indices>]\n    }\n  ],\n  \"task_breakdown\": {\n    \"<agent_name>\": \"<specific_task_for_this_agent>\"\n  }\n}");
    out
}

/// The message that asks the orchestrator for a plan.
pub fn orchestrator_request(task: &str) -> (out: String)
    ensures
        out@ == "Task: "@ + task@,
{
    let mut out = owned("Task: ");
    push_str(&mut out, task);
    out
}


/// The non-negative integers of a JSON array, in order.
pub open spec fn index_items(vs: Seq<JsonValue>) -> Seq<usize>
    decreases vs.len(),
{
    if vs.len() == 0 {
        Seq::empty()
    } else {
        let rest = index_items(vs.drop_last());
        match vs.last() {
            JsonValue::Number(JsonNumber::PosInt(n)) => rest.push(n as usize),
            _ => rest,
        }
    }
}

/// What an agent entry of a plan describes: its name, role (default
/// `Assistant`), system prompt and tool positions; or the error for a missing
/// name or prompt.
pub open spec fn agent_entry(v: JsonValue) -> Result<(Seq<char>, Seq<char>, Seq<char>, Seq<usize>), Seq<char>> {
    match str_arg(v, "name"@) {
        None => Err("Missing agent name"@),
        Some(name) => match str_arg(v, "system_prompt"@) {
            None => Err("Missing system_prompt"@),
            Some(prompt) => Ok((
                name,
                match str_arg(v, "role"@) { Some(r) => r, None => "Assistant"@ },
                prompt,
                match json_get(v, "tool_indices"@) {
                    Some(JsonValue::Array(a)) => index_items(a@),
                    _ => Seq::empty(),
                },
            )),
        },
    }
}

/// Whether `c` is the configuration that entry `v` describes.
pub open spec fn config_of_entry(c: AgentConfig, v: JsonValue) -> bool {
    agent_entry(v) == Ok::<(Seq<char>, Seq<char>, Seq<char>, Seq<usize>), Seq<char>>(
        (c.name@, c.role@, c.system_prompt@, c.tool_indices@),
    )
}

/// The error of the first agent entry that has one.
pub open spec fn first_entry_error(vs: Seq<JsonValue>) -> Option<Seq<char>>
    decreases vs.len(),
{
    if vs.len() == 0 {
        None
    } else {
        match agent_entry(vs[0]) {
            Err(m) => Some(m),
            Ok(_) => first_entry_error(vs.drop_first()),
        }
    }
}

/// The sub-tasks of a `task_breakdown` object's members, later members
/// overriding earlier ones; a value that is not a string counts as empty.
pub open spec fn breakdown_map(ms: Seq<(String, JsonValue)>) -> Map<Seq<char>, Seq<char>>
    decreases ms.len(),
{
    if ms.len() == 0 {
        Map::empty()
    } else {
        breakdown_map(ms.drop_last()).insert(
            ms.last().0@,
            match json_str(ms.last().1) { Some(s) => s, None => Seq::empty() },
        )
    }
}

/// The sub-tasks a plan names: those of its `task_breakdown` object, if any.
pub open spec fn breakdown_of(p: JsonValue) -> Map<Seq<char>, Seq<char>> {
    match json_get(p, "task_breakdown"@) {
        Some(JsonValue::Object(ms)) => breakdown_map(ms@),
        _ => Map::empty(),
    }
}

/// The texts of a string map's values.
pub open spec fn text_map(m: StringMap<String>) -> Map<Seq<char>, Seq<char>> {
    m.map().map_values(|v: String| v@)
}

/// Reads one agent entry.
fn agent_config_from(v: &JsonValue) -> (r: Result<AgentConfig, HeliosError>)
    ensures
        match agent_entry(*v) {
            Ok(_) => r matches Ok(c) && config_of_entry(c, *v),
            Err(m) => is_agent_error(r, m),
        },
{
    let name = match v.str_member("name") {
        Some(n) => n,
        None => {
            return Err(HeliosError::AgentError(owned("Missing agent name")));
        },
    };
    let role = match v.str_member("role") {
        Some(r) => r,
        None => "Assistant",
    };
    let prompt = match v.str_member("system_prompt") {
        Some(p) => p,
        None => {
            return Err(HeliosError::AgentError(owned("Missing system_prompt")));
        },
    };
    let mut idx: Vec<usize> = Vec::new();
    match v.get("tool_indices") {
        Some(JsonValue::Array(a)) => {
            let mut i: usize = 0;
            while i < a.len()
                invariant
                    i <= a@.len(),
                    idx@ == index_items(a@.take(i as int)),
                decreases a@.len() - i,
            {
                assert(a@.take(i + 1).drop_last() =~= a@.take(i as int));
                match &a[i] {
                    JsonValue::Number(JsonNumber::PosInt(n)) => {
                        idx.push(*n as usize);
                    },
                    _ => {},
                }
                i = i + 1;
            }
            assert(a@.take(a@.len() as int) =~= a@);
        },
        _ => {},
    }
    Ok(AgentConfig { name: owned(name), system_prompt: owned(prompt), tool_indices: idx, role: owned(role) })
}

/// Reads the orchestrator's reply, given as the outcome of parsing it as JSON (the
/// parser's message on failure), into the plan for `task`. `num_agents` and an
/// `agents` array are required, and each agent needs a name and a system prompt;
/// `reasoning` defaults to `Task orchestrated`.
pub fn plan_from_reply(task: &str, parsed: Result<JsonValue, String>) -> (r: Result<OrchestrationPlan, HeliosError>)
    ensures
        match parsed {
            Err(e) => is_agent_error(r, "Failed to parse orchestration plan: "@ + e@),
            Ok(p) => match (u64_arg(p, "num_agents"@), json_get(p, "agents"@)) {
                (None, _) => is_agent_error(r, "Missing num_agents in plan"@),
                (Some(n), Some(JsonValue::Array(a))) => match first_entry_error(a@) {
                    Some(m) => is_agent_error(r, m),
                    None => r matches Ok(plan) && {
                        &&& plan.task@ == task@
                        &&& plan.num_agents == n as usize
                        &&& plan.reasoning@ == (match str_arg(p, "reasoning"@) { Some(s) => s, None => "Task orchestrated"@ })
                        &&& plan.agents@.len() == a@.len()
                        &&& forall|i: int| 0 <= i < a@.len() ==> config_of_entry(#[trigger] plan.agents@[i], a@[i])
                        &&& text_map(plan.task_breakdown) == breakdown_of(p)
                    },
                },
                (Some(_), _) => is_agent_error(r, "Missing agents array in plan"@),
            },
        },
{
    let p = match parsed {
        Ok(p) => p,
        Err(e) => {
            let mut m = owned("Failed to parse orchestration plan: ");
            push_str(&mut m, e.as_str());
            return Err(HeliosError::AgentError(m));
        },
    };
    let n = match p.u64_member("num_agents") {
        Some(n) => n,
        None => {
            return Err(HeliosError::AgentError(owned("Missing num_agents in plan")));
        },
    };
    let reasoning = match p.str_member("reasoning") {
        Some(s) => owned(s),
        None => owned("Task orchestrated"),
    };
    let entries = match p.get("agents") {
        Some(JsonValue::Array(a)) => a,
        _ => {
            return Err(HeliosError::AgentError(owned("Missing agents array in plan")));
        },
    };
    let mut agents: Vec<AgentConfig> = Vec::new();
    let mut i: usize = 0;
    assert(entries@.skip(0) =~= entries@);
    while i < entries.len()
        invariant
            i <= entries@.len(),
            agents@.len() == i,
            forall|j: int| 0 <= j < i ==> config_of_entry(#[trigger] agents@[j], entries@[j]),
            first_entry_error(entries@) == first_entry_error(entries@.skip(i as int)),
        decreases entries@.len() - i,
    {
        assert(entries@.skip(i as int)[0] == entries@[i as int]);
        match agent_config_from(&entries[i]) {
            Ok(c) => {
                agents.push(c);
            },
            Err(e) => {
                return Err(e);
            },
        }
        assert(entries@.skip(i as int).drop_first() =~= entries@.skip(i + 1));
        i = i + 1;
    }
    let mut breakdown: StringMap<String> = StringMap::new();
    match p.get("task_breakdown") {
        Some(JsonValue::Object(ms)) => {
            let mut k: usize = 0;
            while k < ms.len()
                invariant
                    k <= ms@.len(),
                    text_map(breakdown) == breakdown_map(ms@.take(k as int)),
                decreases ms@.len() - k,
            {
                assert(ms@.take(k + 1).drop_last() =~= ms@.take(k as int));
                let d = match ms[k].1.as_str() {
                    Some(s) => owned(s),
                    None => String::new(),
                };
                let ghost before = breakdown;
                breakdown.insert(ms[k].0.clone(), d);
                assert(text_map(breakdown) =~= text_map(before).insert(ms@[k as int].0@, d@));
                k = k + 1;
            }
            assert(ms@.take(ms@.len() as int) =~= ms@);
        },
        _ => {
            assert(text_map(breakdown) =~= Map::<Seq<char>, Seq<char>>::empty());
        },
    }
    Ok(OrchestrationPlan { task: owned(task), num_agents: n as usize, reasoning, agents, task_breakdown: breakdown })
}


/// The task a spawned agent gets: its sub-task from the plan, or a share of the
/// whole task when the plan names none for it.
pub fn agent_task(plan: &OrchestrationPlan, name: &str) -> (out: String)
    ensures
        out@ == (if text_map(plan.task_breakdown).contains_key(name@) {
            text_map(plan.task_breakdown)[name@]
        } else {
            "Complete your assigned portion of: "@ + plan.task@
        }),
{
    match plan.task_breakdown.get(name) {
        Some(t) => t.clone(),
        None => {
            let mut out = owned("Complete your assigned portion of: ");
            push_str(&mut out, plan.task.as_str());
            out
        },
    }
}

/// What is recorded of an agent's run: its answer, or the error after `Error: `.
pub fn agent_outcome_text(r: &Result<String, HeliosError>) -> (out: String)
    ensures
        out@ == match r {
            Ok(o) => o@,
            Err(e) => "Error: "@ + error_display(*e),
        },
{
    match r {
        Ok(o) => o.clone(),
        Err(e) => {
            let mut out = owned("Error: ");
            push_str(&mut out, e.message().as_str());
            out
        },
    }
}

/// The result lines of the agents, in the order of `ps`.
pub open spec fn result_entries(ps: Seq<(Seq<char>, String)>) -> Seq<char>
    decreases ps.len(),
{
    if ps.len() == 0 {
        Seq::empty()
    } else {
        result_entries(ps.drop_last()) + "**"@ + ps.last().0 + "**:\n"@ + ps.last().1@ + "\n\n"@
    }
}

/// The summary of a run: the task, each agent's result, and, when more than one
/// agent answered, the heading under which the synthesis follows.
pub open spec fn summary_text(task: Seq<char>, results: StringMap<String>) -> Seq<char> {
    "## Task Execution Summary\n\n"@ + "**Task**: "@ + task + "\n\n"@ + "### Agent Results:\n\n"@
        + result_entries(results.pairs()) + (if results.pairs().len() > 1 {
        "### Synthesized Analysis:\n\n"@
    } else {
        Seq::empty()
    })
}

/// Writes the summary of a run from the agents' results, by agent name.
pub fn results_summary(task: &str, results: &StringMap<String>) -> (out: String)
    ensures
        out@ == summary_text(task@, *results),
{
    let mut out = owned("## Task Execution Summary\n\n");
    push_str(&mut out, "**Task**: ");
    push_str(&mut out, task);
    push_str(&mut out, "\n\n");
    push_str(&mut out, "### Agent Results:\n\n");
    let ghost head = out@;
    let es = results.entries();
    let mut i: usize = 0;
    while i < es.len()
        invariant
            i <= es@.len(),
            es@.map_values(|e: (String, String)| (e.0@, e.1)) == results.pairs(),
            out@ == head + result_entries(results.pairs().take(i as int)),
        decreases es@.len() - i,
    {
        assert(results.pairs().take(i + 1).drop_last() =~= results.pairs().take(i as int));
        assert(results.pairs()[i as int] == (es@[i as int].0@, es@[i as int].1));
        push_str(&mut out, "**");
        push_str(&mut out, es[i].0.as_str());
        push_str(&mut out, "**:\n");
        push_str(&mut out, es[i].1.as_str());
        push_str(&mut out, "\n\n");
        i = i + 1;
    }
    assert(results.pairs().take(es@.len() as int) =~= results.pairs());
    if results.len() > 1 {
        push_str(&mut out, "### Synthesized Analysis:\n\n");
    }
    out
}

/// The request that asks the orchestrator to synthesise the results, given the
/// summary so far.
pub fn synthesis_request(summary: &str) -> (out: String)
    ensures
        out@ == "Synthesize these agent results into a cohesive answer:\n"@ + summary@,
{
    let mut out = owned("Synthesize these agent results into a cohesive answer:\n");
    push_str(&mut out, summary);
    out
}

} // verus!
