//! The tools the agents of a forest use to work together, as described to a
//! language model. What they do is in `forest` (`send_message_tool` and the rest).

use vstd::prelude::*;
use crate::strmap::StringMap;
use crate::text::owned;
use crate::tool_builder::params_view;
use crate::tools::{ToolParameter, ToolDefinition, tool_definition};

verus! {

/// Adds a parameter to a parameter map.
fn add_param(ps: &mut StringMap<ToolParameter>, name: &str, param_type: &str, description: &str, required: bool)
    ensures
        params_view(*final(ps)) == params_view(*old(ps)).insert(name@, (param_type@, description@, Some(required))),
{
    let ghost before = *ps;
    ps.insert(owned(name), ToolParameter { param_type: owned(param_type), description: owned(description), required: Some(required) });
    assert(params_view(*ps) =~= params_view(before).insert(name@, (param_type@, description@, Some(required))));
}

/// Sends a message from an agent to another agent, or to all.
#[derive(Debug, Clone)]
pub struct SendMessageTool {
    /// The agent that uses the tool.
    pub agent_id: String,
}

impl SendMessageTool {
    /// The tool for agent `agent_id`.
    pub fn new(agent_id: &str) -> (t: Self)
        ensures
            t.agent_id@ == agent_id@,
    {
        SendMessageTool { agent_id: owned(agent_id) }
    }

    /// The tool's name.
    pub fn name(&self) -> (s: &'static str)
        ensures
            s@ == "send_message"@,
    {
        "send_message"
    }

    /// What the tool does.
    pub fn description(&self) -> (s: &'static str)
        ensures
            s@ == "Send a message to another agent or broadcast to all agents in the forest."@,
    {
        "Send a message to another agent or broadcast to all agents in the forest."
    }

    /// The tool's parameters.
    pub fn parameters(&self) -> (ps: StringMap<ToolParameter>)
        ensures
            params_view(ps) == map!["to"@ => ("string"@, "ID of the recipient agent (leave empty for broadcast)"@, Some(false)), "message"@ => ("string"@, "The message content to send"@, Some(true))],
    {
        let mut ps: StringMap<ToolParameter> = StringMap::new();
        add_param(&mut ps, "to", "string", "ID of the recipient agent (leave empty for broadcast)", false);
        add_param(&mut ps, "message", "string", "The message content to send", true);
        assert(params_view(ps) =~= map!["to"@ => ("string"@, "ID of the recipient agent (leave empty for broadcast)"@, Some(false)), "message"@ => ("string"@, "The message content to send"@, Some(true))]);
        ps
    }

    /// The tool's definition for a language model.
    pub fn to_definition(&self) -> (d: ToolDefinition)
        ensures
            d.function.name@ == "send_message"@,
            d.function.description@ == "Send a message to another agent or broadcast to all agents in the forest."@,
            params_view(d.function.parameters.properties) == map!["to"@ => ("string"@, "ID of the recipient agent (leave empty for broadcast)"@, Some(false)), "message"@ => ("string"@, "The message content to send"@, Some(true))],
    {
        tool_definition(self.name(), self.description(), self.parameters())
    }
}

/// Delegates a task from an agent to another agent.
#[derive(Debug, Clone)]
pub struct DelegateTaskTool {
    /// The agent that uses the tool.
    pub agent_id: String,
}

impl DelegateTaskTool {
    /// The tool for agent `agent_id`.
    pub fn new(agent_id: &str) -> (t: Self)
        ensures
            t.agent_id@ == agent_id@,
    {
        DelegateTaskTool { agent_id: owned(agent_id) }
    }

    /// The tool's name.
    pub fn name(&self) -> (s: &'static str)
        ensures
            s@ == "delegate_task"@,
    {
        "delegate_task"
    }

    /// What the tool does.
    pub fn description(&self) -> (s: &'static str)
        ensures
            s@ == "Delegate a specific task to another agent for execution."@,
    {
        "Delegate a specific task to another agent for execution."
    }

    /// The tool's parameters.
    pub fn parameters(&self) -> (ps: StringMap<ToolParameter>)
        ensures
            params_view(ps) == map!["to"@ => ("string"@, "ID of the agent to delegate the task to"@, Some(true)), "task"@ => ("string"@, "Description of the task to delegate"@, Some(true)), "context"@ => ("string"@, "Additional context or requirements for the task"@, Some(false))],
    {
        let mut ps: StringMap<ToolParameter> = StringMap::new();
        add_param(&mut ps, "to", "string", "ID of the agent to delegate the task to", true);
        add_param(&mut ps, "task", "string", "Description of the task to delegate", true);
        add_param(&mut ps, "context", "string", "Additional context or requirements for the task", false);
        assert(params_view(ps) =~= map!["to"@ => ("string"@, "ID of the agent to delegate the task to"@, Some(true)), "task"@ => ("string"@, "Description of the task to delegate"@, Some(true)), "context"@ => ("string"@, "Additional context or requirements for the task"@, Some(false))]);
        ps
    }

    /// The tool's definition for a language model.
    pub fn to_definition(&self) -> (d: ToolDefinition)
        ensures
            d.function.name@ == "delegate_task"@,
            d.function.description@ == "Delegate a specific task to another agent for execution."@,
            params_view(d.function.parameters.properties) == map!["to"@ => ("string"@, "ID of the agent to delegate the task to"@, Some(true)), "task"@ => ("string"@, "Description of the task to delegate"@, Some(true)), "context"@ => ("string"@, "Additional context or requirements for the task"@, Some(false))],
    {
        tool_definition(self.name(), self.description(), self.parameters())
    }
}

/// Shares information in the forest's shared context.
#[derive(Debug, Clone)]
pub struct ShareContextTool {
    /// The agent that uses the tool.
    pub agent_id: String,
}

impl ShareContextTool {
    /// The tool for agent `agent_id`.
    pub fn new(agent_id: &str) -> (t: Self)
        ensures
            t.agent_id@ == agent_id@,
    {
        ShareContextTool { agent_id: owned(agent_id) }
    }

    /// The tool's name.
    pub fn name(&self) -> (s: &'static str)
        ensures
            s@ == "share_context"@,
    {
        "share_context"
    }

    /// What the tool does.
    pub fn description(&self) -> (s: &'static str)
        ensures
            s@ == "Share information in the shared context that all agents can access."@,
    {
        "Share information in the shared context that all agents can access."
    }

    /// The tool's parameters.
    pub fn parameters(&self) -> (ps: StringMap<ToolParameter>)
        ensures
            params_view(ps) == map!["key"@ => ("string"@, "Key for the shared information"@, Some(true)), "value"@ => ("string"@, "Value to share"@, Some(true)), "description"@ => ("string"@, "Description of what this information represents"@, Some(false))],
    {
        let mut ps: StringMap<ToolParameter> = StringMap::new();
        add_param(&mut ps, "key", "string", "Key for the shared information", true);
        add_param(&mut ps, "value", "string", "Value to share", true);
        add_param(&mut ps, "description", "string", "Description of what this information represents", false);
        assert(params_view(ps) =~= map!["key"@ => ("string"@, "Key for the shared information"@, Some(true)), "value"@ => ("string"@, "Value to share"@, Some(true)), "description"@ => ("string"@, "Description of what this information represents"@, Some(false))]);
        ps
    }

    /// The tool's definition for a language model.
    pub fn to_definition(&self) -> (d: ToolDefinition)
        ensures
            d.function.name@ == "share_context"@,
            d.function.description@ == "Share information in the shared context that all agents can access."@,
            params_view(d.function.parameters.properties) == map!["key"@ => ("string"@, "Key for the shared information"@, Some(true)), "value"@ => ("string"@, "Value to share"@, Some(true)), "description"@ => ("string"@, "Description of what this information represents"@, Some(false))],
    {
        tool_definition(self.name(), self.description(), self.parameters())
    }
}

/// Records an agent's results for a task of the plan.
#[derive(Debug, Clone)]
pub struct UpdateTaskMemoryTool {
    /// The agent that uses the tool.
    pub agent_id: String,
}

impl UpdateTaskMemoryTool {
    /// The tool for agent `agent_id`.
    pub fn new(agent_id: &str) -> (t: Self)
        ensures
            t.agent_id@ == agent_id@,
    {
        UpdateTaskMemoryTool { agent_id: owned(agent_id) }
    }

    /// The tool's name.
    pub fn name(&self) -> (s: &'static str)
        ensures
            s@ == "update_task_memory"@,
    {
        "update_task_memory"
    }

    /// What the tool does.
    pub fn description(&self) -> (s: &'static str)
        ensures
            s@ == "Update the shared task memory with your results, findings, and data. This allows other agents to see your progress and use your outputs."@,
    {
        "Update the shared task memory with your results, findings, and data. This allows other agents to see your progress and use your outputs."
    }

    /// The tool's parameters.
    pub fn parameters(&self) -> (ps: StringMap<ToolParameter>)
        ensures
            params_view(ps) == map!["task_id"@ => ("string"@, "The ID of the task you're updating (e.g., 'task_1')"@, Some(true)), "result"@ => ("string"@, "Your results, findings, or output from completing the task"@, Some(true)), "data"@ => ("string"@, "Additional data or information to share (e.g., key findings, metrics, recommendations)"@, Some(false))],
    {
        let mut ps: StringMap<ToolParameter> = StringMap::new();
        add_param(&mut ps, "task_id", "string", "The ID of the task you're updating (e.g., 'task_1')", true);
        add_param(&mut ps, "result", "string", "Your results, findings, or output from completing the task", true);
        add_param(&mut ps, "data", "string", "Additional data or information to share (e.g., key findings, metrics, recommendations)", false);
        assert(params_view(ps) =~= map!["task_id"@ => ("string"@, "The ID of the task you're updating (e.g., 'task_1')"@, Some(true)), "result"@ => ("string"@, "Your results, findings, or output from completing the task"@, Some(true)), "data"@ => ("string"@, "Additional data or information to share (e.g., key findings, metrics, recommendations)"@, Some(false))]);
        ps
    }

    /// The tool's definition for a language model.
    pub fn to_definition(&self) -> (d: ToolDefinition)
        ensures
            d.function.name@ == "update_task_memory"@,
            d.function.description@ == "Update the shared task memory with your results, findings, and data. This allows other agents to see your progress and use your outputs."@,
            params_view(d.function.parameters.properties) == map!["task_id"@ => ("string"@, "The ID of the task you're updating (e.g., 'task_1')"@, Some(true)), "result"@ => ("string"@, "Your results, findings, or output from completing the task"@, Some(true)), "data"@ => ("string"@, "Additional data or information to share (e.g., key findings, metrics, recommendations)"@, Some(false))],
    {
        tool_definition(self.name(), self.description(), self.parameters())
    }
}

/// Creates the plan of a collaborative task.
#[derive(Debug, Clone)]
pub struct CreatePlanTool {
    /// The agent that uses the tool.
    pub agent_id: String,
}

impl CreatePlanTool {
    /// The tool for agent `agent_id`.
    pub fn new(agent_id: &str) -> (t: Self)
        ensures
            t.agent_id@ == agent_id@,
    {
        CreatePlanTool { agent_id: owned(agent_id) }
    }

    /// The tool's name.
    pub fn name(&self) -> (s: &'static str)
        ensures
            s@ == "create_plan"@,
    {
        "create_plan"
    }

    /// What the tool does.
    pub fn description(&self) -> (s: &'static str)
        ensures
            s@ == "Create a detailed task plan for collaborative work. Break down the overall objective into specific tasks and assign them to team members."@,
    {
        "Create a detailed task plan for collaborative work. Break down the overall objective into specific tasks and assign them to team members."
    }

    /// The tool's parameters.
    pub fn parameters(&self) -> (ps: StringMap<ToolParameter>)
        ensures
            params_view(ps) == map!["objective"@ => ("string"@, "The overall objective or goal of the plan"@, Some(true)), "tasks"@ => ("string"@, "JSON array of tasks. Each task must have: id (string), description (string), assigned_to (string), dependencies (array of task IDs)"@, Some(true))],
    {
        let mut ps: StringMap<ToolParameter> = StringMap::new();
        add_param(&mut ps, "objective", "string", "The overall objective or goal of the plan", true);
        add_param(&mut ps, "tasks", "string", "JSON array of tasks. Each task must have: id (string), description (string), assigned_to (string), dependencies (array of task IDs)", true);
        assert(params_view(ps) =~= map!["objective"@ => ("string"@, "The overall objective or goal of the plan"@, Some(true)), "tasks"@ => ("string"@, "JSON array of tasks. Each task must have: id (string), description (string), assigned_to (string), dependencies (array of task IDs)"@, Some(true))]);
        ps
    }

    /// The tool's definition for a language model.
    pub fn to_definition(&self) -> (d: ToolDefinition)
        ensures
            d.function.name@ == "create_plan"@,
            d.function.description@ == "Create a detailed task plan for collaborative work. Break down the overall objective into specific tasks and assign them to team members."@,
            params_view(d.function.parameters.properties) == map!["objective"@ => ("string"@, "The overall objective or goal of the plan"@, Some(true)), "tasks"@ => ("string"@, "JSON array of tasks. Each task must have: id (string), description (string), assigned_to (string), dependencies (array of task IDs)"@, Some(true))],
    {
        tool_definition(self.name(), self.description(), self.parameters())
    }
}

/// The definitions of the forest's tools, in the order they are given to an agent.
pub fn forest_tool_definitions(agent_id: &str) -> (ds: Vec<ToolDefinition>)
    ensures
        ds@.len() == 5,
        ds@[0].function.name@ == "send_message"@,
        ds@[1].function.name@ == "delegate_task"@,
        ds@[2].function.name@ == "share_context"@,
        ds@[3].function.name@ == "update_task_memory"@,
        ds@[4].function.name@ == "create_plan"@,
{
    let mut ds: Vec<ToolDefinition> = Vec::new();
    ds.push(SendMessageTool::new(agent_id).to_definition());
    ds.push(DelegateTaskTool::new(agent_id).to_definition());
    ds.push(ShareContextTool::new(agent_id).to_definition());
    ds.push(UpdateTaskMemoryTool::new(agent_id).to_definition());
    ds.push(CreatePlanTool::new(agent_id).to_definition());
    ds
}

} // verus!
