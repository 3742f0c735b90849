use helios_engine::agent::{Agent, AgentAction, TurnPhase};
use helios_engine::config::{default_context_size, default_max_tokens};
use helios_engine::error::HeliosError;

#[test]
fn test_agent_memory_namespacing_set_get_remove() {
    let mut agent = Agent::new("test_agent");
    agent.set_memory("working_directory", "/tmp");
    assert_eq!(agent.get_memory("working_directory"), Some(&"/tmp".to_string()));
    assert_eq!(agent.chat_session().get_metadata("agent:working_directory"), Some(&"/tmp".to_string()));
    assert!(agent.chat_session().get_metadata("working_directory").is_none());
    let removed = agent.remove_memory("working_directory");
    assert_eq!(removed.as_deref(), Some("/tmp"));
    assert!(agent.get_memory("working_directory").is_none());
}

#[test]
fn test_agent_clear_memory_scoped() {
    let mut agent = Agent::new("test_agent");
    agent.set_memory("tasks_completed", "3");
    agent.chat_session_mut().set_metadata("session_start", "now");
    agent.clear_memory();
    assert!(agent.get_memory("tasks_completed").is_none());
    assert_eq!(agent.chat_session().get_metadata("session_start"), Some(&"now".to_string()));
}

#[test]
fn test_agent_increment_helpers() {
    let mut agent = Agent::new("test_agent");
    let n1 = agent.increment_tasks_completed();
    assert_eq!(n1, 1);
    assert_eq!(agent.get_memory("tasks_completed"), Some(&"1".to_string()));
    let n2 = agent.increment_tasks_completed();
    assert_eq!(n2, 2);
    assert_eq!(agent.get_memory("tasks_completed"), Some(&"2".to_string()));
    let f1 = agent.increment_counter("files_accessed");
    assert_eq!(f1, 1);
    let f2 = agent.increment_counter("files_accessed");
    assert_eq!(f2, 2);
    assert_eq!(agent.get_memory("files_accessed"), Some(&"2".to_string()));
}

#[test]
fn increment_counter_restarts_from_unreadable_value() {
    let mut agent = Agent::new("a");
    agent.set_memory("hits", "not a number");
    assert_eq!(agent.increment_counter("hits"), 1);
    assert_eq!(agent.get_memory("hits"), Some(&"1".to_string()));
}

#[test]
fn test_agent_builder() {
    let mut agent = Agent::new("test_agent");
    agent.set_system_prompt("You are a helpful assistant");
    agent.set_max_iterations(5);
    agent.register_tool("calculator");
    assert_eq!(agent.name(), "test_agent");
    assert_eq!(agent.max_iterations(), 5);
    assert_eq!(agent.tool_names(), &vec!["calculator".to_string()]);
}

#[test]
fn test_agent_system_prompt() {
    let mut agent = Agent::new("test_agent");
    agent.set_system_prompt("You are a test agent");
    let session = agent.chat_session();
    assert_eq!(session.system_prompt, Some("You are a test agent".to_string()));
}

#[test]
fn test_agent_tool_registry() {
    let mut agent = Agent::new("test_agent");
    assert!(agent.tool_names().is_empty());
    agent.register_tool("calculator");
    assert_eq!(agent.tool_names(), &vec!["calculator".to_string()]);
}

#[test]
fn test_agent_clear_history() {
    let mut agent = Agent::new("test_agent");
    agent.chat_session_mut().add_user_message("Hello");
    assert!(!agent.chat_session().messages.is_empty());
    agent.clear_history();
    assert!(agent.chat_session().messages.is_empty());
}

#[test]
fn test_error_types() {
    let config_error = HeliosError::ConfigError("Config issue".to_string());
    assert!(matches!(config_error, HeliosError::ConfigError(_)));
    let llm_error = HeliosError::LLMError("LLM issue".to_string());
    assert!(matches!(llm_error, HeliosError::LLMError(_)));
    let tool_error = HeliosError::ToolError("Tool issue".to_string());
    assert!(matches!(tool_error, HeliosError::ToolError(_)));
    let agent_error = HeliosError::AgentError("Agent issue".to_string());
    assert!(matches!(agent_error, HeliosError::AgentError(_)));
}

#[test]
fn test_error_display() {
    let config_error = HeliosError::ConfigError("Config issue".to_string());
    assert_eq!(config_error.message(), "Configuration error: Config issue");
    let llm_error = HeliosError::LLMError("LLM issue".to_string());
    assert_eq!(llm_error.message(), "LLM error: LLM issue");
    let tool_error = HeliosError::ToolError("Tool issue".to_string());
    assert_eq!(tool_error.message(), "Tool error: Tool issue");
    let agent_error = HeliosError::AgentError("Agent issue".to_string());
    assert_eq!(agent_error.message(), "Agent error: Agent issue");
}

#[test]
fn test_default_functions() {
    assert_eq!(default_max_tokens(), 2048);
    assert_eq!(default_context_size(), 2048);
}

#[test]
fn reasoning_step_asks_the_default_question() {
    let mut agent = Agent::new("thinker");
    agent.register_tool("calculator");
    agent.set_react_mode(true);
    let turn = agent.start_turn("What is 2 + 2?");
    assert_eq!(turn.phase, TurnPhase::NeedReasoning);
    match turn.next_action(agent.chat_session()) {
        AgentAction::AskReasoning(ms) => {
            assert_eq!(ms.len(), 2);
            assert!(ms[1].content.starts_with("Before taking any action, think through this step by step:"));
        },
        other => panic!("expected a reasoning request, got {:?}", other),
    }
}

#[test]
fn reasoning_step_asks_a_custom_question() {
    let mut agent = Agent::new("math_expert");
    agent.register_tool("calculator");
    agent.set_react_prompt("Think carefully about this mathematical problem.");
    assert!(agent.react_mode());
    let turn = agent.start_turn("Calculate ((15 * 8) + (20 * 3)) / 2");
    assert_eq!(turn.phase, TurnPhase::NeedReasoning);
    match turn.next_action(agent.chat_session()) {
        AgentAction::AskReasoning(ms) => {
            assert_eq!(ms.last().unwrap().content, "Think carefully about this mathematical problem.");
        },
        other => panic!("expected a reasoning request, got {:?}", other),
    }
}

#[test]
fn no_reasoning_step_without_tools() {
    let mut agent = Agent::new("plain");
    agent.set_react_prompt("Custom prompt");
    let turn = agent.start_turn("Hello");
    assert_eq!(turn.phase, TurnPhase::NeedModel);
}

#[test]
fn model_is_sent_the_session() {
    let mut agent = Agent::new("a");
    agent.set_system_prompt("Be brief.");
    let turn = agent.start_turn("Hi");
    match turn.next_action(agent.chat_session()) {
        AgentAction::AskModel { messages, offer_tools } => {
            assert!(!offer_tools);
            assert_eq!(messages.len(), 2);
            assert_eq!(messages[0].content, "Be brief.");
            assert_eq!(messages[1].content, "Hi");
        },
        other => panic!("expected a model request, got {:?}", other),
    }
}
