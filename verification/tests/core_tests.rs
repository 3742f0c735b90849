use helios_engine::auto_forest::{AgentConfig, OrchestrationPlan};
use helios_engine::chat::ChatMessage;
use helios_engine::llm::{format_messages, ModelType};
use helios_engine::strmap::StringMap;
use helios_engine::tools::ToolResult;

#[test]
fn test_agent_config_creation() {
    let config = AgentConfig {
        name: "TestAgent".to_string(),
        system_prompt: "You are helpful".to_string(),
        tool_indices: vec![0, 1],
        role: "Analyzer".to_string(),
    };

    assert_eq!(config.name, "TestAgent");
    assert_eq!(config.tool_indices.len(), 2);
}

#[test]
fn test_orchestration_plan_creation() {
    let plan = OrchestrationPlan {
        task: "Test task".to_string(),
        num_agents: 2,
        reasoning: "Two agents needed".to_string(),
        agents: vec![],
        task_breakdown: StringMap::new(),
    };

    assert_eq!(plan.num_agents, 2);
    assert_eq!(plan.task, "Test task");
}

#[test]
fn test_model_creation() {}

#[test]
fn test_model_type_detection() {
    assert_eq!(ModelType::from_repo("unsloth/Qwen3-7B"), ModelType::Qwen3);
    assert_eq!(ModelType::from_repo("unsloth/Qwen2-7B"), ModelType::Qwen2);
    assert_eq!(ModelType::from_repo("unsloth/Qwen-7B"), ModelType::Qwen);
    assert_eq!(ModelType::from_repo("meta-llama/Llama-2-7b"), ModelType::Llama2);
    assert_eq!(ModelType::from_repo("meta-llama/Llama-7b"), ModelType::Llama);
    assert_eq!(ModelType::from_repo("google/gemma-7b"), ModelType::Gemma);
    assert_eq!(ModelType::from_repo("mistralai/Mistral-7B"), ModelType::Mistral);
}

#[test]
fn test_tool_result_success() {
    let result = ToolResult::success("test output");
    assert!(result.success);
    assert_eq!(result.output, "test output");
}

#[test]
fn test_tool_result_error() {
    let result = ToolResult::error("test error");
    assert!(!result.success);
    assert_eq!(result.output, "test error");
}

#[test]
fn test_format_qwen_messages() {
    let messages = vec![
        ChatMessage::system("You are a helpful assistant."),
        ChatMessage::user("Hello"),
    ];

    let formatted = format_messages(&ModelType::Qwen, &messages);
    assert!(formatted.contains("<|im_start|>system"));
    assert!(formatted.contains("<|im_start|>user"));
    assert!(formatted.contains("<|im_start|>assistant"));
}
