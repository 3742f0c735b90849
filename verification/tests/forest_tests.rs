use helios_engine::agent::Agent;
use helios_engine::chat::Role;
use helios_engine::collab::{CollabRun, ForestOfAgents};
use helios_engine::forest::{delegate_task_tool, send_message_tool, share_context_tool, ForestMessage, SharedContext};
use helios_engine::forest_tools::{forest_tool_definitions, SendMessageTool};
use helios_engine::json::{JsonNumber, JsonValue};

fn s(x: &str) -> JsonValue {
    JsonValue::String(x.to_string())
}

fn obj(pairs: Vec<(&str, JsonValue)>) -> JsonValue {
    JsonValue::Object(pairs.into_iter().map(|(k, v)| (k.to_string(), v)).collect())
}

fn text(v: Option<&JsonValue>) -> Option<String> {
    match v {
        Some(JsonValue::String(t)) => Some(t.clone()),
        _ => None,
    }
}

fn member<'a>(v: &'a JsonValue, k: &str) -> Option<&'a JsonValue> {
    v.get(k)
}

#[test]
fn test_forest_creation_and_agent_management() {
    let mut forest = ForestOfAgents::new();
    let mut agent1 = Agent::new("agent1");
    agent1.set_system_prompt("You are agent 1");
    let mut agent2 = Agent::new("agent2");
    agent2.set_system_prompt("You are agent 2");
    forest.add_agent("agent1".to_string(), agent1).unwrap();
    forest.add_agent("agent2".to_string(), agent2).unwrap();

    let agents = forest.list_agents();
    assert_eq!(agents.len(), 2);
    assert!(agents.contains(&"agent1".to_string()));
    assert!(agents.contains(&"agent2".to_string()));
    assert!(forest.get_agent("agent1").is_some());
    assert!(forest.get_agent("agent3").is_none());

    let result = forest.add_agent("agent1".to_string(), Agent::new("agent3"));
    assert!(result.is_err());

    let removed = forest.remove_agent("agent1");
    assert!(removed.is_some());
    assert_eq!(forest.list_agents().len(), 1);
    assert!(forest.get_agent("agent1").is_none());
}

#[test]
fn test_message_sending() {
    let mut forest = ForestOfAgents::new();
    forest.add_agent("alice".to_string(), Agent::new("alice")).unwrap();
    forest.add_agent("bob".to_string(), Agent::new("bob")).unwrap();

    forest.send_message("alice", Some("bob"), "Hello Bob!".to_string()).unwrap();
    forest.process_messages().unwrap();
    let bob = forest.get_agent("bob").unwrap();
    let messages = &bob.chat_session().messages;
    assert!(messages.len() >= 1);
    let last = messages.last().unwrap();
    assert_eq!(last.role, Role::User);
    assert!(last.content.contains("Message from alice: Hello Bob!"));

    let before = forest.get_agent("alice").unwrap().chat_session().messages.len();
    forest.send_message("alice", None, "Hello everyone!".to_string()).unwrap();
    forest.process_messages().unwrap();
    assert_eq!(forest.get_agent("alice").unwrap().chat_session().messages.len(), before);
    let bob_last = forest.get_agent("bob").unwrap().chat_session().messages.last().unwrap().content.clone();
    assert!(bob_last.contains("Broadcast from alice: Hello everyone!"));
}

#[test]
fn agents_with_unanswered_messages_respond() {
    let mut forest = ForestOfAgents::new();
    forest.add_agent("alice".to_string(), Agent::new("alice")).unwrap();
    forest.add_agent("bob".to_string(), Agent::new("bob")).unwrap();
    let involved = vec!["alice".to_string(), "bob".to_string(), "carol".to_string()];
    assert!(forest.agents_to_respond(&involved).is_empty());
    forest.send_message("alice", Some("bob"), "ping".to_string()).unwrap();
    forest.process_messages().unwrap();
    assert_eq!(forest.agents_to_respond(&involved), vec!["bob".to_string()]);
}

#[test]
fn test_send_message_tool() {
    let mut queue: Vec<ForestMessage> = Vec::new();
    let mut ctx = SharedContext::new();
    let tool = SendMessageTool::new("alice");
    assert_eq!(tool.name(), "send_message");
    let args = obj(vec![("to", s("bob")), ("message", s("Test message"))]);
    let result = send_message_tool(&tool.agent_id, &args, &mut queue, &mut ctx).unwrap();
    assert!(result.success);
    assert_eq!(result.output, "Message sent successfully");
    assert_eq!(queue.len(), 1);
    assert_eq!(queue[0].from, "alice");
    assert_eq!(queue[0].to, Some("bob".to_string()));
    assert_eq!(queue[0].content, "Test message");
    let messages = ctx.get_recent_messages(10);
    assert_eq!(messages.len(), 1);
    assert_eq!(messages[0].from, "alice");
}

#[test]
fn test_delegate_task_tool() {
    let mut queue: Vec<ForestMessage> = Vec::new();
    let mut ctx = SharedContext::new();
    let args = obj(vec![("to", s("worker")), ("task", s("Analyze the data")), ("context", s("Use statistical methods"))]);
    let result = delegate_task_tool("manager", &args, &mut queue, &mut ctx).unwrap();
    assert!(result.success);
    assert_eq!(result.output, "Task delegated to agent 'worker'");
    assert_eq!(queue.len(), 1);
    let message = &queue[0];
    assert_eq!(message.from, "manager");
    assert_eq!(message.to, Some("worker".to_string()));
    assert!(message.content.contains("Task delegated: Analyze the data"));
    assert!(message.content.contains("Context: Use statistical methods"));
    assert_eq!(message.metadata.get("type"), Some(&"task_delegation".to_string()));
    assert_eq!(message.metadata.get("task"), Some(&"Analyze the data".to_string()));
}

#[test]
fn test_share_context_tool() {
    let mut ctx = SharedContext::new();
    let args = obj(vec![
        ("key", s("findings")),
        ("value", s("Temperature affects reaction rate")),
        ("description", s("Key experimental finding")),
    ]);
    let result = share_context_tool("researcher", &args, &mut ctx).unwrap();
    assert!(result.success);
    assert_eq!(result.output, "Information shared with key 'findings'");
    let findings = ctx.get("findings").unwrap();
    assert_eq!(text(member(findings, "value")), Some("Temperature affects reaction rate".to_string()));
    let metadata = member(findings, "metadata").unwrap();
    assert_eq!(text(member(metadata, "shared_by")), Some("researcher".to_string()));
    assert_eq!(text(member(metadata, "description")), Some("Key experimental finding".to_string()));
    assert!(member(metadata, "timestamp").is_some());
}

#[test]
fn test_shared_context() {
    let mut context = SharedContext::new();
    context.set("key1".to_string(), s("value1"));
    context.set("key2".to_string(), JsonValue::Number(JsonNumber::PosInt(42)));
    assert_eq!(text(context.get("key1")), Some("value1".to_string()));
    assert!(matches!(context.get("key2"), Some(JsonValue::Number(JsonNumber::PosInt(42)))));
    assert!(context.get("key3").is_none());

    context.add_message(ForestMessage::new("alice".to_string(), Some("bob".to_string()), "Hello".to_string()));
    context.add_message(ForestMessage::broadcast("bob".to_string(), "Hi everyone".to_string()));
    let messages = context.get_recent_messages(10);
    assert_eq!(messages.len(), 2);
    assert_eq!(messages[0].from, "alice");
    assert_eq!(messages[1].from, "bob");

    let removed = context.remove("key1");
    assert_eq!(text(removed.as_ref()), Some("value1".to_string()));
    assert!(context.get("key1").is_none());
}

#[test]
fn test_collaborative_task() {
    let mut forest = ForestOfAgents::new();
    forest.add_agent("coordinator".to_string(), Agent::new("coordinator")).unwrap();
    forest.add_agent("researcher".to_string(), Agent::new("researcher")).unwrap();
    forest.add_agent("writer".to_string(), Agent::new("writer")).unwrap();
    assert_eq!(forest.list_agents().len(), 3);
    forest.set_shared_context("current_task".to_string(), s("Create a report on climate change impacts"));
    forest.set_shared_context(
        "involved_agents".to_string(),
        JsonValue::Array(vec![s("researcher"), s("writer")]),
    );
    forest.set_shared_context("task_status".to_string(), s("in_progress"));
    let context = forest.get_shared_context();
    assert_eq!(text(context.get("task_status")), Some("in_progress".to_string()));
    assert!(context.get("current_task").is_some());
    assert!(context.get("involved_agents").is_some());
}

#[test]
fn test_forest_error_handling() {
    let mut forest = ForestOfAgents::new();
    let result = forest.send_message("nonexistent", Some("target"), "test".to_string());
    assert!(result.is_err());
    let result = CollabRun::start(&mut forest, "nonexistent", "test task", &vec![]);
    assert!(result.is_err());
    forest.add_agent("real_agent".to_string(), Agent::new("real_agent")).unwrap();
    let result = CollabRun::start(&mut forest, "real_agent", "test task", &vec!["nonexistent".to_string()]);
    assert!(result.is_err());
}

#[test]
fn forest_tools_are_described() {
    let ds = forest_tool_definitions("a");
    let names: Vec<&str> = ds.iter().map(|d| d.function.name.as_str()).collect();
    assert_eq!(names, vec!["send_message", "delegate_task", "share_context", "update_task_memory", "create_plan"]);
    assert_eq!(ds[0].function.parameters.required, Some(vec!["message".to_string()]));
}

#[test]
fn response_rounds_stop_at_the_limit() {
    let mut forest = ForestOfAgents::with_max_iterations(1);
    forest.add_agent("alice".to_string(), Agent::new("alice")).unwrap();
    forest.add_agent("bob".to_string(), Agent::new("bob")).unwrap();
    let involved = vec!["alice".to_string(), "bob".to_string()];
    forest.send_message("alice", Some("bob"), "ping".to_string()).unwrap();
    assert_eq!(forest.respond_round(&involved, 0), vec!["bob".to_string()]);
    assert!(forest.message_queue.is_empty());
    forest.send_message("bob", Some("alice"), "pong".to_string()).unwrap();
    assert!(forest.respond_round(&involved, 1).is_empty());
    assert_eq!(forest.message_queue.len(), 1);
}

#[test]
fn shared_context_is_stamped_with_the_time_in_rfc3339() {
    let mut ctx = SharedContext::new();
    let args = obj(vec![("key", s("k")), ("value", s("v"))]);
    share_context_tool("a", &args, &mut ctx).unwrap();
    let stamp = text(member(member(ctx.get("k").unwrap(), "metadata").unwrap(), "timestamp")).unwrap();
    assert!(stamp.ends_with("+00:00"), "{}", stamp);
    assert_eq!(&stamp[4..5], "-");
    assert_eq!(&stamp[10..11], "T");
}
