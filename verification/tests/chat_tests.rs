use helios_engine::config::{chat_command, ChatCommand};
use helios_engine::chat::{ChatMessage, ChatSession, Role};

#[test]
fn test_role_from_str() {
    assert_eq!(Role::from("system"), Role::System);
    assert_eq!(Role::from("user"), Role::User);
    assert_eq!(Role::from("assistant"), Role::Assistant);
    assert_eq!(Role::from("tool"), Role::Tool);
    assert_eq!(Role::from("unknown"), Role::Assistant);
    assert_eq!(Role::from("SYSTEM"), Role::System);
}

#[test]
fn test_chat_message_constructors() {
    let system_msg = ChatMessage::system("System message");
    assert_eq!(system_msg.role, Role::System);
    assert_eq!(system_msg.content, "System message");
    assert!(system_msg.name.is_none());
    assert!(system_msg.tool_calls.is_none());
    assert!(system_msg.tool_call_id.is_none());

    let user_msg = ChatMessage::user("User message");
    assert_eq!(user_msg.role, Role::User);
    assert_eq!(user_msg.content, "User message");

    let assistant_msg = ChatMessage::assistant("Assistant message");
    assert_eq!(assistant_msg.role, Role::Assistant);
    assert_eq!(assistant_msg.content, "Assistant message");

    let tool_msg = ChatMessage::tool("Tool result", "tool_call_123");
    assert_eq!(tool_msg.role, Role::Tool);
    assert_eq!(tool_msg.content, "Tool result");
    assert_eq!(tool_msg.tool_call_id, Some("tool_call_123".to_string()));
}

#[test]
fn test_chat_session_new() {
    let session = ChatSession::new();
    assert!(session.messages.is_empty());
    assert!(session.system_prompt.is_none());
}

#[test]
fn test_chat_session_with_system_prompt() {
    let session = ChatSession::new().with_system_prompt("Test system prompt");
    assert_eq!(session.system_prompt, Some("Test system prompt".to_string()));
}

#[test]
fn test_chat_session_add_message() {
    let mut session = ChatSession::new();
    let msg = ChatMessage::user("Test message");
    session.add_message(msg);
    assert_eq!(session.messages.len(), 1);
}

#[test]
fn test_chat_session_add_user_message() {
    let mut session = ChatSession::new();
    session.add_user_message("Test user message");
    assert_eq!(session.messages.len(), 1);
    assert_eq!(session.messages[0].role, Role::User);
    assert_eq!(session.messages[0].content, "Test user message");
}

#[test]
fn test_chat_session_add_assistant_message() {
    let mut session = ChatSession::new();
    session.add_assistant_message("Test assistant message");
    assert_eq!(session.messages.len(), 1);
    assert_eq!(session.messages[0].role, Role::Assistant);
    assert_eq!(session.messages[0].content, "Test assistant message");
}

#[test]
fn test_chat_session_get_messages() {
    let mut session = ChatSession::new().with_system_prompt("System prompt");
    session.add_user_message("User message");
    session.add_assistant_message("Assistant message");

    let messages = session.get_messages();
    assert_eq!(messages.len(), 3);
    assert_eq!(messages[0].role, Role::System);
    assert_eq!(messages[0].content, "System prompt");
    assert_eq!(messages[1].role, Role::User);
    assert_eq!(messages[1].content, "User message");
    assert_eq!(messages[2].role, Role::Assistant);
    assert_eq!(messages[2].content, "Assistant message");
}

#[test]
fn test_chat_session_clear() {
    let mut session = ChatSession::new();
    session.add_user_message("Test message");
    assert!(!session.messages.is_empty());

    session.clear();
    assert!(session.messages.is_empty());
}

#[test]
fn session_metadata_round_trip() {
    let mut session = ChatSession::new();
    session.set_metadata("topic", "rust");
    assert_eq!(session.get_metadata("topic"), Some(&"rust".to_string()));
    assert_eq!(session.remove_metadata("topic"), Some("rust".to_string()));
    assert_eq!(session.get_metadata("topic"), None);
}

#[test]
fn test_chat_message_creation() {
    let system_msg = ChatMessage::system("System prompt");
    assert_eq!(system_msg.role, Role::System);
    assert_eq!(system_msg.content, "System prompt");

    let user_msg = ChatMessage::user("User message");
    assert_eq!(user_msg.role, Role::User);
    assert_eq!(user_msg.content, "User message");

    let assistant_msg = ChatMessage::assistant("Assistant response");
    assert_eq!(assistant_msg.role, Role::Assistant);
    assert_eq!(assistant_msg.content, "Assistant response");

    let tool_msg = ChatMessage::tool("Tool result", "call_123");
    assert_eq!(tool_msg.role, Role::Tool);
    assert_eq!(tool_msg.content, "Tool result");
    assert_eq!(tool_msg.tool_call_id, Some("call_123".to_string()));
}

#[test]
fn test_chat_session_management() {
    let mut session = ChatSession::new().with_system_prompt("Test system prompt");

    session.add_user_message("Hello");
    session.add_assistant_message("Hi there!");
    session.add_user_message("How are you?");

    assert_eq!(session.messages.len(), 3);

    let all_messages = session.get_messages();
    assert_eq!(all_messages.len(), 4);

    assert_eq!(all_messages[0].role, Role::System);
    assert_eq!(all_messages[0].content, "Test system prompt");

    session.clear();
    assert!(session.messages.is_empty());
}

#[test]
fn test_role_enum_conversions() {
    assert_eq!(Role::from("system"), Role::System);
    assert_eq!(Role::from("user"), Role::User);
    assert_eq!(Role::from("assistant"), Role::Assistant);
    assert_eq!(Role::from("tool"), Role::Tool);

    assert_eq!(Role::from("SYSTEM"), Role::System);
    assert_eq!(Role::from("User"), Role::User);

    assert_eq!(Role::from("invalid"), Role::Assistant);
}

#[test]
fn metadata_set_then_get_and_removed_keys() {
    let mut session = ChatSession::new();
    session.set_metadata("k", "v1");
    session.set_metadata("other", "x");
    session.set_metadata("k", "v2");
    assert_eq!(session.get_metadata("k"), Some(&"v2".to_string()));
    session.remove_metadata("other");
    assert_eq!(session.get_metadata("other"), None);
    assert_eq!(session.get_metadata("never"), None);
}

#[test]
fn chat_commands() {
    assert!(matches!(chat_command("   "), ChatCommand::Nothing));
    assert!(matches!(chat_command(" EXIT "), ChatCommand::Exit));
    assert!(matches!(chat_command("quit"), ChatCommand::Exit));
    assert!(matches!(chat_command("Clear"), ChatCommand::Clear));
    assert!(matches!(chat_command("help"), ChatCommand::Help));
    assert!(matches!(chat_command("history"), ChatCommand::History));
    assert!(matches!(chat_command("summary"), ChatCommand::Summary));
    match chat_command("  Hello there \n") {
        ChatCommand::Message(t) => assert_eq!(t, "Hello there"),
        other => panic!("expected a message, got {:?}", other),
    }
}
