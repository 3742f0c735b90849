use helios_engine::builtin_tools::{JsonParserTool, TimestampTool};
use helios_engine::json::{JsonNumber, JsonValue};
use helios_engine::json_tool::{json_tool_answer, json_tool_request, rendered_answer, JsonAnswer};

fn s(x: &str) -> JsonValue {
    JsonValue::String(x.to_string())
}

fn n(x: u64) -> JsonValue {
    JsonValue::Number(JsonNumber::PosInt(x))
}

fn obj(pairs: Vec<(&str, JsonValue)>) -> JsonValue {
    JsonValue::Object(pairs.into_iter().map(|(k, v)| (k.to_string(), v)).collect())
}

fn done_output(a: JsonAnswer) -> (bool, String) {
    match a {
        JsonAnswer::Done(Ok(r)) => (r.success, r.output),
        _ => panic!("expected a finished answer"),
    }
}

#[test]
fn test_json_parser_tool_parse() {
    let tool = JsonParserTool;
    assert_eq!(tool.name(), "json_parser");
    let args = obj(vec![("operation", s("parse")), ("json", s("{\"key\": \"value\", \"number\": 42}"))]);
    let q = json_tool_request(&args).unwrap();
    let parsed = obj(vec![("key", s("value")), ("number", n(42))]);
    let (ok, out) = done_output(json_tool_answer(q, Ok(parsed), None));
    assert!(ok);
    assert!(out.contains("\u{2713} JSON parsed successfully"));
    assert!(out.contains("Type: object"));
    assert_eq!(out, "\u{2713} JSON parsed successfully\nType: object\nKeys: {2}");
}

#[test]
fn test_json_parser_tool_get_value() {
    let args = obj(vec![
        ("operation", s("get_value")),
        ("json", s("{\"user\": {\"name\": \"Alice\", \"age\": 30}}")),
        ("path", s("user.name")),
    ]);
    let q = json_tool_request(&args).unwrap();
    let parsed = obj(vec![("user", obj(vec![("name", s("Alice")), ("age", n(30))]))]);
    match json_tool_answer(q, Ok(parsed), None) {
        JsonAnswer::Render { head, value, .. } => {
            assert_eq!(head, "Value at path 'user.name': ");
            match value {
                JsonValue::String(v) => assert_eq!(v, "Alice"),
                _ => panic!("expected a string"),
            }
            let r = rendered_answer(&head, "\"Alice\"");
            assert!(r.success);
            assert!(r.output.contains("Alice"));
        },
        _ => panic!("expected a value to render"),
    }
}

#[test]
fn test_json_parser_tool_validate() {
    let args = obj(vec![("operation", s("validate")), ("json", s("{\"valid\": true}"))]);
    let q = json_tool_request(&args).unwrap();
    let (ok, out) = done_output(json_tool_answer(q, Ok(obj(vec![("valid", JsonValue::Bool(true))])), None));
    assert!(ok);
    assert!(out.contains("\u{2713} JSON is valid"));

    let args = obj(vec![("operation", s("validate")), ("json", s("{\"invalid\": }"))]);
    let q = json_tool_request(&args).unwrap();
    let (ok, out) = done_output(json_tool_answer(q, Err("expected value at line 1 column 13".to_string()), None));
    assert!(!ok);
    assert!(out.contains("\u{2717} JSON validation failed"));
}

#[test]
fn test_json_parser_tool_stringify() {
    let args = obj(vec![("operation", s("stringify")), ("json", s("  {\"key\": \"value\"}  "))]);
    let q = json_tool_request(&args).unwrap();
    match json_tool_answer(q, Ok(obj(vec![("key", s("value"))])), None) {
        JsonAnswer::Render { head, pretty, .. } => {
            assert_eq!(head, "");
            assert!(pretty);
        },
        _ => panic!("expected a value to render"),
    }
}

fn timestamp(args: JsonValue) -> helios_engine::tools::ToolResult {
    TimestampTool.execute(&args).unwrap().unwrap()
}

#[test]
fn test_timestamp_tool_now() {
    assert_eq!(TimestampTool.name(), "timestamp");
    let result = timestamp(obj(vec![("operation", s("now"))]));
    assert!(result.success);
    assert!(result.output.contains("Current time"));
    assert!(result.output.contains("Unix timestamp"));
    assert!(result.output.contains("RFC3339"));
}

#[test]
fn test_timestamp_tool_format() {
    let result = timestamp(obj(vec![
        ("operation", s("format")),
        ("timestamp", s("1640995200")),
        ("format", s("%Y-%m-%d")),
    ]));
    assert!(result.success);
    assert!(result.output.contains("2022-01-01"));
}

#[test]
fn test_timestamp_tool_add() {
    let result = timestamp(obj(vec![
        ("operation", s("add")),
        ("timestamp", s("2022-01-01T00:00:00Z")),
        ("unit", s("days")),
        ("amount", n(5)),
    ]));
    assert!(result.success);
    assert!(result.output.contains("Added 5 days"));
}

#[test]
fn test_timestamp_tool_diff() {
    let result = timestamp(obj(vec![
        ("operation", s("diff")),
        ("timestamp1", s("2022-01-01T00:00:00Z")),
        ("timestamp2", s("2022-01-02T00:00:00Z")),
    ]));
    assert!(result.success);
    assert!(result.output.contains("86400 seconds"));
}

#[test]
fn timestamp_bad_format_is_refused_not_panicking() {
    let r = TimestampTool.execute(&obj(vec![
        ("operation", s("format")),
        ("timestamp", s("1640995200")),
        ("format", s("%Q")),
    ]));
    assert!(r.is_none());
}

#[test]
fn timestamp_diff_does_not_depend_on_order() {
    let forward = timestamp(obj(vec![
        ("operation", s("diff")),
        ("timestamp1", s("2022-01-01T00:00:00Z")),
        ("timestamp2", s("1641081600")),
    ]));
    let backward = timestamp(obj(vec![
        ("operation", s("diff")),
        ("timestamp1", s("1641081600")),
        ("timestamp2", s("2022-01-01T00:00:00Z")),
    ]));
    let lines = |o: &str| o.lines().skip(1).map(|l| l.to_string()).collect::<Vec<_>>();
    assert_eq!(lines(&forward.output), lines(&backward.output));
    assert_eq!(lines(&forward.output), vec!["86400 seconds", "1440 minutes", "24 hours", "1 days"]);
}

#[test]
fn unix_timestamps_at_the_edge_of_the_calendar() {
    let last = timestamp(obj(vec![
        ("operation", s("diff")),
        ("timestamp1", s("8210266876799")),
        ("timestamp2", s("8210266876739")),
    ]));
    assert!(last.output.contains("\n60 seconds\n"));
    let r = TimestampTool.execute(&obj(vec![
        ("operation", s("diff")),
        ("timestamp1", s("8210266876800")),
        ("timestamp2", s("0")),
    ]));
    match r {
        Some(Err(e)) => assert_eq!(e.message(), "Tool error: Invalid unix timestamp"),
        other => panic!("expected an error, got {:?}", other),
    }
    let r = TimestampTool.execute(&obj(vec![
        ("operation", s("diff")),
        ("timestamp1", s("-8334601228801")),
        ("timestamp2", s("0")),
    ]));
    assert!(matches!(r, Some(Err(_))));
}

#[test]
fn adding_moves_the_seconds() {
    let r = timestamp(obj(vec![
        ("operation", s("add")),
        ("timestamp", s("2022-01-01T00:00:00Z")),
        ("unit", s("hours")),
        ("amount", n(2)),
    ]));
    assert!(r.output.contains("Result: 2022-01-01T02:00:00+00:00"), "{}", r.output);
    assert!(r.output.contains("Unix: 1641002400"), "{}", r.output);
    let r = timestamp(obj(vec![
        ("operation", s("subtract")),
        ("timestamp", s("2022-01-01T00:00:00Z")),
        ("unit", s("days")),
        ("amount", n(1)),
    ]));
    assert!(r.output.contains("Unix: 1640908800"), "{}", r.output);
}
