use helios_engine::auto_forest::{
    agent_outcome_text, agent_task, orchestrator_prompt, orchestrator_request, plan_from_reply, results_summary,
    synthesis_request,
};
use helios_engine::endpoint_builder::{get, post, EndpointBuilder, EndpointResponse, HttpMethod};
use helios_engine::error::HeliosError;
use helios_engine::json::{JsonNumber, JsonValue};
use helios_engine::strmap::StringMap;
use helios_engine::tool_builder::{ordered_args, FromValue, OrderedArgs, ToolBuilder};

fn s(x: &str) -> JsonValue {
    JsonValue::String(x.to_string())
}

fn n(x: u64) -> JsonValue {
    JsonValue::Number(JsonNumber::PosInt(x))
}

fn obj(pairs: Vec<(&str, JsonValue)>) -> JsonValue {
    JsonValue::Object(pairs.into_iter().map(|(k, v)| (k.to_string(), v)).collect())
}

fn noop(_: u32) -> u32 {
    0
}

#[test]
fn test_parameters_method() {
    let tool = ToolBuilder::new("calculate_area")
        .description("Calculate area of a rectangle")
        .parameters("width:i32:The width, height:i32:The height")
        .function(noop as fn(u32) -> u32)
        .build();
    assert_eq!(tool.name, "calculate_area");
    let params = &tool.parameters;
    assert!(params.contains_key("width"));
    assert!(params.contains_key("height"));
    assert_eq!(params.get("width").unwrap().param_type, "integer");
    assert_eq!(params.get("height").unwrap().param_type, "integer");
}

#[test]
fn test_parameters_with_float_types() {
    let b = ToolBuilder::<fn(u32) -> u32>::new("calculate_volume")
        .description("Calculate volume")
        .parameters("width:f64:Width in meters, height:f32:Height in meters, depth:number:Depth in meters");
    assert_eq!(b.parameters.get("width").unwrap().param_type, "number");
    assert_eq!(b.parameters.get("height").unwrap().param_type, "number");
    assert_eq!(b.parameters.get("depth").unwrap().param_type, "number");
}

#[test]
fn test_parameters_with_string_and_bool() {
    let b = ToolBuilder::<fn(u32) -> u32>::new("greet")
        .description("Greet someone")
        .parameters("name:string:Person's name, formal:bool:Use formal greeting");
    assert_eq!(b.parameters.get("name").unwrap().param_type, "string");
    assert_eq!(b.parameters.get("formal").unwrap().param_type, "boolean");
    assert_eq!(b.parameters.get("name").unwrap().description, "Person's name");
    assert_eq!(b.parameters.get("formal").unwrap().required, Some(true));
}

#[test]
fn test_parameters_empty_and_whitespace() {
    let b = ToolBuilder::<fn(u32) -> u32>::new("test")
        .description("Test tool")
        .parameters("a:i32:First, , b:i32:Second,  ,  c:string:Third  ");
    assert_eq!(b.parameters.len(), 3);
    assert!(b.parameters.contains_key("a"));
    assert!(b.parameters.contains_key("b"));
    assert!(b.parameters.contains_key("c"));
    assert_eq!(b.parameter_order, vec!["a".to_string(), "b".to_string(), "c".to_string()]);
}

#[test]
fn test_parameters_without_description() {
    let b = ToolBuilder::<fn(u32) -> u32>::new("test").description("Test tool").parameters("x:i32, y:i32");
    assert_eq!(b.parameters.len(), 2);
    assert_eq!(b.parameters.get("x").unwrap().description, "");
    assert_eq!(b.parameters.get("y").unwrap().description, "");
}

#[test]
fn parameters_keep_unknown_types_and_descriptions_with_colons() {
    let b = ToolBuilder::<fn(u32) -> u32>::new("t").parameters("when:Date:a time: like 10:30, bare, Flag:BOOL");
    assert_eq!(b.parameters.len(), 2);
    assert_eq!(b.parameters.get("when").unwrap().param_type, "Date");
    assert_eq!(b.parameters.get("when").unwrap().description, "a time: like 10:30");
    assert_eq!(b.parameters.get("Flag").unwrap().param_type, "boolean");
}

#[test]
fn optional_and_required_parameters() {
    let b = ToolBuilder::<fn(u32) -> u32>::new("t")
        .required_parameter("a", "string", "A")
        .optional_parameter("b", "number", "B");
    assert_eq!(b.parameters.get("a").unwrap().required, Some(true));
    assert_eq!(b.parameters.get("b").unwrap().required, Some(false));
    assert!(b.parameter_order.is_empty());
}

#[test]
#[should_panic(expected = "Tool function must be set before building")]
fn test_build_without_function() {
    let _tool = ToolBuilder::<fn(u32) -> u32>::new("incomplete").description("This will fail").build();
}

#[test]
fn test_try_build_without_function() {
    let result = ToolBuilder::<fn(u32) -> u32>::new("incomplete").description("This will fail").try_build();
    assert!(result.is_err());
    match result {
        Err(HeliosError::ConfigError(m)) => assert_eq!(m, "Tool function must be set before building"),
        _ => panic!("expected a configuration error"),
    }
}

#[test]
fn test_from_fn() {
    let tool = ToolBuilder::from_fn("add", "Add two numbers", "a:i32:First number, b:i32:Second number", noop as fn(u32) -> u32)
        .build();
    assert_eq!(tool.name, "add");
    assert_eq!(tool.description, "Add two numbers");
    assert_eq!((tool.function)(3), 0);
}

#[test]
fn test_endpoint_builder_get() {
    let endpoint = EndpointBuilder::get("/api/test").json(obj(vec![("test", s("data"))])).build();
    assert_eq!(endpoint.path, "/api/test");
    assert_eq!(endpoint.method, HttpMethod::Get);
}

#[test]
fn test_endpoint_response_helpers() {
    let ok_response = EndpointResponse::ok(obj(vec![("status", s("ok"))]));
    assert_eq!(ok_response.status, 200);
    let created_response = EndpointResponse::created(obj(vec![("id", n(1))]));
    assert_eq!(created_response.status, 201);
    let not_found = EndpointResponse::not_found("Resource not found");
    assert_eq!(not_found.status, 404);
    match not_found.body {
        JsonValue::Object(ms) => {
            assert_eq!(ms.len(), 1);
            assert_eq!(ms[0].0, "error");
        },
        _ => panic!("expected an object"),
    }
}

#[test]
fn orchestration_plan_from_reply() {
    let reply = obj(vec![
        ("num_agents", n(2)),
        (
            "agents",
            JsonValue::Array(vec![
                obj(vec![
                    ("name", s("researcher")),
                    ("system_prompt", s("You research")),
                    ("tool_indices", JsonValue::Array(vec![n(0), s("x"), n(2)])),
                ]),
                obj(vec![("name", s("writer")), ("role", s("Writer")), ("system_prompt", s("You write"))]),
            ]),
        ),
        ("task_breakdown", obj(vec![("researcher", s("find facts")), ("writer", n(3))])),
    ]);
    let plan = plan_from_reply("Write a report", Ok(reply)).unwrap();
    assert_eq!(plan.task, "Write a report");
    assert_eq!(plan.num_agents, 2);
    assert_eq!(plan.reasoning, "Task orchestrated");
    assert_eq!(plan.agents.len(), 2);
    assert_eq!(plan.agents[0].role, "Assistant");
    assert_eq!(plan.agents[0].tool_indices, vec![0, 2]);
    assert_eq!(plan.agents[1].role, "Writer");
    assert_eq!(agent_task(&plan, "researcher"), "find facts");
    assert_eq!(agent_task(&plan, "writer"), "");
    assert_eq!(agent_task(&plan, "other"), "Complete your assigned portion of: Write a report");
}

#[test]
fn orchestration_plan_errors() {
    let e = plan_from_reply("t", Err("expected value".to_string())).unwrap_err();
    assert_eq!(e.message(), "Agent error: Failed to parse orchestration plan: expected value");
    let e = plan_from_reply("t", Ok(obj(vec![("agents", JsonValue::Array(vec![]))]))).unwrap_err();
    assert_eq!(e.message(), "Agent error: Missing num_agents in plan");
    let e = plan_from_reply("t", Ok(obj(vec![("num_agents", n(1))]))).unwrap_err();
    assert_eq!(e.message(), "Agent error: Missing agents array in plan");
    let e = plan_from_reply(
        "t",
        Ok(obj(vec![("num_agents", n(1)), ("agents", JsonValue::Array(vec![obj(vec![("name", s("a"))])]))])),
    )
    .unwrap_err();
    assert_eq!(e.message(), "Agent error: Missing system_prompt");
}

#[test]
fn orchestration_texts() {
    let p = orchestrator_prompt(&vec![("calculator".to_string(), "does math".to_string())]);
    assert!(p.starts_with("You are an expert task orchestrator."));
    assert!(p.contains("Available tools:\n- Tool 0: calculator (does math)\n\nGiven the task"));
    assert_eq!(orchestrator_request("x"), "Task: x");
    let mut results = StringMap::new();
    results.insert("a".to_string(), "one".to_string());
    let single = results_summary("T", &results);
    assert_eq!(single, "## Task Execution Summary\n\n**Task**: T\n\n### Agent Results:\n\n**a**:\none\n\n");
    results.insert("b".to_string(), agent_outcome_text(&Err(HeliosError::LLMError("down".to_string()))));
    let both = results_summary("T", &results);
    assert!(both.ends_with("**b**:\nError: LLM error: down\n\n### Synthesized Analysis:\n\n"));
    assert_eq!(synthesis_request("S"), "Synthesize these agent results into a cohesive answer:\nS");
}

#[test]
fn test_helper_functions() {
    let endpoint = get("/api/version", obj(vec![("version", s("1.0.0"))]));
    assert_eq!(endpoint.path, "/api/version");
    assert_eq!(endpoint.method, HttpMethod::Get);
}

#[test]
fn static_post_endpoint_keeps_body() {
    let endpoint = post("/api/data", obj(vec![("data", s("example"))]));
    assert_eq!(endpoint.method, HttpMethod::Post);
    assert!(endpoint.description.is_none());
    match endpoint.handler {
        JsonValue::Object(ms) => {
            assert_eq!(ms.len(), 1);
            assert_eq!(ms[0].0, "data");
        },
        _ => panic!("expected an object"),
    }
}

#[test]
fn ordered_args_follow_parameter_order() {
    let builder: ToolBuilder<u32> = ToolBuilder::new("greet").parameters("name:string:Name, formal:bool:Formal");
    let args = obj(vec![("formal", JsonValue::Bool(true)), ("name", s("Ada"))]);
    match ordered_args(&args, &builder.parameter_order, 2, false) {
        Ok(OrderedArgs::Values(vs)) => {
            assert_eq!(vs.len(), 2);
            assert_eq!(String::from_value(vs[0].unwrap()).unwrap(), "Ada");
            assert!(bool::from_value(vs[1].unwrap()).unwrap());
        },
        other => panic!("expected values, got {:?}", other),
    }
}

#[test]
fn ordered_args_failures() {
    let order = vec!["x".to_string(), "y".to_string()];
    match ordered_args(&s("not an object"), &order, 2, false) {
        Err(e) => assert_eq!(e.message(), "Tool error: Expected JSON object for arguments"),
        other => panic!("expected an error, got {:?}", other),
    }
    match ordered_args(&obj(vec![("x", n(1))]), &order, 3, false) {
        Ok(OrderedArgs::TooFew(r)) => {
            assert!(!r.success);
            assert_eq!(r.output, "Expected at least 3 parameters");
        },
        other => panic!("expected too few, got {:?}", other),
    }
    match ordered_args(&obj(vec![("x", n(1))]), &order, 2, false) {
        Err(e) => assert_eq!(e.message(), "Tool error: Missing parameter: y"),
        other => panic!("expected an error, got {:?}", other),
    }
    match ordered_args(&obj(vec![("x", n(1))]), &order, 2, true) {
        Ok(OrderedArgs::Values(vs)) => {
            assert_eq!(vs.len(), 2);
            assert!(vs[1].is_none());
        },
        other => panic!("expected values, got {:?}", other),
    }
}

#[test]
fn argument_readings() {
    assert_eq!(i32::from_value(&n(7)).unwrap(), 7);
    assert_eq!(i32::from_value(&n(4_294_967_297)).unwrap(), 1);
    assert_eq!(i64::from_value(&JsonValue::Number(JsonNumber::NegInt(-3))).unwrap(), -3);
    assert_eq!(u32::from_value(&n(5)).unwrap(), 5);
    assert_eq!(u64::from_value(&n(u64::MAX)).unwrap(), u64::MAX);
    match u64::from_value(&JsonValue::Number(JsonNumber::NegInt(-1))) {
        Err(e) => assert_eq!(e.message(), "Tool error: Expected unsigned integer value"),
        Ok(v) => panic!("expected an error, got {}", v),
    }
    match i64::from_value(&n(u64::MAX)) {
        Err(e) => assert_eq!(e.message(), "Tool error: Expected integer value"),
        Ok(v) => panic!("expected an error, got {}", v),
    }
    match bool::from_value(&s("true")) {
        Err(e) => assert_eq!(e.message(), "Tool error: Expected boolean value"),
        Ok(v) => panic!("expected an error, got {}", v),
    }
    match String::from_value(&JsonValue::Null) {
        Err(e) => assert_eq!(e.message(), "Tool error: Expected string value"),
        Ok(v) => panic!("expected an error, got {}", v),
    }
}
