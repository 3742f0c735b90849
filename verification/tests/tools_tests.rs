use std::sync::{Arc, Mutex};
use helios_engine::builtin_tools::{CalculatorTool, EchoTool, HttpRequestTool, ShellCommandTool, SystemInfoTool, TextProcessorTool, WebScraperTool};
use helios_engine::error::HeliosError;
use helios_engine::json::{JsonNumber, JsonValue};
use helios_engine::memory_db::MemoryDBTool;
use helios_engine::strmap::StringMap;
use helios_engine::tools::ToolRegistry;
use helios_engine::web_tools::{
    calculator_expression, extract_text_from_html, http_request_args, http_request_plan, http_request_report,
    shell_command_report, shell_command_request, system_info_category, system_info_report, web_scraper_report,
    web_scraper_request, CalcExpr, FetchOutcome, HttpOutcome, ShellOutcome, SystemCategory,
};

fn s(x: &str) -> JsonValue {
    JsonValue::String(x.to_string())
}

fn obj(pairs: Vec<(&str, JsonValue)>) -> JsonValue {
    JsonValue::Object(pairs.into_iter().map(|(k, v)| (k.to_string(), v)).collect())
}

fn tool_error_text(e: HeliosError) -> String {
    match e {
        HeliosError::ToolError(m) => m,
        other => panic!("expected a tool error, got {:?}", other),
    }
}

#[test]
fn test_echo_tool() {
    let tool = EchoTool;
    assert_eq!(tool.name(), "echo");
    assert_eq!(tool.description(), "Echo back the provided message.");

    let args = obj(vec![("message", s("Hello, world!"))]);
    let result = tool.execute(&args).unwrap();
    assert!(result.success);
    assert_eq!(result.output, "Echo: Hello, world!");
}

#[test]
fn test_echo_tool_missing_parameter() {
    let tool = EchoTool;
    let args = obj(vec![]);
    let result = tool.execute(&args);
    assert!(result.is_err());
    assert_eq!(tool_error_text(result.unwrap_err()), "Missing 'message' parameter");
}

fn leaf(e: &CalcExpr) -> &str {
    match e {
        CalcExpr::Number(t) => t.as_str(),
        _ => panic!("expected a number"),
    }
}

#[test]
fn calculator_reads_sum() {
    let tool = CalculatorTool;
    assert_eq!(tool.name(), "calculator");
    assert_eq!(tool.description(), "Perform basic arithmetic operations. Supports +, -, *, / operations.");
    let e = calculator_expression(&obj(vec![("expression", s("2 + 2"))])).unwrap();
    match e {
        CalcExpr::Binary { op, left, right } => {
            assert_eq!(op, '+');
            assert_eq!(leaf(&left), "2");
            assert_eq!(leaf(&right), "2");
        },
        _ => panic!("expected a sum"),
    }
}

#[test]
fn calculator_multiplication_binds_tighter() {
    // "2+3*4" reads as 2+(3*4).
    let e = calculator_expression(&obj(vec![("expression", s("2 + 3 * 4"))])).unwrap();
    match e {
        CalcExpr::Binary { op, left, right } => {
            assert_eq!(op, '+');
            assert_eq!(leaf(&left), "2");
            match *right {
                CalcExpr::Binary { op, left, right } => {
                    assert_eq!(op, '*');
                    assert_eq!(leaf(&left), "3");
                    assert_eq!(leaf(&right), "4");
                },
                _ => panic!("expected a product on the right"),
            }
        },
        _ => panic!("expected a sum"),
    }
}

#[test]
fn calculator_subtraction_associates_left() {
    // "10-4-3" reads as (10-4)-3.
    let e = calculator_expression(&obj(vec![("expression", s("10-4-3"))])).unwrap();
    match e {
        CalcExpr::Binary { op, left, right } => {
            assert_eq!(op, '-');
            assert_eq!(leaf(&right), "3");
            match *left {
                CalcExpr::Binary { op, left, right } => {
                    assert_eq!(op, '-');
                    assert_eq!(leaf(&left), "10");
                    assert_eq!(leaf(&right), "4");
                },
                _ => panic!("expected a difference on the left"),
            }
        },
        _ => panic!("expected a difference"),
    }
}

#[test]
fn calculator_sign_after_operator() {
    // In "2*-3" the minus is the sign of -3.
    let e = calculator_expression(&obj(vec![("expression", s("2*-3"))])).unwrap();
    match e {
        CalcExpr::Binary { op, left, right } => {
            assert_eq!(op, '*');
            assert_eq!(leaf(&left), "2");
            assert_eq!(leaf(&right), "-3");
        },
        _ => panic!("expected a product"),
    }
}

#[test]
fn calculator_leading_minus_is_part_of_number() {
    let e = calculator_expression(&obj(vec![("expression", s("-5"))])).unwrap();
    assert_eq!(leaf(&e), "-5");
    let e = calculator_expression(&obj(vec![("expression", s("invalid"))])).unwrap();
    assert_eq!(leaf(&e), "invalid");
    let e = calculator_expression(&obj(vec![("expression", s("8 / 0"))])).unwrap();
    match e {
        CalcExpr::Binary { op, left, right } => {
            assert_eq!(op, '/');
            assert_eq!(leaf(&left), "8");
            assert_eq!(leaf(&right), "0");
        },
        _ => panic!("expected a quotient"),
    }
}

#[test]
fn calculator_missing_expression() {
    let r = calculator_expression(&obj(vec![]));
    assert_eq!(tool_error_text(r.unwrap_err()), "Missing 'expression' parameter");
}

#[test]
fn test_tool_registry_new() {
    let registry: ToolRegistry<EchoTool> = ToolRegistry::new();
    assert!(registry.tools.is_empty());
}

#[test]
fn test_tool_registry_register_and_get() {
    let mut registry = ToolRegistry::new();
    registry.register("calculator", CalculatorTool);
    let tool = registry.get("calculator");
    assert!(tool.is_some());
    assert_eq!(tool.unwrap().name(), "calculator");
}

#[test]
fn test_tool_registry_execute_nonexistent_tool() {
    let registry: ToolRegistry<CalculatorTool> = ToolRegistry::new();
    let result = registry.tool_for_call("nonexistent");
    assert!(result.is_err());
    assert_eq!(tool_error_text(result.unwrap_err()), "Tool 'nonexistent' not found");
}

#[test]
fn test_tool_registry_list_tools() {
    let mut registry = ToolRegistry::new();
    registry.register("calculator", "c");
    registry.register("echo", "e");
    let tools = registry.list_tools();
    assert_eq!(tools.len(), 2);
    assert!(tools.contains(&"calculator".to_string()));
    assert!(tools.contains(&"echo".to_string()));
}

#[test]
fn registry_replaces_tool_of_same_name() {
    let mut registry = ToolRegistry::new();
    registry.register("echo", 1);
    registry.register("echo", 2);
    assert_eq!(registry.list_tools(), vec!["echo".to_string()]);
    assert_eq!(registry.get("echo"), Some(&2));
}

#[test]
fn test_tool_registry_get_definitions() {
    let calc = CalculatorTool.to_definition();
    let echo = EchoTool.to_definition();
    assert_eq!(calc.function.name, "calculator");
    assert_eq!(echo.function.name, "echo");
    assert_eq!(calc.function.parameters.required, Some(vec!["expression".to_string()]));
    assert_eq!(calc.tool_type, "function");
}

#[test]
fn test_memory_db_set_and_get() {
    let mut tool = MemoryDBTool::new();
    let result = tool.execute(&obj(vec![("operation", s("set")), ("key", s("name")), ("value", s("Alice"))])).unwrap();
    assert!(result.success);
    assert!(result.output.contains("Set 'name' = 'Alice'"));
    let result = tool.execute(&obj(vec![("operation", s("get")), ("key", s("name"))])).unwrap();
    assert!(result.success);
    assert!(result.output.contains("Alice"));
}

#[test]
fn test_memory_db_delete() {
    let mut tool = MemoryDBTool::new();
    tool.execute(&obj(vec![("operation", s("set")), ("key", s("temp")), ("value", s("data"))])).unwrap();
    let result = tool.execute(&obj(vec![("operation", s("delete")), ("key", s("temp"))])).unwrap();
    assert!(result.success);
    assert!(result.output.contains("Deleted 'temp'"));
    let result = tool.execute(&obj(vec![("operation", s("get")), ("key", s("temp"))])).unwrap();
    assert!(!result.success);
    assert!(result.output.contains("not found"));
}

#[test]
fn test_memory_db_exists() {
    let mut tool = MemoryDBTool::new();
    let result = tool.execute(&obj(vec![("operation", s("exists")), ("key", s("test"))])).unwrap();
    assert!(result.success);
    assert!(result.output.contains("false"));
    tool.execute(&obj(vec![("operation", s("set")), ("key", s("test")), ("value", s("value"))])).unwrap();
    let result = tool.execute(&obj(vec![("operation", s("exists")), ("key", s("test"))])).unwrap();
    assert!(result.success);
    assert!(result.output.contains("true"));
}

#[test]
fn test_memory_db_list() {
    let mut tool = MemoryDBTool::new();
    let result = tool.execute(&obj(vec![("operation", s("list"))])).unwrap();
    assert!(result.success);
    assert!(result.output.contains("empty"));
    tool.execute(&obj(vec![("operation", s("set")), ("key", s("key1")), ("value", s("value1"))])).unwrap();
    tool.execute(&obj(vec![("operation", s("set")), ("key", s("key2")), ("value", s("value2"))])).unwrap();
    let result = tool.execute(&obj(vec![("operation", s("list"))])).unwrap();
    assert!(result.success);
    assert!(result.output.contains("2 items"));
    assert!(result.output.contains("key1"));
    assert!(result.output.contains("key2"));
}

#[test]
fn test_memory_db_clear() {
    let mut tool = MemoryDBTool::new();
    tool.execute(&obj(vec![("operation", s("set")), ("key", s("key1")), ("value", s("value1"))])).unwrap();
    tool.execute(&obj(vec![("operation", s("set")), ("key", s("key2")), ("value", s("value2"))])).unwrap();
    let result = tool.execute(&obj(vec![("operation", s("clear"))])).unwrap();
    assert!(result.success);
    assert!(result.output.contains("2 items removed"));
    let result = tool.execute(&obj(vec![("operation", s("list"))])).unwrap();
    assert!(result.output.contains("empty"));
}

#[test]
fn test_memory_db_invalid_operation() {
    let mut tool = MemoryDBTool::new();
    let result = tool.execute(&obj(vec![("operation", s("invalid_op"))]));
    assert!(result.is_err());
}

#[test]
fn test_memory_db_shared_instance() {
    // One database behind two handles, as agents share it.
    let shared_db = Arc::new(Mutex::new(MemoryDBTool::with_shared_db(StringMap::new())));
    let tool1 = shared_db.clone();
    let tool2 = shared_db.clone();

    tool1
        .lock()
        .unwrap()
        .execute(&obj(vec![("operation", s("set")), ("key", s("shared")), ("value", s("data"))]))
        .unwrap();

    let result = tool2.lock().unwrap().execute(&obj(vec![("operation", s("get")), ("key", s("shared"))])).unwrap();
    assert!(result.success);
    assert!(result.output.contains("data"));
}

#[test]
fn test_web_scraper_tool() {
    let tool = WebScraperTool;
    assert_eq!(tool.name(), "web_scraper");
    let result = web_scraper_request(&obj(vec![]));
    assert!(result.is_err());
}

#[test]
fn web_scraper_defaults_and_report() {
    let req = web_scraper_request(&obj(vec![("url", s("http://x"))])).unwrap();
    assert!(req.extract_text);
    assert_eq!(req.timeout_seconds, 30);
    let page = "<html><body>\n  <p>Hello</p>\n\n  <b>World</b>  \n</body></html>";
    let out = web_scraper_report(
        &req,
        FetchOutcome::Responded {
            code: 200,
            status: "200 OK".to_string(),
            content_type: Some("text/html; charset=utf-8".to_string()),
            body: Ok(page.to_string()),
        },
    )
    .unwrap();
    assert!(out.success);
    assert_eq!(out.output, "Content fetched from: http://x\nContent-Type: text/html; charset=utf-8\n\nHello\nWorld");
    let err = web_scraper_report(
        &req,
        FetchOutcome::Responded { code: 404, status: "404 Not Found".to_string(), content_type: None, body: Ok(String::new()) },
    );
    assert_eq!(tool_error_text(err.unwrap_err()), "HTTP request failed with status: 404 Not Found");
    let err = web_scraper_report(&req, FetchOutcome::SendFailed("refused".to_string()));
    assert_eq!(tool_error_text(err.unwrap_err()), "HTTP request failed: refused");
}

#[test]
fn html_text_extraction() {
    assert_eq!(extract_text_from_html("<p>a</p>\n\n<p> b </p>"), "a\nb");
    assert_eq!(extract_text_from_html("plain"), "plain");
    assert_eq!(extract_text_from_html("<br/>"), "");
}

#[test]
fn test_shell_command_tool_blocked() {
    let tool = ShellCommandTool;
    assert_eq!(tool.name(), "shell_command");
    let result = shell_command_request(&obj(vec![("command", s("rm -rf /"))]));
    assert!(result.is_err());
    assert!(result.unwrap_err().message().contains("Command blocked"));
}

#[test]
fn shell_command_checks_in_order_and_caps_timeout() {
    let e = shell_command_request(&obj(vec![("command", s("ls | grep x > out"))])).unwrap_err();
    assert_eq!(tool_error_text(e), "Command blocked for safety: contains '>'");
    let q = shell_command_request(&obj(vec![
        ("command", s("echo 'hello world'")),
        ("timeout_seconds", JsonValue::Number(JsonNumber::PosInt(120))),
    ]))
    .unwrap();
    assert_eq!(q.timeout_seconds, 60);
    let q = shell_command_request(&obj(vec![("command", s("echo hi"))])).unwrap();
    assert_eq!(q.timeout_seconds, 30);
    let r = shell_command_report(
        &q,
        ShellOutcome::Exited { code: Some(0), stdout: b"hello world\n".to_vec(), stderr: vec![] },
    )
    .unwrap();
    assert!(r.success);
    assert!(r.output.contains("hello world"));
    assert_eq!(r.output, "Command: echo hi\nExit code: 0\nStdout:\nhello world\n\n");
    let r = shell_command_report(&q, ShellOutcome::Exited { code: None, stdout: vec![], stderr: b"boom".to_vec() })
        .unwrap();
    assert!(!r.success);
    assert_eq!(r.output, "Command: echo hi\nExit code: -1\nStderr:\nboom\n");
    let e = shell_command_report(&q, ShellOutcome::TimedOut).unwrap_err();
    assert_eq!(tool_error_text(e), "Command timed out after 30 seconds");
}

#[test]
fn test_http_request_tool_missing_method() {
    let tool = HttpRequestTool;
    assert_eq!(tool.name(), "http_request");
    let result = http_request_args(&obj(vec![("url", s("https://httpbin.org/get"))]));
    assert!(result.is_err());
}

#[test]
fn http_request_plan_and_report() {
    let args = obj(vec![
        ("method", s("post")),
        ("url", s("http://h/x")),
        ("headers", obj(vec![("A", s("1")), ("B", JsonValue::Bool(true))])),
        ("body", s("payload")),
    ]);
    let a = http_request_args(&args).unwrap();
    assert_eq!(a.timeout_seconds, 30);
    let plan = http_request_plan(&args, &a).unwrap();
    assert_eq!(plan.method, "POST");
    assert_eq!(plan.headers, vec![("A".to_string(), "1".to_string())]);
    assert_eq!(plan.body, Some("payload".to_string()));
    let r = http_request_report(
        &plan,
        HttpOutcome::Responded {
            code: 201,
            status: "201 Created".to_string(),
            headers: vec![("x".to_string(), Some("y".to_string())), ("z".to_string(), None)],
            body: None,
        },
    )
    .unwrap();
    assert!(r.success);
    assert_eq!(r.output, "HTTP POST http://h/x\nStatus: 201 Created\n\nResponse Headers:\nx: y\n\nResponse Body:\nBinary content");
    let bad = obj(vec![("method", s("options")), ("url", s("u"))]);
    let a = http_request_args(&bad).unwrap();
    assert_eq!(tool_error_text(http_request_plan(&bad, &a).unwrap_err()), "Unsupported HTTP method: options");
    let get = obj(vec![("method", s("GET")), ("url", s("u")), ("body", s("ignored"))]);
    let a = http_request_args(&get).unwrap();
    assert_eq!(http_request_plan(&get, &a).unwrap().body, None);
}

#[test]
fn test_system_info_tool() {
    let tool = SystemInfoTool;
    assert_eq!(tool.name(), "system_info");
    let cat = system_info_category(&obj(vec![("category", s("os"))])).unwrap();
    assert_eq!(cat, SystemCategory::Os);
    let os = helios_engine::web_tools::os_section("linux", "x86_64", "unix", Some("box".to_string()), 42);
    let r = system_info_report(cat, &os, "cpu", "mem", "disk", "net");
    assert!(r.success);
    assert!(r.output.contains("Operating System"));
    assert!(r.output.contains("OS:"));
    assert_eq!(
        r.output,
        "=== Operating System ===\nOS: linux\nArchitecture: x86_64\nFamily: unix\nHostname: box\nUptime: 42 seconds\n\n"
    );
}

#[test]
fn system_info_unknown_category_and_all() {
    let e = system_info_category(&obj(vec![("category", s("gpu"))])).unwrap_err();
    assert_eq!(tool_error_text(e), "Unknown category 'gpu'. Use: all, os, cpu, memory, disk, network");
    assert_eq!(system_info_category(&obj(vec![])).unwrap(), SystemCategory::All);
    let r = system_info_report(SystemCategory::All, "a", "b", "c", "d", "e");
    assert_eq!(r.output, "abcde");
    let cpu = helios_engine::web_tools::cpu_section(
        2,
        &vec!["1.0".to_string(), "2.0".to_string(), "3.0".to_string(), "4.0".to_string(), "5.0".to_string()],
    );
    assert_eq!(
        cpu,
        "=== CPU Information ===\nPhysical cores: 2\nLogical cores: 5\nCPU 0: 1.0% usage\nCPU 1: 2.0% usage\nCPU 2: 3.0% usage\nCPU 3: 4.0% usage\n... and more CPUs\n\n"
    );
    let mem = helios_engine::web_tools::memory_section(3 * 1024 * 1024, 1024 * 1024, 2 * 1024 * 1024, "33.3");
    assert_eq!(mem, "=== Memory Information ===\nTotal memory: 3 MB\nUsed memory: 1 MB\nAvailable memory: 2 MB\nMemory usage: 33.3%\n\n");
}

#[test]
fn test_text_processor_tool_search() {
    let tool = TextProcessorTool;
    assert_eq!(tool.name(), "text_processor");
    let args = obj(vec![
        ("operation", s("search")),
        ("text", s("Hello world, hello universe")),
        ("pattern", s("hello")),
        ("case_sensitive", JsonValue::Bool(false)),
    ]);
    let result = tool.execute(&args).unwrap();
    assert!(result.success);
    assert!(result.output.contains("Found 2 match(es)"));
}

#[test]
fn test_text_processor_tool_replace() {
    let tool = TextProcessorTool;
    let args = obj(vec![
        ("operation", s("replace")),
        ("text", s("Hello world")),
        ("pattern", s("world")),
        ("replacement", s("universe")),
    ]);
    let result = tool.execute(&args).unwrap();
    assert!(result.success);
    assert!(result.output.contains("Replaced 1 occurrence"));
    assert!(result.output.contains("Hello universe"));
}

#[test]
fn test_text_processor_tool_count() {
    let tool = TextProcessorTool;
    let result = tool.execute(&obj(vec![("operation", s("count")), ("text", s("Hello\nworld"))])).unwrap();
    assert!(result.success);
    assert!(result.output.contains("Characters: 11"));
    assert!(result.output.contains("Lines: 2"));
    assert!(result.output.contains("Words: 2"));
}

#[test]
fn test_text_processor_tool_uppercase() {
    let tool = TextProcessorTool;
    let result = tool.execute(&obj(vec![("operation", s("uppercase")), ("text", s("hello world"))])).unwrap();
    assert!(result.success);
    assert_eq!(result.output, "HELLO WORLD");
}

#[test]
fn test_text_processor_tool_trim() {
    let tool = TextProcessorTool;
    let result = tool.execute(&obj(vec![("operation", s("trim")), ("text", s("  hello world  "))])).unwrap();
    assert!(result.success);
    assert_eq!(result.output, "hello world");
}
