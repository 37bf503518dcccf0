use nexus_agent::invoke::{max_iterations_setting, require_goal, require_token, InvokeError};
use nexus_agent::mcp::{
    handle_call_tool, is_blank_line, list_tools, method_not_found_message, route_method,
    server_info, CallToolOutcome, CallToolParams, McpMethod, AGENT_STEP_SCHEMA, INTERNAL_ERROR_CODE,
    QUANTUM_SIM_SCHEMA,
};
use nexus_agent::rpc::{dispatch_builtin, dispatch_failed_message, BuiltinPlan};
use nexus_agent::tools::{
    CodeExecuteTool, MemoryRecallTool, MemoryStoreTool, ToolArgs, ToolKind, ToolRegistry,
    WebSearchTool,
};

fn no_args() -> ToolArgs {
    ToolArgs {
        query: None,
        num_results: None,
        key: None,
        value: None,
        ttl_seconds: None,
        language: None,
        code: None,
    }
}

#[test]
fn routes_methods() {
    assert_eq!(route_method("initialize"), McpMethod::Initialize);
    assert_eq!(route_method("tools/list"), McpMethod::ListTools);
    assert_eq!(route_method("tools/call"), McpMethod::CallTool);
    assert_eq!(route_method("tools/other"), McpMethod::NotFound);
    assert_eq!(method_not_found_message("x/y"), "Method not found: x/y");
    assert_eq!(INTERNAL_ERROR_CODE, -32603);
}

#[test]
fn call_tool_outcomes() {
    let p = CallToolParams { name: Some("quantum_sim".to_string()), branches: None, input: None };
    assert!(matches!(handle_call_tool(&p), CallToolOutcome::QuantumSim { branches: 2 }));
    let p = CallToolParams { name: Some("quantum_sim".to_string()), branches: Some(7), input: None };
    assert!(matches!(handle_call_tool(&p), CallToolOutcome::QuantumSim { branches: 7 }));
    let p = CallToolParams { name: Some("agent_react_step".to_string()), branches: None, input: None };
    match handle_call_tool(&p) {
        CallToolOutcome::Text(t) => assert_eq!(t, "🔄 ReAct Cycle 1: Processed input via GraphFlow."),
        other => panic!("unexpected {:?}", other),
    }
    let p = CallToolParams { name: None, branches: None, input: None };
    match handle_call_tool(&p) {
        CallToolOutcome::Text(t) => assert_eq!(t, "Tool not found"),
        other => panic!("unexpected {:?}", other),
    }
}

#[test]
fn registry_finds_tools_by_name() {
    let r = ToolRegistry::new();
    assert_eq!(r.find("memory_recall"), Some(ToolKind::MemoryRecall));
    assert_eq!(r.find("web_search"), Some(ToolKind::WebSearch));
    assert_eq!(r.find("nope"), None);
    let d: ToolRegistry = Default::default();
    assert_eq!(d.tools, r.tools);
    let names: Vec<String> = r.schemas().into_iter().map(|s| s.name).collect();
    assert_eq!(names, vec!["web_search", "memory_store", "memory_recall", "code_execute"]);
    for s in r.schemas() {
        let v: serde_json::Value = serde_json::from_str(&s.input_schema).unwrap();
        assert_eq!(v["type"], "object");
    }
}

#[test]
fn tool_schemas() {
    assert_eq!(WebSearchTool.schema().description, "Search the web for current information on any topic");
    assert_eq!(MemoryStoreTool.schema().name, "memory_store");
    assert_eq!(MemoryRecallTool.schema().name, "memory_recall");
    let s = CodeExecuteTool.schema();
    let v: serde_json::Value = serde_json::from_str(&s.input_schema).unwrap();
    assert_eq!(v["properties"]["timeout_ms"]["default"], 5000);
    assert_eq!(v["required"][0], "language");
    assert_eq!(v["required"][1], "code");
}

#[test]
fn tool_argument_defaults() {
    let a = no_args();
    assert_eq!(a.query(), "");
    assert_eq!(a.num_results(), 5);
    assert_eq!(a.key(), "default");
    assert_eq!(a.value(), "");
    assert_eq!(a.language(), "unknown");
    assert_eq!(a.code(), "");
    let mut b = no_args();
    b.key = Some("k".to_string());
    b.num_results = Some(9);
    assert_eq!(b.key(), "k");
    assert_eq!(b.num_results(), 9);
}

#[test]
fn builtin_dispatch_plans() {
    let mut a = no_args();
    a.query = Some("rust".to_string());
    match dispatch_builtin("web_search", &a) {
        BuiltinPlan::WebSearch { query, snippet } => {
            assert_eq!(query, "rust");
            assert_eq!(snippet, "This is a placeholder result for query: 'rust'");
        }
        _ => panic!("wrong plan"),
    }
    match dispatch_builtin("memory_store", &no_args()) {
        BuiltinPlan::MemoryStore { key, value } => {
            assert_eq!(key, "default");
            assert_eq!(value, "");
        }
        _ => panic!("wrong plan"),
    }
    assert!(matches!(dispatch_builtin("memory_recall", &no_args()), BuiltinPlan::MemoryRecall { .. }));
    match dispatch_builtin("code_execute", &no_args()) {
        BuiltinPlan::CodeExecute { language } => assert_eq!(language, "unknown"),
        _ => panic!("wrong plan"),
    }
    match dispatch_builtin("rm_rf", &no_args()) {
        BuiltinPlan::Unknown { error } => assert_eq!(error, "Unknown tool: rm_rf"),
        _ => panic!("wrong plan"),
    }
    assert_eq!(dispatch_failed_message(502, "bad gateway"), "Tool dispatch failed (502): bad gateway");
}

#[test]
fn builtins_and_registry_agree() {
    let r = ToolRegistry::new();
    for name in ["web_search", "memory_store", "memory_recall", "code_execute", "other", ""] {
        let unknown = matches!(dispatch_builtin(name, &no_args()), BuiltinPlan::Unknown { .. });
        assert_eq!(unknown, r.find(name).is_none(), "name {:?}", name);
    }
}

#[test]
fn invocation_settings() {
    assert_eq!(max_iterations_setting(None), 5);
    assert_eq!(max_iterations_setting(Some("12".to_string())), 12);
    assert_eq!(max_iterations_setting(Some("twelve".to_string())), 5);
    assert_eq!(max_iterations_setting(Some("0".to_string())), 0);
    assert!(matches!(require_token(None), Err(InvokeError::MissingToken)));
    assert_eq!(require_token(Some("t".to_string())).unwrap(), "t");
    assert!(matches!(require_goal(None), Err(InvokeError::MissingGoal)));
    assert_eq!(InvokeError::MissingGoal.message(), "Missing 'goal' in request body");
    assert_eq!(InvokeError::MissingToken.message(), "Missing Cf-Access-Jwt-Assertion header");
}

#[test]
fn server_lists_its_two_tools() {
    let tools = list_tools();
    assert_eq!(tools.len(), 2);
    assert_eq!(tools[0].name, "quantum_sim");
    assert_eq!(tools[0].description, "Run a Ψ-Branching Quantum Simulation");
    assert_eq!(tools[0].input_schema, QUANTUM_SIM_SCHEMA);
    assert_eq!(tools[1].name, "agent_react_step");
    assert_eq!(tools[1].description, "Execute a ReAct Agent Step via GraphFlow");
    assert_eq!(tools[1].input_schema, AGENT_STEP_SCHEMA);
    let schema: serde_json::Value = serde_json::from_str(QUANTUM_SIM_SCHEMA).unwrap();
    assert_eq!(schema["properties"]["branches"]["type"], "integer");
    let schema: serde_json::Value = serde_json::from_str(AGENT_STEP_SCHEMA).unwrap();
    assert_eq!(schema["properties"]["input"]["type"], "string");
}

#[test]
fn blank_request_lines_are_skipped() {
    assert!(is_blank_line(""));
    assert!(is_blank_line("  \t \r"));
    assert!(!is_blank_line(" {} "));
}

#[test]
fn server_describes_itself_on_initialize() {
    let info = server_info();
    assert_eq!(info.protocol_version, "2024-11-05");
    assert_eq!(info.name, "quantum_neofuse_mcp");
    assert_eq!(info.version, "0.1.0");
}
