use shared_handlers::ai::{FunctionCall, ToolCall};
use shared_handlers::error::GatewayErrorKind;
use shared_handlers::mcp::{initialize_default_mcp_servers, McpRegistry, McpServer, McpServerStatus, McpTool};

fn tool(name: &str, server: &str) -> McpTool {
    McpTool {
        name: name.to_string(),
        description: format!("{} tool", name),
        schema: "{}".to_string(),
        server: server.to_string(),
    }
}

fn group(name: &str, tools: Vec<McpTool>) -> McpServer {
    McpServer {
        name: name.to_string(),
        description: String::new(),
        version: "1.0.0".to_string(),
        tools,
        status: McpServerStatus::Active,
    }
}

fn tool_names(registry: &McpRegistry) -> Vec<String> {
    registry.get_available_tools().into_iter().map(|t| t.function.name).collect()
}

fn invoke(name: &str) -> ToolCall {
    ToolCall {
        id: "call_1".to_string(),
        kind: "function".to_string(),
        function: FunctionCall { name: name.to_string(), arguments: "{\"path\":\"/a\"}".to_string() },
    }
}

#[test]
fn defaults_list_three_tools() {
    let mut registry = McpRegistry::new();
    initialize_default_mcp_servers(&mut registry);
    assert_eq!(tool_names(&registry), vec!["read_file", "write_file", "search_web"]);
    let tools = registry.get_available_tools();
    assert_eq!(tools[0].kind, "function");
    assert_eq!(tools[0].function.description, "Read contents of a file");
    assert_eq!(registry.get_servers().len(), 2);
}

#[test]
fn register_then_unregister_restores_tools() {
    let mut registry = McpRegistry::new();
    initialize_default_mcp_servers(&mut registry);
    let before = tool_names(&registry);
    registry.register_server(group("extra", vec![tool("alpha", "extra"), tool("beta", "extra")]));
    assert_eq!(tool_names(&registry).len(), 5);
    registry.unregister_server("extra");
    assert_eq!(tool_names(&registry), before);
    assert_eq!(registry.get_servers().len(), 2);
}

#[test]
fn unregister_unknown_group_is_a_no_op() {
    let mut registry = McpRegistry::new();
    initialize_default_mcp_servers(&mut registry);
    registry.unregister_server("nope");
    assert_eq!(tool_names(&registry), vec!["read_file", "write_file", "search_web"]);
}

#[test]
fn colliding_tool_name_last_write_wins() {
    let mut registry = McpRegistry::new();
    registry.register_server(group("one", vec![tool("shared", "one"), tool("solo", "one")]));
    registry.register_server(group("two", vec![tool("shared", "two")]));
    assert_eq!(tool_names(&registry), vec!["shared", "solo"]);
    let out = registry.execute_tool_call(&invoke("shared")).ok().unwrap();
    assert!(out.ends_with("(Mock result from MCP server 'two')"));
    registry.unregister_server("two");
    assert_eq!(tool_names(&registry), vec!["solo"]);
}

#[test]
fn execute_known_tool() {
    let mut registry = McpRegistry::new();
    initialize_default_mcp_servers(&mut registry);
    let out = registry.execute_tool_call(&invoke("read_file")).ok().unwrap();
    assert_eq!(
        out,
        "Tool 'read_file' executed with arguments: {\"path\":\"/a\"}. (Mock result from MCP server 'filesystem')"
    );
}

#[test]
fn execute_unknown_tool_fails() {
    let registry = McpRegistry::new();
    let err = registry.execute_tool_call(&invoke("missing")).err().unwrap();
    assert_eq!(err.kind, GatewayErrorKind::ToolNotFound);
    assert_eq!(err.detail, "Tool 'missing' not found in MCP registry");
}

#[test]
fn duplicate_names_within_group_round_trip() {
    let mut registry = McpRegistry::new();
    initialize_default_mcp_servers(&mut registry);
    let before = tool_names(&registry);
    registry.register_server(group("dup", vec![tool("x", "dup"), tool("x", "dup")]));
    assert_eq!(tool_names(&registry).len(), 4);
    registry.unregister_server("dup");
    assert_eq!(tool_names(&registry), before);
}

#[test]
fn defaults_are_active_groups() {
    let mut registry = McpRegistry::new();
    initialize_default_mcp_servers(&mut registry);
    let servers = registry.get_servers();
    assert_eq!(servers[0].name, "filesystem");
    assert_eq!(servers[1].name, "web_search");
    assert!(matches!(servers[0].status, McpServerStatus::Active));
    assert_eq!(servers[1].tools[0].name, "search_web");
}
