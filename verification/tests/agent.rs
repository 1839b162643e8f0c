use symposium::agent::process::{parse_line, split_command};
use symposium::agent::protocol::{number, JsonRpcNotification, JsonRpcRequest};
use symposium::agent::tools::{handle_tool_call, is_client_tool, tool_query, tracker_unavailable};
use symposium::agent::worker::{on_exit, on_message, on_timeout, time_left, tool_call};
use symposium::agent::{
    listed_servers, mcp_config_text, mcp_file_name, merge_servers, normalize_mcp_entry,
    project_servers, write_mcp_config, AgentRunner,
};
use symposium::collections::StringMap;
use symposium::config::schema::{McpServerConfig, ServiceConfig};
use symposium::domain::session::AgentEventKind;
use symposium::error::Error;
use symposium::json::Json;
use symposium::time::Duration;

fn servers() -> StringMap<McpServerConfig> {
    let mut servers = StringMap::new();
    servers.insert(
        "sentry".to_string(),
        McpServerConfig {
            server_type: "http".to_string(),
            url: Some("https://mcp.sentry.dev/mcp".to_string()),
            ..Default::default()
        },
    );
    let mut env = StringMap::new();
    env.insert("API_KEY".to_string(), "secret".to_string());
    servers.insert(
        "linter".to_string(),
        McpServerConfig {
            server_type: "stdio".to_string(),
            command: Some("npx".to_string()),
            args: Some(vec!["-y".to_string(), "@my-org/linter-mcp".to_string()]),
            env: Some(env),
            ..Default::default()
        },
    );
    servers
}

#[test]
fn write_mcp_config_produces_valid_json() {
    let contents = write_mcp_config(&servers(), &None).unwrap();
    let parsed: serde_json::Value = serde_json::from_str(&contents).unwrap();

    let mcp_servers = parsed.get("mcpServers").expect("mcpServers key");

    // HTTP servers should be wrapped as stdio via mcp-remote
    let sentry = mcp_servers.get("sentry").expect("sentry server");
    assert_eq!(sentry["command"], "npx");
    assert_eq!(sentry["args"][0], "-y");
    assert_eq!(sentry["args"][1], "mcp-remote");
    assert_eq!(sentry["args"][2], "https://mcp.sentry.dev/mcp");
    assert!(sentry.get("type").is_none(), "HTTP servers should not have a type field");

    // stdio servers remain unchanged
    let linter = mcp_servers.get("linter").expect("linter server");
    assert_eq!(linter["type"], "stdio");
    assert_eq!(linter["command"], "npx");
    assert_eq!(linter["args"][0], "-y");
    assert_eq!(linter["env"]["API_KEY"], "secret");
}

#[test]
fn workflow_servers_replace_project_servers() {
    let text = r#"{"mcpServers":{"sentry":{"command":"old"},"extra":{"type":"http","url":"https://x"}}}"#;
    let project = project_servers(text);
    assert_eq!(project.as_ref().unwrap().len(), 2);
    let merged = merge_servers(project.as_ref().unwrap(), &servers());
    assert_eq!(merged.len(), 3);
    let sentry = merged.get("sentry").unwrap();
    assert_eq!(sentry.array_at("args").unwrap()[2].as_str(), Some("https://mcp.sentry.dev/mcp"));
    let extra = merged.get("extra").unwrap();
    assert_eq!(extra.str_at("command"), Some("npx"));
    assert!(extra.get("url").is_none());

    let written = write_mcp_config(&StringMap::new(), &project).unwrap();
    let parsed = parse_line(&written).unwrap();
    assert_eq!(parsed.get("mcpServers").unwrap().as_object().unwrap().len(), 2);
}

#[test]
fn project_files_may_hold_no_servers() {
    assert!(project_servers("not json").is_none());
    assert!(listed_servers(&parse_line("{}").unwrap()).is_none());
    assert!(project_servers(r#"{"mcpServers":{}}"#).unwrap().is_empty());
}

#[test]
fn remote_entries_are_wrapped() {
    let remote = parse_line(r#"{"type":"http","url":"https://x"}"#).unwrap();
    let wrapped = normalize_mcp_entry(&remote).unwrap();
    assert_eq!(wrapped.str_at("command"), Some("npx"));
    let args: Vec<&str> =
        wrapped.array_at("args").unwrap().iter().filter_map(|a| a.as_str()).collect();
    assert_eq!(args, vec!["-y", "mcp-remote", "https://x"]);
    assert!(normalize_mcp_entry(&parse_line(r#"{"type":"http"}"#).unwrap()).is_none());
}

#[test]
fn config_files_are_pretty_and_named_apart() {
    let text = mcp_config_text(&parse_line(r#"{"a":[1]}"#).unwrap()).unwrap();
    assert_eq!(text, "{\n  \"a\": [\n    1\n  ]\n}");
    assert_eq!(mcp_file_name("A", 1, 23), "symposium-mcp-A-1-23.json");
}

#[test]
fn agents_are_told_where_their_servers_are() {
    let mut config = ServiceConfig::default();
    config.codex.command = "agent".to_string();
    assert!(!AgentRunner::new(config.clone()).needs_mcp_config());
    config.mcp_servers = servers();
    let runner = AgentRunner::new(config);
    assert!(runner.needs_mcp_config());
    let plain = "agent -p --output-format stream-json --verbose --no-session-persistence --dangerously-skip-permissions";
    assert_eq!(runner.session_command(None), plain);
    assert_eq!(
        runner.session_command(Some("/tmp/x.json")),
        format!("{plain} --strict-mcp-config --mcp-config /tmp/x.json")
    );
}

#[test]
fn commands_are_split_at_white_space() {
    let (program, args) = split_command(" agent  -p --verbose ").unwrap();
    assert_eq!(program, "agent");
    assert_eq!(args, vec!["-p", "--verbose"]);
    assert!(matches!(split_command("  "), Err(Error::Agent(_))));
}

#[test]
fn lines_hold_messages() {
    let json = parse_line(" {\"a\": [1, -2, 1.5, true, null, \"x\"]}\n").unwrap();
    let items = json.array_at("a").unwrap();
    assert_eq!(items.len(), 6);
    match &items[0] {
        Json::Number(n) => assert_eq!(n.unsigned, Some(1)),
        other => panic!("{other:?}"),
    }
    match &items[1] {
        Json::Number(n) => assert_eq!((n.text.as_str(), n.unsigned), ("-2", None)),
        other => panic!("{other:?}"),
    }
    assert!(matches!(parse_line("{"), Err(Error::AgentProtocol(_))));
}

#[test]
fn messages_become_reports() {
    let turn = on_message(&parse_line(r#"{"type":"system","subtype":"init"}"#).unwrap(), "");
    assert!(turn.running);
    assert!(turn.end.is_none());
    assert_eq!(turn.events.len(), 1);

    let long = "x".repeat(400);
    let said = format!(
        r#"{{"type":"assistant","message":{{"content":[{{"type":"text","text":"{long}"}},{{"type":"tool_use","name":"Bash","input":{{"command":"ls"}}}},{{"type":"other"}}]}}}}"#
    );
    let turn = on_message(&parse_line(&said).unwrap(), "");
    assert_eq!(turn.events.len(), 2);
    match &turn.events[0] {
        AgentEventKind::Text { text } => assert_eq!(text.len(), 300),
        other => panic!("{other:?}"),
    }
    match &turn.events[1] {
        AgentEventKind::ToolCall { name, arguments } => {
            assert_eq!(name, "Bash");
            assert_eq!(arguments, r#"{"command":"ls"}"#);
        }
        other => panic!("{other:?}"),
    }

    let done = r#"{"type":"result","result":"ok","num_turns":3}"#;
    let turn = on_message(&parse_line(done).unwrap(), "0.1250");
    assert!(matches!(turn.end, Some(Ok(true))));
    match &turn.events[1] {
        AgentEventKind::Status { status } => {
            assert_eq!(status, "Completed in 3 turns ($0.1250)")
        }
        other => panic!("{other:?}"),
    }

    let failed = r#"{"type":"result","result":"no","is_error":true}"#;
    let turn = on_message(&parse_line(failed).unwrap(), "0");
    assert!(matches!(turn.end, Some(Err(Error::Agent(_)))));
    assert!(on_message(&parse_line("[]").unwrap(), "").events.is_empty());
    assert!(on_exit().end.is_some());
}

#[test]
fn sessions_end_when_their_time_is_over() {
    let limit = Duration::from_millis(90_500);
    let half = Duration::from_millis(500);
    assert_eq!(time_left(half, limit), Some(Duration::from_secs(90)));
    assert_eq!(time_left(limit, limit), None);
    let turn = on_timeout(limit);
    match turn.end {
        Some(Err(Error::Agent(message))) => {
            assert_eq!(message, "agent session timed out after 90s")
        }
        other => panic!("{other:?}"),
    }
    assert_eq!(turn.events.len(), 1);
}

#[test]
fn tool_input_is_cut() {
    match tool_call("T", &"y".repeat(201)) {
        AgentEventKind::ToolCall { arguments, .. } => assert_eq!(arguments.len(), 200),
        other => panic!("{other:?}"),
    }
}

#[test]
fn client_tools_query_the_tracker() {
    let args = parse_line(r#"{"query":"SELECT 1"}"#).unwrap();
    assert!(is_client_tool("notion_query"));
    assert!(!is_client_tool("Bash"));
    assert_eq!(tool_query("notion_query", &args).unwrap(), "SELECT 1");
    assert!(tool_query("notion_query", &parse_line("{}").unwrap()).is_err());
    assert!(tool_query("Bash", &args).is_err());
    let reply = handle_tool_call("notion_query", &args).unwrap();
    assert_eq!(reply.str_at("error"), Some("notion_query requires tracker context"));
    assert!(handle_tool_call("Bash", &args).is_err());
    assert_eq!(tracker_unavailable().str_at("error"), Some("tracker not available"));
}

#[test]
fn rpc_messages_have_their_fields() {
    let request = JsonRpcRequest::new(5, "run", Some(Json::Bool(true))).into_json();
    assert_eq!(request.str_at("jsonrpc"), Some("2.0"));
    assert_eq!(request.u64_at("id"), Some(5));
    assert_eq!(request.bool_at("params"), Some(true));
    let bare = JsonRpcNotification::new("note", None).into_json();
    assert_eq!(bare.str_at("method"), Some("note"));
    assert!(bare.get("params").is_none());
    assert!(bare.get("id").is_none());
    match number(7) {
        Json::Number(n) => assert_eq!(n.text, "7"),
        other => panic!("{other:?}"),
    }
}
