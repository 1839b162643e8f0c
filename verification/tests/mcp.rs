use symposium::agent::process::parse_line;
use symposium::error::Error;
use symposium::tracker::mcp::{
    empty_object, initialize_params, notification_line, notification_text, on_closed, on_line,
    read_reply, request_line, request_text, server_program, tool_params,
};
use symposium::tracker::mcp_http::{
    after_status, parse_json_response, parse_response, parse_sse_response, HttpStep,
};

#[test]
fn requests_are_lines_of_json() {
    let line = request_line(7, "tools/call", tool_params("search", empty_object()));
    assert!(line.ends_with('\n'));
    assert_eq!(line.trim_end(), request_text(7, "tools/call", tool_params("search", empty_object())));
    let sent = parse_line(line.trim_end()).unwrap();
    assert_eq!(sent.str_at("jsonrpc"), Some("2.0"));
    assert_eq!(sent.u64_at("id"), Some(7));
    assert_eq!(sent.str_at("method"), Some("tools/call"));
    assert_eq!(sent.get("params").unwrap().str_at("name"), Some("search"));

    let note = notification_line("notifications/initialized", empty_object());
    assert_eq!(note.trim_end(), notification_text("notifications/initialized", empty_object()));
    let note = parse_line(note.trim_end()).unwrap();
    assert!(note.get("id").is_none());
    assert_eq!(note.str_at("method"), Some("notifications/initialized"));
}

#[test]
fn initialization_names_the_client() {
    let params = initialize_params("2024-11-05", "0.1.0");
    assert_eq!(params.str_at("protocolVersion"), Some("2024-11-05"));
    assert_eq!(params.get("clientInfo").unwrap().str_at("name"), Some("symposium"));
    assert_eq!(params.get("clientInfo").unwrap().str_at("version"), Some("0.1.0"));
}

#[test]
fn replies_are_told_apart_by_id() {
    let reply = |text: &str| read_reply(&parse_line(text).unwrap(), 3);
    assert!(reply(r#"{"id":4,"result":{}}"#).is_none());
    assert!(reply(r#"{"method":"x"}"#).is_none());
    assert_eq!(
        reply(r#"{"id":3,"result":{"a":"b"}}"#).unwrap().unwrap().str_at("a"),
        Some("b")
    );
    assert!(matches!(
        reply(r#"{"id":3,"error":{"message":"no"}}"#).unwrap().unwrap_err(),
        Error::Mcp(_)
    ));
    assert!(on_line("not json", 3).is_none() || on_line("not json", 3).unwrap().is_err());
    assert!(on_line(r#"{"id":3,"result":1}"#, 3).unwrap().is_ok());
    assert!(matches!(on_closed(), Error::Mcp(_)));
}

#[test]
fn servers_are_started_by_program_and_arguments() {
    let (program, args) = server_program("npx -y server", vec![]).unwrap();
    assert_eq!(program, "npx");
    assert_eq!(args, vec!["-y", "server"]);
    let (program, args) = server_program("my server", vec!["--flag".to_string()]).unwrap();
    assert_eq!(program, "my server");
    assert_eq!(args, vec!["--flag"]);
    assert!(server_program("  ", vec![]).is_err());
}

#[test]
fn json_responses_are_read() {
    let ok = parse_json_response(r#"{"jsonrpc":"2.0","id":1,"result":{"x":"y"}}"#, 1).unwrap();
    assert_eq!(ok.str_at("x"), Some("y"));
    assert!(parse_json_response(r#"{"id":1,"error":{"message":"bad"}}"#, 1).is_err());
    assert!(parse_json_response("nope", 1).is_err());
    let spread = "{\n  \"id\": 1,\n  \"result\": {\n    \"x\": \"y\"\n  }\n}\n";
    assert_eq!(parse_json_response(spread, 1).unwrap().str_at("x"), Some("y"));
    let by_lines = "{\"id\":1,\"result\":{\"x\":\"a\"}}\n{\"id\":2,\"result\":{\"x\":\"b\"}}\n";
    assert_eq!(parse_json_response(by_lines, 2).unwrap().str_at("x"), Some("b"));
}

#[test]
fn refused_tokens_are_refreshed_once() {
    assert_eq!(after_status(401, false), HttpStep::Refresh);
    assert_eq!(after_status(401, true), HttpStep::Read);
    assert_eq!(after_status(200, false), HttpStep::Read);
    assert_eq!(after_status(500, false), HttpStep::Read);
}

#[test]
fn event_streams_are_searched_for_the_reply() {
    let stream = "event: message\ndata: {\"id\":1,\"result\":{\"x\":\"first\"}}\n\ndata: {\"id\":2,\"result\":{\"x\":\"second\"}}\n";
    assert_eq!(parse_sse_response(stream, 2).unwrap().str_at("x"), Some("second"));
    assert!(parse_sse_response(stream, 3).is_err());
    assert!(parse_sse_response("data: {\"id\":1,\"error\":{}}\n", 1).is_err());
}

#[test]
fn responses_are_read_by_their_kind() {
    let body = r#"{"id":1,"result":{"x":"y"}}"#;
    let sse = format!("data: {body}\n\n");
    assert!(parse_response(true, "200 OK", "application/json", body, 1).is_ok());
    assert!(parse_response(true, "200 OK", "text/event-stream; charset=utf-8", &sse, 1).is_ok());
    assert!(parse_response(true, "200 OK", "application/json", &sse, 1).is_err());
    let failed = parse_response(false, "500 Internal Server Error", "application/json", "oops", 1);
    let message = failed.unwrap_err().message();
    assert!(message.contains("500"));
    assert!(message.contains("oops"));
}
