use stele::json::Json;
use stele::mcp::{
    extract_profile_param, http_error_reply, inject_local_tools, list_profiles_reply, make_error_reply, mcp_url,
    parse_sse_lines, plan_message, profile_listing, request_id, McpAction,
};
use stele::profiles::{set_profile, SteleConfig};

fn obj(members: Vec<(&str, Json)>) -> Json {
    Json::Object(members.into_iter().map(|(k, v)| (k.to_string(), v)).collect())
}

fn text(s: &str) -> Json {
    Json::Str(s.to_string())
}

fn dbg(j: &Json) -> String {
    format!("{j:?}")
}

fn call(tool: &str, args: Json) -> Json {
    obj(vec![
        ("jsonrpc", text("2.0")),
        ("id", Json::Int(7)),
        ("method", text("tools/call")),
        ("params", obj(vec![("name", text(tool)), ("arguments", args)])),
    ])
}

#[test]
fn profile_argument_is_taken_out() {
    let mut m = call("recall", obj(vec![("query", text("q")), ("profile", text("work"))]));
    assert_eq!(extract_profile_param(&mut m).as_deref(), Some("work"));
    assert_eq!(dbg(&m), dbg(&call("recall", obj(vec![("query", text("q"))]))));
    assert!(extract_profile_param(&mut m).is_none());
}

#[test]
fn non_string_profile_is_removed_but_not_used() {
    let mut m = call("recall", obj(vec![("profile", Json::Int(1))]));
    assert!(extract_profile_param(&mut m).is_none());
    assert_eq!(dbg(&m), dbg(&call("recall", obj(vec![]))));
}

#[test]
fn tools_list_gains_local_tool_and_profile_property() {
    let tool = obj(vec![
        ("name", text("store_memory")),
        ("inputSchema", obj(vec![("type", text("object")), ("properties", obj(vec![("title", obj(vec![]))]))])),
    ]);
    let mut resp = obj(vec![("id", Json::Int(1)), ("result", obj(vec![("tools", Json::Array(vec![tool]))]))]);
    inject_local_tools(&mut resp);
    let tools = match resp.get("result").and_then(|r| r.get("tools")) {
        Some(Json::Array(t)) => t,
        _ => panic!("no tools"),
    };
    assert_eq!(tools.len(), 2);
    let props = tools[0].get("inputSchema").and_then(|s| s.get("properties")).unwrap();
    assert!(props.get("profile").is_some());
    assert!(props.get("title").is_some());
    assert_eq!(tools[1].get("name").and_then(|n| n.as_str()), Some("list_profiles"));
}

#[test]
fn other_responses_are_untouched() {
    let mut resp = obj(vec![("result", obj(vec![("content", Json::Array(vec![]))]))]);
    let before = dbg(&resp);
    inject_local_tools(&mut resp);
    assert_eq!(dbg(&resp), before);
}

#[test]
fn event_stream_messages() {
    let lines: Vec<String> = ["event: message", "data: {\"a\":1}", "", "data: x", "data: y", "", ": comment", "data: tail"]
        .iter()
        .map(|s| s.to_string())
        .collect();
    assert_eq!(parse_sse_lines(&lines), vec!["{\"a\":1}".to_string(), "x\ny".to_string(), "tail".to_string()]);
    assert!(parse_sse_lines(&vec!["".to_string(), "id: 1".to_string()]).is_empty());
}

#[test]
fn endpoints_drop_trailing_slashes() {
    assert_eq!(mcp_url("http://h:3100/"), "http://h:3100/mcp");
    assert_eq!(mcp_url("http://h:3100//"), "http://h:3100/mcp");
    assert_eq!(mcp_url("http://h:3100"), "http://h:3100/mcp");
}

#[test]
fn error_replies() {
    let r = http_error_reply(Json::Int(3), 404, "nope");
    let e = r.get("error").unwrap();
    assert_eq!(e.get("message").and_then(|m| m.as_str()), Some("HTTP 404: nope"));
    assert_eq!(e.get("code").and_then(|c| c.as_i64()), Some(-32000));
    assert!(matches!(r.get("id"), Some(Json::Int(3))));
    let r = make_error_reply(Json::Null, -32602, "m".to_string());
    assert!(matches!(r.get("id"), Some(Json::Null)));
}

#[test]
fn request_ids() {
    assert!(matches!(request_id(&Some(obj(vec![("id", text("a"))]))), Json::Str(s) if s == "a"));
    assert!(matches!(request_id(&Some(obj(vec![]))), Json::Null));
    assert!(matches!(request_id(&None), Json::Null));
}

fn config() -> SteleConfig {
    let mut c = SteleConfig::default();
    set_profile(&mut c, "work", "http://work:9/", Some("wk".to_string()), false);
    c
}

#[test]
fn list_profiles_is_answered_locally() {
    let mut m = call("list_profiles", obj(vec![]));
    match plan_message(&mut m, &config(), "local") {
        McpAction::ListProfiles(id) => assert!(matches!(id, Json::Int(7))),
        _ => panic!("expected a local answer"),
    }
    let listing = profile_listing(&config(), "local");
    match &listing {
        Json::Array(items) => {
            assert_eq!(items.len(), 2);
            assert!(matches!(items[0].get("is_default"), Some(Json::Bool(true))));
            assert!(matches!(items[1].get("is_default"), Some(Json::Bool(false))));
        }
        _ => panic!("not an array"),
    }
    let reply = list_profiles_reply(Json::Int(7), "[]".to_string());
    assert!(reply.get("result").is_some());
}

#[test]
fn calls_are_routed_by_profile() {
    let mut m = call("recall", obj(vec![("profile", text("work"))]));
    match plan_message(&mut m, &config(), "local") {
        McpAction::Forward(url, key) => {
            assert_eq!(url, "http://work:9/mcp");
            assert_eq!(key.as_deref(), Some("wk"));
        }
        _ => panic!("expected a forward"),
    }
    let mut m = call("recall", obj(vec![("profile", text("ghost"))]));
    match plan_message(&mut m, &config(), "local") {
        McpAction::Reply(r) => {
            let e = r.get("error").unwrap();
            assert_eq!(e.get("code").and_then(|c| c.as_i64()), Some(-32602));
            assert_eq!(e.get("message").and_then(|c| c.as_str()), Some("Unknown profile: ghost"));
        }
        _ => panic!("expected a refusal"),
    }
    let mut m = call("recall", obj(vec![]));
    assert!(matches!(plan_message(&mut m, &config(), "local"), McpAction::Forward(u, None) if u == "http://127.0.0.1:3100/mcp"));
    let mut m = obj(vec![("method", text("tools/list"))]);
    assert!(matches!(plan_message(&mut m, &config(), "local"), McpAction::ListTools(u, _) if u == "http://127.0.0.1:3100/mcp"));
    let mut m = obj(vec![("method", text("initialize"))]);
    assert!(matches!(plan_message(&mut m, &config(), "work"), McpAction::Forward(u, _) if u == "http://work:9/mcp"));
}
