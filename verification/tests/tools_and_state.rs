use stele::json::Json;
use stele::models::MemoryType;
use stele::steop::{blob_meta, merge_state_data, state_after_put};
use stele::tools::{
    bootstrap_project, entity_not_found, forget_memory_reply, get_memory_reply, memory_from_params, new_memory,
    project_family, project_scope, recall_search, relation_endpoint_missing, relation_label, render_template,
    update_memory_reply, BootstrapProjectParams, ProjectFamily, RecallMemoriesParams, StoreMemoryParams,
};

fn obj(members: Vec<(&str, Json)>) -> Json {
    Json::Object(members.into_iter().map(|(k, v)| (k.to_string(), v)).collect())
}

fn params(t: Option<&str>) -> StoreMemoryParams {
    StoreMemoryParams {
        title: "T".to_string(),
        content: "C".to_string(),
        scope: "acme/web".to_string(),
        tags: vec!["ui".to_string()],
        memory_type: t.map(|s| s.to_string()),
        author: Some("me".to_string()),
    }
}

#[test]
fn stored_memory_defaults_to_knowledge() {
    let m = memory_from_params(params(None), "ID".to_string(), "2024".to_string());
    assert_eq!(m.memory_type, MemoryType::Knowledge);
    assert_eq!(m.created_at, "2024");
    assert_eq!(m.updated_at, "2024");
    let m = memory_from_params(params(Some("decision")), "ID".to_string(), "t".to_string());
    assert_eq!(m.memory_type, MemoryType::Decision);
    let m = new_memory(params(Some("weird")));
    assert_eq!(m.memory_type, MemoryType::Other);
    assert_eq!(m.id.len(), 26);
    assert_eq!(m.created_at, m.updated_at);
    assert_ne!(new_memory(params(None)).id, m.id);
}

#[test]
fn recall_uses_one_scope() {
    let s = recall_search(RecallMemoriesParams {
        query: Some("q".to_string()),
        scope: Some("acme".to_string()),
        tags: None,
        match_all_tags: true,
        limit: Some(5),
    });
    assert_eq!(s.scope, Some(vec!["acme".to_string()]));
    assert!(s.match_all_tags);
    assert_eq!(s.limit, Some(5));
}

#[test]
fn tool_answers() {
    assert_eq!(get_memory_reply("x", Ok(None)), "Memory not found: x");
    assert_eq!(get_memory_reply("x", Ok(Some("{}".to_string()))), "{}");
    assert_eq!(get_memory_reply("x", Err("db".to_string())), "Error getting memory: db");
    assert_eq!(forget_memory_reply("x", Ok(true)), "Memory deleted: x");
    assert_eq!(forget_memory_reply("x", Ok(false)), "Memory not found: x");
    assert_eq!(update_memory_reply("x", Ok(true), Ok(None)), "Memory not found after update: x");
    assert_eq!(update_memory_reply("x", Err("e".to_string()), Ok(None)), "Error updating memory: e");
    assert_eq!(entity_not_found("A", "s"), "Entity 'A' not found in scope 's'");
    assert_eq!(relation_label("A", "calls", "B"), "A --[calls]--> B");
    assert_eq!(relation_endpoint_missing("A", "B", "s"), "Error: entity 'A' or 'B' not found in scope 's'");
}

#[test]
fn project_scopes_and_families() {
    assert_eq!(project_scope("web", &Some("acme".to_string())), "acme/web");
    assert_eq!(project_scope("web", &None), "web");
    assert!(project_family("sdk") == ProjectFamily::Library);
    assert!(project_family("ml") == ProjectFamily::Data);
    assert!(project_family("general") == ProjectFamily::General);
}

#[test]
fn templates() {
    let vars = vec![("a".to_string(), "1".to_string()), ("ab".to_string(), "2".to_string())];
    assert_eq!(render_template("x{a}y{ab}z{{a}}{c}", &vars), "x1y2z{a}{c}");
    assert_eq!(render_template("plain", &vars), "plain");
}

#[test]
fn bootstrap_protocol() {
    let p = BootstrapProjectParams {
        project_name: "web".to_string(),
        parent_scope: Some("acme".to_string()),
        project_type: Some("web-app".to_string()),
    };
    let text = bootstrap_project(&p);
    assert!(text.starts_with("## Stele Shared Memory Protocol — web\n"));
    assert!(text.contains("**Scope:** `acme/web` | **Type:** web-app"));
    assert!(text.contains("**Entity types:** `component, page, service, store, api-endpoint, library, person`"));
    assert!(text.contains("| `acme`        | Workspace-wide standards             | Yes                          |"));
    assert!(text.contains("{name: \"OrderService\""));
    assert!(!text.contains("{scope}"));
    let p = BootstrapProjectParams { project_name: "solo".to_string(), parent_scope: None, project_type: None };
    let text = bootstrap_project(&p);
    assert!(text.contains("**Type:** general"));
    assert!(text.contains("N/A (top-level)"));
    assert!(text.contains("- `#architecture` — architectural decisions"));
}

#[test]
fn state_merge() {
    let old = obj(vec![("a", Json::Int(1)), ("b", Json::Int(2))]);
    let new = obj(vec![("b", Json::Int(3)), ("c", Json::Int(4))]);
    let merged = merge_state_data(Some(old), new, true);
    assert!(matches!(merged.get("a"), Some(Json::Int(1))));
    assert!(matches!(merged.get("b"), Some(Json::Int(3))));
    assert!(matches!(merged.get("c"), Some(Json::Int(4))));
    let replaced = merge_state_data(Some(obj(vec![("a", Json::Int(1))])), obj(vec![("c", Json::Int(4))]), false);
    assert!(replaced.get("a").is_none());
    let fresh = merge_state_data(None, obj(vec![("c", Json::Int(4))]), true);
    assert!(matches!(fresh.get("c"), Some(Json::Int(4))));
    let scalar = merge_state_data(Some(obj(vec![("a", Json::Int(1))])), Json::Int(9), true);
    assert!(matches!(scalar, Json::Int(9)));
    let m = blob_meta("s", "k", "now".to_string());
    assert_eq!((m.scope.as_str(), m.key.as_str(), m.updated_at.as_str()), ("s", "k", "now"));
    let st = state_after_put("sess", Json::Null, None, "t".to_string());
    assert_eq!(st.session_id, "sess");
    assert!(st.counters.is_empty());
}
