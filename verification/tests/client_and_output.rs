use stele::client::{
    graph_add_observations_request, graph_get_entity_request, graph_search_request, recall_memories_request,
    request_url, single_entity, single_relation, store_memory_request, update_memory_request, ClientError, Method,
};
use stele::graph::neighbor_ids;
use stele::json::Json;
use stele::models::{Entity, Graph, Memory, MemoryType, Observation, Relation, ScopeInfo, TagInfo};
use stele::output::{clip_text, join_strings, print_entity, print_graph, print_memories, print_memory, scopes_table, tags_table};
use stele::rest::{deletion_response, graph_scopes, list_param, memories_search, stats_response};

fn pairs(q: &[(String, String)]) -> Vec<(String, String)> {
    q.to_vec()
}

#[test]
fn client_errors_read_as_text() {
    assert_eq!(ClientError::Http("404".to_string()).message(), "HTTP error: 404");
    assert_eq!(ClientError::Json("eof".to_string()).message(), "JSON error: eof");
}

#[test]
fn memory_requests() {
    let r = store_memory_request("t", "c", "s", Some(vec!["a".to_string()]), None, Some("me".to_string()));
    assert!(r.method == Method::Post);
    assert_eq!(r.path, "/api/v1/memories");
    let body = r.body.unwrap();
    assert!(body.get("tags").is_some() && body.get("memory_type").is_none());
    assert_eq!(body.get("author").and_then(|a| a.as_str()), Some("me"));

    let r = recall_memories_request(Some("q"), None, Some(vec!["x".to_string(), "y".to_string()]), true, Some(7));
    assert!(r.method == Method::Get);
    assert_eq!(
        pairs(&r.query),
        vec![
            ("q".to_string(), "q".to_string()),
            ("tags".to_string(), "x".to_string()),
            ("tags".to_string(), "y".to_string()),
            ("match_all_tags".to_string(), "true".to_string()),
            ("limit".to_string(), "7".to_string()),
        ]
    );
    let r = update_memory_request("ID", None, Some("c".to_string()), None, None, None);
    assert!(r.method == Method::Put);
    assert_eq!(r.path, "/api/v1/memories/ID");
    assert!(matches!(r.body, Some(Json::Object(ref m)) if m.len() == 1));
    assert_eq!(request_url("http://h:1", "/api/v1/stats"), "http://h:1/api/v1/stats");
}

#[test]
fn graph_requests() {
    let r = graph_search_request("q", Some("s"), None);
    assert_eq!(pairs(&r.query), vec![("q".to_string(), "q".to_string()), ("scope".to_string(), "s".to_string())]);
    let r = graph_get_entity_request("Svc", "s");
    assert_eq!(r.path, "/api/v1/graph/entities/Svc");
    let r = graph_add_observations_request("Svc", "s", vec!["f".to_string()]);
    assert_eq!(r.path, "/api/v1/graph/entities/Svc/observations");
    assert!(r.method == Method::Post);
    match single_entity("A", "service", None) {
        Json::Array(v) => assert!(matches!(v[0].get("observations"), Some(Json::Array(o)) if o.is_empty())),
        _ => panic!("not an array"),
    }
    match single_relation("A", "B", "calls") {
        Json::Array(v) => assert_eq!(v[0].get("from_entity").and_then(|f| f.as_str()), Some("A")),
        _ => panic!("not an array"),
    }
}

fn memory(title: &str, content: &str) -> Memory {
    Memory {
        id: "01ARZ3NDEKTSV4RRFFQ69G5FAV".to_string(),
        title: title.to_string(),
        content: content.to_string(),
        memory_type: MemoryType::Convention,
        scope: "acme".to_string(),
        author: None,
        tags: vec!["a".to_string(), "b".to_string()],
        created_at: "c".to_string(),
        updated_at: "u".to_string(),
    }
}

#[test]
fn printed_memory() {
    let lines = print_memory(&memory("Title", "body"));
    assert_eq!(
        lines,
        vec!["ID:      01ARZ3NDEKTSV4RRFFQ69G5FAV", "Title:   Title", "Scope:   acme", "Type:    convention", "Tags:    a, b", "Updated: u", "", "body"]
    );
    let long = "x".repeat(600);
    let lines = print_memory(&memory("T", &long));
    assert_eq!(lines.last().unwrap(), &format!("{}...", "x".repeat(500)));
    assert_eq!(clip_text("héllo", 3), "hé...");
    assert_eq!(clip_text("héllo", 6), "héllo");
    assert_eq!(join_strings(&vec![], ", "), "");
}

#[test]
fn printed_tables() {
    assert_eq!(print_memories(&vec![]), vec!["No memories found.".to_string()]);
    let lines = print_memories(&vec![memory("A very long title that goes past the column", "c")]);
    assert_eq!(lines.len(), 3);
    assert_eq!(lines[0], format!("{:<36}  {:<30}  {:<20}  Tags", "ID", "Title", "Scope"));
    assert_eq!(lines[1], "-".repeat(100));
    assert_eq!(
        lines[2],
        format!("{:<36}  {:<30}  {:<20}  {}", "01ARZ3NDEKTSV4RRFFQ69G5FAV", "A very long title that goes ...", "acme", "a, b")
    );
    let s = scopes_table(&vec![ScopeInfo { scope: "acme".to_string(), count: 3 }]);
    assert_eq!(s[2], format!("{:<40}  {}", "acme", 3));
    let t = tags_table(&vec![]);
    assert_eq!(t, vec!["No tags found.".to_string()]);
    let t = tags_table(&vec![TagInfo { tag: "ui".to_string(), count: -1 }]);
    assert_eq!(t[2], format!("{:<30}  {}", "ui", -1));
}

fn entity(id: &str, name: &str) -> Entity {
    Entity {
        id: id.to_string(),
        name: name.to_string(),
        entity_type: "service".to_string(),
        scope: "s".to_string(),
        observations: vec![Observation { id: "o".to_string(), content: "fact".to_string(), created_at: "c".to_string() }],
        created_at: "c".to_string(),
        updated_at: "u".to_string(),
    }
}

fn relation(from: &str, to: &str) -> Relation {
    Relation {
        id: "r".to_string(),
        from_entity: from.to_string(),
        from_entity_id: from.to_lowercase(),
        to_entity: to.to_string(),
        to_entity_id: to.to_lowercase(),
        relation_type: "calls".to_string(),
        scope: "s".to_string(),
        created_at: "c".to_string(),
    }
}

#[test]
fn printed_graphs() {
    assert_eq!(print_graph(&Graph::empty()), vec!["Empty graph.".to_string()]);
    let g = Graph { entities: vec![entity("a", "A")], relations: vec![relation("A", "B")] };
    assert_eq!(
        print_graph(&g),
        vec!["Entities (1):", "  [service] A (s)", "    - fact", "", "Relations (1):", "  A --[calls]--> B"]
    );
    assert_eq!(print_entity(&entity("a", "A")), vec!["[service] A (s)", "  - fact"]);
}

#[test]
fn neighbors_of_opened_entities() {
    let ids = vec!["a".to_string()];
    let rels = vec![relation("A", "B"), relation("C", "A"), relation("A", "B")];
    assert_eq!(neighbor_ids(&ids, &rels), vec!["b".to_string(), "c".to_string()]);
}

#[test]
fn rest_parameters_and_answers() {
    assert_eq!(list_param(Some(" a, ,b ".to_string())), Some(vec!["a".to_string(), "b".to_string()]));
    assert_eq!(graph_scopes(None), vec![String::new()]);
    let s = memories_search(None, Some("x,y".to_string()), Some("t".to_string()), false, None);
    assert_eq!(s.scope, Some(vec!["x".to_string(), "y".to_string()]));
    let (status, body) = deletion_response("ID", Ok(true), "Memory not found");
    assert_eq!(status, 200);
    assert!(matches!(body.get("deleted"), Some(Json::Bool(true))));
    let (status, body) = deletion_response("ID", Ok(false), "Memory not found");
    assert_eq!(status, 404);
    assert_eq!(body.get("error").and_then(|e| e.as_str()), Some("Memory not found"));
    let stats = stele::models::Stats { total_memories: 2, total_scopes: 1, total_tags: 0, recent_memories: vec![] };
    let v = stats_response(&stats);
    assert!(matches!(v.get("total_memories"), Some(Json::Int(2))));
}
