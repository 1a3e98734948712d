use stele::models::{Memory, MemoryType};
use stele::query::{effective_limit, SearchParams};
use stele::sql::{escape_like, list_scopes_statement, search_memories_statement, SqlValue, Statement};
use stele::store::{insert_memory_statements, stats_statements, update_memory_statements, INSERT_TAG, TOUCH_MEMORY, UPDATE_TITLE};

fn texts(st: &Statement) -> Vec<String> {
    st.params
        .iter()
        .map(|p| match p {
            SqlValue::Text(s) => s.clone(),
            SqlValue::Int(i) => format!("#{i}"),
            SqlValue::Null => "NULL".to_string(),
        })
        .collect()
}

#[test]
fn memory_types_round_trip() {
    for t in [
        MemoryType::Knowledge,
        MemoryType::Decision,
        MemoryType::Convention,
        MemoryType::Troubleshooting,
        MemoryType::Reference,
        MemoryType::Other,
    ] {
        assert_eq!(MemoryType::from_str(t.as_str()), t);
    }
    assert_eq!(MemoryType::from_str("decision").as_str(), "decision");
    assert_eq!(MemoryType::from_str("no-such-type"), MemoryType::Other);
}

#[test]
fn like_escaping() {
    assert_eq!(escape_like("a_b%c\\d"), "a\\_b\\%c\\\\d");
    assert_eq!(escape_like("plain/scope"), "plain/scope");
}

#[test]
fn limits() {
    assert_eq!(effective_limit(None), 20);
    assert_eq!(effective_limit(Some(5)), 5);
    assert_eq!(effective_limit(Some(1000)), 100);
}

#[test]
fn scope_search_is_prefix_matched() {
    let p = SearchParams {
        query: None,
        scope: Some(vec!["team_a".to_string()]),
        tags: None,
        match_all_tags: false,
        limit: None,
    };
    let st = search_memories_statement(&p);
    let ps = texts(&st);
    assert!(ps.contains(&"team_a".to_string()));
    assert!(ps.contains(&"team\\_a/%".to_string()));
    assert!(ps.contains(&"#20".to_string()));
}

#[test]
fn scope_listing_with_prefix() {
    let st = list_scopes_statement(Some("acme"));
    assert!(texts(&st).len() >= 1);
    let none = list_scopes_statement(None);
    assert!(none.params.is_empty());
}

fn memory() -> Memory {
    Memory {
        id: "01H".to_string(),
        title: "T".to_string(),
        content: "C".to_string(),
        memory_type: MemoryType::Decision,
        scope: "acme".to_string(),
        author: None,
        tags: vec!["a".to_string(), "b".to_string()],
        created_at: "now".to_string(),
        updated_at: "now".to_string(),
    }
}

#[test]
fn storing_a_memory_writes_its_row_and_tags() {
    let sts = insert_memory_statements(&memory());
    assert_eq!(sts.len(), 3);
    assert_eq!(texts(&sts[0]), vec!["01H", "T", "C", "decision", "acme", "NULL", "now", "now"]);
    assert_eq!(sts[1].sql, INSERT_TAG);
    assert_eq!(texts(&sts[2]), vec!["01H", "b"]);
}

#[test]
fn updating_a_memory_sets_only_given_fields() {
    let sts = update_memory_statements("01H", &Some("New".to_string()), &None, &None, &None, &None, "t1");
    assert_eq!(sts.len(), 1);
    assert_eq!(sts[0].sql, UPDATE_TITLE);
    assert_eq!(texts(&sts[0]), vec!["New", "t1", "01H"]);

    let sts = update_memory_statements("01H", &None, &None, &None, &Some(vec!["x".to_string()]), &None, "t2");
    assert_eq!(sts.len(), 3);
    assert_eq!(texts(&sts[1]), vec!["01H", "x"]);
    assert_eq!(sts[2].sql, TOUCH_MEMORY);
}

#[test]
fn stats_read_four_things() {
    assert_eq!(stats_statements().len(), 4);
}
