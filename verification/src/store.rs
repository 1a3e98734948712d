//! The statements of the memory store, the knowledge graph and steop's
//! storage, each with its numbered parameters, and the sequences of them that
//! a write runs.
use vstd::prelude::*;

use crate::mailbox::opt_view;
use crate::models::{memory_type_name, Memory};
use crate::sql::{statement_view, strings_view, values_view, SqlV, SqlValue, Statement};

verus! {

/// The views of some statements.
pub open spec fn statements_view(v: Seq<Statement>) -> Seq<(Seq<char>, Seq<SqlV>)> {
    v.map_values(|s: Statement| statement_view(s))
}

fn text(s: &str) -> (r: SqlValue)
    ensures
        r@ == SqlV::Text(s@),
{
    SqlValue::Text(String::from_str(s))
}

/// `NULL` for a missing text.
pub open spec fn opt_text(o: Option<Seq<char>>) -> SqlV {
    match o {
        Some(s) => SqlV::Text(s),
        None => SqlV::Null,
    }
}

fn opt_value(o: &Option<String>) -> (r: SqlValue)
    ensures
        r@ == opt_text(opt_view(*o)),
{
    match o {
        Some(s) => SqlValue::Text(s.clone()),
        None => SqlValue::Null,
    }
}

fn make(sql: &str, params: Vec<SqlValue>) -> (r: Statement)
    ensures
        r.sql@ == sql@,
        r.params@ == params@,
{
    Statement { sql: String::from_str(sql), params }
}

pub const INSERT_MEMORY: &'static str = "INSERT INTO memories (id, title, content, memory_type, scope, author, created_at, updated_at) VALUES (?1, ?2, ?3, ?4, ?5, ?6, ?7, ?8)";
/// Stores a memory's row.
pub fn insert_memory_row(id: &str, title: &str, content: &str, memory_type: &str, scope: &str, author: &Option<String>, created_at: &str, updated_at: &str) -> (r: Statement)
    ensures
        statement_view(r) == (INSERT_MEMORY@, seq![SqlV::Text(id@), SqlV::Text(title@), SqlV::Text(content@), SqlV::Text(memory_type@), SqlV::Text(scope@), opt_text(opt_view(*author)), SqlV::Text(created_at@), SqlV::Text(updated_at@)]),
{
    let mut p: Vec<SqlValue> = Vec::new();
    p.push(text(id));
    p.push(text(title));
    p.push(text(content));
    p.push(text(memory_type));
    p.push(text(scope));
    p.push(opt_value(author));
    p.push(text(created_at));
    p.push(text(updated_at));
    let r = make(INSERT_MEMORY, p);
    assert(values_view(r.params@) =~= seq![SqlV::Text(id@), SqlV::Text(title@), SqlV::Text(content@), SqlV::Text(memory_type@), SqlV::Text(scope@), opt_text(opt_view(*author)), SqlV::Text(created_at@), SqlV::Text(updated_at@)]);
    r
}

pub const INSERT_TAG: &'static str = "INSERT INTO memory_tags (memory_id, tag) VALUES (?1, ?2)";
/// Attaches a tag to a memory.
pub fn insert_tag(memory_id: &str, tag: &str) -> (r: Statement)
    ensures
        statement_view(r) == (INSERT_TAG@, seq![SqlV::Text(memory_id@), SqlV::Text(tag@)]),
{
    let mut p: Vec<SqlValue> = Vec::new();
    p.push(text(memory_id));
    p.push(text(tag));
    let r = make(INSERT_TAG, p);
    assert(values_view(r.params@) =~= seq![SqlV::Text(memory_id@), SqlV::Text(tag@)]);
    r
}

pub const COUNT_MEMORY: &'static str = "SELECT COUNT(*) FROM memories WHERE id = ?1";
/// Counts the memories with an id (0 or 1).
pub fn memory_exists(id: &str) -> (r: Statement)
    ensures
        statement_view(r) == (COUNT_MEMORY@, seq![SqlV::Text(id@)]),
{
    let mut p: Vec<SqlValue> = Vec::new();
    p.push(text(id));
    let r = make(COUNT_MEMORY, p);
    assert(values_view(r.params@) =~= seq![SqlV::Text(id@)]);
    r
}

pub const SELECT_MEMORY: &'static str = "SELECT id, title, content, memory_type, scope, author, created_at, updated_at FROM memories WHERE id = ?1";
/// Reads a memory's row.
pub fn select_memory(id: &str) -> (r: Statement)
    ensures
        statement_view(r) == (SELECT_MEMORY@, seq![SqlV::Text(id@)]),
{
    let mut p: Vec<SqlValue> = Vec::new();
    p.push(text(id));
    let r = make(SELECT_MEMORY, p);
    assert(values_view(r.params@) =~= seq![SqlV::Text(id@)]);
    r
}

pub const SELECT_TAGS: &'static str = "SELECT tag FROM memory_tags WHERE memory_id = ?1 ORDER BY tag";
/// Reads a memory's tags in order.
pub fn select_tags(memory_id: &str) -> (r: Statement)
    ensures
        statement_view(r) == (SELECT_TAGS@, seq![SqlV::Text(memory_id@)]),
{
    let mut p: Vec<SqlValue> = Vec::new();
    p.push(text(memory_id));
    let r = make(SELECT_TAGS, p);
    assert(values_view(r.params@) =~= seq![SqlV::Text(memory_id@)]);
    r
}

pub const DELETE_MEMORY: &'static str = "DELETE FROM memories WHERE id = ?1";
/// Deletes a memory (its tags go with it).
pub fn delete_memory(id: &str) -> (r: Statement)
    ensures
        statement_view(r) == (DELETE_MEMORY@, seq![SqlV::Text(id@)]),
{
    let mut p: Vec<SqlValue> = Vec::new();
    p.push(text(id));
    let r = make(DELETE_MEMORY, p);
    assert(values_view(r.params@) =~= seq![SqlV::Text(id@)]);
    r
}

pub const UPDATE_TITLE: &'static str = "UPDATE memories SET title = ?1, updated_at = ?2 WHERE id = ?3";
/// Sets a memory's title.
pub fn update_title(title: &str, now: &str, id: &str) -> (r: Statement)
    ensures
        statement_view(r) == (UPDATE_TITLE@, seq![SqlV::Text(title@), SqlV::Text(now@), SqlV::Text(id@)]),
{
    let mut p: Vec<SqlValue> = Vec::new();
    p.push(text(title));
    p.push(text(now));
    p.push(text(id));
    let r = make(UPDATE_TITLE, p);
    assert(values_view(r.params@) =~= seq![SqlV::Text(title@), SqlV::Text(now@), SqlV::Text(id@)]);
    r
}

pub const UPDATE_CONTENT: &'static str = "UPDATE memories SET content = ?1, updated_at = ?2 WHERE id = ?3";
/// Sets a memory's content.
pub fn update_content(content: &str, now: &str, id: &str) -> (r: Statement)
    ensures
        statement_view(r) == (UPDATE_CONTENT@, seq![SqlV::Text(content@), SqlV::Text(now@), SqlV::Text(id@)]),
{
    let mut p: Vec<SqlValue> = Vec::new();
    p.push(text(content));
    p.push(text(now));
    p.push(text(id));
    let r = make(UPDATE_CONTENT, p);
    assert(values_view(r.params@) =~= seq![SqlV::Text(content@), SqlV::Text(now@), SqlV::Text(id@)]);
    r
}

pub const UPDATE_SCOPE: &'static str = "UPDATE memories SET scope = ?1, updated_at = ?2 WHERE id = ?3";
/// Sets a memory's scope.
pub fn update_scope(scope: &str, now: &str, id: &str) -> (r: Statement)
    ensures
        statement_view(r) == (UPDATE_SCOPE@, seq![SqlV::Text(scope@), SqlV::Text(now@), SqlV::Text(id@)]),
{
    let mut p: Vec<SqlValue> = Vec::new();
    p.push(text(scope));
    p.push(text(now));
    p.push(text(id));
    let r = make(UPDATE_SCOPE, p);
    assert(values_view(r.params@) =~= seq![SqlV::Text(scope@), SqlV::Text(now@), SqlV::Text(id@)]);
    r
}

pub const UPDATE_TYPE: &'static str = "UPDATE memories SET memory_type = ?1, updated_at = ?2 WHERE id = ?3";
/// Sets a memory's type.
pub fn update_type(memory_type: &str, now: &str, id: &str) -> (r: Statement)
    ensures
        statement_view(r) == (UPDATE_TYPE@, seq![SqlV::Text(memory_type@), SqlV::Text(now@), SqlV::Text(id@)]),
{
    let mut p: Vec<SqlValue> = Vec::new();
    p.push(text(memory_type));
    p.push(text(now));
    p.push(text(id));
    let r = make(UPDATE_TYPE, p);
    assert(values_view(r.params@) =~= seq![SqlV::Text(memory_type@), SqlV::Text(now@), SqlV::Text(id@)]);
    r
}

pub const DELETE_TAGS: &'static str = "DELETE FROM memory_tags WHERE memory_id = ?1";
/// Removes all tags of a memory.
pub fn delete_tags(memory_id: &str) -> (r: Statement)
    ensures
        statement_view(r) == (DELETE_TAGS@, seq![SqlV::Text(memory_id@)]),
{
    let mut p: Vec<SqlValue> = Vec::new();
    p.push(text(memory_id));
    let r = make(DELETE_TAGS, p);
    assert(values_view(r.params@) =~= seq![SqlV::Text(memory_id@)]);
    r
}

pub const TOUCH_MEMORY: &'static str = "UPDATE memories SET updated_at = ?1 WHERE id = ?2";
/// Marks a memory as updated.
pub fn touch_memory(now: &str, id: &str) -> (r: Statement)
    ensures
        statement_view(r) == (TOUCH_MEMORY@, seq![SqlV::Text(now@), SqlV::Text(id@)]),
{
    let mut p: Vec<SqlValue> = Vec::new();
    p.push(text(now));
    p.push(text(id));
    let r = make(TOUCH_MEMORY, p);
    assert(values_view(r.params@) =~= seq![SqlV::Text(now@), SqlV::Text(id@)]);
    r
}

pub const RESOLVE_ENTITY: &'static str = "SELECT id FROM entities WHERE name = ?1 AND scope = ?2";
/// Finds an entity's id by name and scope.
pub fn resolve_entity(name: &str, scope: &str) -> (r: Statement)
    ensures
        statement_view(r) == (RESOLVE_ENTITY@, seq![SqlV::Text(name@), SqlV::Text(scope@)]),
{
    let mut p: Vec<SqlValue> = Vec::new();
    p.push(text(name));
    p.push(text(scope));
    let r = make(RESOLVE_ENTITY, p);
    assert(values_view(r.params@) =~= seq![SqlV::Text(name@), SqlV::Text(scope@)]);
    r
}

pub const INSERT_ENTITY: &'static str = "INSERT INTO entities (id, name, entity_type, scope, created_at, updated_at) VALUES (?1, ?2, ?3, ?4, ?5, ?6)";
/// Stores an entity's row.
pub fn insert_entity_row(id: &str, name: &str, entity_type: &str, scope: &str, created_at: &str, updated_at: &str) -> (r: Statement)
    ensures
        statement_view(r) == (INSERT_ENTITY@, seq![SqlV::Text(id@), SqlV::Text(name@), SqlV::Text(entity_type@), SqlV::Text(scope@), SqlV::Text(created_at@), SqlV::Text(updated_at@)]),
{
    let mut p: Vec<SqlValue> = Vec::new();
    p.push(text(id));
    p.push(text(name));
    p.push(text(entity_type));
    p.push(text(scope));
    p.push(text(created_at));
    p.push(text(updated_at));
    let r = make(INSERT_ENTITY, p);
    assert(values_view(r.params@) =~= seq![SqlV::Text(id@), SqlV::Text(name@), SqlV::Text(entity_type@), SqlV::Text(scope@), SqlV::Text(created_at@), SqlV::Text(updated_at@)]);
    r
}

pub const INSERT_OBSERVATION: &'static str = "INSERT INTO observations (id, entity_id, content, created_at) VALUES (?1, ?2, ?3, ?4)";
/// Stores an observation of an entity.
pub fn insert_observation(id: &str, entity_id: &str, content: &str, now: &str) -> (r: Statement)
    ensures
        statement_view(r) == (INSERT_OBSERVATION@, seq![SqlV::Text(id@), SqlV::Text(entity_id@), SqlV::Text(content@), SqlV::Text(now@)]),
{
    let mut p: Vec<SqlValue> = Vec::new();
    p.push(text(id));
    p.push(text(entity_id));
    p.push(text(content));
    p.push(text(now));
    let r = make(INSERT_OBSERVATION, p);
    assert(values_view(r.params@) =~= seq![SqlV::Text(id@), SqlV::Text(entity_id@), SqlV::Text(content@), SqlV::Text(now@)]);
    r
}

pub const TOUCH_ENTITY: &'static str = "UPDATE entities SET updated_at = ?1 WHERE id = ?2";
/// Marks an entity as updated.
pub fn touch_entity(now: &str, entity_id: &str) -> (r: Statement)
    ensures
        statement_view(r) == (TOUCH_ENTITY@, seq![SqlV::Text(now@), SqlV::Text(entity_id@)]),
{
    let mut p: Vec<SqlValue> = Vec::new();
    p.push(text(now));
    p.push(text(entity_id));
    let r = make(TOUCH_ENTITY, p);
    assert(values_view(r.params@) =~= seq![SqlV::Text(now@), SqlV::Text(entity_id@)]);
    r
}

pub const DELETE_OBSERVATION: &'static str = "DELETE FROM observations WHERE entity_id = ?1 AND content = ?2";
/// Removes an entity's observations with exactly this content.
pub fn delete_observation(entity_id: &str, content: &str) -> (r: Statement)
    ensures
        statement_view(r) == (DELETE_OBSERVATION@, seq![SqlV::Text(entity_id@), SqlV::Text(content@)]),
{
    let mut p: Vec<SqlValue> = Vec::new();
    p.push(text(entity_id));
    p.push(text(content));
    let r = make(DELETE_OBSERVATION, p);
    assert(values_view(r.params@) =~= seq![SqlV::Text(entity_id@), SqlV::Text(content@)]);
    r
}

pub const SELECT_ENTITY_BY_NAME: &'static str = "SELECT id, name, entity_type, scope, created_at, updated_at FROM entities WHERE name = ?1 AND scope = ?2";
/// Reads an entity's row by name and scope.
pub fn select_entity_by_name(name: &str, scope: &str) -> (r: Statement)
    ensures
        statement_view(r) == (SELECT_ENTITY_BY_NAME@, seq![SqlV::Text(name@), SqlV::Text(scope@)]),
{
    let mut p: Vec<SqlValue> = Vec::new();
    p.push(text(name));
    p.push(text(scope));
    let r = make(SELECT_ENTITY_BY_NAME, p);
    assert(values_view(r.params@) =~= seq![SqlV::Text(name@), SqlV::Text(scope@)]);
    r
}

pub const SELECT_ENTITY_BY_ID: &'static str = "SELECT id, name, entity_type, scope, created_at, updated_at FROM entities WHERE id = ?1";
/// Reads an entity's row by id.
pub fn select_entity_by_id(id: &str) -> (r: Statement)
    ensures
        statement_view(r) == (SELECT_ENTITY_BY_ID@, seq![SqlV::Text(id@)]),
{
    let mut p: Vec<SqlValue> = Vec::new();
    p.push(text(id));
    let r = make(SELECT_ENTITY_BY_ID, p);
    assert(values_view(r.params@) =~= seq![SqlV::Text(id@)]);
    r
}

pub const SELECT_OBSERVATIONS: &'static str = "SELECT id, content, created_at FROM observations WHERE entity_id = ?1 ORDER BY created_at";
/// Reads an entity's observations, oldest first.
pub fn select_observations(entity_id: &str) -> (r: Statement)
    ensures
        statement_view(r) == (SELECT_OBSERVATIONS@, seq![SqlV::Text(entity_id@)]),
{
    let mut p: Vec<SqlValue> = Vec::new();
    p.push(text(entity_id));
    let r = make(SELECT_OBSERVATIONS, p);
    assert(values_view(r.params@) =~= seq![SqlV::Text(entity_id@)]);
    r
}

pub const DELETE_ENTITY: &'static str = "DELETE FROM entities WHERE name = ?1 AND scope = ?2";
/// Deletes an entity (its observations and relations go with it).
pub fn delete_entity(name: &str, scope: &str) -> (r: Statement)
    ensures
        statement_view(r) == (DELETE_ENTITY@, seq![SqlV::Text(name@), SqlV::Text(scope@)]),
{
    let mut p: Vec<SqlValue> = Vec::new();
    p.push(text(name));
    p.push(text(scope));
    let r = make(DELETE_ENTITY, p);
    assert(values_view(r.params@) =~= seq![SqlV::Text(name@), SqlV::Text(scope@)]);
    r
}

pub const COUNT_RELATION: &'static str = "SELECT COUNT(*) FROM relations WHERE from_entity = ?1 AND to_entity = ?2 AND relation_type = ?3";
/// Counts the relations of a type between two entities.
pub fn relation_count(from_id: &str, to_id: &str, relation_type: &str) -> (r: Statement)
    ensures
        statement_view(r) == (COUNT_RELATION@, seq![SqlV::Text(from_id@), SqlV::Text(to_id@), SqlV::Text(relation_type@)]),
{
    let mut p: Vec<SqlValue> = Vec::new();
    p.push(text(from_id));
    p.push(text(to_id));
    p.push(text(relation_type));
    let r = make(COUNT_RELATION, p);
    assert(values_view(r.params@) =~= seq![SqlV::Text(from_id@), SqlV::Text(to_id@), SqlV::Text(relation_type@)]);
    r
}

pub const SELECT_RELATION_ID: &'static str = "SELECT id FROM relations WHERE from_entity = ?1 AND to_entity = ?2 AND relation_type = ?3";
/// Reads the id of the relation of a type between two entities.
pub fn relation_id(from_id: &str, to_id: &str, relation_type: &str) -> (r: Statement)
    ensures
        statement_view(r) == (SELECT_RELATION_ID@, seq![SqlV::Text(from_id@), SqlV::Text(to_id@), SqlV::Text(relation_type@)]),
{
    let mut p: Vec<SqlValue> = Vec::new();
    p.push(text(from_id));
    p.push(text(to_id));
    p.push(text(relation_type));
    let r = make(SELECT_RELATION_ID, p);
    assert(values_view(r.params@) =~= seq![SqlV::Text(from_id@), SqlV::Text(to_id@), SqlV::Text(relation_type@)]);
    r
}

pub const INSERT_RELATION: &'static str = "INSERT INTO relations (id, from_entity, to_entity, relation_type, scope, created_at) VALUES (?1, ?2, ?3, ?4, ?5, ?6)";
/// Stores a relation.
pub fn insert_relation_row(id: &str, from_id: &str, to_id: &str, relation_type: &str, scope: &str, now: &str) -> (r: Statement)
    ensures
        statement_view(r) == (INSERT_RELATION@, seq![SqlV::Text(id@), SqlV::Text(from_id@), SqlV::Text(to_id@), SqlV::Text(relation_type@), SqlV::Text(scope@), SqlV::Text(now@)]),
{
    let mut p: Vec<SqlValue> = Vec::new();
    p.push(text(id));
    p.push(text(from_id));
    p.push(text(to_id));
    p.push(text(relation_type));
    p.push(text(scope));
    p.push(text(now));
    let r = make(INSERT_RELATION, p);
    assert(values_view(r.params@) =~= seq![SqlV::Text(id@), SqlV::Text(from_id@), SqlV::Text(to_id@), SqlV::Text(relation_type@), SqlV::Text(scope@), SqlV::Text(now@)]);
    r
}

pub const DELETE_RELATION: &'static str = "DELETE FROM relations WHERE from_entity = ?1 AND to_entity = ?2 AND relation_type = ?3";
/// Deletes the relation of a type between two entities.
pub fn delete_relation(from_id: &str, to_id: &str, relation_type: &str) -> (r: Statement)
    ensures
        statement_view(r) == (DELETE_RELATION@, seq![SqlV::Text(from_id@), SqlV::Text(to_id@), SqlV::Text(relation_type@)]),
{
    let mut p: Vec<SqlValue> = Vec::new();
    p.push(text(from_id));
    p.push(text(to_id));
    p.push(text(relation_type));
    let r = make(DELETE_RELATION, p);
    assert(values_view(r.params@) =~= seq![SqlV::Text(from_id@), SqlV::Text(to_id@), SqlV::Text(relation_type@)]);
    r
}

pub const STORAGE_PUT: &'static str = "INSERT INTO steop_storage (scope, key, content, created_at, updated_at) VALUES (?1, ?2, ?3, ?4, ?4) ON CONFLICT(scope, key) DO UPDATE SET content = excluded.content, updated_at = excluded.updated_at";
/// Writes a blob, replacing one with the same scope and key.
pub fn storage_put(scope: &str, key: &str, content: &str, now: &str) -> (r: Statement)
    ensures
        statement_view(r) == (STORAGE_PUT@, seq![SqlV::Text(scope@), SqlV::Text(key@), SqlV::Text(content@), SqlV::Text(now@)]),
{
    let mut p: Vec<SqlValue> = Vec::new();
    p.push(text(scope));
    p.push(text(key));
    p.push(text(content));
    p.push(text(now));
    let r = make(STORAGE_PUT, p);
    assert(values_view(r.params@) =~= seq![SqlV::Text(scope@), SqlV::Text(key@), SqlV::Text(content@), SqlV::Text(now@)]);
    r
}

pub const STORAGE_GET: &'static str = "SELECT scope, key, content, created_at, updated_at FROM steop_storage WHERE scope = ?1 AND key = ?2";
/// Reads a blob.
pub fn storage_get(scope: &str, key: &str) -> (r: Statement)
    ensures
        statement_view(r) == (STORAGE_GET@, seq![SqlV::Text(scope@), SqlV::Text(key@)]),
{
    let mut p: Vec<SqlValue> = Vec::new();
    p.push(text(scope));
    p.push(text(key));
    let r = make(STORAGE_GET, p);
    assert(values_view(r.params@) =~= seq![SqlV::Text(scope@), SqlV::Text(key@)]);
    r
}

pub const STORAGE_DELETE: &'static str = "DELETE FROM steop_storage WHERE scope = ?1 AND key = ?2";
/// Deletes a blob.
pub fn storage_delete(scope: &str, key: &str) -> (r: Statement)
    ensures
        statement_view(r) == (STORAGE_DELETE@, seq![SqlV::Text(scope@), SqlV::Text(key@)]),
{
    let mut p: Vec<SqlValue> = Vec::new();
    p.push(text(scope));
    p.push(text(key));
    let r = make(STORAGE_DELETE, p);
    assert(values_view(r.params@) =~= seq![SqlV::Text(scope@), SqlV::Text(key@)]);
    r
}

pub const STORAGE_LIST: &'static str = "SELECT key, updated_at, LENGTH(content) AS size FROM steop_storage WHERE scope = ?1 ORDER BY key";
/// Lists the blobs of a scope by key.
pub fn storage_list(scope: &str) -> (r: Statement)
    ensures
        statement_view(r) == (STORAGE_LIST@, seq![SqlV::Text(scope@)]),
{
    let mut p: Vec<SqlValue> = Vec::new();
    p.push(text(scope));
    let r = make(STORAGE_LIST, p);
    assert(values_view(r.params@) =~= seq![SqlV::Text(scope@)]);
    r
}

pub const STATE_SELECT: &'static str = "SELECT session_id, data, created_at, updated_at FROM steop_state WHERE session_id = ?1";
/// Reads a session's state row.
pub fn state_select(session_id: &str) -> (r: Statement)
    ensures
        statement_view(r) == (STATE_SELECT@, seq![SqlV::Text(session_id@)]),
{
    let mut p: Vec<SqlValue> = Vec::new();
    p.push(text(session_id));
    let r = make(STATE_SELECT, p);
    assert(values_view(r.params@) =~= seq![SqlV::Text(session_id@)]);
    r
}

pub const STATE_DATA: &'static str = "SELECT data FROM steop_state WHERE session_id = ?1";
/// Reads a session's stored data.
pub fn state_data(session_id: &str) -> (r: Statement)
    ensures
        statement_view(r) == (STATE_DATA@, seq![SqlV::Text(session_id@)]),
{
    let mut p: Vec<SqlValue> = Vec::new();
    p.push(text(session_id));
    let r = make(STATE_DATA, p);
    assert(values_view(r.params@) =~= seq![SqlV::Text(session_id@)]);
    r
}

pub const COUNTERS_SELECT: &'static str = "SELECT name, value FROM steop_counters WHERE session_id = ?1 ORDER BY name";
/// Reads a session's counters by name.
pub fn counters_select(session_id: &str) -> (r: Statement)
    ensures
        statement_view(r) == (COUNTERS_SELECT@, seq![SqlV::Text(session_id@)]),
{
    let mut p: Vec<SqlValue> = Vec::new();
    p.push(text(session_id));
    let r = make(COUNTERS_SELECT, p);
    assert(values_view(r.params@) =~= seq![SqlV::Text(session_id@)]);
    r
}

pub const STATE_UPSERT: &'static str = "INSERT INTO steop_state (session_id, data, created_at, updated_at) VALUES (?1, ?2, ?3, ?3) ON CONFLICT(session_id) DO UPDATE SET data = excluded.data, updated_at = excluded.updated_at";
/// Writes a session's data.
pub fn state_upsert(session_id: &str, data: &str, now: &str) -> (r: Statement)
    ensures
        statement_view(r) == (STATE_UPSERT@, seq![SqlV::Text(session_id@), SqlV::Text(data@), SqlV::Text(now@)]),
{
    let mut p: Vec<SqlValue> = Vec::new();
    p.push(text(session_id));
    p.push(text(data));
    p.push(text(now));
    let r = make(STATE_UPSERT, p);
    assert(values_view(r.params@) =~= seq![SqlV::Text(session_id@), SqlV::Text(data@), SqlV::Text(now@)]);
    r
}

pub const STATE_DELETE: &'static str = "DELETE FROM steop_state WHERE session_id = ?1";
/// Deletes a session's state.
pub fn state_delete(session_id: &str) -> (r: Statement)
    ensures
        statement_view(r) == (STATE_DELETE@, seq![SqlV::Text(session_id@)]),
{
    let mut p: Vec<SqlValue> = Vec::new();
    p.push(text(session_id));
    let r = make(STATE_DELETE, p);
    assert(values_view(r.params@) =~= seq![SqlV::Text(session_id@)]);
    r
}

pub const STATE_ENSURE: &'static str = "INSERT INTO steop_state (session_id, data, created_at, updated_at) VALUES (?1, '{}', ?2, ?2) ON CONFLICT(session_id) DO NOTHING";
/// Creates an empty state for a session that has none.
pub fn state_ensure(session_id: &str, now: &str) -> (r: Statement)
    ensures
        statement_view(r) == (STATE_ENSURE@, seq![SqlV::Text(session_id@), SqlV::Text(now@)]),
{
    let mut p: Vec<SqlValue> = Vec::new();
    p.push(text(session_id));
    p.push(text(now));
    let r = make(STATE_ENSURE, p);
    assert(values_view(r.params@) =~= seq![SqlV::Text(session_id@), SqlV::Text(now@)]);
    r
}

pub const COUNTER_INCR: &'static str = "INSERT INTO steop_counters (session_id, name, value, updated_at) VALUES (?1, ?2, ?3, ?4) ON CONFLICT(session_id, name) DO UPDATE SET value = steop_counters.value + excluded.value, updated_at = excluded.updated_at RETURNING value";
/// Adds to a counter (created at the amount) and reads its new value.
pub fn counter_incr(session_id: &str, name: &str, delta: i64, now: &str) -> (r: Statement)
    ensures
        statement_view(r) == (COUNTER_INCR@, seq![SqlV::Text(session_id@), SqlV::Text(name@), SqlV::Int(delta), SqlV::Text(now@)]),
{
    let mut p: Vec<SqlValue> = Vec::new();
    p.push(text(session_id));
    p.push(text(name));
    p.push(SqlValue::Int(delta));
    p.push(text(now));
    let r = make(COUNTER_INCR, p);
    assert(values_view(r.params@) =~= seq![SqlV::Text(session_id@), SqlV::Text(name@), SqlV::Int(delta), SqlV::Text(now@)]);
    r
}

pub const COUNTER_RESET: &'static str = "INSERT INTO steop_counters (session_id, name, value, updated_at) VALUES (?1, ?2, ?3, ?4) ON CONFLICT(session_id, name) DO UPDATE SET value = excluded.value, updated_at = excluded.updated_at RETURNING value";
/// Sets a counter and reads its value.
pub fn counter_reset(session_id: &str, name: &str, value: i64, now: &str) -> (r: Statement)
    ensures
        statement_view(r) == (COUNTER_RESET@, seq![SqlV::Text(session_id@), SqlV::Text(name@), SqlV::Int(value), SqlV::Text(now@)]),
{
    let mut p: Vec<SqlValue> = Vec::new();
    p.push(text(session_id));
    p.push(text(name));
    p.push(SqlValue::Int(value));
    p.push(text(now));
    let r = make(COUNTER_RESET, p);
    assert(values_view(r.params@) =~= seq![SqlV::Text(session_id@), SqlV::Text(name@), SqlV::Int(value), SqlV::Text(now@)]);
    r
}

pub const STATE_TOUCH: &'static str = "UPDATE steop_state SET updated_at = ?1 WHERE session_id = ?2";
/// Marks a session's state as updated.
pub fn state_touch(now: &str, session_id: &str) -> (r: Statement)
    ensures
        statement_view(r) == (STATE_TOUCH@, seq![SqlV::Text(now@), SqlV::Text(session_id@)]),
{
    let mut p: Vec<SqlValue> = Vec::new();
    p.push(text(now));
    p.push(text(session_id));
    let r = make(STATE_TOUCH, p);
    assert(values_view(r.params@) =~= seq![SqlV::Text(now@), SqlV::Text(session_id@)]);
    r
}

// ── Sequences of statements ──

/// The tag rows of a memory.
pub open spec fn tag_rows(id: Seq<char>, tags: Seq<Seq<char>>) -> Seq<(Seq<char>, Seq<SqlV>)> {
    tags.map_values(|t: Seq<char>| (INSERT_TAG@, seq![SqlV::Text(id), SqlV::Text(t)]))
}

fn push_tag_rows(out: &mut Vec<Statement>, id: &str, tags: &Vec<String>)
    ensures
        statements_view(final(out)@) == statements_view(old(out)@) + tag_rows(id@, strings_view(tags@)),
{
    let ghost start = out@;
    let mut i: usize = 0;
    while i < tags.len()
        invariant
            i <= tags@.len(),
            statements_view(out@) == statements_view(start) + tag_rows(id@, strings_view(tags@.take(i as int))),
        decreases tags@.len() - i,
    {
        let ghost before = out@;
        out.push(insert_tag(id, tags[i].as_str()));
        proof {
            assert(statements_view(out@) =~= statements_view(before).push(statement_view(out@.last())));
            assert(strings_view(tags@.take(i + 1)) =~= strings_view(tags@.take(i as int)).push(tags@[i as int]@));
            assert(tag_rows(id@, strings_view(tags@.take(i + 1))) =~= tag_rows(id@, strings_view(tags@.take(i as int))).push(
                (INSERT_TAG@, seq![SqlV::Text(id@), SqlV::Text(tags@[i as int]@)])));
        }
        i = i + 1;
    }
    assert(tags@.take(i as int) =~= tags@);
}

/// What storing a memory runs: its row, then one row per tag.
pub open spec fn insert_memory_spec(m: Memory) -> Seq<(Seq<char>, Seq<SqlV>)> {
    seq![(INSERT_MEMORY@, seq![
        SqlV::Text(m.id@),
        SqlV::Text(m.title@),
        SqlV::Text(m.content@),
        SqlV::Text(memory_type_name(m.memory_type)),
        SqlV::Text(m.scope@),
        opt_text(opt_view(m.author)),
        SqlV::Text(m.created_at@),
        SqlV::Text(m.updated_at@),
    ])] + tag_rows(m.id@, strings_view(m.tags@))
}

pub fn insert_memory_statements(m: &Memory) -> (r: Vec<Statement>)
    ensures
        statements_view(r@) == insert_memory_spec(*m),
{
    let mut out: Vec<Statement> = Vec::new();
    out.push(insert_memory_row(
        m.id.as_str(),
        m.title.as_str(),
        m.content.as_str(),
        m.memory_type.as_str(),
        m.scope.as_str(),
        &m.author,
        m.created_at.as_str(),
        m.updated_at.as_str(),
    ));
    assert(statements_view(out@) =~= seq![statement_view(out@[0])]);
    push_tag_rows(&mut out, m.id.as_str(), &m.tags);
    out
}

/// One field update, when the field is given.
pub open spec fn field_update(sql: Seq<char>, v: Option<Seq<char>>, now: Seq<char>, id: Seq<char>) -> Seq<(Seq<char>, Seq<SqlV>)> {
    match v {
        Some(x) => seq![(sql, seq![SqlV::Text(x), SqlV::Text(now), SqlV::Text(id)])],
        None => Seq::empty(),
    }
}

/// What updating an existing memory runs: each given field set in turn
/// (title, content, scope, type), then, when tags are given, the old tags
/// removed, the new ones added and the memory marked as updated.
pub open spec fn update_memory_spec(
    id: Seq<char>,
    title: Option<Seq<char>>,
    content: Option<Seq<char>>,
    scope: Option<Seq<char>>,
    tags: Option<Seq<Seq<char>>>,
    memory_type: Option<Seq<char>>,
    now: Seq<char>,
) -> Seq<(Seq<char>, Seq<SqlV>)> {
    field_update(UPDATE_TITLE@, title, now, id) + field_update(UPDATE_CONTENT@, content, now, id)
        + field_update(UPDATE_SCOPE@, scope, now, id) + field_update(UPDATE_TYPE@, memory_type, now, id)
        + match tags {
            Some(ts) => seq![(DELETE_TAGS@, seq![SqlV::Text(id)])] + tag_rows(id, ts) + seq![(TOUCH_MEMORY@, seq![SqlV::Text(now), SqlV::Text(id)])],
            None => Seq::empty(),
        }
}

fn push_one(out: &mut Vec<Statement>, s: Statement)
    ensures
        statements_view(final(out)@) == statements_view(old(out)@).push(statement_view(s)),
{
    let ghost before = out@;
    out.push(s);
    assert(statements_view(out@) =~= statements_view(before).push(statement_view(s)));
}

pub fn update_memory_statements(
    id: &str,
    title: &Option<String>,
    content: &Option<String>,
    scope: &Option<String>,
    tags: &Option<Vec<String>>,
    memory_type: &Option<String>,
    now: &str,
) -> (r: Vec<Statement>)
    ensures
        statements_view(r@) == update_memory_spec(
            id@,
            opt_view(*title),
            opt_view(*content),
            opt_view(*scope),
            crate::sql::opt_strings_view(*tags),
            opt_view(*memory_type),
            now@,
        ),
{
    let mut out: Vec<Statement> = Vec::new();
    let ghost s0 = statements_view(out@);
    if let Some(t) = title {
        push_one(&mut out, update_title(t.as_str(), now, id));
    }
    assert(statements_view(out@) =~= s0 + field_update(UPDATE_TITLE@, opt_view(*title), now@, id@));
    let ghost s1 = statements_view(out@);
    if let Some(c) = content {
        push_one(&mut out, update_content(c.as_str(), now, id));
    }
    assert(statements_view(out@) =~= s1 + field_update(UPDATE_CONTENT@, opt_view(*content), now@, id@));
    let ghost s2 = statements_view(out@);
    if let Some(s) = scope {
        push_one(&mut out, update_scope(s.as_str(), now, id));
    }
    assert(statements_view(out@) =~= s2 + field_update(UPDATE_SCOPE@, opt_view(*scope), now@, id@));
    let ghost s3 = statements_view(out@);
    if let Some(mt) = memory_type {
        push_one(&mut out, update_type(mt.as_str(), now, id));
    }
    assert(statements_view(out@) =~= s3 + field_update(UPDATE_TYPE@, opt_view(*memory_type), now@, id@));
    let ghost s4 = statements_view(out@);
    if let Some(ts) = tags {
        push_one(&mut out, delete_tags(id));
        push_tag_rows(&mut out, id, ts);
        push_one(&mut out, touch_memory(now, id));
        assert(statements_view(out@) =~= s4 + (seq![(DELETE_TAGS@, seq![SqlV::Text(id@)])] + tag_rows(id@, strings_view(ts@))
            + seq![(TOUCH_MEMORY@, seq![SqlV::Text(now@), SqlV::Text(id@)])]));
    } else {
        assert(statements_view(out@) =~= s4 + Seq::<(Seq<char>, Seq<SqlV>)>::empty());
    }
    out
}

/// What adding observations to an entity runs: one row per observation (with
/// the given ids, in order), then the entity marked as updated.
pub open spec fn add_observations_spec(entity_id: Seq<char>, observations: Seq<Seq<char>>, ids: Seq<Seq<char>>, now: Seq<char>) -> Seq<(Seq<char>, Seq<SqlV>)> {
    Seq::new(observations.len(), |i: int| (INSERT_OBSERVATION@, seq![SqlV::Text(ids[i]), SqlV::Text(entity_id), SqlV::Text(observations[i]), SqlV::Text(now)]))
        + seq![(TOUCH_ENTITY@, seq![SqlV::Text(now), SqlV::Text(entity_id)])]
}

pub fn add_observations_statements(entity_id: &str, observations: &Vec<String>, ids: &Vec<String>, now: &str) -> (r: Vec<Statement>)
    requires
        ids@.len() == observations@.len(),
    ensures
        statements_view(r@) == add_observations_spec(entity_id@, strings_view(observations@), strings_view(ids@), now@),
{
    let ghost ov = strings_view(observations@);
    let ghost iv = strings_view(ids@);
    let ghost f = |i: int| (INSERT_OBSERVATION@, seq![SqlV::Text(iv[i]), SqlV::Text(entity_id@), SqlV::Text(ov[i]), SqlV::Text(now@)]);
    let mut out: Vec<Statement> = Vec::new();
    let mut i: usize = 0;
    while i < observations.len()
        invariant
            i <= observations@.len(),
            ids@.len() == observations@.len(),
            ov == strings_view(observations@),
            iv == strings_view(ids@),
            f == (|i: int| (INSERT_OBSERVATION@, seq![SqlV::Text(iv[i]), SqlV::Text(entity_id@), SqlV::Text(ov[i]), SqlV::Text(now@)])),
            statements_view(out@) == Seq::new(i as nat, f),
        decreases observations@.len() - i,
    {
        push_one(&mut out, insert_observation(ids[i].as_str(), entity_id, observations[i].as_str(), now));
        assert(statements_view(out@) =~= Seq::new((i + 1) as nat, f));
        i = i + 1;
    }
    push_one(&mut out, touch_entity(now, entity_id));
    assert(statements_view(out@) =~= add_observations_spec(entity_id@, ov, iv, now@));
    out
}

/// What removing observations from an entity runs: one deletion per content,
/// then the entity marked as updated.
pub open spec fn delete_observations_spec(entity_id: Seq<char>, observations: Seq<Seq<char>>, now: Seq<char>) -> Seq<(Seq<char>, Seq<SqlV>)> {
    observations.map_values(|o: Seq<char>| (DELETE_OBSERVATION@, seq![SqlV::Text(entity_id), SqlV::Text(o)]))
        + seq![(TOUCH_ENTITY@, seq![SqlV::Text(now), SqlV::Text(entity_id)])]
}

pub fn delete_observations_statements(entity_id: &str, observations: &Vec<String>, now: &str) -> (r: Vec<Statement>)
    ensures
        statements_view(r@) == delete_observations_spec(entity_id@, strings_view(observations@), now@),
{
    let ghost ov = strings_view(observations@);
    let ghost g = |o: Seq<char>| (DELETE_OBSERVATION@, seq![SqlV::Text(entity_id@), SqlV::Text(o)]);
    let mut out: Vec<Statement> = Vec::new();
    let mut i: usize = 0;
    while i < observations.len()
        invariant
            i <= observations@.len(),
            ov == strings_view(observations@),
            g == (|o: Seq<char>| (DELETE_OBSERVATION@, seq![SqlV::Text(entity_id@), SqlV::Text(o)])),
            statements_view(out@) == ov.take(i as int).map_values(g),
        decreases observations@.len() - i,
    {
        push_one(&mut out, delete_observation(entity_id, observations[i].as_str()));
        assert(ov.take(i + 1).map_values(g) =~= ov.take(i as int).map_values(g).push(g(ov[i as int])));
        i = i + 1;
    }
    assert(ov.take(i as int) =~= ov);
    push_one(&mut out, touch_entity(now, entity_id));
    out
}

/// The statements that read the store's counts (memories, scopes, tags) and
/// its five most recently updated memories.
pub const COUNT_MEMORIES: &'static str = "SELECT COUNT(*) FROM memories";

pub const COUNT_SCOPES: &'static str = "SELECT COUNT(DISTINCT scope) FROM memories";

pub const COUNT_TAGS: &'static str = "SELECT COUNT(DISTINCT tag) FROM memory_tags";

pub const RECENT_MEMORIES: &'static str = "SELECT id, title, scope, updated_at FROM memories ORDER BY updated_at DESC LIMIT 5";

pub fn stats_statements() -> (r: Vec<Statement>)
    ensures
        statements_view(r@) == seq![
            (COUNT_MEMORIES@, Seq::<SqlV>::empty()),
            (COUNT_SCOPES@, Seq::<SqlV>::empty()),
            (COUNT_TAGS@, Seq::<SqlV>::empty()),
            (RECENT_MEMORIES@, Seq::<SqlV>::empty()),
        ],
{
    let mut out: Vec<Statement> = Vec::new();
    push_one(&mut out, make(COUNT_MEMORIES, Vec::new()));
    push_one(&mut out, make(COUNT_SCOPES, Vec::new()));
    push_one(&mut out, make(COUNT_TAGS, Vec::new()));
    push_one(&mut out, make(RECENT_MEMORIES, Vec::new()));
    proof {
        assert(values_view(Seq::<SqlValue>::empty()) =~= Seq::<SqlV>::empty());
    }
    assert(statements_view(out@) =~= seq![
        (COUNT_MEMORIES@, Seq::<SqlV>::empty()),
        (COUNT_SCOPES@, Seq::<SqlV>::empty()),
        (COUNT_TAGS@, Seq::<SqlV>::empty()),
        (RECENT_MEMORIES@, Seq::<SqlV>::empty()),
    ]);
    out
}

// ── Writes stamped with the current time and fresh ids ──

/// The statements of [`update_memory_statements`] stamped with the current
/// time, and that time.
pub fn update_memory_now(
    id: &str,
    title: &Option<String>,
    content: &Option<String>,
    scope: &Option<String>,
    tags: &Option<Vec<String>>,
    memory_type: &Option<String>,
) -> (r: (Vec<Statement>, String))
    ensures
        statements_view(r.0@) == update_memory_spec(
            id@,
            opt_view(*title),
            opt_view(*content),
            opt_view(*scope),
            crate::sql::opt_strings_view(*tags),
            opt_view(*memory_type),
            r.1@,
        ),
{
    let now = crate::tools::now_rfc3339();
    let sts = update_memory_statements(id, title, content, scope, tags, memory_type, now.as_str());
    (sts, now)
}

/// The statements that add observations to an entity, each with a fresh
/// 26-character id, stamped with the current time; and the ids and the time.
pub fn add_observations_now(entity_id: &str, observations: &Vec<String>) -> (r: (Vec<Statement>, Vec<String>, String))
    ensures
        r.1@.len() == observations@.len(),
        forall|i: int| 0 <= i < r.1@.len() ==> (#[trigger] r.1@[i])@.len() == 26,
        statements_view(r.0@) == add_observations_spec(entity_id@, strings_view(observations@), strings_view(r.1@), r.2@),
{
    let now = crate::tools::now_rfc3339();
    let mut ids: Vec<String> = Vec::new();
    let mut i: usize = 0;
    while i < observations.len()
        invariant
            i <= observations@.len(),
            ids@.len() == i,
            forall|k: int| 0 <= k < ids@.len() ==> (#[trigger] ids@[k])@.len() == 26,
        decreases observations@.len() - i,
    {
        ids.push(crate::tools::new_ulid());
        i = i + 1;
    }
    let sts = add_observations_statements(entity_id, observations, &ids, now.as_str());
    (sts, ids, now)
}

/// The statements that remove observations from an entity, stamped with the
/// current time; and that time.
pub fn delete_observations_now(entity_id: &str, observations: &Vec<String>) -> (r: (Vec<Statement>, String))
    ensures
        statements_view(r.0@) == delete_observations_spec(entity_id@, strings_view(observations@), r.1@),
{
    let now = crate::tools::now_rfc3339();
    let sts = delete_observations_statements(entity_id, observations, now.as_str());
    (sts, now)
}

/// A new entity: a fresh 26-character id, the current time, and the
/// statement that stores it with that time as creation and update time.
pub fn new_entity(name: &str, entity_type: &str, scope: &str) -> (r: (String, String, Statement))
    ensures
        r.0@.len() == 26,
        statement_view(r.2) == (INSERT_ENTITY@, seq![
            SqlV::Text(r.0@),
            SqlV::Text(name@),
            SqlV::Text(entity_type@),
            SqlV::Text(scope@),
            SqlV::Text(r.1@),
            SqlV::Text(r.1@),
        ]),
{
    let now = crate::tools::now_rfc3339();
    let id = crate::tools::new_ulid();
    let st = insert_entity_row(id.as_str(), name, entity_type, scope, now.as_str(), now.as_str());
    (id, now, st)
}

/// A new relation: a fresh 26-character id and the statement that stores it,
/// stamped with the current time.
pub fn new_relation(from_id: &str, to_id: &str, relation_type: &str, scope: &str) -> (r: (String, String, Statement))
    ensures
        r.0@.len() == 26,
        statement_view(r.2) == (INSERT_RELATION@, seq![
            SqlV::Text(r.0@),
            SqlV::Text(from_id@),
            SqlV::Text(to_id@),
            SqlV::Text(relation_type@),
            SqlV::Text(scope@),
            SqlV::Text(r.1@),
        ]),
{
    let now = crate::tools::now_rfc3339();
    let id = crate::tools::new_ulid();
    let st = insert_relation_row(id.as_str(), from_id, to_id, relation_type, scope, now.as_str());
    (id, now, st)
}

/// A blob write stamped with the current time, and that time.
pub fn storage_put_now(scope: &str, key: &str, content: &str) -> (r: (Statement, String))
    ensures
        statement_view(r.0) == (STORAGE_PUT@, seq![SqlV::Text(scope@), SqlV::Text(key@), SqlV::Text(content@), SqlV::Text(r.1@)]),
{
    let now = crate::tools::now_rfc3339();
    (storage_put(scope, key, content, now.as_str()), now)
}

/// A state write stamped with the current time, and that time.
pub fn state_upsert_now(session_id: &str, data: &str) -> (r: (Statement, String))
    ensures
        statement_view(r.0) == (STATE_UPSERT@, seq![SqlV::Text(session_id@), SqlV::Text(data@), SqlV::Text(r.1@)]),
{
    let now = crate::tools::now_rfc3339();
    (state_upsert(session_id, data, now.as_str()), now)
}

/// What a counter change runs: the session's state created when missing,
/// the counter changed (added to, or set), and the state marked as updated,
/// all stamped with one current time.
pub open spec fn counter_change_spec(session_id: Seq<char>, name: Seq<char>, amount: i64, reset: bool, now: Seq<char>) -> Seq<(Seq<char>, Seq<SqlV>)> {
    seq![
        (STATE_ENSURE@, seq![SqlV::Text(session_id), SqlV::Text(now)]),
        (if reset { COUNTER_RESET@ } else { COUNTER_INCR@ }, seq![SqlV::Text(session_id), SqlV::Text(name), SqlV::Int(amount), SqlV::Text(now)]),
        (STATE_TOUCH@, seq![SqlV::Text(now), SqlV::Text(session_id)]),
    ]
}

pub fn counter_change_now(session_id: &str, name: &str, amount: i64, reset: bool) -> (r: (Vec<Statement>, String))
    ensures
        statements_view(r.0@) == counter_change_spec(session_id@, name@, amount, reset, r.1@),
{
    let now = crate::tools::now_rfc3339();
    let mut out: Vec<Statement> = Vec::new();
    push_one(&mut out, state_ensure(session_id, now.as_str()));
    if reset {
        push_one(&mut out, counter_reset(session_id, name, amount, now.as_str()));
    } else {
        push_one(&mut out, counter_incr(session_id, name, amount, now.as_str()));
    }
    push_one(&mut out, state_touch(now.as_str(), session_id));
    assert(statements_view(out@) =~= counter_change_spec(session_id@, name@, amount, reset, now@));
    (out, now)
}

// ── Creating graph nodes without duplicates ──

/// How an entity is created or reused.
pub struct EntityPlan {
    /// The entity's id: the existing one, or the new one.
    pub id: String,
    /// Whether a new entity row is stored.
    pub created: bool,
    /// What to run, in order.
    pub statements: Vec<Statement>,
}

/// The observations' rows for entity `id`, when there are any.
pub open spec fn observation_rows(id: Seq<char>, observations: Seq<Seq<char>>, ids: Seq<Seq<char>>, now: Seq<char>) -> Seq<(Seq<char>, Seq<SqlV>)> {
    if observations.len() > 0 {
        add_observations_spec(id, observations, ids, now)
    } else {
        Seq::empty()
    }
}

/// Creating an entity is idempotent: an entity of that name already in the
/// scope (`existing`) is reused and only gets the observations appended; else
/// a new row with `new_id` is stored, followed by the observations.
pub open spec fn entity_plan_spec(
    existing: Option<Seq<char>>,
    new_id: Seq<char>,
    name: Seq<char>,
    entity_type: Seq<char>,
    scope: Seq<char>,
    observations: Seq<Seq<char>>,
    ids: Seq<Seq<char>>,
    now: Seq<char>,
) -> (Seq<char>, bool, Seq<(Seq<char>, Seq<SqlV>)>) {
    match existing {
        Some(id) => (id, false, observation_rows(id, observations, ids, now)),
        None => (
            new_id,
            true,
            seq![(INSERT_ENTITY@, seq![SqlV::Text(new_id), SqlV::Text(name), SqlV::Text(entity_type), SqlV::Text(scope), SqlV::Text(now), SqlV::Text(now)])]
                + observation_rows(new_id, observations, ids, now),
        ),
    }
}

/// The statements that create entity `name` in `scope`, given the id of the
/// entity already there (if any), the id for a new one, the observations'
/// ids and the time.
pub fn entity_plan(
    existing: Option<String>,
    new_id: &str,
    name: &str,
    entity_type: &str,
    scope: &str,
    observations: &Vec<String>,
    observation_ids: &Vec<String>,
    now: &str,
) -> (r: EntityPlan)
    requires
        observation_ids@.len() == observations@.len(),
    ensures
        (r.id@, r.created, statements_view(r.statements@)) == entity_plan_spec(
            opt_view(existing), new_id@, name@, entity_type@, scope@,
            strings_view(observations@), strings_view(observation_ids@), now@,
        ),
{
    let ghost ov = strings_view(observations@);
    let ghost iv = strings_view(observation_ids@);
    let (id, created, mut out) = match existing {
        Some(e) => (e, false, Vec::new()),
        None => {
            let mut v: Vec<Statement> = Vec::new();
            push_one(&mut v, insert_entity_row(new_id, name, entity_type, scope, now, now));
            (String::from_str(new_id), true, v)
        },
    };
    let ghost before = statements_view(out@);
    if observations.len() > 0 {
        let mut more = add_observations_statements(id.as_str(), observations, observation_ids, now);
        let ghost m = more@;
        out.append(&mut more);
        assert(statements_view(out@) =~= before + statements_view(m));
    } else {
        assert(statements_view(out@) =~= before + Seq::<(Seq<char>, Seq<SqlV>)>::empty());
    }
    proof {
        if existing is Some {
            assert(before =~= Seq::<(Seq<char>, Seq<SqlV>)>::empty());
            assert(statements_view(out@) =~= observation_rows(id@, ov, iv, now@));
        }
    }
    EntityPlan { id, created, statements: out }
}

/// How a relation is created or reused.
pub struct RelationPlan {
    /// The relation's id: the existing one, or the new one.
    pub id: String,
    /// Whether a new relation row is stored.
    pub created: bool,
    /// The row to store, when one is created.
    pub statement: Option<Statement>,
}

/// Creating a relation is idempotent: the same relation already stored
/// (`existing`) is reused and nothing is run; else a new row with `new_id`.
pub open spec fn relation_plan_spec(
    existing: Option<Seq<char>>,
    new_id: Seq<char>,
    from_id: Seq<char>,
    to_id: Seq<char>,
    relation_type: Seq<char>,
    scope: Seq<char>,
    now: Seq<char>,
) -> (Seq<char>, bool, Option<(Seq<char>, Seq<SqlV>)>) {
    match existing {
        Some(e) => (e, false, None),
        None => (new_id, true, Some((INSERT_RELATION@, seq![
            SqlV::Text(new_id),
            SqlV::Text(from_id),
            SqlV::Text(to_id),
            SqlV::Text(relation_type),
            SqlV::Text(scope),
            SqlV::Text(now),
        ]))),
    }
}

/// The statement that creates a relation, given the id of the same relation
/// already stored (if any), the id for a new one and the time.
pub fn relation_plan(
    existing: Option<String>,
    new_id: &str,
    from_id: &str,
    to_id: &str,
    relation_type: &str,
    scope: &str,
    now: &str,
) -> (r: RelationPlan)
    ensures
        (r.id@, r.created, match r.statement {
            Some(st) => Some(statement_view(st)),
            None => None,
        }) == relation_plan_spec(opt_view(existing), new_id@, from_id@, to_id@, relation_type@, scope@, now@),
{
    match existing {
        Some(e) => RelationPlan { id: e, created: false, statement: None },
        None => RelationPlan {
            id: String::from_str(new_id),
            created: true,
            statement: Some(insert_relation_row(new_id, from_id, to_id, relation_type, scope, now)),
        },
    }
}

/// [`entity_plan`] with a new ULID for the entity and each observation, and
/// the current time.
pub fn entity_plan_now(
    existing: Option<String>,
    name: &str,
    entity_type: &str,
    scope: &str,
    observations: &Vec<String>,
) -> (r: EntityPlan)
    ensures
        exists|new_id: Seq<char>, ids: Seq<Seq<char>>, now: Seq<char>|
            new_id.len() == 26 && ids.len() == observations@.len()
            && (r.id@, r.created, statements_view(r.statements@)) == #[trigger] entity_plan_spec(
                opt_view(existing), new_id, name@, entity_type@, scope@, strings_view(observations@), ids, now,
            ),
{
    let now = crate::tools::now_rfc3339();
    let new_id = crate::tools::new_ulid();
    let mut ids: Vec<String> = Vec::new();
    let mut i: usize = 0;
    while i < observations.len()
        invariant
            i <= observations@.len(),
            ids@.len() == i,
        decreases observations@.len() - i,
    {
        ids.push(crate::tools::new_ulid());
        i = i + 1;
    }
    let r = entity_plan(existing, new_id.as_str(), name, entity_type, scope, observations, &ids, now.as_str());
    assert(strings_view(ids@).len() == observations@.len());
    r
}

/// [`relation_plan`] with a new ULID and the current time.
pub fn relation_plan_now(existing: Option<String>, from_id: &str, to_id: &str, relation_type: &str, scope: &str) -> (r: RelationPlan)
    ensures
        match existing {
            Some(e) => r.id@ == e@ && !r.created && r.statement is None,
            None => r.id@.len() == 26 && r.created && (r.statement matches Some(st) && exists|now: Seq<char>|
                statement_view(st) == (INSERT_RELATION@, seq![
                    SqlV::Text(r.id@),
                    SqlV::Text(from_id@),
                    SqlV::Text(to_id@),
                    SqlV::Text(relation_type@),
                    SqlV::Text(scope@),
                    SqlV::Text(now),
                ])),
        },
{
    let now = crate::tools::now_rfc3339();
    let new_id = crate::tools::new_ulid();
    relation_plan(existing, new_id.as_str(), from_id, to_id, relation_type, scope, now.as_str())
}

/// Creating the same entity again, once the first call's entity is found,
/// gives the same id, creates nothing and stores no entity row: only the
/// new observations are added.
pub proof fn lemma_entity_create_idempotent(
    existing: Option<Seq<char>>,
    new_id: Seq<char>,
    again_id: Seq<char>,
    name: Seq<char>,
    entity_type: Seq<char>,
    scope: Seq<char>,
    observations: Seq<Seq<char>>,
    ids: Seq<Seq<char>>,
    again_ids: Seq<Seq<char>>,
    now: Seq<char>,
    later: Seq<char>,
)
    ensures
        ({
            let first = entity_plan_spec(existing, new_id, name, entity_type, scope, observations, ids, now);
            let again = entity_plan_spec(Some(first.0), again_id, name, entity_type, scope, observations, again_ids, later);
            &&& again.0 == first.0
            &&& !again.1
            &&& again.2 == observation_rows(first.0, observations, again_ids, later)
            &&& forall|i: int| 0 <= i < again.2.len() ==> (#[trigger] again.2[i]).0 != INSERT_ENTITY@
        }),
{
    let first = entity_plan_spec(existing, new_id, name, entity_type, scope, observations, ids, now);
    let rows = observation_rows(first.0, observations, again_ids, later);
    let f = |i: int| (INSERT_OBSERVATION@, seq![SqlV::Text(again_ids[i]), SqlV::Text(first.0), SqlV::Text(observations[i]), SqlV::Text(later)]);
    let touch = seq![(TOUCH_ENTITY@, seq![SqlV::Text(later), SqlV::Text(first.0)])];
    assert(INSERT_OBSERVATION@ != INSERT_ENTITY@) by {
        reveal_strlit("INSERT INTO entities (id, name, entity_type, scope, created_at, updated_at) VALUES (?1, ?2, ?3, ?4, ?5, ?6)");
        reveal_strlit("INSERT INTO observations (id, entity_id, content, created_at) VALUES (?1, ?2, ?3, ?4)");
        assert(INSERT_OBSERVATION@[12] != INSERT_ENTITY@[12]);
    }
    assert(TOUCH_ENTITY@ != INSERT_ENTITY@) by {
        reveal_strlit("INSERT INTO entities (id, name, entity_type, scope, created_at, updated_at) VALUES (?1, ?2, ?3, ?4, ?5, ?6)");
        reveal_strlit("UPDATE entities SET updated_at = ?1 WHERE id = ?2");
        assert(TOUCH_ENTITY@[0] != INSERT_ENTITY@[0]);
    }
    if observations.len() > 0 {
        assert(rows == Seq::new(observations.len(), f) + touch);
        assert forall|i: int| 0 <= i < rows.len() implies (#[trigger] rows[i]).0 != INSERT_ENTITY@ by {
            if i < observations.len() {
                assert(rows[i] == f(i));
            } else {
                assert(rows[i] == touch[i - observations.len()]);
            }
        }
    }
}

/// Creating the same relation again, once the first call's relation is
/// found, gives the same id, creates nothing and runs no statement.
pub proof fn lemma_relation_create_idempotent(
    existing: Option<Seq<char>>,
    new_id: Seq<char>,
    again_id: Seq<char>,
    from_id: Seq<char>,
    to_id: Seq<char>,
    relation_type: Seq<char>,
    scope: Seq<char>,
    now: Seq<char>,
    later: Seq<char>,
)
    ensures
        ({
            let first = relation_plan_spec(existing, new_id, from_id, to_id, relation_type, scope, now);
            let again = relation_plan_spec(Some(first.0), again_id, from_id, to_id, relation_type, scope, later);
            again.0 == first.0 && !again.1 && again.2 is None
        }),
{
}

// ── What the counter statements do ──

/// The value of counter `name` of session `session` after one statement
/// runs (inner `None`: no such counter), as SQL reads the statements this
/// library builds for the session tables: a counter upsert bound to
/// (session, name, amount, time) inserts the amount when the counter is
/// absent and otherwise, by its `DO UPDATE` clause, adds it to the stored
/// value (`value = steop_counters.value + excluded.value`) or stores it
/// (`value = excluded.value`); upserts of other counters and the state row's
/// statements leave the counter alone. Outer `None`: a statement this reading
/// does not cover.
pub open spec fn counter_after(st: (Seq<char>, Seq<SqlV>), session: Seq<char>, name: Seq<char>, stored: Option<int>) -> Option<Option<int>> {
    if st.0 == STATE_ENSURE@ || st.0 == STATE_TOUCH@ {
        Some(stored)
    } else if (st.0 == COUNTER_INCR@ || st.0 == COUNTER_RESET@) && st.1.len() == 4 {
        match (st.1[0], st.1[1], st.1[2]) {
            (SqlV::Text(s), SqlV::Text(n), SqlV::Int(a)) => if s == session && n == name {
                Some(Some(
                    if st.0 == COUNTER_INCR@ {
                        match stored {
                            Some(v) => v + a,
                            None => a as int,
                        }
                    } else {
                        a as int
                    },
                ))
            } else {
                Some(stored)
            },
            _ => None,
        }
    } else {
        None
    }
}

/// [`counter_after`] over statements run in order.
pub open spec fn counter_after_all(sts: Seq<(Seq<char>, Seq<SqlV>)>, session: Seq<char>, name: Seq<char>, stored: Option<int>) -> Option<Option<int>>
    decreases sts.len(),
{
    if sts.len() == 0 {
        Some(stored)
    } else {
        match counter_after(sts[0], session, name, stored) {
            Some(v) => counter_after_all(sts.drop_first(), session, name, v),
            None => None,
        }
    }
}

/// Changing a counter: an increment adds the amount to the stored value (the
/// amount itself when there was none), a reset sets it to the amount; every
/// other counter, of this session or another, keeps its value.
pub proof fn lemma_counter_change_effect(
    session: Seq<char>,
    name: Seq<char>,
    amount: i64,
    reset: bool,
    now: Seq<char>,
    stored: Option<int>,
    other_session: Seq<char>,
    other_name: Seq<char>,
    other_stored: Option<int>,
)
    requires
        other_session != session || other_name != name,
    ensures
        counter_after_all(counter_change_spec(session, name, amount, reset, now), session, name, stored) == Some(Some(
            if reset {
                amount as int
            } else {
                match stored {
                    Some(v) => v + amount,
                    None => amount as int,
                }
            },
        )),
        counter_after_all(counter_change_spec(session, name, amount, reset, now), other_session, other_name, other_stored)
            == Some(other_stored),
{
    reveal_strlit("INSERT INTO steop_counters (session_id, name, value, updated_at) VALUES (?1, ?2, ?3, ?4) ON CONFLICT(session_id, name) DO UPDATE SET value = steop_counters.value + excluded.value, updated_at = excluded.updated_at RETURNING value");
    reveal_strlit("INSERT INTO steop_counters (session_id, name, value, updated_at) VALUES (?1, ?2, ?3, ?4) ON CONFLICT(session_id, name) DO UPDATE SET value = excluded.value, updated_at = excluded.updated_at RETURNING value");
    reveal_strlit("INSERT INTO steop_state (session_id, data, created_at, updated_at) VALUES (?1, '{}', ?2, ?2) ON CONFLICT(session_id) DO NOTHING");
    reveal_strlit("UPDATE steop_state SET updated_at = ?1 WHERE session_id = ?2");
    assert(COUNTER_INCR@[141] != COUNTER_RESET@[141]);
    assert(COUNTER_INCR@[18] != STATE_ENSURE@[18]);
    assert(COUNTER_RESET@[18] != STATE_ENSURE@[18]);
    assert(COUNTER_INCR@[0] != STATE_TOUCH@[0]);
    assert(COUNTER_RESET@[0] != STATE_TOUCH@[0]);
    let sts = counter_change_spec(session, name, amount, reset, now);
    let t1 = sts.drop_first();
    let t2 = t1.drop_first();
    let t3 = t2.drop_first();
    assert(t3.len() == 0);
    assert(t1[0] == sts[1]);
    assert(t2[0] == sts[2]);
    assert(sts[0].0 == STATE_ENSURE@);
    assert(sts[2].0 == STATE_TOUCH@);
    let v = counter_after(sts[1], session, name, stored);
    assert(counter_after_all(t3, session, name, v->0) == v);
    assert(counter_after_all(t2, session, name, v->0) == v);
    assert(counter_after_all(t1, session, name, stored) == v);
    assert(counter_after_all(sts, session, name, stored) == v);
    let w = counter_after(sts[1], other_session, other_name, other_stored);
    assert(w == Some(other_stored));
    assert(counter_after_all(t3, other_session, other_name, other_stored) == w);
    assert(counter_after_all(t2, other_session, other_name, other_stored) == w);
    assert(counter_after_all(t1, other_session, other_name, other_stored) == w);
}

} // verus!
