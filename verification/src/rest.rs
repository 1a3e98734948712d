//! The REST API of the server: how its query strings are read, and the
//! bodies and statuses it answers with.
use vstd::prelude::*;

use crate::json::{jv_members, jv_seq, lemma_jv_members, Json, JsonV};
use crate::models::{RecentMemorySummary, Stats};
use crate::notify::{error_body, error_body_of};
use crate::query::SearchParams;
use crate::sql::{opt_strings_view, strings_view};
use crate::text::{csv_items, split_csv};

verus! {

fn split_list(s: &str) -> (r: Vec<String>)
    ensures
        strings_view(r@) == csv_items(s@),
{
    let v = split_csv(s);
    assert(strings_view(v@) =~= csv_items(s@));
    v
}

/// A comma-separated list parameter: its items, trimmed, empty ones dropped;
/// none when the parameter is absent.
pub fn list_param(p: Option<String>) -> (r: Option<Vec<String>>)
    ensures
        opt_strings_view(r) == (match p {
            Some(s) => Some(csv_items(s@)),
            None => None,
        }),
{
    match p {
        Some(s) => Some(split_list(s.as_str())),
        None => None,
    }
}

/// The scopes of a graph query: the listed ones, or the empty scope (every
/// scope) when none is given.
pub fn graph_scopes(p: Option<String>) -> (r: Vec<String>)
    ensures
        strings_view(r@) == (match p {
            Some(s) => csv_items(s@),
            None => seq![Seq::<char>::empty()],
        }),
{
    match p {
        Some(s) => split_list(s.as_str()),
        None => {
            let mut v: Vec<String> = Vec::new();
            v.push(String::new());
            assert(strings_view(v@) =~= seq![Seq::<char>::empty()]);
            v
        },
    }
}

/// The search of `GET /api/v1/memories`: `q`, the `scope` and `tags` lists,
/// `match_all_tags` and `limit`.
pub fn memories_search(q: Option<String>, scope: Option<String>, tags: Option<String>, match_all_tags: bool, limit: Option<usize>) -> (r: SearchParams)
    ensures
        crate::mailbox::opt_view(r.query) == crate::mailbox::opt_view(q),
        opt_strings_view(r.scope) == (match scope {
            Some(s) => Some(csv_items(s@)),
            None => None,
        }),
        opt_strings_view(r.tags) == (match tags {
            Some(s) => Some(csv_items(s@)),
            None => None,
        }),
        r.match_all_tags == match_all_tags,
        r.limit == limit,
{
    SearchParams { query: q, scope: list_param(scope), tags: list_param(tags), match_all_tags, limit }
}

/// The status and body of an error answer: `{"error": message}`.
pub fn error_response(status: u16, message: &str) -> (r: (u16, Json))
    ensures
        r.0 == status,
        r.1@ == error_body(message@),
{
    (status, error_body_of(String::from_str(message)))
}

/// How a read of one item is answered: the item (200), `{not_found}` (404),
/// or the store's error (500).
pub fn found_or_not(outcome: Result<Option<Json>, String>, not_found: &str) -> (r: (u16, Json))
    ensures
        match outcome {
            Ok(Some(v)) => r.0 == 200 && r.1 == v,
            Ok(None) => r.0 == 404 && r.1@ == error_body(not_found@),
            Err(e) => r.0 == 500 && r.1@ == error_body(e@),
        },
{
    match outcome {
        Ok(Some(v)) => (200, v),
        Ok(None) => error_response(404, not_found),
        Err(e) => (500, error_body_of(e)),
    }
}

/// `{"deleted": true, "id": id}`.
pub open spec fn deleted_body(id: Seq<char>) -> JsonV {
    JsonV::Object(seq![("deleted"@, JsonV::Bool(true)), ("id"@, JsonV::Str(id))])
}

/// How a deletion is answered: `{"deleted": true, "id": ...}` (200),
/// `{not_found}` (404), or the store's error (500).
pub fn deletion_response(id: &str, outcome: Result<bool, String>, not_found: &str) -> (r: (u16, Json))
    ensures
        match outcome {
            Ok(true) => r.0 == 200 && r.1@ == deleted_body(id@),
            Ok(false) => r.0 == 404 && r.1@ == error_body(not_found@),
            Err(e) => r.0 == 500 && r.1@ == error_body(e@),
        },
{
    match outcome {
        Ok(true) => {
            let mut m: Vec<(String, Json)> = Vec::new();
            m.push((String::from_str("deleted"), Json::Bool(true)));
            m.push((String::from_str("id"), Json::Str(String::from_str(id))));
            proof {
                lemma_jv_members(m@);
            }
            let body = Json::Object(m);
            assert(jv_members(m@) =~= seq![("deleted"@, JsonV::Bool(true)), ("id"@, JsonV::Str(id@))]);
            (200, body)
        },
        Ok(false) => error_response(404, not_found),
        Err(e) => (500, error_body_of(e)),
    }
}

/// The answer for one created entity: `{"name", "id", "created"}`.
pub open spec fn entity_created_body(name: Seq<char>, id: Seq<char>, created: bool) -> JsonV {
    JsonV::Object(seq![("name"@, JsonV::Str(name)), ("id"@, JsonV::Str(id)), ("created"@, JsonV::Bool(created))])
}

pub fn entity_created(name: &str, id: String, created: bool) -> (r: Json)
    ensures
        r@ == entity_created_body(name@, id@, created),
{
    let ghost idv = id@;
    let mut m: Vec<(String, Json)> = Vec::new();
    m.push((String::from_str("name"), Json::Str(String::from_str(name))));
    m.push((String::from_str("id"), Json::Str(id)));
    m.push((String::from_str("created"), Json::Bool(created)));
    proof {
        lemma_jv_members(m@);
    }
    let r = Json::Object(m);
    assert(jv_members(m@) =~= seq![("name"@, JsonV::Str(name@)), ("id"@, JsonV::Str(idv)), ("created"@, JsonV::Bool(created))]);
    r
}

/// The answer for one created relation: `{"from", "to", "relation_type", "id", "created"}`.
pub open spec fn relation_created_body(from: Seq<char>, to: Seq<char>, relation_type: Seq<char>, id: Seq<char>, created: bool) -> JsonV {
    JsonV::Object(seq![
        ("from"@, JsonV::Str(from)),
        ("to"@, JsonV::Str(to)),
        ("relation_type"@, JsonV::Str(relation_type)),
        ("id"@, JsonV::Str(id)),
        ("created"@, JsonV::Bool(created)),
    ])
}

pub fn relation_created(from: &str, to: &str, relation_type: &str, id: String, created: bool) -> (r: Json)
    ensures
        r@ == relation_created_body(from@, to@, relation_type@, id@, created),
{
    let ghost idv = id@;
    let mut m: Vec<(String, Json)> = Vec::new();
    m.push((String::from_str("from"), Json::Str(String::from_str(from))));
    m.push((String::from_str("to"), Json::Str(String::from_str(to))));
    m.push((String::from_str("relation_type"), Json::Str(String::from_str(relation_type))));
    m.push((String::from_str("id"), Json::Str(id)));
    m.push((String::from_str("created"), Json::Bool(created)));
    proof {
        lemma_jv_members(m@);
    }
    let r = Json::Object(m);
    assert(jv_members(m@) =~= seq![
        ("from"@, JsonV::Str(from@)),
        ("to"@, JsonV::Str(to@)),
        ("relation_type"@, JsonV::Str(relation_type@)),
        ("id"@, JsonV::Str(idv)),
        ("created"@, JsonV::Bool(created)),
    ]);
    r
}

/// `Entity '{from}' or '{to}' not found in scope '{scope}'`, the 404 of a relation whose end is missing.
pub open spec fn missing_end_text(from: Seq<char>, to: Seq<char>, scope: Seq<char>) -> Seq<char> {
    "Entity '"@ + from + "' or '"@ + to + "' not found in scope '"@ + scope + "'"@
}

pub fn missing_end(from: &str, to: &str, scope: &str) -> (r: (u16, Json))
    ensures
        r.0 == 404,
        r.1@ == error_body(missing_end_text(from@, to@, scope@)),
{
    let mut out = crate::text::chars_of("Entity '");
    crate::text::push_str(&mut out, from);
    crate::text::push_str(&mut out, "' or '");
    crate::text::push_str(&mut out, to);
    crate::text::push_str(&mut out, "' not found in scope '");
    crate::text::push_str(&mut out, scope);
    crate::text::push_str(&mut out, "'");
    (404, error_body_of(crate::text::string_of(out.as_slice())))
}

fn string_items(v: Vec<String>) -> (r: Json)
    ensures
        r@ == crate::client::string_array(strings_view(v@)),
{
    crate::client::string_array_of(v)
}

/// `{"deleted": [...], "not_found": [...]}`, the answer to a deletion of relations.
pub fn relations_deleted(deleted: Vec<String>, not_found: Vec<String>) -> (r: Json)
    ensures
        r@ == JsonV::Object(seq![
            ("deleted"@, crate::client::string_array(strings_view(deleted@))),
            ("not_found"@, crate::client::string_array(strings_view(not_found@))),
        ]),
{
    let d = string_items(deleted);
    let n = string_items(not_found);
    let ghost dv = d@;
    let ghost nv = n@;
    let mut m: Vec<(String, Json)> = Vec::new();
    m.push((String::from_str("deleted"), d));
    m.push((String::from_str("not_found"), n));
    proof {
        lemma_jv_members(m@);
    }
    let r = Json::Object(m);
    assert(jv_members(m@) =~= seq![("deleted"@, dv), ("not_found"@, nv)]);
    r
}

/// A recent memory in the stats answer.
pub open spec fn recent_body(m: RecentMemorySummary) -> JsonV {
    JsonV::Object(seq![
        ("id"@, JsonV::Str(m.id@)),
        ("title"@, JsonV::Str(m.title@)),
        ("scope"@, JsonV::Str(m.scope@)),
        ("updated_at"@, JsonV::Str(m.updated_at@)),
    ])
}

/// The answer of `GET /api/v1/stats`.
pub open spec fn stats_body(s: Stats) -> JsonV {
    JsonV::Object(seq![
        ("total_memories"@, JsonV::Int(s.total_memories)),
        ("total_scopes"@, JsonV::Int(s.total_scopes)),
        ("total_tags"@, JsonV::Int(s.total_tags)),
        ("recent_memories"@, JsonV::Array(s.recent_memories@.map_values(|m: RecentMemorySummary| recent_body(m)))),
    ])
}

fn recent_json(m: &RecentMemorySummary) -> (r: Json)
    ensures
        r@ == recent_body(*m),
{
    let mut o: Vec<(String, Json)> = Vec::new();
    o.push((String::from_str("id"), Json::Str(m.id.clone())));
    o.push((String::from_str("title"), Json::Str(m.title.clone())));
    o.push((String::from_str("scope"), Json::Str(m.scope.clone())));
    o.push((String::from_str("updated_at"), Json::Str(m.updated_at.clone())));
    proof {
        lemma_jv_members(o@);
    }
    let r = Json::Object(o);
    assert(jv_members(o@) =~= seq![
        ("id"@, JsonV::Str(m.id@)),
        ("title"@, JsonV::Str(m.title@)),
        ("scope"@, JsonV::Str(m.scope@)),
        ("updated_at"@, JsonV::Str(m.updated_at@)),
    ]);
    r
}

pub fn stats_response(s: &Stats) -> (r: Json)
    ensures
        r@ == stats_body(*s),
{
    let ghost rs = s.recent_memories@;
    let mut items: Vec<Json> = Vec::new();
    let mut i: usize = 0;
    while i < s.recent_memories.len()
        invariant
            i <= rs.len(),
            rs == s.recent_memories@,
            jv_seq(items@) == rs.take(i as int).map_values(|m: RecentMemorySummary| recent_body(m)),
        decreases rs.len() - i,
    {
        let j = recent_json(&s.recent_memories[i]);
        let ghost before = items@;
        items.push(j);
        proof {
            crate::json::lemma_jv_seq_push(before, j);
            assert(rs.take(i + 1).map_values(|m: RecentMemorySummary| recent_body(m)) =~=
                rs.take(i as int).map_values(|m: RecentMemorySummary| recent_body(m)).push(recent_body(rs[i as int])));
        }
        i = i + 1;
    }
    assert(rs.take(i as int) =~= rs);
    let ghost arr = jv_seq(items@);
    let mut o: Vec<(String, Json)> = Vec::new();
    o.push((String::from_str("total_memories"), Json::Int(s.total_memories)));
    o.push((String::from_str("total_scopes"), Json::Int(s.total_scopes)));
    o.push((String::from_str("total_tags"), Json::Int(s.total_tags)));
    o.push((String::from_str("recent_memories"), Json::Array(items)));
    proof {
        lemma_jv_members(o@);
    }
    let r = Json::Object(o);
    assert(jv_members(o@) =~= seq![
        ("total_memories"@, JsonV::Int(s.total_memories)),
        ("total_scopes"@, JsonV::Int(s.total_scopes)),
        ("total_tags"@, JsonV::Int(s.total_tags)),
        ("recent_memories"@, JsonV::Array(arr)),
    ]);
    r
}

/// The answer of `GET /api/health`: `ok`, the version, whether the database
/// answered, and the stylos status when there is one.
pub open spec fn health_body(version: Seq<char>, db_ok: bool, stylos: Option<JsonV>) -> JsonV {
    JsonV::Object(seq![
        ("status"@, JsonV::Str("ok"@)),
        ("version"@, JsonV::Str(version)),
        ("db_ok"@, JsonV::Bool(db_ok)),
    ] + match stylos {
        Some(s) => seq![("stylos"@, s)],
        None => Seq::empty(),
    })
}

pub fn health_response(version: &str, db_ok: bool, stylos: Option<Json>) -> (r: Json)
    ensures
        r@ == health_body(version@, db_ok, crate::mailbox::opt_json_view(stylos)),
{
    let ghost sv = crate::mailbox::opt_json_view(stylos);
    let mut o: Vec<(String, Json)> = Vec::new();
    o.push((String::from_str("status"), Json::Str(String::from_str("ok"))));
    o.push((String::from_str("version"), Json::Str(String::from_str(version))));
    o.push((String::from_str("db_ok"), Json::Bool(db_ok)));
    if let Some(s) = stylos {
        o.push((String::from_str("stylos"), s));
    }
    proof {
        lemma_jv_members(o@);
    }
    let r = Json::Object(o);
    assert(jv_members(o@) =~= seq![
        ("status"@, JsonV::Str("ok"@)),
        ("version"@, JsonV::Str(version@)),
        ("db_ok"@, JsonV::Bool(db_ok)),
    ] + match sv {
        Some(s) => seq![("stylos"@, s)],
        None => Seq::empty(),
    });
    r
}

} // verus!
