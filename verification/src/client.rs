//! The command-line client's requests to a server's REST API: for each
//! operation, the method, path, query and body it sends.
use vstd::prelude::*;

use crate::json::{jv_members, jv_seq, lemma_jv_seq, Json, JsonV};
use crate::sql::strings_view;
use crate::text::{chars_of, decimal, decimal_chars, push_str, string_of};

verus! {

/// Why a request failed: the HTTP exchange, or reading its answer.
pub enum ClientError {
    Http(String),
    Json(String),
}

impl ClientError {
    /// `HTTP error: {e}` or `JSON error: {e}`.
    pub fn message(&self) -> (r: String)
        ensures
            r@ == (match self {
                ClientError::Http(s) => "HTTP error: "@ + s@,
                ClientError::Json(s) => "JSON error: "@ + s@,
            }),
    {
        match self {
            ClientError::Http(s) => {
                let mut out = chars_of("HTTP error: ");
                push_str(&mut out, s.as_str());
                string_of(out.as_slice())
            },
            ClientError::Json(s) => {
                let mut out = chars_of("JSON error: ");
                push_str(&mut out, s.as_str());
                string_of(out.as_slice())
            },
        }
    }
}

#[derive(PartialEq, Eq, Structural)]
pub enum Method {
    Get,
    Post,
    Put,
    Delete,
}

/// A request to the API: method, path below the server's URL, query pairs in
/// order, and JSON body.
pub struct ApiRequest {
    pub method: Method,
    pub path: String,
    pub query: Vec<(String, String)>,
    pub body: Option<Json>,
}

pub struct ApiRequestV {
    pub method: Method,
    pub path: Seq<char>,
    pub query: Seq<(Seq<char>, Seq<char>)>,
    pub body: Option<JsonV>,
}

pub open spec fn pairs_view(q: Seq<(String, String)>) -> Seq<(Seq<char>, Seq<char>)> {
    q.map_values(|p: (String, String)| (p.0@, p.1@))
}

impl View for ApiRequest {
    type V = ApiRequestV;

    open spec fn view(&self) -> ApiRequestV {
        ApiRequestV {
            method: self.method,
            path: self.path@,
            query: pairs_view(self.query@),
            body: match self.body {
                Some(b) => Some(b@),
                None => None,
            },
        }
    }
}

/// The URL of a path on a server: the server's URL followed by the path.
pub fn request_url(base_url: &str, path: &str) -> (r: String)
    ensures
        r@ == base_url@ + path@,
{
    let mut out = chars_of(base_url);
    push_str(&mut out, path);
    string_of(out.as_slice())
}

fn request(method: Method, path: String, query: Vec<(String, String)>, body: Option<Json>) -> (r: ApiRequest)
    ensures
        r.method == method,
        r.path@ == path@,
        r.query@ == query@,
        r.body == body,
{
    ApiRequest { method, path, query, body }
}

fn push_pair(q: &mut Vec<(String, String)>, k: &str, v: &str)
    ensures
        pairs_view(final(q)@) == pairs_view(old(q)@).push((k@, v@)),
{
    let ghost before = q@;
    q.push((String::from_str(k), String::from_str(v)));
    assert(pairs_view(q@) =~= pairs_view(before).push((k@, v@)));
}

/// `{prefix}{name}{suffix}`.
fn path3(prefix: &str, name: &str, suffix: &str) -> (r: String)
    ensures
        r@ == prefix@ + name@ + suffix@,
{
    let mut out = chars_of(prefix);
    push_str(&mut out, name);
    push_str(&mut out, suffix);
    string_of(out.as_slice())
}

/// A JSON array of strings.
pub open spec fn string_array(v: Seq<Seq<char>>) -> JsonV {
    JsonV::Array(v.map_values(|s: Seq<char>| JsonV::Str(s)))
}

pub fn string_array_of(v: Vec<String>) -> (r: Json)
    ensures
        r@ == string_array(strings_view(v@)),
{
    let ghost sv = strings_view(v@);
    let mut out: Vec<Json> = Vec::new();
    let mut rest = v;
    let ghost all = rest@;
    let n: usize = rest.len();
    let mut i: usize = 0;
    while i < n
        invariant
            n == all.len(),
            i <= n,
            sv == strings_view(all),
            rest@ == all.skip(i as int),
            jv_seq(out@) == sv.take(i as int).map_values(|s: Seq<char>| JsonV::Str(s)),
        decreases n - i,
    {
        let s = rest.remove(0);
        assert(s == all[i as int]);
        assert(rest@ =~= all.skip(i + 1));
        let ghost before = out@;
        let j = Json::Str(s);
        out.push(j);
        proof {
            crate::json::lemma_jv_seq_push(before, j);
            assert(sv.take(i + 1).map_values(|s: Seq<char>| JsonV::Str(s)) =~=
                sv.take(i as int).map_values(|s: Seq<char>| JsonV::Str(s)).push(JsonV::Str(sv[i as int])));
        }
        i = i + 1;
    }
    assert(sv.take(n as int) =~= sv);
    Json::Array(out)
}

/// A member, when its value is given.
pub open spec fn opt_member(k: Seq<char>, v: Option<JsonV>) -> Seq<(Seq<char>, JsonV)> {
    match v {
        Some(x) => seq![(k, x)],
        None => Seq::empty(),
    }
}

fn push_member(m: &mut Vec<(String, Json)>, k: &str, v: Json)
    ensures
        jv_members(final(m)@) == jv_members(old(m)@).push((k@, v@)),
{
    let ghost before = m@;
    let key = String::from_str(k);
    m.push((key, v));
    proof {
        crate::json::lemma_jv_members_push(before, key, v);
    }
}

fn push_opt_str(m: &mut Vec<(String, Json)>, k: &str, v: Option<String>)
    ensures
        jv_members(final(m)@) == jv_members(old(m)@) + opt_member(k@, match v {
            Some(s) => Some(JsonV::Str(s@)),
            None => None,
        }),
{
    match v {
        Some(s) => {
            push_member(m, k, Json::Str(s));
        },
        None => {
            assert(jv_members(m@) =~= jv_members(m@) + Seq::<(Seq<char>, JsonV)>::empty());
        },
    }
}

fn push_opt_list(m: &mut Vec<(String, Json)>, k: &str, v: Option<Vec<String>>)
    ensures
        jv_members(final(m)@) == jv_members(old(m)@) + opt_member(k@, match v {
            Some(l) => Some(string_array(strings_view(l@))),
            None => None,
        }),
{
    match v {
        Some(l) => {
            push_member(m, k, string_array_of(l));
        },
        None => {
            assert(jv_members(m@) =~= jv_members(m@) + Seq::<(Seq<char>, JsonV)>::empty());
        },
    }
}

pub open spec fn opt_str_json(v: Option<String>) -> Option<JsonV> {
    match v {
        Some(s) => Some(JsonV::Str(s@)),
        None => None,
    }
}

pub open spec fn opt_list_json(v: Option<Vec<String>>) -> Option<JsonV> {
    match v {
        Some(l) => Some(string_array(strings_view(l@))),
        None => None,
    }
}

// ── Memories ──

/// `POST /api/v1/memories` with the title, content and scope, and the tags,
/// type and author when given.
pub fn store_memory_request(
    title: &str,
    content: &str,
    scope: &str,
    tags: Option<Vec<String>>,
    memory_type: Option<String>,
    author: Option<String>,
) -> (r: ApiRequest)
    ensures
        r@ == (ApiRequestV {
            method: Method::Post,
            path: "/api/v1/memories"@,
            query: Seq::empty(),
            body: Some(JsonV::Object(
                seq![("title"@, JsonV::Str(title@)), ("content"@, JsonV::Str(content@)), ("scope"@, JsonV::Str(scope@))]
                    + opt_member("tags"@, opt_list_json(tags))
                    + opt_member("memory_type"@, opt_str_json(memory_type))
                    + opt_member("author"@, opt_str_json(author)),
            )),
        }),
{
    let ghost tv = opt_list_json(tags);
    let ghost mv = opt_str_json(memory_type);
    let ghost av = opt_str_json(author);
    let mut m: Vec<(String, Json)> = Vec::new();
    proof {
        assert(jv_members(m@) =~= Seq::empty());
    }
    push_member(&mut m, "title", Json::Str(String::from_str(title)));
    push_member(&mut m, "content", Json::Str(String::from_str(content)));
    push_member(&mut m, "scope", Json::Str(String::from_str(scope)));
    let ghost m3 = jv_members(m@);
    push_opt_list(&mut m, "tags", tags);
    push_opt_str(&mut m, "memory_type", memory_type);
    push_opt_str(&mut m, "author", author);
    assert(m3 =~= seq![("title"@, JsonV::Str(title@)), ("content"@, JsonV::Str(content@)), ("scope"@, JsonV::Str(scope@))]);
    let r = request(Method::Post, String::from_str("/api/v1/memories"), Vec::new(), Some(Json::Object(m)));
    assert(pairs_view(r.query@) =~= Seq::empty());
    r
}

/// `GET /api/v1/memories` with `q`, `scope`, one `tags` per tag,
/// `match_all_tags=true` and `limit`, each when given, in that order.
pub open spec fn recall_query(
    query: Option<Seq<char>>,
    scope: Option<Seq<char>>,
    tags: Option<Seq<Seq<char>>>,
    match_all_tags: bool,
    limit: Option<u32>,
) -> Seq<(Seq<char>, Seq<char>)> {
    (match query {
        Some(q) => seq![("q"@, q)],
        None => Seq::empty(),
    }) + (match scope {
        Some(s) => seq![("scope"@, s)],
        None => Seq::empty(),
    }) + (match tags {
        Some(t) => t.map_values(|x: Seq<char>| ("tags"@, x)),
        None => Seq::empty(),
    }) + (if match_all_tags { seq![("match_all_tags"@, "true"@)] } else { Seq::empty() }) + (match limit {
        Some(l) => seq![("limit"@, decimal(l as nat))],
        None => Seq::empty(),
    })
}

fn push_opt_pair(q: &mut Vec<(String, String)>, k: &str, v: Option<&str>)
    ensures
        pairs_view(final(q)@) == pairs_view(old(q)@) + (match v {
            Some(x) => seq![(k@, x@)],
            None => Seq::empty(),
        }),
{
    match v {
        Some(x) => {
            let ghost before = pairs_view(q@);
            push_pair(q, k, x);
            assert(pairs_view(q@) =~= before + seq![(k@, x@)]);
        },
        None => {
            assert(pairs_view(q@) =~= pairs_view(q@) + Seq::<(Seq<char>, Seq<char>)>::empty());
        },
    }
}

fn push_limit(q: &mut Vec<(String, String)>, limit: Option<u32>)
    ensures
        pairs_view(final(q)@) == pairs_view(old(q)@) + (match limit {
            Some(l) => seq![("limit"@, decimal(l as nat))],
            None => Seq::empty(),
        }),
{
    match limit {
        Some(l) => {
            let d = decimal_chars(l as u64);
            let ds = string_of(d.as_slice());
            let ghost before = pairs_view(q@);
            push_pair(q, "limit", ds.as_str());
            assert(pairs_view(q@) =~= before + seq![("limit"@, decimal(l as nat))]);
        },
        None => {
            assert(pairs_view(q@) =~= pairs_view(q@) + Seq::<(Seq<char>, Seq<char>)>::empty());
        },
    }
}

pub fn recall_memories_request(
    query: Option<&str>,
    scope: Option<&str>,
    tags: Option<Vec<String>>,
    match_all_tags: bool,
    limit: Option<u32>,
) -> (r: ApiRequest)
    ensures
        r@ == (ApiRequestV {
            method: Method::Get,
            path: "/api/v1/memories"@,
            query: recall_query(
                match query {
                    Some(q) => Some(q@),
                    None => None,
                },
                match scope {
                    Some(s) => Some(s@),
                    None => None,
                },
                crate::sql::opt_strings_view(tags),
                match_all_tags,
                limit,
            ),
            body: None,
        }),
{
    let mut q: Vec<(String, String)> = Vec::new();
    assert(pairs_view(q@) =~= Seq::empty());
    push_opt_pair(&mut q, "q", query);
    push_opt_pair(&mut q, "scope", scope);
    let ghost q2 = pairs_view(q@);
    match &tags {
        Some(t) => {
            let ghost tv = strings_view(t@);
            let mut i: usize = 0;
            while i < t.len()
                invariant
                    i <= t@.len(),
                    tv == strings_view(t@),
                    pairs_view(q@) == q2 + tv.take(i as int).map_values(|x: Seq<char>| ("tags"@, x)),
                decreases t@.len() - i,
            {
                push_pair(&mut q, "tags", t[i].as_str());
                assert(tv.take(i + 1).map_values(|x: Seq<char>| ("tags"@, x)) =~=
                    tv.take(i as int).map_values(|x: Seq<char>| ("tags"@, x)).push(("tags"@, tv[i as int])));
                i = i + 1;
            }
            assert(tv.take(i as int) =~= tv);
        },
        None => {
            assert(pairs_view(q@) =~= q2 + Seq::<(Seq<char>, Seq<char>)>::empty());
        },
    }
    let ghost q3 = pairs_view(q@);
    if match_all_tags {
        push_pair(&mut q, "match_all_tags", "true");
        assert(pairs_view(q@) =~= q3 + seq![("match_all_tags"@, "true"@)]);
    } else {
        assert(pairs_view(q@) =~= q3 + Seq::<(Seq<char>, Seq<char>)>::empty());
    }
    push_limit(&mut q, limit);
    request(Method::Get, String::from_str("/api/v1/memories"), q, None)
}

/// `GET /api/v1/memories/{id}`.
pub fn get_memory_request(id: &str) -> (r: ApiRequest)
    ensures
        r@ == (ApiRequestV { method: Method::Get, path: "/api/v1/memories/"@ + id@, query: Seq::empty(), body: None }),
{
    let r = request(Method::Get, path3("/api/v1/memories/", id, ""), Vec::new(), None);
    assert(pairs_view(r.query@) =~= Seq::empty());
    assert(r.path@ =~= "/api/v1/memories/"@ + id@) by {
        reveal_strlit("");
    }
    r
}

/// `DELETE /api/v1/memories/{id}`.
pub fn delete_memory_request(id: &str) -> (r: ApiRequest)
    ensures
        r@ == (ApiRequestV { method: Method::Delete, path: "/api/v1/memories/"@ + id@, query: Seq::empty(), body: None }),
{
    let r = request(Method::Delete, path3("/api/v1/memories/", id, ""), Vec::new(), None);
    assert(pairs_view(r.query@) =~= Seq::empty());
    assert(r.path@ =~= "/api/v1/memories/"@ + id@) by {
        reveal_strlit("");
    }
    r
}

/// `PUT /api/v1/memories/{id}` with the given fields only.
pub fn update_memory_request(
    id: &str,
    title: Option<String>,
    content: Option<String>,
    scope: Option<String>,
    tags: Option<Vec<String>>,
    memory_type: Option<String>,
) -> (r: ApiRequest)
    ensures
        r@ == (ApiRequestV {
            method: Method::Put,
            path: "/api/v1/memories/"@ + id@,
            query: Seq::empty(),
            body: Some(JsonV::Object(
                opt_member("title"@, opt_str_json(title)) + opt_member("content"@, opt_str_json(content))
                    + opt_member("scope"@, opt_str_json(scope)) + opt_member("tags"@, opt_list_json(tags))
                    + opt_member("memory_type"@, opt_str_json(memory_type)),
            )),
        }),
{
    let ghost tv = opt_str_json(title);
    let ghost cv = opt_str_json(content);
    let ghost sv = opt_str_json(scope);
    let ghost gv = opt_list_json(tags);
    let ghost mv = opt_str_json(memory_type);
    let mut m: Vec<(String, Json)> = Vec::new();
    proof {
        assert(jv_members(m@) =~= Seq::empty());
    }
    push_opt_str(&mut m, "title", title);
    assert(jv_members(m@) =~= opt_member("title"@, tv));
    push_opt_str(&mut m, "content", content);
    push_opt_str(&mut m, "scope", scope);
    push_opt_list(&mut m, "tags", tags);
    push_opt_str(&mut m, "memory_type", memory_type);
    let r = request(Method::Put, path3("/api/v1/memories/", id, ""), Vec::new(), Some(Json::Object(m)));
    assert(pairs_view(r.query@) =~= Seq::empty());
    assert(r.path@ =~= "/api/v1/memories/"@ + id@) by {
        reveal_strlit("");
    }
    r
}

/// `GET {path}` with one optional query pair.
fn get_with(path: &str, k: &str, v: Option<&str>) -> (r: ApiRequest)
    ensures
        r@ == (ApiRequestV {
            method: Method::Get,
            path: path@,
            query: match v {
                Some(x) => seq![(k@, x@)],
                None => Seq::empty(),
            },
            body: None,
        }),
{
    let mut q: Vec<(String, String)> = Vec::new();
    assert(pairs_view(q@) =~= Seq::empty());
    push_opt_pair(&mut q, k, v);
    request(Method::Get, String::from_str(path), q, None)
}

/// `GET /api/v1/scopes`, with `prefix` when given.
pub fn list_scopes_request(prefix: Option<&str>) -> (r: ApiRequest)
    ensures
        r@ == (ApiRequestV {
            method: Method::Get,
            path: "/api/v1/scopes"@,
            query: match prefix {
                Some(p) => seq![("prefix"@, p@)],
                None => Seq::empty(),
            },
            body: None,
        }),
{
    get_with("/api/v1/scopes", "prefix", prefix)
}

/// `GET /api/v1/tags`, with `scope` when given.
pub fn list_tags_request(scope: Option<&str>) -> (r: ApiRequest)
    ensures
        r@ == (ApiRequestV {
            method: Method::Get,
            path: "/api/v1/tags"@,
            query: match scope {
                Some(s) => seq![("scope"@, s@)],
                None => Seq::empty(),
            },
            body: None,
        }),
{
    get_with("/api/v1/tags", "scope", scope)
}

/// `GET /api/v1/stats` (also how the client checks that a server is up).
pub fn stats_request() -> (r: ApiRequest)
    ensures
        r@ == (ApiRequestV { method: Method::Get, path: "/api/v1/stats"@, query: Seq::empty(), body: None }),
{
    get_with("/api/v1/stats", "", None)
}

// ── Knowledge graph ──

/// `GET /api/v1/graph?scope={scope}`.
pub fn graph_read_request(scope: &str) -> (r: ApiRequest)
    ensures
        r@ == (ApiRequestV { method: Method::Get, path: "/api/v1/graph"@, query: seq![("scope"@, scope@)], body: None }),
{
    get_with("/api/v1/graph", "scope", Some(scope))
}

/// `GET /api/v1/graph/entities?q={query}`, with `scope` and `limit` when given.
pub fn graph_search_request(query: &str, scope: Option<&str>, limit: Option<u32>) -> (r: ApiRequest)
    ensures
        r@ == (ApiRequestV {
            method: Method::Get,
            path: "/api/v1/graph/entities"@,
            query: seq![("q"@, query@)] + (match scope {
                Some(s) => seq![("scope"@, s@)],
                None => Seq::empty(),
            }) + (match limit {
                Some(l) => seq![("limit"@, decimal(l as nat))],
                None => Seq::empty(),
            }),
            body: None,
        }),
{
    let mut q: Vec<(String, String)> = Vec::new();
    assert(pairs_view(q@) =~= Seq::empty());
    push_pair(&mut q, "q", query);
    push_opt_pair(&mut q, "scope", scope);
    push_limit(&mut q, limit);
    request(Method::Get, String::from_str("/api/v1/graph/entities"), q, None)
}

/// `GET /api/v1/graph/open?names={names}`, with `scope` when given.
pub fn graph_open_request(names: &str, scope: Option<&str>) -> (r: ApiRequest)
    ensures
        r@ == (ApiRequestV {
            method: Method::Get,
            path: "/api/v1/graph/open"@,
            query: seq![("names"@, names@)] + (match scope {
                Some(s) => seq![("scope"@, s@)],
                None => Seq::empty(),
            }),
            body: None,
        }),
{
    let mut q: Vec<(String, String)> = Vec::new();
    assert(pairs_view(q@) =~= Seq::empty());
    push_pair(&mut q, "names", names);
    push_opt_pair(&mut q, "scope", scope);
    request(Method::Get, String::from_str("/api/v1/graph/open"), q, None)
}

/// `{list_key: items, "scope": scope}`.
fn list_and_scope(list_key: &str, items: Json, scope: &str) -> (r: Json)
    ensures
        r@ == JsonV::Object(seq![(list_key@, items@), ("scope"@, JsonV::Str(scope@))]),
{
    let mut m: Vec<(String, Json)> = Vec::new();
    proof {
        assert(jv_members(m@) =~= Seq::empty());
    }
    push_member(&mut m, list_key, items);
    push_member(&mut m, "scope", Json::Str(String::from_str(scope)));
    let r = Json::Object(m);
    assert(jv_members(m@) =~= seq![(list_key@, items@), ("scope"@, JsonV::Str(scope@))]);
    r
}

/// `POST /api/v1/graph/entities` with `{"entities": ..., "scope": ...}`.
pub fn graph_create_entities_request(entities: Json, scope: &str) -> (r: ApiRequest)
    ensures
        r@ == (ApiRequestV {
            method: Method::Post,
            path: "/api/v1/graph/entities"@,
            query: Seq::empty(),
            body: Some(JsonV::Object(seq![("entities"@, entities@), ("scope"@, JsonV::Str(scope@))])),
        }),
{
    let r = request(Method::Post, String::from_str("/api/v1/graph/entities"), Vec::new(), Some(list_and_scope("entities", entities, scope)));
    assert(pairs_view(r.query@) =~= Seq::empty());
    r
}

/// `POST /api/v1/graph/relations` with `{"relations": ..., "scope": ...}`.
pub fn graph_create_relations_request(relations: Json, scope: &str) -> (r: ApiRequest)
    ensures
        r@ == (ApiRequestV {
            method: Method::Post,
            path: "/api/v1/graph/relations"@,
            query: Seq::empty(),
            body: Some(JsonV::Object(seq![("relations"@, relations@), ("scope"@, JsonV::Str(scope@))])),
        }),
{
    let r = request(Method::Post, String::from_str("/api/v1/graph/relations"), Vec::new(), Some(list_and_scope("relations", relations, scope)));
    assert(pairs_view(r.query@) =~= Seq::empty());
    r
}

/// `DELETE /api/v1/graph/relations` with `{"relations": ..., "scope": ...}`.
pub fn graph_delete_relations_request(relations: Json, scope: &str) -> (r: ApiRequest)
    ensures
        r@ == (ApiRequestV {
            method: Method::Delete,
            path: "/api/v1/graph/relations"@,
            query: Seq::empty(),
            body: Some(JsonV::Object(seq![("relations"@, relations@), ("scope"@, JsonV::Str(scope@))])),
        }),
{
    let r = request(Method::Delete, String::from_str("/api/v1/graph/relations"), Vec::new(), Some(list_and_scope("relations", relations, scope)));
    assert(pairs_view(r.query@) =~= Seq::empty());
    r
}

/// `{method} /api/v1/graph/entities/{name}{suffix}?scope={scope}` with a body.
fn entity_request(method: Method, name: &str, suffix: &str, scope: &str, body: Option<Json>) -> (r: ApiRequest)
    ensures
        r@ == (ApiRequestV {
            method: method,
            path: "/api/v1/graph/entities/"@ + name@ + suffix@,
            query: seq![("scope"@, scope@)],
            body: match body {
                Some(b) => Some(b@),
                None => None,
            },
        }),
{
    let mut q: Vec<(String, String)> = Vec::new();
    assert(pairs_view(q@) =~= Seq::empty());
    push_pair(&mut q, "scope", scope);
    request(method, path3("/api/v1/graph/entities/", name, suffix), q, body)
}

/// `GET /api/v1/graph/entities/{name}?scope={scope}`.
pub fn graph_get_entity_request(name: &str, scope: &str) -> (r: ApiRequest)
    ensures
        r@ == (ApiRequestV {
            method: Method::Get,
            path: "/api/v1/graph/entities/"@ + name@,
            query: seq![("scope"@, scope@)],
            body: None,
        }),
{
    let r = entity_request(Method::Get, name, "", scope, None);
    assert(r@.path =~= "/api/v1/graph/entities/"@ + name@) by {
        reveal_strlit("");
    }
    r
}

/// `DELETE /api/v1/graph/entities/{name}?scope={scope}`.
pub fn graph_delete_entity_request(name: &str, scope: &str) -> (r: ApiRequest)
    ensures
        r@ == (ApiRequestV {
            method: Method::Delete,
            path: "/api/v1/graph/entities/"@ + name@,
            query: seq![("scope"@, scope@)],
            body: None,
        }),
{
    let r = entity_request(Method::Delete, name, "", scope, None);
    assert(r@.path =~= "/api/v1/graph/entities/"@ + name@) by {
        reveal_strlit("");
    }
    r
}

/// `{"observations": [...]}`.
fn observations_body(observations: Vec<String>) -> (r: Json)
    ensures
        r@ == JsonV::Object(seq![("observations"@, string_array(strings_view(observations@)))]),
{
    let mut m: Vec<(String, Json)> = Vec::new();
    proof {
        assert(jv_members(m@) =~= Seq::empty());
    }
    push_member(&mut m, "observations", string_array_of(observations));
    let r = Json::Object(m);
    assert(jv_members(m@) =~= seq![("observations"@, string_array(strings_view(observations@)))]);
    r
}

/// `POST /api/v1/graph/entities/{name}/observations?scope={scope}` with the observations.
pub fn graph_add_observations_request(name: &str, scope: &str, observations: Vec<String>) -> (r: ApiRequest)
    ensures
        r@ == (ApiRequestV {
            method: Method::Post,
            path: "/api/v1/graph/entities/"@ + name@ + "/observations"@,
            query: seq![("scope"@, scope@)],
            body: Some(JsonV::Object(seq![("observations"@, string_array(strings_view(observations@)))])),
        }),
{
    entity_request(Method::Post, name, "/observations", scope, Some(observations_body(observations)))
}

/// `DELETE /api/v1/graph/entities/{name}/observations?scope={scope}` with the observations.
pub fn graph_delete_observations_request(name: &str, scope: &str, observations: Vec<String>) -> (r: ApiRequest)
    ensures
        r@ == (ApiRequestV {
            method: Method::Delete,
            path: "/api/v1/graph/entities/"@ + name@ + "/observations"@,
            query: seq![("scope"@, scope@)],
            body: Some(JsonV::Object(seq![("observations"@, string_array(strings_view(observations@)))])),
        }),
{
    entity_request(Method::Delete, name, "/observations", scope, Some(observations_body(observations)))
}

/// `[{"name": ..., "entity_type": ..., "observations": [...]}]`, the one
/// entity `stele entities create` sends (no observations when none are given).
pub open spec fn single_entity_body(name: Seq<char>, entity_type: Seq<char>, observations: Seq<Seq<char>>) -> JsonV {
    JsonV::Array(seq![JsonV::Object(seq![
        ("name"@, JsonV::Str(name)),
        ("entity_type"@, JsonV::Str(entity_type)),
        ("observations"@, string_array(observations)),
    ])])
}

pub fn single_entity(name: &str, entity_type: &str, observations: Option<Vec<String>>) -> (r: Json)
    ensures
        r@ == single_entity_body(name@, entity_type@, match observations {
            Some(o) => strings_view(o@),
            None => Seq::empty(),
        }),
{
    let obs = match observations {
        Some(o) => o,
        None => Vec::new(),
    };
    let ghost ov = strings_view(obs@);
    let arr = string_array_of(obs);
    let mut m: Vec<(String, Json)> = Vec::new();
    proof {
        assert(jv_members(m@) =~= Seq::empty());
    }
    push_member(&mut m, "name", Json::Str(String::from_str(name)));
    push_member(&mut m, "entity_type", Json::Str(String::from_str(entity_type)));
    push_member(&mut m, "observations", arr);
    let obj = Json::Object(m);
    assert(jv_members(m@) =~= seq![
        ("name"@, JsonV::Str(name@)),
        ("entity_type"@, JsonV::Str(entity_type@)),
        ("observations"@, string_array(ov)),
    ]);
    let ghost objv = obj@;
    let mut items: Vec<Json> = Vec::new();
    items.push(obj);
    proof {
        lemma_jv_seq(items@);
    }
    assert(jv_seq(items@) =~= seq![objv]);
    proof {
        if observations is None {
            assert(ov =~= Seq::<Seq<char>>::empty());
        }
    }
    Json::Array(items)
}

/// `[{"from_entity": ..., "to_entity": ..., "relation_type": ...}]`, the one
/// relation `stele relations create` and `delete` send.
pub open spec fn single_relation_body(from: Seq<char>, to: Seq<char>, relation_type: Seq<char>) -> JsonV {
    JsonV::Array(seq![JsonV::Object(seq![
        ("from_entity"@, JsonV::Str(from)),
        ("to_entity"@, JsonV::Str(to)),
        ("relation_type"@, JsonV::Str(relation_type)),
    ])])
}

pub fn single_relation(from: &str, to: &str, relation_type: &str) -> (r: Json)
    ensures
        r@ == single_relation_body(from@, to@, relation_type@),
{
    let mut m: Vec<(String, Json)> = Vec::new();
    proof {
        assert(jv_members(m@) =~= Seq::empty());
    }
    push_member(&mut m, "from_entity", Json::Str(String::from_str(from)));
    push_member(&mut m, "to_entity", Json::Str(String::from_str(to)));
    push_member(&mut m, "relation_type", Json::Str(String::from_str(relation_type)));
    let obj = Json::Object(m);
    assert(jv_members(m@) =~= seq![
        ("from_entity"@, JsonV::Str(from@)),
        ("to_entity"@, JsonV::Str(to@)),
        ("relation_type"@, JsonV::Str(relation_type@)),
    ]);
    let ghost objv = obj@;
    let mut items: Vec<Json> = Vec::new();
    items.push(obj);
    proof {
        lemma_jv_seq(items@);
    }
    assert(jv_seq(items@) =~= seq![objv]);
    Json::Array(items)
}

} // verus!
