//! The command-line MCP proxy's decisions: which server a JSON-RPC message
//! goes to, the tools it answers itself, how it rewrites tool listings, and
//! how it turns a server-sent event stream back into messages.
use vstd::prelude::*;

use crate::json::{
    jget, jv, jv_members, jv_seq, lemma_jv_members, lemma_jv_members_push, lemma_jv_seq, lemma_jv_seq_push, member_pos,
    get_str_or_empty, members_insert, members_remove, mget, mremove, mset, str_member_or_empty, Json,
    JsonV,
};
use crate::mailbox::opt_view;
use crate::profiles::{lookup, profile_view, resolve_profile, resolve_profile_spec, SteleConfig};
use crate::sql::strings_view;
use crate::text::{chars_eq, chars_of, decimal, decimal_chars, push_all, push_str, string_of};

verus! {

/// `j` with member `k` set to `v`, when `j` is an object; `j` itself otherwise.
pub open spec fn jset(j: JsonV, k: Seq<char>, v: JsonV) -> JsonV {
    match j {
        JsonV::Object(m) => JsonV::Object(mset(m, k, v)),
        _ => j,
    }
}

// ── The per-call `profile` argument ──

/// The message with `params.arguments.profile` removed, and that member's text
/// when it was a string.
pub open spec fn extract_profile_spec(msg: JsonV) -> (JsonV, Option<Seq<char>>) {
    match jget(msg, "params"@) {
        Some(params) => match jget(params, "arguments"@) {
            Some(JsonV::Object(args)) => match mget(args, "profile"@) {
                Some(v) => (
                    jset(msg, "params"@, jset(params, "arguments"@, JsonV::Object(mremove(args, "profile"@)))),
                    match v {
                        JsonV::Str(s) => Some(s),
                        _ => None,
                    },
                ),
                None => (msg, None),
            },
            _ => (msg, None),
        },
        None => (msg, None),
    }
}

/// Removes the `profile` argument of a tool call and returns it when it is a string.
pub fn extract_profile_param(msg: &mut Json) -> (r: Option<String>)
    ensures
        (final(msg)@, opt_view(r)) == extract_profile_spec(old(msg)@),
{
    let mut whole = Json::Null;
    std::mem::swap(msg, &mut whole);
    let (rebuilt, r) = extract_from_message(whole);
    *msg = rebuilt;
    r
}

fn extract_from_message(msg: Json) -> (r: (Json, Option<String>))
    ensures
        (r.0@, opt_view(r.1)) == extract_profile_spec(msg@),
{
    let ghost mv = msg@;
    match msg {
        Json::Object(mut m) => {
            proof {
                lemma_jv_members(m@);
            }
            match member_pos(&m, "params") {
                None => (Json::Object(m), None),
                Some(p) => {
                    let ghost before = m@;
                    let (pk, params) = m.remove(p);
                    let ghost pv = params@;
                    let (params2, r) = extract_from_params(params);
                    m.insert(p, (pk, params2));
                    proof {
                        lemma_jv_members(m@);
                        lemma_jv_members(before);
                        assert(pk@ == "params"@);
                        assert(jv_members(m@) =~= jv_members(before).update(p as int, ("params"@, params2@)));
                        if params2@ == pv {
                            assert(jv_members(m@) =~= jv_members(before));
                        }
                    }
                    (Json::Object(m), r)
                },
            }
        },
        other => (other, None),
    }
}

/// The `params` member with `arguments.profile` removed, and that member's text.
spec fn extract_from_params_spec(params: JsonV) -> (JsonV, Option<Seq<char>>) {
    match jget(params, "arguments"@) {
        Some(JsonV::Object(args)) => match mget(args, "profile"@) {
            Some(v) => (
                jset(params, "arguments"@, JsonV::Object(mremove(args, "profile"@))),
                match v {
                    JsonV::Str(s) => Some(s),
                    _ => None,
                },
            ),
            None => (params, None),
        },
        _ => (params, None),
    }
}

fn extract_from_params(params: Json) -> (r: (Json, Option<String>))
    ensures
        (r.0@, opt_view(r.1)) == extract_from_params_spec(params@),
{
    match params {
        Json::Object(mut m) => {
            proof {
                lemma_jv_members(m@);
            }
            match member_pos(&m, "arguments") {
                None => (Json::Object(m), None),
                Some(p) => {
                    let ghost before = m@;
                    let (ak, args) = m.remove(p);
                    match args {
                        Json::Object(mut am) => {
                            let ghost am_before = am@;
                            let removed = members_remove(&mut am, "profile");
                            match removed {
                                None => {
                                    m.insert(p, (ak, Json::Object(am)));
                                    proof {
                                        lemma_jv_members(m@);
                                        lemma_jv_members(before);
                                        assert(jv_members(m@) =~= jv_members(before));
                                    }
                                    (Json::Object(m), None)
                                },
                                Some(v) => {
                                    let s = match v {
                                        Json::Str(s) => Some(s),
                                        _ => None,
                                    };
                                    let ghost newargs = Json::Object(am)@;
                                    m.insert(p, (ak, Json::Object(am)));
                                    proof {
                                        lemma_jv_members(m@);
                                        lemma_jv_members(before);
                                        assert(ak@ == "arguments"@);
                                        assert(jv_members(m@) =~= jv_members(before).update(p as int, ("arguments"@, newargs)));
                                    }
                                    (Json::Object(m), s)
                                },
                            }
                        },
                        other => {
                            m.insert(p, (ak, other));
                            proof {
                                lemma_jv_members(m@);
                                lemma_jv_members(before);
                                assert(jv_members(m@) =~= jv_members(before));
                            }
                            (Json::Object(m), None)
                        },
                    }
                },
            }
        },
        other => (other, None),
    }
}

// ── Building values ──

fn object_of(m: Vec<(String, Json)>) -> (r: Json)
    ensures
        r@ == JsonV::Object(jv_members(m@)),
{
    Json::Object(m)
}

fn str_value(s: &str) -> (r: Json)
    ensures
        r@ == JsonV::Str(s@),
{
    Json::Str(String::from_str(s))
}

fn member(k: &str, v: Json) -> (r: (String, Json))
    ensures
        r.0@ == k@,
        r.1 == v,
{
    (String::from_str(k), v)
}

// ── Local tools ──

/// The schema of the `profile` argument that every server tool gains.
pub open spec fn profile_property() -> JsonV {
    JsonV::Object(seq![
        ("type"@, JsonV::Str("string"@)),
        ("description"@, JsonV::Str("Connection profile name to route this call to (optional, uses default profile if omitted)"@)),
    ])
}

fn make_profile_property() -> (r: Json)
    ensures
        r@ == profile_property(),
{
    let mut m: Vec<(String, Json)> = Vec::new();
    m.push(member("type", str_value("string")));
    m.push(member("description", str_value("Connection profile name to route this call to (optional, uses default profile if omitted)")));
    proof {
        lemma_jv_members(m@);
    }
    let r = object_of(m);
    assert(jv_members(m@) =~= seq![
        ("type"@, JsonV::Str("string"@)),
        ("description"@, JsonV::Str("Connection profile name to route this call to (optional, uses default profile if omitted)"@)),
    ]);
    r
}

/// The definition of the `list_profiles` tool, which the proxy answers itself.
pub open spec fn list_profiles_tool() -> JsonV {
    JsonV::Object(seq![
        ("name"@, JsonV::Str("list_profiles"@)),
        ("description"@, JsonV::Str("List configured Stele connection profiles. Returns profile names, server URLs, and which is the default. This tool is handled locally by the CLI and never forwarded to the server."@)),
        ("inputSchema"@, JsonV::Object(seq![
            ("type"@, JsonV::Str("object"@)),
            ("properties"@, JsonV::Object(Seq::empty())),
            ("required"@, JsonV::Array(Seq::empty())),
        ])),
    ])
}

fn make_list_profiles_tool() -> (r: Json)
    ensures
        r@ == list_profiles_tool(),
{
    let mut schema: Vec<(String, Json)> = Vec::new();
    schema.push(member("type", str_value("object")));
    schema.push(member("properties", Json::Object(Vec::new())));
    schema.push(member("required", Json::Array(Vec::new())));
    proof {
        lemma_jv_members(schema@);
        assert(jv_members(Seq::<(String, Json)>::empty()) =~= Seq::empty());
        assert(jv_seq(Seq::<Json>::empty()) =~= Seq::empty());
    }
    let schema_v = object_of(schema);
    assert(jv_members(schema@) =~= seq![
        ("type"@, JsonV::Str("object"@)),
        ("properties"@, JsonV::Object(Seq::empty())),
        ("required"@, JsonV::Array(Seq::empty())),
    ]);
    let mut m: Vec<(String, Json)> = Vec::new();
    m.push(member("name", str_value("list_profiles")));
    m.push(member("description", str_value("List configured Stele connection profiles. Returns profile names, server URLs, and which is the default. This tool is handled locally by the CLI and never forwarded to the server.")));
    m.push(member("inputSchema", schema_v));
    proof {
        lemma_jv_members(m@);
    }
    let r = object_of(m);
    assert(jv_members(m@) =~= seq![
        ("name"@, JsonV::Str("list_profiles"@)),
        ("description"@, JsonV::Str("List configured Stele connection profiles. Returns profile names, server URLs, and which is the default. This tool is handled locally by the CLI and never forwarded to the server."@)),
        ("inputSchema"@, JsonV::Object(seq![
            ("type"@, JsonV::Str("object"@)),
            ("properties"@, JsonV::Object(Seq::empty())),
            ("required"@, JsonV::Array(Seq::empty())),
        ])),
    ]);
    r
}

/// A server tool with the `profile` property added to its input schema's
/// properties (when it has such an object).
pub open spec fn add_profile_property(tool: JsonV) -> JsonV {
    match jget(tool, "inputSchema"@) {
        Some(schema) => match jget(schema, "properties"@) {
            Some(JsonV::Object(props)) => jset(
                tool,
                "inputSchema"@,
                jset(schema, "properties"@, JsonV::Object(mset(props, "profile"@, profile_property()))),
            ),
            _ => tool,
        },
        None => tool,
    }
}

/// A `tools/list` response with every tool given the `profile` property and
/// `list_profiles` appended; other responses are left as they are.
pub open spec fn inject_local_tools_spec(resp: JsonV) -> JsonV {
    match jget(resp, "result"@) {
        Some(result) => match jget(result, "tools"@) {
            Some(JsonV::Array(tools)) => jset(
                resp,
                "result"@,
                jset(
                    result,
                    "tools"@,
                    JsonV::Array(tools.map_values(|t: JsonV| add_profile_property(t)).push(list_profiles_tool())),
                ),
            ),
            _ => resp,
        },
        None => resp,
    }
}

/// Replaces member `k` of the object `j` (which has it at `p`) by what `f` makes of it.
fn add_property_to_tool(tool: Json) -> (r: Json)
    ensures
        r@ == add_profile_property(tool@),
{
    match tool {
        Json::Object(mut m) => {
            proof {
                lemma_jv_members(m@);
            }
            match member_pos(&m, "inputSchema") {
                None => Json::Object(m),
                Some(p) => {
                    let ghost before = m@;
                    let (sk, schema) = m.remove(p);
                    let ghost sv = schema@;
                    let schema2 = add_property_to_schema(schema);
                    m.insert(p, (sk, schema2));
                    proof {
                        lemma_jv_members(m@);
                        lemma_jv_members(before);
                        assert(sk@ == "inputSchema"@);
                        assert(jv_members(m@) =~= jv_members(before).update(p as int, ("inputSchema"@, schema2@)));
                        if schema2@ == sv {
                            assert(jv_members(m@) =~= jv_members(before));
                        }
                    }
                    Json::Object(m)
                },
            }
        },
        other => other,
    }
}

spec fn add_property_to_schema_spec(schema: JsonV) -> JsonV {
    match jget(schema, "properties"@) {
        Some(JsonV::Object(props)) => jset(schema, "properties"@, JsonV::Object(mset(props, "profile"@, profile_property()))),
        _ => schema,
    }
}

fn add_property_to_schema(schema: Json) -> (r: Json)
    ensures
        r@ == add_property_to_schema_spec(schema@),
{
    match schema {
        Json::Object(mut m) => {
            proof {
                lemma_jv_members(m@);
            }
            match member_pos(&m, "properties") {
                None => Json::Object(m),
                Some(p) => {
                    let ghost before = m@;
                    let (pk, props) = m.remove(p);
                    match props {
                        Json::Object(mut pm) => {
                            members_insert(&mut pm, String::from_str("profile"), make_profile_property());
                            let ghost newprops = Json::Object(pm)@;
                            m.insert(p, (pk, Json::Object(pm)));
                            proof {
                                lemma_jv_members(m@);
                                lemma_jv_members(before);
                                assert(pk@ == "properties"@);
                                assert(jv_members(m@) =~= jv_members(before).update(p as int, ("properties"@, newprops)));
                            }
                            Json::Object(m)
                        },
                        other => {
                            m.insert(p, (pk, other));
                            proof {
                                lemma_jv_members(m@);
                                lemma_jv_members(before);
                                assert(jv_members(m@) =~= jv_members(before));
                            }
                            Json::Object(m)
                        },
                    }
                },
            }
        },
        other => other,
    }
}

spec fn inject_into_result_spec(result: JsonV) -> JsonV {
    match jget(result, "tools"@) {
        Some(JsonV::Array(tools)) => jset(
            result,
            "tools"@,
            JsonV::Array(tools.map_values(|t: JsonV| add_profile_property(t)).push(list_profiles_tool())),
        ),
        _ => result,
    }
}

/// The tools with the `profile` property added, and `list_profiles` appended.
fn extend_tools(tools: Vec<Json>) -> (r: Vec<Json>)
    ensures
        jv_seq(r@) == jv_seq(tools@).map_values(|t: JsonV| add_profile_property(t)).push(list_profiles_tool()),
{
    let ghost orig = jv_seq(tools@);
    proof {
        lemma_jv_seq(tools@);
    }
    let mut out: Vec<Json> = Vec::new();
    let mut rest = tools;
    let len0: usize = rest.len();
    let ghost n = len0 as nat;
    let mut i: usize = 0;
    // Items are taken from the front one by one, in order.
    while rest.len() > 0
        invariant
            i + rest@.len() == n,
            n == orig.len(),
            n <= usize::MAX,
            forall|k: int| 0 <= k < rest@.len() ==> jv(#[trigger] rest@[k]) == orig[i + k],
            jv_seq(out@) == orig.take(i as int).map_values(|t: JsonV| add_profile_property(t)),
        decreases rest@.len(),
    {
        let ghost prev = rest@;
        let t = rest.remove(0);
        assert(jv(t) == orig[i as int]);
        let t2 = add_property_to_tool(t);
        let ghost outv = out@;
        out.push(t2);
        proof {
            lemma_jv_seq_push(outv, t2);
            assert(orig.take(i + 1).map_values(|t: JsonV| add_profile_property(t)) =~=
                orig.take(i as int).map_values(|t: JsonV| add_profile_property(t)).push(add_profile_property(orig[i as int])));
            assert forall|k: int| 0 <= k < rest@.len() implies jv(#[trigger] rest@[k]) == orig[i + 1 + k] by {
                assert(rest@[k] == prev[k + 1]);
            }
        }
        i = i + 1;
    }
    assert(orig.take(i as int) =~= orig);
    let tool = make_list_profiles_tool();
    let ghost outv = out@;
    out.push(tool);
    proof {
        lemma_jv_seq_push(outv, tool);
    }
    out
}

fn inject_into_result(result: Json) -> (r: Json)
    ensures
        r@ == inject_into_result_spec(result@),
{
    match result {
        Json::Object(mut m) => {
            proof {
                lemma_jv_members(m@);
            }
            match member_pos(&m, "tools") {
                None => Json::Object(m),
                Some(p) => {
                    let ghost before = m@;
                    let (tk, tools) = m.remove(p);
                    match tools {
                        Json::Array(items) => {
                            let items2 = extend_tools(items);
                            let ghost newtools = Json::Array(items2)@;
                            m.insert(p, (tk, Json::Array(items2)));
                            proof {
                                lemma_jv_members(m@);
                                lemma_jv_members(before);
                                assert(tk@ == "tools"@);
                                assert(jv_members(m@) =~= jv_members(before).update(p as int, ("tools"@, newtools)));
                            }
                            Json::Object(m)
                        },
                        other => {
                            m.insert(p, (tk, other));
                            proof {
                                lemma_jv_members(m@);
                                lemma_jv_members(before);
                                assert(jv_members(m@) =~= jv_members(before));
                            }
                            Json::Object(m)
                        },
                    }
                },
            }
        },
        other => other,
    }
}

/// Adds the `profile` property to every tool of a `tools/list` response and
/// appends the `list_profiles` tool.
pub fn inject_local_tools(response: &mut Json)
    ensures
        final(response)@ == inject_local_tools_spec(old(response)@),
{
    let mut whole = Json::Null;
    std::mem::swap(response, &mut whole);
    let rebuilt = match whole {
        Json::Object(mut m) => {
            proof {
                lemma_jv_members(m@);
            }
            match member_pos(&m, "result") {
                None => Json::Object(m),
                Some(p) => {
                    let ghost before = m@;
                    let (rk, result) = m.remove(p);
                    let ghost rv = result@;
                    let result2 = inject_into_result(result);
                    m.insert(p, (rk, result2));
                    proof {
                        lemma_jv_members(m@);
                        lemma_jv_members(before);
                        assert(rk@ == "result"@);
                        assert(jv_members(m@) =~= jv_members(before).update(p as int, ("result"@, result2@)));
                        if result2@ == rv {
                            assert(jv_members(m@) =~= jv_members(before));
                        }
                    }
                    Json::Object(m)
                },
            }
        },
        other => other,
    };
    *response = rebuilt;
}

// ── Replies the proxy writes itself ──

/// A JSON-RPC error reply.
pub open spec fn error_reply(id: JsonV, code: i64, message: Seq<char>) -> JsonV {
    JsonV::Object(seq![
        ("jsonrpc"@, JsonV::Str("2.0"@)),
        ("id"@, id),
        ("error"@, JsonV::Object(seq![
            ("code"@, JsonV::Int(code)),
            ("message"@, JsonV::Str(message)),
        ])),
    ])
}

/// Builds a JSON-RPC error reply.
pub fn make_error_reply(id: Json, code: i64, message: String) -> (r: Json)
    ensures
        r@ == error_reply(id@, code, message@),
{
    let mut err: Vec<(String, Json)> = Vec::new();
    err.push(member("code", Json::Int(code)));
    err.push(member("message", Json::Str(message)));
    proof {
        lemma_jv_members(err@);
    }
    let errv = object_of(err);
    assert(jv_members(err@) =~= seq![("code"@, JsonV::Int(code)), ("message"@, JsonV::Str(message@))]);
    let ghost idv = id@;
    let mut m: Vec<(String, Json)> = Vec::new();
    m.push(member("jsonrpc", str_value("2.0")));
    m.push(member("id", id));
    m.push(member("error", errv));
    proof {
        lemma_jv_members(m@);
    }
    let r = object_of(m);
    assert(jv_members(m@) =~= seq![
        ("jsonrpc"@, JsonV::Str("2.0"@)),
        ("id"@, idv),
        ("error"@, JsonV::Object(seq![("code"@, JsonV::Int(code)), ("message"@, JsonV::Str(message@))])),
    ]);
    r
}

/// `HTTP {status}: {message}`.
pub open spec fn http_error_text(status: u16, message: Seq<char>) -> Seq<char> {
    "HTTP "@ + decimal(status as nat) + ": "@ + message
}

/// The reply written when a forwarded request fails with an HTTP status (502
/// when the server could not be reached): code -32000, `HTTP {status}: {message}`.
pub fn http_error_reply(id: Json, status: u16, message: &str) -> (r: Json)
    ensures
        r@ == error_reply(id@, -32000i64, http_error_text(status, message@)),
{
    let mut text: Vec<char> = Vec::new();
    push_str(&mut text, "HTTP ");
    let digits = decimal_chars(status as u64);
    push_all(&mut text, digits.as_slice());
    push_str(&mut text, ": ");
    push_str(&mut text, message);
    make_error_reply(id, -32000, string_of(text.as_slice()))
}

/// The `id` of a request, when it could be read as JSON and has one; `null` otherwise.
pub open spec fn request_id_spec(parsed: Option<JsonV>) -> JsonV {
    match parsed {
        Some(v) => match jget(v, "id"@) {
            Some(id) => id,
            None => JsonV::Null,
        },
        None => JsonV::Null,
    }
}

pub fn request_id(parsed: &Option<Json>) -> (r: Json)
    ensures
        r@ == request_id_spec(match parsed {
            Some(v) => Some(v@),
            None => None,
        }),
{
    match parsed {
        Some(v) => match v.get("id") {
            Some(id) => copy_json(id),
            None => Json::Null,
        },
        None => Json::Null,
    }
}

/// A copy of a value.
pub fn copy_json(j: &Json) -> (r: Json)
    ensures
        r@ == j@,
    decreases j,
{
    match j {
        Json::Null => Json::Null,
        Json::Bool(b) => Json::Bool(*b),
        Json::Int(i) => Json::Int(*i),
        Json::UInt(u) => Json::UInt(*u),
        Json::Decimal(s) => Json::Decimal(s.clone()),
        Json::Str(s) => Json::Str(s.clone()),
        Json::Array(items) => {
            let mut out: Vec<Json> = Vec::new();
            let mut i: usize = 0;
            proof {
                lemma_jv_seq(items@);
            }
            while i < items.len()
                invariant
                    *j == Json::Array(*items),
                    i <= items@.len(),
                    jv_seq(out@) == jv_seq(items@).take(i as int),
                    jv_seq(items@).len() == items@.len(),
                    forall|k: int| 0 <= k < items@.len() ==> #[trigger] jv_seq(items@)[k] == jv(items@[k]),
                decreases items@.len() - i,
            {
                proof {
                    let ghost jj: Json = *j;
                    let ghost vv: Vec<Json> = *items;
                    assert(jj == Json::Array(vv));
                    assert(decreases_to!(jj => jj->Array_0));
                    assert(decreases_to!(vv => vv@));
                    assert(decreases_to!(vv@ => vv@[i as int]));
                    assert(decreases_to!(jj => vv@[i as int]));
                }
                let c = copy_json(&items[i]);
                let ghost before = out@;
                out.push(c);
                proof {
                    lemma_jv_seq_push(before, c);
                    assert(jv_seq(items@).take(i + 1) =~= jv_seq(items@).take(i as int).push(jv(items@[i as int])));
                }
                i = i + 1;
            }
            assert(jv_seq(items@).take(i as int) =~= jv_seq(items@));
            Json::Array(out)
        },
        Json::Object(m) => {
            let mut out: Vec<(String, Json)> = Vec::new();
            let mut i: usize = 0;
            proof {
                lemma_jv_members(m@);
            }
            while i < m.len()
                invariant
                    *j == Json::Object(*m),
                    i <= m@.len(),
                    jv_members(out@) == jv_members(m@).take(i as int),
                    jv_members(m@).len() == m@.len(),
                    forall|k: int| 0 <= k < m@.len() ==> #[trigger] jv_members(m@)[k] == (m@[k].0@, jv(m@[k].1)),
                decreases m@.len() - i,
            {
                proof {
                    let ghost jj: Json = *j;
                    let ghost vv: Vec<(String, Json)> = *m;
                    assert(jj == Json::Object(vv));
                    assert(decreases_to!(jj => jj->Object_0));
                    assert(decreases_to!(vv => vv@));
                    assert(decreases_to!(vv@ => vv@[i as int]));
                    assert(decreases_to!(vv@[i as int] => vv@[i as int].1));
                    assert(decreases_to!(jj => vv@[i as int].1));
                }
                let c = copy_json(&m[i].1);
                let k = m[i].0.clone();
                let ghost before = out@;
                out.push((k, c));
                proof {
                    lemma_jv_members_push(before, k, c);
                    assert(jv_members(m@).take(i + 1) =~= jv_members(m@).take(i as int).push((m@[i as int].0@, jv(m@[i as int].1))));
                }
                i = i + 1;
            }
            assert(jv_members(m@).take(i as int) =~= jv_members(m@));
            Json::Object(out)
        },
    }
}

/// The proxy's answer to `list_profiles`: the listing, rendered as `text`, in one text content item.
pub open spec fn list_profiles_reply_spec(id: JsonV, text: Seq<char>) -> JsonV {
    JsonV::Object(seq![
        ("jsonrpc"@, JsonV::Str("2.0"@)),
        ("id"@, id),
        ("result"@, JsonV::Object(seq![
            ("content"@, JsonV::Array(seq![JsonV::Object(seq![
                ("type"@, JsonV::Str("text"@)),
                ("text"@, JsonV::Str(text)),
            ])])),
        ])),
    ])
}

pub fn list_profiles_reply(id: Json, text: String) -> (r: Json)
    ensures
        r@ == list_profiles_reply_spec(id@, text@),
{
    let mut item: Vec<(String, Json)> = Vec::new();
    item.push(member("type", str_value("text")));
    item.push(member("text", Json::Str(text)));
    proof {
        lemma_jv_members(item@);
    }
    let itemv = object_of(item);
    assert(jv_members(item@) =~= seq![("type"@, JsonV::Str("text"@)), ("text"@, JsonV::Str(text@))]);
    let mut content: Vec<Json> = Vec::new();
    content.push(itemv);
    proof {
        lemma_jv_seq(content@);
    }
    assert(jv_seq(content@) =~= seq![itemv@]);
    let mut result: Vec<(String, Json)> = Vec::new();
    result.push(member("content", Json::Array(content)));
    proof {
        lemma_jv_members(result@);
    }
    let resultv = object_of(result);
    assert(jv_members(result@) =~= seq![("content"@, JsonV::Array(seq![itemv@]))]);
    let ghost idv = id@;
    let mut m: Vec<(String, Json)> = Vec::new();
    m.push(member("jsonrpc", str_value("2.0")));
    m.push(member("id", id));
    m.push(member("result", resultv));
    proof {
        lemma_jv_members(m@);
    }
    let r = object_of(m);
    assert(jv_members(m@) =~= seq![
        ("jsonrpc"@, JsonV::Str("2.0"@)),
        ("id"@, idv),
        ("result"@, resultv@),
    ]);
    r
}

/// One profile in the `list_profiles` listing.
pub open spec fn listing_entry(name: Seq<char>, server_url: Seq<char>, default_profile: Seq<char>) -> JsonV {
    JsonV::Object(seq![
        ("name"@, JsonV::Str(name)),
        ("server_url"@, JsonV::Str(server_url)),
        ("is_default"@, JsonV::Bool(name == default_profile)),
    ])
}

/// The `list_profiles` listing: each profile's name, server URL and whether it is the default.
pub open spec fn profile_listing_spec(ps: Seq<(Seq<char>, crate::profiles::ProfileV)>, default_profile: Seq<char>) -> JsonV {
    JsonV::Array(ps.map_values(|e: (Seq<char>, crate::profiles::ProfileV)| listing_entry(e.0, e.1.server_url, default_profile)))
}

pub fn profile_listing(config: &SteleConfig, default_profile: &str) -> (r: Json)
    ensures
        r@ == profile_listing_spec(config.profile_map(), default_profile@),
{
    let ps = &config.profiles;
    let ghost pv = config.profile_map();
    let mut out: Vec<Json> = Vec::new();
    let mut i: usize = 0;
    while i < ps.len()
        invariant
            i <= ps@.len(),
            pv == crate::profiles::profiles_view(ps@),
            pv.len() == ps@.len(),
            jv_seq(out@) == pv.take(i as int).map_values(|e: (Seq<char>, crate::profiles::ProfileV)| listing_entry(e.0, e.1.server_url, default_profile@)),
        decreases ps@.len() - i,
    {
        let name = &ps[i].0;
        let is_default = crate::text::str_eq(name.as_str(), default_profile);
        let mut m: Vec<(String, Json)> = Vec::new();
        m.push(member("name", Json::Str(name.clone())));
        m.push(member("server_url", Json::Str(ps[i].1.server_url.clone())));
        m.push(member("is_default", Json::Bool(is_default)));
        proof {
            lemma_jv_members(m@);
        }
        let entry = object_of(m);
        proof {
            assert(pv[i as int] == (ps@[i as int].0@, profile_view(ps@[i as int].1)));
            assert(jv_members(m@) =~= seq![
                ("name"@, JsonV::Str(name@)),
                ("server_url"@, JsonV::Str(ps@[i as int].1.server_url@)),
                ("is_default"@, JsonV::Bool(name@ == default_profile@)),
            ]);
        }
        let ghost before = out@;
        out.push(entry);
        proof {
            lemma_jv_seq_push(before, entry);
            let f = |e: (Seq<char>, crate::profiles::ProfileV)| listing_entry(e.0, e.1.server_url, default_profile@);
            assert(pv.take(i + 1).map_values(f) =~= pv.take(i as int).map_values(f).push(f(pv[i as int])));
        }
        i = i + 1;
    }
    assert(pv.take(i as int) =~= pv);
    Json::Array(out)
}

// ── Server endpoints ──

/// `url` without its trailing slashes.
pub open spec fn trim_end_slashes(url: Seq<char>) -> Seq<char>
    decreases url.len(),
{
    if url.len() > 0 && url.last() == '/' {
        trim_end_slashes(url.drop_last())
    } else {
        url
    }
}

/// The MCP endpoint of a server: its URL without trailing slashes, then `/mcp`.
pub open spec fn mcp_endpoint(url: Seq<char>) -> Seq<char> {
    trim_end_slashes(url) + "/mcp"@
}

proof fn lemma_trim_end_slashes(url: Seq<char>, j: int)
    requires
        0 <= j <= url.len(),
        forall|k: int| j <= k < url.len() ==> url[k] == '/',
        j == 0 || url[j - 1] != '/',
    ensures
        trim_end_slashes(url) == url.take(j),
    decreases url.len(),
{
    if url.len() > j {
        lemma_trim_end_slashes(url.drop_last(), j);
        assert(url.drop_last().take(j) =~= url.take(j));
    } else {
        assert(url.take(j) =~= url);
    }
}

pub fn mcp_url(server_url: &str) -> (r: String)
    ensures
        r@ == mcp_endpoint(server_url@),
{
    let cs = chars_of(server_url);
    let mut j: usize = cs.len();
    while j > 0 && cs[j - 1] == '/'
        invariant
            j <= cs@.len(),
            cs@ == server_url@,
            forall|k: int| j <= k < cs@.len() ==> cs@[k] == '/',
        decreases j,
    {
        j = j - 1;
    }
    proof {
        lemma_trim_end_slashes(cs@, j as int);
    }
    let mut out = crate::text::copy_range(cs.as_slice(), 0, j);
    push_str(&mut out, "/mcp");
    string_of(out.as_slice())
}

// ── Server-sent events ──

/// Whether a line of the event stream carries data (`data: ` and the data).
pub open spec fn is_data_line(line: Seq<char>) -> bool {
    line.len() >= 6 && line.take(6) == "data: "@
}

/// One line of the event stream applied to the pending data and the finished
/// messages: a data line adds its data (after a newline when data is pending),
/// an empty line ends the pending message, other lines are ignored.
pub open spec fn sse_step(st: (Seq<char>, Seq<Seq<char>>), line: Seq<char>) -> (Seq<char>, Seq<Seq<char>>) {
    if is_data_line(line) {
        let d = line.skip(6);
        (if st.0.len() > 0 { st.0.push('\n') + d } else { d }, st.1)
    } else if line.len() == 0 && st.0.len() > 0 {
        (Seq::empty(), st.1.push(st.0))
    } else {
        st
    }
}

pub open spec fn sse_fold(lines: Seq<Seq<char>>) -> (Seq<char>, Seq<Seq<char>>)
    decreases lines.len(),
{
    if lines.len() == 0 {
        (Seq::empty(), Seq::empty())
    } else {
        sse_step(sse_fold(lines.drop_last()), lines.last())
    }
}

/// The messages of an event stream, read line by line; data still pending when
/// the stream ends makes a last message.
pub open spec fn sse_messages(lines: Seq<Seq<char>>) -> Seq<Seq<char>> {
    let st = sse_fold(lines);
    if st.0.len() > 0 { st.1.push(st.0) } else { st.1 }
}

fn data_of(line: &str) -> (r: Option<Vec<char>>)
    ensures
        match r {
            Some(d) => is_data_line(line@) && d@ == line@.skip(6),
            None => !is_data_line(line@),
        },
{
    let cs = chars_of(line);
    proof {
        reveal_strlit("data: ");
    }
    if cs.len() >= 6 && cs[0] == 'd' && cs[1] == 'a' && cs[2] == 't' && cs[3] == 'a' && cs[4] == ':' && cs[5] == ' ' {
        assert(cs@.take(6) =~= "data: "@);
        let d = crate::text::copy_range(cs.as_slice(), 6, cs.len());
        assert(d@ =~= line@.skip(6));
        Some(d)
    } else {
        proof {
            if cs@.len() >= 6 {
                if cs@.take(6) == "data: "@ {
                    assert(cs@[0] == cs@.take(6)[0]);
                    assert(cs@[1] == cs@.take(6)[1]);
                    assert(cs@[2] == cs@.take(6)[2]);
                    assert(cs@[3] == cs@.take(6)[3]);
                    assert(cs@[4] == cs@.take(6)[4]);
                    assert(cs@[5] == cs@.take(6)[5]);
                }
            }
        }
        None
    }
}

/// The messages of an event stream given as its lines (`data:` lines joined
/// by newlines, a message ending at an empty line or at the end).
pub fn parse_sse_lines(lines: &Vec<String>) -> (r: Vec<String>)
    ensures
        strings_view(r@) == sse_messages(strings_view(lines@)),
{
    let ghost lv = strings_view(lines@);
    let mut buf: Vec<char> = Vec::new();
    let mut out: Vec<String> = Vec::new();
    let mut i: usize = 0;
    while i < lines.len()
        invariant
            i <= lines@.len(),
            lv == strings_view(lines@),
            (buf@, strings_view(out@)) == sse_fold(lv.take(i as int)),
        decreases lines@.len() - i,
    {
        proof {
            assert(lv.take(i + 1).drop_last() =~= lv.take(i as int));
            assert(lv.take(i + 1).last() == lines@[i as int]@);
        }
        let line = lines[i].as_str();
        match data_of(line) {
            Some(d) => {
                if buf.len() > 0 {
                    buf.push('\n');
                }
                push_all(&mut buf, d.as_slice());
            },
            None => {
                if line.is_empty() && buf.len() > 0 {
                    let ghost before = out@;
                    out.push(string_of(buf.as_slice()));
                    proof {
                        assert(strings_view(out@) =~= strings_view(before).push(buf@));
                    }
                    buf = Vec::new();
                } else {
                    proof {
                        if line@.len() == 0 {
                            assert(buf@.len() == 0);
                        }
                    }
                }
            },
        }
        i = i + 1;
    }
    assert(lv.take(i as int) =~= lv);
    if buf.len() > 0 {
        let ghost before = out@;
        out.push(string_of(buf.as_slice()));
        proof {
            assert(strings_view(out@) =~= strings_view(before).push(buf@));
        }
    }
    out
}

// ── Routing ──

/// What the proxy does with a message from its client.
pub enum McpAction {
    /// Answer `list_profiles` itself, to the request with this id.
    ListProfiles(Json),
    /// Write this reply and send nothing.
    Reply(Json),
    /// Send the message to this MCP endpoint, with this key.
    Forward(String, Option<String>),
    /// Send the `tools/list` request to this endpoint, with this key, and add
    /// the local tools to each reply.
    ListTools(String, Option<String>),
}

pub enum McpActionV {
    ListProfiles(JsonV),
    Reply(JsonV),
    Forward(Seq<char>, Option<Seq<char>>),
    ListTools(Seq<char>, Option<Seq<char>>),
}

pub open spec fn action_view(a: McpAction) -> McpActionV {
    match a {
        McpAction::ListProfiles(id) => McpActionV::ListProfiles(id@),
        McpAction::Reply(j) => McpActionV::Reply(j@),
        McpAction::Forward(u, k) => McpActionV::Forward(u@, opt_view(k)),
        McpAction::ListTools(u, k) => McpActionV::ListTools(u@, opt_view(k)),
    }
}

/// The `id` member of a message, `null` when it has none.
pub open spec fn id_of(msg: JsonV) -> JsonV {
    match jget(msg, "id"@) {
        Some(id) => id,
        None => JsonV::Null,
    }
}

/// The name of the tool a `tools/call` message calls (`params.name`), empty when none.
pub open spec fn called_tool(msg: JsonV) -> Seq<char> {
    match jget(msg, "params"@) {
        Some(p) => str_member_or_empty(p, "name"@),
        None => Seq::empty(),
    }
}

/// `Unknown profile: {name}`.
pub open spec fn unknown_profile_text(name: Seq<char>) -> Seq<char> {
    "Unknown profile: "@ + name
}

/// The message as it is sent on, and what the proxy does with it: `list_profiles`
/// calls are answered locally; other tool calls go to the server of the profile
/// named by their `profile` argument (removed from the call), to the default
/// profile's server when there is none, and are refused (-32602) when no such
/// profile exists; `tools/list` and everything else go to the default server.
pub open spec fn plan_spec(msg: JsonV, ps: Seq<(Seq<char>, crate::profiles::ProfileV)>, default_profile: Seq<char>) -> (JsonV, McpActionV) {
    let conn = resolve_profile_spec(ps, default_profile);
    let default_url = mcp_endpoint(conn.0);
    let method = str_member_or_empty(msg, "method"@);
    if method == "tools/call"@ {
        if called_tool(msg) == "list_profiles"@ {
            (msg, McpActionV::ListProfiles(id_of(msg)))
        } else {
            let (msg2, prof) = extract_profile_spec(msg);
            match prof {
                Some(name) => if lookup(ps, name) is None {
                    (msg2, McpActionV::Reply(error_reply(id_of(msg2), -32602i64, unknown_profile_text(name))))
                } else {
                    let c = resolve_profile_spec(ps, name);
                    (msg2, McpActionV::Forward(mcp_endpoint(c.0), c.1))
                },
                None => (msg2, McpActionV::Forward(default_url, conn.1)),
            }
        }
    } else if method == "tools/list"@ {
        (msg, McpActionV::ListTools(default_url, conn.1))
    } else {
        (msg, McpActionV::Forward(default_url, conn.1))
    }
}

fn id_or_null(msg: &Json) -> (r: Json)
    ensures
        r@ == id_of(msg@),
{
    match msg.get("id") {
        Some(id) => copy_json(id),
        None => Json::Null,
    }
}

fn called_tool_exec(msg: &Json) -> (r: Vec<char>)
    ensures
        r@ == called_tool(msg@),
{
    match msg.get("params") {
        Some(p) => get_str_or_empty(p, "name"),
        None => Vec::new(),
    }
}

/// Decides what the proxy does with a message (and removes the `profile`
/// argument of a tool call).
pub fn plan_message(msg: &mut Json, config: &SteleConfig, default_profile: &str) -> (r: McpAction)
    ensures
        (final(msg)@, action_view(r)) == plan_spec(old(msg)@, config.profile_map(), default_profile@),
{
    let (default_server, default_key) = resolve_profile(config, default_profile);
    let default_url = mcp_url(default_server.as_str());
    let method = get_str_or_empty(msg, "method");
    let call = chars_of("tools/call");
    let list = chars_of("tools/list");
    if chars_eq(method.as_slice(), call.as_slice()) {
        let tool = called_tool_exec(msg);
        let lp = chars_of("list_profiles");
        if chars_eq(tool.as_slice(), lp.as_slice()) {
            return McpAction::ListProfiles(id_or_null(msg));
        }
        let prof = extract_profile_param(msg);
        match prof {
            Some(name) => {
                match find_profile_pos(config, name.as_str()) {
                    None => {
                        let mut text: Vec<char> = Vec::new();
                        push_str(&mut text, "Unknown profile: ");
                        push_str(&mut text, name.as_str());
                        let id = id_or_null(msg);
                        McpAction::Reply(make_error_reply(id, -32602, string_of(text.as_slice())))
                    },
                    Some(_) => {
                        let (server, key) = resolve_profile(config, name.as_str());
                        McpAction::Forward(mcp_url(server.as_str()), key)
                    },
                }
            },
            None => McpAction::Forward(default_url, default_key),
        }
    } else if chars_eq(method.as_slice(), list.as_slice()) {
        McpAction::ListTools(default_url, default_key)
    } else {
        McpAction::Forward(default_url, default_key)
    }
}

fn find_profile_pos(config: &SteleConfig, name: &str) -> (r: Option<usize>)
    ensures
        r is None <==> lookup(config.profile_map(), name@) is None,
{
    crate::profiles::find_profile(&config.profiles, name)
}

/// Trailing slashes of a server's URL do not change its MCP endpoint.
pub proof fn lemma_mcp_endpoint_trailing_slash(url: Seq<char>)
    ensures
        mcp_endpoint(url.push('/')) == mcp_endpoint(url),
{
    assert(url.push('/').drop_last() =~= url);
}

} // verus!
