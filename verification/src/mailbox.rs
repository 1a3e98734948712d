//! The mailbox surface of a node: what a send or list request resolves to,
//! which statuses are valid, how replies are enveloped, how a delivery
//! reply is read, and which node a message is for.
use vstd::prelude::*;

use crate::address::{compose_id, parse_id, parse_id_spec};
use crate::json::{get_str_or_empty, jget, jv_members, jv_seq, lemma_jv_members, lemma_jv_seq, members_insert, mset, str_member_or_empty, Json, JsonV};
use crate::text::{
    chars_of, eq_ignore_ascii_case, eq_ignore_ascii_case_exec,
    push_str, str_eq, string_of, trim, trim_chars,
};
use crate::graph::contains_string;
use crate::sql::strings_view;

verus! {

// ── Normalization of request fields ──

/// A text field counts as given when it is not blank.
pub open spec fn not_blank(s: Seq<char>) -> bool {
    trim(s).len() > 0
}

pub fn is_not_blank(s: &str) -> (r: bool)
    ensures
        r == not_blank(s@),
{
    let c = chars_of(s);
    let t = trim_chars(c.as_slice());
    t.len() > 0
}

pub open spec fn opt_view(s: Option<String>) -> Option<Seq<char>> {
    match s {
        Some(s) => Some(s@),
        None => None,
    }
}

/// The message type a request asks for: the given one when not blank, `NOTE` otherwise.
pub open spec fn message_type_of(t: Option<Seq<char>>) -> Seq<char> {
    match t {
        Some(s) if not_blank(s) => s,
        _ => "NOTE"@,
    }
}

pub fn normalize_message_type(t: Option<String>) -> (r: String)
    ensures
        r@ == message_type_of(opt_view(t)),
{
    match t {
        Some(s) => {
            if is_not_blank(s.as_str()) {
                s
            } else {
                String::from_str("NOTE")
            }
        },
        None => String::from_str("NOTE"),
    }
}

/// The attention a request asks for: the given one when not blank, none otherwise.
pub open spec fn attention_of(a: Option<Seq<char>>) -> Option<Seq<char>> {
    match a {
        Some(s) if not_blank(s) => Some(s),
        _ => None,
    }
}

pub fn normalize_attention(a: Option<String>) -> (r: Option<String>)
    ensures
        opt_view(r) == attention_of(opt_view(a)),
{
    match a {
        Some(s) => {
            if is_not_blank(s.as_str()) {
                Some(s)
            } else {
                None
            }
        },
        None => None,
    }
}

/// An empty JSON object, the default `meta` and `payload` of a message.
pub fn empty_object() -> (r: Json)
    ensures
        r@ == JsonV::Object(Seq::empty()),
{
    let m: Vec<(String, Json)> = Vec::new();
    Json::Object(m)
}

pub open spec fn or_empty_object(v: Option<JsonV>) -> JsonV {
    match v {
        Some(v) => v,
        None => JsonV::Object(Seq::empty()),
    }
}

pub open spec fn opt_json_view(v: Option<Json>) -> Option<JsonV> {
    match v {
        Some(v) => Some(v@),
        None => None,
    }
}

pub fn json_or_empty(v: Option<Json>) -> (r: Json)
    ensures
        r@ == or_empty_object(opt_json_view(v)),
{
    match v {
        Some(v) => v,
        None => empty_object(),
    }
}

/// The fields of a message as a node stores it.
pub struct Message {
    pub subject: String,
    pub message_type: String,
    pub attention: Option<String>,
    pub meta: Json,
    pub payload: Json,
}

/// A message from the optional fields of a request: no subject is an empty
/// subject, the type defaults to `NOTE`, a blank attention is none, and a
/// missing `meta` or `payload` is an empty object.
pub fn message_from_request(
    subject: Option<String>,
    message_type: Option<String>,
    attention: Option<String>,
    meta: Option<Json>,
    payload: Option<Json>,
) -> (r: Message)
    ensures
        r.subject@ == (match subject {
            Some(s) => s@,
            None => Seq::<char>::empty(),
        }),
        r.message_type@ == message_type_of(opt_view(message_type)),
        opt_view(r.attention) == attention_of(opt_view(attention)),
        r.meta@ == or_empty_object(opt_json_view(meta)),
        r.payload@ == or_empty_object(opt_json_view(payload)),
{
    Message {
        subject: match subject {
            Some(s) => s,
            None => String::new(),
        },
        message_type: normalize_message_type(message_type),
        attention: normalize_attention(attention),
        meta: json_or_empty(meta),
        payload: json_or_empty(payload),
    }
}

// ── Statuses ──

pub open spec fn is_inbox_status(s: Seq<char>) -> bool {
    s == "NEW"@ || s == "READ"@ || s == "ARCHIVE"@
}

/// The first status that is not one of `NEW`, `READ`, `ARCHIVE`.
pub open spec fn first_invalid_status(v: Seq<Seq<char>>) -> Option<Seq<char>>
    decreases v.len(),
{
    if v.len() == 0 {
        None
    } else if !is_inbox_status(v[0]) {
        Some(v[0])
    } else {
        first_invalid_status(v.drop_first())
    }
}

proof fn lemma_first_invalid_prefix(v: Seq<Seq<char>>, i: int)
    requires
        0 <= i <= v.len(),
        forall|k: int| 0 <= k < i ==> is_inbox_status(#[trigger] v[k]),
    ensures
        first_invalid_status(v) == first_invalid_status(v.skip(i)),
    decreases i,
{
    if i > 0 {
        lemma_first_invalid_prefix(v.drop_first(), i - 1);
        assert(v.drop_first().skip(i - 1) =~= v.skip(i));
    } else {
        assert(v.skip(0) =~= v);
    }
}

fn is_inbox_status_exec(s: &str) -> (r: bool)
    ensures
        r == is_inbox_status(s@),
{
    str_eq(s, "NEW") || str_eq(s, "READ") || str_eq(s, "ARCHIVE")
}

/// The first of the statuses that is not a valid inbox status, if any.
pub fn find_invalid_status(v: &Vec<String>) -> (r: Option<String>)
    ensures
        opt_view(r) == first_invalid_status(strings_view(v@)),
{
    let ghost sv = strings_view(v@);
    let mut i: usize = 0;
    while i < v.len()
        invariant
            i <= v@.len(),
            sv == strings_view(v@),
            forall|k: int| 0 <= k < i ==> is_inbox_status(#[trigger] sv[k]),
        decreases v.len() - i,
    {
        if !is_inbox_status_exec(v[i].as_str()) {
            proof {
                lemma_first_invalid_prefix(sv, i as int);
                assert(sv.skip(i as int)[0] == v@[i as int]@);
            }
            return Some(v[i].clone());
        }
        i = i + 1;
    }
    proof {
        lemma_first_invalid_prefix(sv, i as int);
        assert(sv.skip(i as int).len() == 0);
    }
    None
}

fn strings(a: &str) -> (r: Vec<String>)
    ensures
        strings_view(r@) == seq![a@],
{
    let mut v: Vec<String> = Vec::new();
    v.push(String::from_str(a));
    assert(strings_view(v@) =~= seq![a@]);
    v
}

fn strings2(a: &str, b: &str) -> (r: Vec<String>)
    ensures
        strings_view(r@) == seq![a@, b@],
{
    let mut v: Vec<String> = Vec::new();
    v.push(String::from_str(a));
    v.push(String::from_str(b));
    assert(strings_view(v@) =~= seq![a@, b@]);
    v
}

/// The statuses a node-side listing shows: the given ones, or `NEW` and `READ`
/// when none (or an empty list) is given.
pub fn listing_statuses(status: Option<Vec<String>>) -> (r: Vec<String>)
    ensures
        strings_view(r@) == (match status {
            Some(v) if v@.len() > 0 => strings_view(v@),
            _ => seq!["NEW"@, "READ"@],
        }),
{
    match status {
        Some(v) => {
            if v.len() > 0 {
                v
            } else {
                strings2("NEW", "READ")
            }
        },
        None => strings2("NEW", "READ"),
    }
}

/// The statuses an outbox listing shows: the given ones, or `QUEUED` and `DEAD`
/// when none (or an empty list) is given.
pub fn outbox_statuses(status: Option<Vec<String>>) -> (r: Vec<String>)
    ensures
        strings_view(r@) == (match status {
            Some(v) if v@.len() > 0 => strings_view(v@),
            _ => seq!["QUEUED"@, "DEAD"@],
        }),
{
    match status {
        Some(v) => {
            if v.len() > 0 {
                v
            } else {
                strings2("QUEUED", "DEAD")
            }
        },
        None => strings2("QUEUED", "DEAD"),
    }
}

// ── REST requests ──

/// `prefix` and then `msg`.
fn prefixed(prefix: &str, msg: &String) -> (r: String)
    ensures
        r@ == prefix@ + msg@,
{
    let mut out = chars_of(prefix);
    push_str(&mut out, msg.as_str());
    string_of(out.as_slice())
}

/// What a send request resolves to: who it is from and which project's inbox it is for.
pub struct SendPlan {
    pub from_id: String,
    pub to_project: String,
}

/// A send request: the caller's address `id`, the recipient address `to`, and
/// an optional explicit sender `from`. The sender is the explicit one when it
/// parses, else the caller's own address; each address that does not parse is
/// an error naming the field, checked in the order `id`, `from`, `to`.
pub fn plan_send(id: &str, to: &str, from: Option<&str>) -> (r: Result<SendPlan, String>)
    ensures
        match parse_id_spec(id@) {
            Err(e) => r matches Err(m) && m@ == "id: "@ + e,
            Ok((h, pd, p)) => match from {
                Some(f) if parse_id_spec(f@) is Err => r matches Err(m) && m@ == "from: "@ + parse_id_spec(f@)->Err_0,
                _ => match parse_id_spec(to@) {
                    Err(e) => r matches Err(m) && m@ == "to: "@ + e,
                    Ok((th, tpd, tp)) => r matches Ok(plan) && plan.to_project@ == tpd && plan.from_id@ == (match from {
                        Some(f) => f@,
                        None => crate::address::compose_spec(h, pd, p),
                    }),
                },
            },
        },
{
    let caller = match parse_id(id) {
        Ok(p) => p,
        Err(e) => return Err(prefixed("id: ", &e)),
    };
    let from_id = match from {
        Some(explicit) => {
            match parse_id(explicit) {
                Err(e) => return Err(prefixed("from: ", &e)),
                Ok(_) => String::from_str(explicit),
            }
        },
        None => compose_id(&caller),
    };
    let to = match parse_id(to) {
        Ok(p) => p,
        Err(e) => return Err(prefixed("to: ", &e)),
    };
    Ok(SendPlan { from_id, to_project: to.project_dir })
}

/// What a listing request resolves to.
pub struct ListPlan {
    pub project_dir: String,
    pub aliases: Vec<String>,
    pub statuses: Vec<String>,
}

/// A listing request: the inbox of `to` (the caller's own when absent), in the
/// given statuses (`NEW` when none are given), addressed to the attention when
/// it is not blank (only household messages otherwise). Errors name the field:
/// `id`, then `to`, then the first invalid status.
pub fn plan_list(id: &str, to: Option<&str>, attention: Option<String>, status: Option<Vec<String>>) -> (r: Result<ListPlan, String>)
    ensures
        ({
            let statuses = match status {
                Some(v) => strings_view(v@),
                None => seq!["NEW"@],
            };
            match parse_id_spec(id@) {
                Err(e) => r matches Err(m) && m@ == "id: "@ + e,
                Ok((h, pd, p)) => {
                    let target = match to {
                        Some(t) => parse_id_spec(t@),
                        None => Ok((h, pd, p)),
                    };
                    match target {
                        Err(e) => r matches Err(m) && m@ == "to: "@ + e,
                        Ok((th, tpd, tp)) => match first_invalid_status(statuses) {
                            Some(bad) => r matches Err(m) && m@ == "status: invalid value '"@ + bad + "'"@,
                            None => r matches Ok(plan) && plan.project_dir@ == tpd
                                && strings_view(plan.statuses@) == statuses
                                && strings_view(plan.aliases@) == (match attention_of(opt_view(attention)) {
                                    Some(a) => seq![a],
                                    None => Seq::<Seq<char>>::empty(),
                                }),
                        },
                    }
                },
            }
        }),
{
    let caller = match parse_id(id) {
        Ok(p) => p,
        Err(e) => return Err(prefixed("id: ", &e)),
    };
    let target = match to {
        Some(t) => match parse_id(t) {
            Ok(p) => p,
            Err(e) => return Err(prefixed("to: ", &e)),
        },
        None => caller,
    };
    let statuses = match status {
        Some(v) => v,
        None => strings("NEW"),
    };
    match find_invalid_status(&statuses) {
        Some(bad) => {
            let mut out = chars_of("status: invalid value '");
            push_str(&mut out, bad.as_str());
            push_str(&mut out, "'");
            return Err(string_of(out.as_slice()));
        },
        None => {},
    }
    let mut aliases: Vec<String> = Vec::new();
    match normalize_attention(attention) {
        Some(a) => aliases.push(a),
        None => {},
    }
    assert(strings_view(aliases@) =~= (match attention_of(opt_view(attention)) {
        Some(a) => seq![a],
        None => Seq::<Seq<char>>::empty(),
    }));
    Ok(ListPlan { project_dir: target.project_dir, aliases, statuses })
}

/// A request on one message only needs a caller address that parses.
pub fn check_caller(id: &str) -> (r: Result<(), String>)
    ensures
        match parse_id_spec(id@) {
            Err(e) => r matches Err(m) && m@ == "id: "@ + e,
            Ok(_) => r is Ok,
        },
{
    match parse_id(id) {
        Ok(_) => Ok(()),
        Err(e) => Err(prefixed("id: ", &e)),
    }
}

// ── Node replies ──

pub open spec fn member(k: Seq<char>, v: JsonV) -> (Seq<char>, JsonV) {
    (k, v)
}

fn mem(k: &str, v: Json) -> (r: (String, Json))
    ensures
        r.0@ == k@,
        r.1 == v,
{
    (String::from_str(k), v)
}

/// The reply of a node to a request it could not serve.
pub open spec fn err_envelope_spec(code: Seq<char>, reason: Seq<char>) -> JsonV {
    JsonV::Object(seq![
        ("error"@, JsonV::Str(code)),
        ("ok"@, JsonV::Bool(false)),
        ("reason"@, JsonV::Str(reason)),
    ])
}

/// `{"ok": false, "error": code, "reason": reason}`.
pub fn err_envelope(code: &str, reason: &str) -> (r: Json)
    ensures
        r@ == err_envelope_spec(code@, reason@),
{
    let mut m: Vec<(String, Json)> = Vec::new();
    m.push(mem("error", Json::string(code)));
    m.push(mem("ok", Json::Bool(false)));
    m.push(mem("reason", Json::string(reason)));
    proof {
        lemma_jv_members(m@);
    }
    assert(jv_members(m@) =~= seq![
        ("error"@, JsonV::Str(code@)),
        ("ok"@, JsonV::Bool(false)),
        ("reason"@, JsonV::Str(reason@)),
    ]);
    Json::Object(m)
}

/// The reply of a node to a request it served: the fields with `ok` set to true
/// (a value that is not an object is left as it is).
pub open spec fn ok_envelope_spec(fields: JsonV) -> JsonV {
    match fields {
        JsonV::Object(m) => JsonV::Object(mset(m, "ok"@, JsonV::Bool(true))),
        other => other,
    }
}

pub fn ok_envelope(fields: Json) -> (r: Json)
    ensures
        r@ == ok_envelope_spec(fields@),
{
    match fields {
        Json::Object(mut m) => {
            members_insert(&mut m, String::from_str("ok"), Json::Bool(true));
            Json::Object(m)
        },
        other => other,
    }
}

/// How a delivery reply reads: accepted (with the message id the receiving
/// node gave, if any) when its `ok` member is true; otherwise rejected with
/// its `reason`, or `delivery rejected` when it gives none.
pub open spec fn delivery_outcome_spec(v: JsonV) -> Result<Option<i64>, Seq<char>> {
    if jget(v, "ok"@) == Some(JsonV::Bool(true)) {
        Ok(match jget(v, "message_id"@) {
            Some(JsonV::Int(i)) => Some(i),
            _ => None,
        })
    } else {
        Err(match jget(v, "reason"@) {
            Some(JsonV::Str(s)) => s,
            _ => "delivery rejected"@,
        })
    }
}

pub fn delivery_outcome(v: &Json) -> (r: Result<Option<i64>, String>)
    ensures
        match r {
            Ok(id) => delivery_outcome_spec(v@) == Ok::<Option<i64>, Seq<char>>(id),
            Err(e) => delivery_outcome_spec(v@) == Err::<Option<i64>, Seq<char>>(e@),
        },
{
    let ok = match v.get("ok") {
        Some(x) => match x.as_bool() {
            Some(b) => b,
            None => false,
        },
        None => false,
    };
    if ok {
        let id = match v.get("message_id") {
            Some(x) => x.as_i64(),
            None => None,
        };
        Ok(id)
    } else {
        match v.get("reason") {
            Some(x) => match x.as_str() {
                Some(s) => Err(String::from_str(s)),
                None => Err(String::from_str("delivery rejected")),
            },
            None => Err(String::from_str("delivery rejected")),
        }
    }
}

/// The first info reply whose `mailbox_host` equals `to_host` (ignoring ASCII
/// case) and whose `instance` has been heard from recently.
pub open spec fn dest_instance_spec(replies: Seq<JsonV>, to_host: Seq<char>, fresh: Seq<Seq<char>>) -> Option<Seq<char>>
    decreases replies.len(),
{
    if replies.len() == 0 {
        None
    } else {
        let inst = str_member_or_empty(replies[0], "instance"@);
        let host = str_member_or_empty(replies[0], "mailbox_host"@);
        if eq_ignore_ascii_case(host, to_host) && fresh.contains(inst) {
            Some(inst)
        } else {
            dest_instance_spec(replies.drop_first(), to_host, fresh)
        }
    }
}

proof fn lemma_dest_prefix(replies: Seq<JsonV>, to_host: Seq<char>, fresh: Seq<Seq<char>>, i: int)
    requires
        0 <= i <= replies.len(),
        forall|k: int| 0 <= k < i ==> !(eq_ignore_ascii_case(str_member_or_empty(#[trigger] replies[k], "mailbox_host"@), to_host)
            && fresh.contains(str_member_or_empty(replies[k], "instance"@))),
    ensures
        dest_instance_spec(replies, to_host, fresh) == dest_instance_spec(replies.skip(i), to_host, fresh),
    decreases i,
{
    if i > 0 {
        lemma_dest_prefix(replies.drop_first(), to_host, fresh, i - 1);
        assert(replies.drop_first().skip(i - 1) =~= replies.skip(i));
    } else {
        assert(replies.skip(0) =~= replies);
    }
}

/// The instance to deliver to for `to_host`, among the info replies (see [`dest_instance_spec`]).
pub fn pick_dest_instance(replies: &Vec<Json>, to_host: &str, fresh: &Vec<String>) -> (r: Option<String>)
    ensures
        opt_view(r) == dest_instance_spec(jv_seq(replies@), to_host@, strings_view(fresh@)),
{
    let ghost rv = jv_seq(replies@);
    proof {
        lemma_jv_seq(replies@);
    }
    let th = chars_of(to_host);
    let mut i: usize = 0;
    while i < replies.len()
        invariant
            i <= replies@.len(),
            rv == jv_seq(replies@),
            rv.len() == replies@.len(),
            th@ == to_host@,
            forall|k: int| 0 <= k < replies@.len() ==> #[trigger] rv[k] == replies@[k]@,
            forall|k: int| 0 <= k < i ==> !(eq_ignore_ascii_case(str_member_or_empty(#[trigger] rv[k], "mailbox_host"@), to_host@)
                && strings_view(fresh@).contains(str_member_or_empty(rv[k], "instance"@))),
        decreases replies.len() - i,
    {
        let inst = get_str_or_empty(&replies[i], "instance");
        let host = get_str_or_empty(&replies[i], "mailbox_host");
        let inst_s = string_of(inst.as_slice());
        if eq_ignore_ascii_case_exec(host.as_slice(), th.as_slice()) && contains_string(fresh, inst_s.as_str()) {
            proof {
                lemma_dest_prefix(rv, to_host@, strings_view(fresh@), i as int);
                assert(rv.skip(i as int)[0] == rv[i as int]);
            }
            return Some(inst_s);
        }
        i = i + 1;
    }
    proof {
        lemma_dest_prefix(rv, to_host@, strings_view(fresh@), i as int);
        assert(rv.skip(i as int).len() == 0);
    }
    None
}

// ── Exit codes of the mail command ──

/// The exit code for a node reply: 0 when `ok` is true; otherwise by the error
/// code: 3 for `not_found`, 4 for `undeliverable` or `conflict`, 2 for
/// `bad_request`, 1 for anything else.
pub open spec fn exit_code_spec(reply: JsonV) -> i32 {
    if jget(reply, "ok"@) == Some(JsonV::Bool(true)) {
        0
    } else {
        let e = str_member_or_empty(reply, "error"@);
        if e == "not_found"@ {
            3
        } else if e == "undeliverable"@ || e == "conflict"@ {
            4
        } else if e == "bad_request"@ {
            2
        } else {
            1
        }
    }
}

pub fn exit_for_reply(reply: &Json) -> (r: i32)
    ensures
        r == exit_code_spec(reply@),
{
    let ok = match reply.get("ok") {
        Some(x) => match x.as_bool() {
            Some(b) => b,
            None => false,
        },
        None => false,
    };
    if ok {
        return 0;
    }
    let e = get_str_or_empty(reply, "error");
    let es = string_of(e.as_slice());
    if str_eq(es.as_str(), "not_found") {
        3
    } else if str_eq(es.as_str(), "undeliverable") || str_eq(es.as_str(), "conflict") {
        4
    } else if str_eq(es.as_str(), "bad_request") {
        2
    } else {
        1
    }
}

// ── Leaves of the mailbox key ──

/// The operations a node serves under `…/mailbox/<leaf>`.
pub enum MailboxLeaf {
    Send,
    Deliver,
    List,
    Read,
    Archive,
    Get,
    Outbox,
    Unknown,
}

pub open spec fn leaf_of(name: Seq<char>) -> MailboxLeaf {
    if name == "send"@ {
        MailboxLeaf::Send
    } else if name == "deliver"@ {
        MailboxLeaf::Deliver
    } else if name == "list"@ {
        MailboxLeaf::List
    } else if name == "read"@ {
        MailboxLeaf::Read
    } else if name == "archive"@ {
        MailboxLeaf::Archive
    } else if name == "get"@ {
        MailboxLeaf::Get
    } else if name == "outbox"@ {
        MailboxLeaf::Outbox
    } else {
        MailboxLeaf::Unknown
    }
}

pub fn mailbox_leaf(name: &str) -> (r: MailboxLeaf)
    ensures
        r == leaf_of(name@),
{
    if str_eq(name, "send") {
        MailboxLeaf::Send
    } else if str_eq(name, "deliver") {
        MailboxLeaf::Deliver
    } else if str_eq(name, "list") {
        MailboxLeaf::List
    } else if str_eq(name, "read") {
        MailboxLeaf::Read
    } else if str_eq(name, "archive") {
        MailboxLeaf::Archive
    } else if str_eq(name, "get") {
        MailboxLeaf::Get
    } else if str_eq(name, "outbox") {
        MailboxLeaf::Outbox
    } else {
        MailboxLeaf::Unknown
    }
}

/// The reply to a leaf a node does not serve.
pub fn unknown_leaf_reply(name: &str) -> (r: Json)
    ensures
        r@ == err_envelope_spec("bad_request"@, "unknown mailbox leaf '"@ + name@ + "'"@),
{
    let mut out = chars_of("unknown mailbox leaf '");
    push_str(&mut out, name);
    push_str(&mut out, "'");
    let reason = string_of(out.as_slice());
    err_envelope("bad_request", reason.as_str())
}

/// Whether a message for `to_host` stays on this node (whose mailbox host is
/// `mailbox_host`), compared ignoring ASCII case; otherwise it is queued for delivery.
pub fn is_local_host(to_host: &str, mailbox_host: &str) -> (r: bool)
    ensures
        r == eq_ignore_ascii_case(to_host@, mailbox_host@),
{
    let a = chars_of(to_host);
    let b = chars_of(mailbox_host);
    eq_ignore_ascii_case_exec(a.as_slice(), b.as_slice())
}

/// The host a node claims for its mailbox: the `STELE_HOST` override when not
/// blank (trimmed), else the machine's hostname, else the instance name.
pub open spec fn mailbox_host_spec(env: Option<Seq<char>>, hostname: Option<Seq<char>>, instance: Seq<char>) -> Seq<char> {
    match env {
        Some(e) if not_blank(e) => trim(e),
        _ => match hostname {
            Some(h) => h,
            None => instance,
        },
    }
}

pub fn mailbox_host(env: Option<String>, hostname: Option<String>, instance: &str) -> (r: String)
    ensures
        r@ == mailbox_host_spec(opt_view(env), opt_view(hostname), instance@),
{
    match env {
        Some(e) => {
            let c = chars_of(e.as_str());
            let t = trim_chars(c.as_slice());
            if t.len() > 0 {
                return string_of(t.as_slice());
            }
        },
        None => {},
    }
    match hostname {
        Some(h) => h,
        None => String::from_str(instance),
    }
}

} // verus!
