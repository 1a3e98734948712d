//! The `stele mail` command: addressing of the local project and host,
//! the request each subcommand sends, and which local node answers.
use vstd::prelude::*;

use crate::json::{
    get_str_or_empty, jv_members, jv_seq, lemma_jv_members, lemma_jv_seq, str_member_or_empty, Json, JsonV,
};
use crate::mailbox::{not_blank, opt_view};
use crate::sql::strings_view;
use crate::text::{
    chars_of, decimal, decimal_chars, eq_ignore_ascii_case, eq_ignore_ascii_case_exec, is_ascii_graphic, push_all,
    push_str, string_of, trim, trim_chars,
};

verus! {

// ── Local identity ──

/// An id segment as the project tools write it: `:` (the separator) becomes
/// `-`, and only graphic ASCII characters are kept.
pub open spec fn sanitize_spec(s: Seq<char>) -> Seq<char>
    decreases s.len(),
{
    if s.len() == 0 {
        Seq::empty()
    } else {
        let c = if s.last() == ':' { '-' } else { s.last() };
        let prev = sanitize_spec(s.drop_last());
        if is_ascii_graphic(c) { prev.push(c) } else { prev }
    }
}

pub fn sanitize(s: &str) -> (r: String)
    ensures
        r@ == sanitize_spec(s@),
{
    let cs = chars_of(s);
    let mut out: Vec<char> = Vec::new();
    let mut i: usize = 0;
    while i < cs.len()
        invariant
            i <= cs@.len(),
            out@ == sanitize_spec(cs@.take(i as int)),
        decreases cs.len() - i,
    {
        let c0 = cs[i];
        let c = if c0 == ':' { '-' } else { c0 };
        if '!' <= c && c <= '~' {
            out.push(c);
        }
        proof {
            assert(cs@.take(i + 1).drop_last() =~= cs@.take(i as int));
            assert(cs@.take(i + 1).last() == c0);
        }
        i = i + 1;
    }
    assert(cs@.take(cs@.len() as int) =~= s@);
    string_of(out.as_slice())
}

/// The project directory taken from `CLAUDE_PROJECT_DIR` (passed in), sanitized, when set and not empty.
pub fn detect_project_dir(env_value: Option<String>) -> (r: Option<String>)
    ensures
        opt_view(r) == (match env_value {
            Some(v) if v@.len() > 0 => Some(sanitize_spec(v@)),
            _ => None::<Seq<char>>,
        }),
{
    match env_value {
        Some(v) => {
            if !v.as_str().is_empty() {
                Some(sanitize(v.as_str()))
            } else {
                assert(v@.len() == 0);
                None
            }
        },
        None => None,
    }
}

/// The host of the sender: `STELE_HOST` (passed in) when not blank, trimmed;
/// else the host of the connection profile.
pub fn local_host(env_value: Option<String>, profile_host: Option<String>) -> (r: Option<String>)
    ensures
        opt_view(r) == (match env_value {
            Some(e) if not_blank(e@) => Some(trim(e@)),
            _ => opt_view(profile_host),
        }),
{
    match env_value {
        Some(e) => {
            let c = chars_of(e.as_str());
            let t = trim_chars(c.as_slice());
            if t.len() > 0 {
                return Some(string_of(t.as_slice()));
            }
        },
        None => {},
    }
    profile_host
}

/// The project of a listing: the explicit one, sanitized, else the detected one.
pub fn resolve_project(explicit: Option<&str>, detected: Option<String>) -> (r: Result<String, String>)
    ensures
        match explicit {
            Some(p) => r matches Ok(s) && s@ == sanitize_spec(p@),
            None => match detected {
                Some(d) => r matches Ok(s) && s@ == d@,
                None => r matches Err(e) && e@ == "could not detect project dir (set --project)"@,
            },
        },
{
    match explicit {
        Some(p) => Ok(sanitize(p)),
        None => match detected {
            Some(d) => Ok(d),
            None => Err(String::from_str("could not detect project dir (set --project)")),
        },
    }
}

// ── Requests ──

/// The subcommands of `stele mail`.
pub enum MailCommands {
    Send {
        to_host: String,
        to_project: String,
        attention: Option<String>,
        subject: Option<String>,
        message_type: Option<String>,
        meta: Option<String>,
        payload: Option<String>,
        from_alias: Option<String>,
    },
    List { alias: Vec<String>, status: Option<Vec<String>>, project: Option<String> },
    Read { message_id: i64 },
    Archive { message_id: i64 },
    Get { message_id: i64 },
    Outbox { status: Option<Vec<String>> },
    Register { alias: Vec<String>, project: Option<String> },
}

/// What the mail command knows of its connection.
pub struct MailConn {
    pub host: Option<String>,
    pub zenoh_endpoint: String,
    pub realm: String,
}

/// The local facts a request needs, read from the environment by the caller:
/// the `STELE_HOST` and `CLAUDE_PROJECT_DIR` variables, and the parsed
/// `--meta` and `--payload` arguments (`None` when not given, an error message
/// when not valid JSON).
pub struct MailEnv {
    pub stele_host: Option<String>,
    pub project_dir: Option<String>,
    pub meta: Result<Option<Json>, String>,
    pub payload: Result<Option<Json>, String>,
}

pub open spec fn str_list(v: Seq<Seq<char>>) -> JsonV {
    JsonV::Array(v.map_values(|s: Seq<char>| JsonV::Str(s)))
}

fn json_strings(v: Vec<String>) -> (r: Json)
    ensures
        r@ == str_list(strings_view(v@)),
{
    let mut out: Vec<Json> = Vec::new();
    let mut i: usize = 0;
    let ghost sv = strings_view(v@);
    while i < v.len()
        invariant
            i <= v@.len(),
            sv == strings_view(v@),
            jv_seq(out@) == sv.take(i as int).map_values(|s: Seq<char>| JsonV::Str(s)),
        decreases v.len() - i,
    {
        let ghost before = out@;
        out.push(Json::Str(v[i].clone()));
        proof {
            assert(out@ =~= before.push(Json::Str(v@[i as int])));
            crate::json::lemma_jv_seq_push(before, Json::Str(v@[i as int]));
            assert(sv[i as int] == v@[i as int]@);
            assert(sv.take(i + 1) =~= sv.take(i as int).push(sv[i as int]));
            assert(jv_seq(out@) =~= sv.take(i + 1).map_values(|s: Seq<char>| JsonV::Str(s)));
        }
        i = i + 1;
    }
    assert(sv.take(v@.len() as int) =~= sv);
    Json::Array(out)
}

fn key(k: &str, v: Json) -> (r: (String, Json))
    ensures
        r.0@ == k@,
        r.1 == v,
{
    (String::from_str(k), v)
}

pub open spec fn opt_member(k: Seq<char>, v: Option<JsonV>) -> Seq<(Seq<char>, JsonV)> {
    match v {
        Some(v) => seq![(k, v)],
        None => Seq::empty(),
    }
}

pub open spec fn opt_str(s: Option<Seq<char>>) -> Option<JsonV> {
    match s {
        Some(s) => Some(JsonV::Str(s)),
        None => None,
    }
}

/// The host a send is from: `STELE_HOST` when not blank (trimmed), else the profile's host.
pub open spec fn sender_host(env: Option<Seq<char>>, profile_host: Option<Seq<char>>) -> Option<Seq<char>> {
    match env {
        Some(h) if not_blank(h) => Some(trim(h)),
        _ => profile_host,
    }
}

/// The project a send is from: `CLAUDE_PROJECT_DIR` sanitized, or empty when unset or empty.
pub open spec fn sender_project(env: Option<Seq<char>>) -> Seq<char> {
    match env {
        Some(p) if p.len() > 0 => sanitize_spec(p),
        _ => Seq::empty(),
    }
}

/// The sender address of a send: `host:project[:alias]`.
pub open spec fn from_address(host: Seq<char>, project: Seq<char>, alias: Option<Seq<char>>) -> Seq<char> {
    match alias {
        Some(a) => host + ":"@ + project + ":"@ + a,
        None => host + ":"@ + project,
    }
}

/// The request of a send: recipient host (as given) and project (sanitized),
/// sender, and the optional fields that were given.
pub open spec fn send_request_spec(
    to_host: Seq<char>,
    to_project: Seq<char>,
    from: Seq<char>,
    attention: Option<Seq<char>>,
    subject: Option<Seq<char>>,
    message_type: Option<Seq<char>>,
    meta: Option<JsonV>,
    payload: Option<JsonV>,
) -> JsonV {
    JsonV::Object(seq![
        ("from"@, JsonV::Str(from)),
        ("to_host"@, JsonV::Str(to_host)),
        ("to_project"@, JsonV::Str(sanitize_spec(to_project))),
    ] + opt_member("attention"@, opt_str(attention)) + opt_member("subject"@, opt_str(subject))
        + opt_member("message_type"@, opt_str(message_type)) + opt_member("meta"@, meta)
        + opt_member("payload"@, payload))
}

fn push_opt(m: &mut Vec<(String, Json)>, k: &str, v: Option<Json>)
    ensures
        jv_members(final(m)@) == jv_members(old(m)@) + opt_member(k@, match v {
            Some(x) => Some(x@),
            None => None::<JsonV>,
        }),
{
    match v {
        Some(x) => {
            let ghost before = m@;
            m.push(key(k, x));
            proof {
                assert(m@.drop_last() =~= before);
            }
            proof {
                crate::json::lemma_jv_members_push(before, m@.last().0, m@.last().1);
                assert(m@ =~= before.push(m@.last()));
            }
            assert(jv_members(m@) =~= jv_members(before) + seq![(k@, m@.last().1@)]);
        },
        None => {
            assert(jv_members(m@) =~= jv_members(m@) + Seq::<(Seq<char>, JsonV)>::empty());
        },
    }
}

fn opt_string_json(s: Option<String>) -> (r: Option<Json>)
    ensures
        match r {
            Some(x) => Some(x@),
            None => None::<JsonV>,
        } == opt_str(opt_view(s)),
{
    match s {
        Some(s) => Some(Json::Str(s)),
        None => None,
    }
}

fn message_id_request(id: i64) -> (r: Json)
    ensures
        r@ == JsonV::Object(seq![("message_id"@, JsonV::Int(id))]),
{
    let mut m: Vec<(String, Json)> = Vec::new();
    m.push(key("message_id", Json::Int(id)));
    proof {
        lemma_jv_members(m@);
    }
    assert(jv_members(m@) =~= seq![("message_id"@, JsonV::Int(id))]);
    Json::Object(m)
}

pub open spec fn mail_project(explicit: Option<String>, env: Option<Seq<char>>) -> Option<Seq<char>> {
    match explicit {
        Some(p) => Some(sanitize_spec(p@)),
        None => match env {
            Some(p) if p.len() > 0 => Some(sanitize_spec(p)),
            _ => None,
        },
    }
}

pub open spec fn message_id_request_spec(id: i64) -> JsonV {
    JsonV::Object(seq![("message_id"@, JsonV::Int(id))])
}

pub type MailRequestV = Result<(Seq<char>, JsonV), Seq<char>>;

/// The leaf a subcommand queries and the request it sends.
///
/// - `send`: the recipient host and project (sanitized), the sender
///   `host:project[:alias]` and the optional fields given; it fails when
///   `--meta` or `--payload` is not valid JSON (in that order) or when no local
///   host is known.
/// - `list`: the project (explicit, else detected), the statuses (`NEW`, `READ`
///   by default) and the aliases when some are given.
/// - `register`: the project, the aliases, and `register_only`.
/// - `read`, `archive`, `get`: the message id.
/// - `outbox`: the statuses (`QUEUED`, `DEAD` by default).
pub open spec fn mail_request_spec(cmd: MailCommands, env: MailEnv, conn_host: Option<String>) -> MailRequestV {
    let ghost cmd0 = cmd;
    let ghost env0 = env;
    let ghost ch0 = conn_host;
    match cmd {
        MailCommands::Send { to_host, to_project, attention, subject, message_type, meta, payload, from_alias } => {
            match env.meta {
                Err(e) => Err(e@),
                Ok(mj) => match env.payload {
                    Err(e) => Err(e@),
                    Ok(pj) => match sender_host(opt_view(env.stele_host), opt_view(conn_host)) {
                        None => Err("could not determine local host for `from`"@),
                        Some(h) => Ok(("send"@, send_request_spec(
                            to_host@,
                            to_project@,
                            from_address(h, sender_project(opt_view(env.project_dir)), opt_view(from_alias)),
                            opt_view(attention),
                            opt_view(subject),
                            opt_view(message_type),
                            crate::mailbox::opt_json_view(mj),
                            crate::mailbox::opt_json_view(pj),
                        ))),
                    },
                },
            }
        },
        MailCommands::List { alias, status, project } => match mail_project(project, opt_view(env.project_dir)) {
            None => Err("could not detect project dir (set --project)"@),
            Some(pd) => Ok(("list"@, JsonV::Object(seq![
                ("project_dir"@, JsonV::Str(pd)),
                ("status"@, str_list(match status {
                    Some(s) => strings_view(s@),
                    None => seq!["NEW"@, "READ"@],
                })),
            ] + (if alias@.len() > 0 {
                seq![("aliases"@, str_list(strings_view(alias@)))]
            } else {
                Seq::<(Seq<char>, JsonV)>::empty()
            })))),
        },
        MailCommands::Register { alias, project } => match mail_project(project, opt_view(env.project_dir)) {
            None => Err("could not detect project dir (set --project)"@),
            Some(pd) => Ok(("list"@, JsonV::Object(seq![
                ("aliases"@, str_list(strings_view(alias@))),
                ("project_dir"@, JsonV::Str(pd)),
                ("register_only"@, JsonV::Bool(true)),
            ]))),
        },
        MailCommands::Read { message_id } => Ok(("read"@, message_id_request_spec(message_id))),
        MailCommands::Archive { message_id } => Ok(("archive"@, message_id_request_spec(message_id))),
        MailCommands::Get { message_id } => Ok(("get"@, message_id_request_spec(message_id))),
        MailCommands::Outbox { status } => Ok(("outbox"@, JsonV::Object(seq![("status"@, str_list(match status {
            Some(s) => strings_view(s@),
            None => seq!["QUEUED"@, "DEAD"@],
        }))]))),
    }
}

/// The leaf and request of a subcommand (see [`mail_request_spec`]).
pub fn build_request(cmd: MailCommands, env: MailEnv, conn_host: Option<String>) -> (r: Result<(&'static str, Json), String>)
    ensures
        match r {
            Ok((leaf, req)) => mail_request_spec(cmd, env, conn_host) == Ok::<(Seq<char>, JsonV), Seq<char>>((leaf@, req@)),
            Err(e) => mail_request_spec(cmd, env, conn_host) == Err::<(Seq<char>, JsonV), Seq<char>>(e@),
        },
{
    let ghost cmd0 = cmd;
    let ghost env0 = env;
    let ghost ch0 = conn_host;
    match cmd {
        MailCommands::Send { to_host, to_project, attention, subject, message_type, meta: _, payload: _, from_alias } => {
            let mj = match env.meta {
                Err(e) => return Err(e),
                Ok(m) => m,
            };
            let pj = match env.payload {
                Err(e) => return Err(e),
                Ok(p) => p,
            };
            let ghost env_host_v = opt_view(env.stele_host);
            let ghost conn_host_v = conn_host;
            let ghost pdv = opt_view(env.project_dir);
            let ghost project_v = match pdv {
                Some(p) if p.len() > 0 => sanitize_spec(p),
                _ => Seq::<char>::empty(),
            };
            let host = match local_host(env.stele_host, conn_host) {
                Some(h) => h,
                None => return Err(String::from_str("could not determine local host for `from`")),
            };
            let project = match detect_project_dir(env.project_dir) {
                Some(p) => p,
                None => String::new(),
            };
            let mut from = chars_of(host.as_str());
            push_str(&mut from, ":");
            push_str(&mut from, project.as_str());
            let ghost from_alias_v = opt_view(from_alias);
            match from_alias {
                Some(a) => {
                    push_str(&mut from, ":");
                    push_str(&mut from, a.as_str());
                },
                None => {},
            }
            assert(from@ =~= from_address(host@, project@, from_alias_v));
            let ghost att_v = opt_view(attention);
            let ghost subj_v = opt_view(subject);
            let ghost mt_v = opt_view(message_type);
            let ghost mj_v = crate::mailbox::opt_json_view(mj);
            let ghost pj_v = crate::mailbox::opt_json_view(pj);
            let ghost to_host_v = to_host@;
            let ghost to_project_v = to_project@;
            let mut m: Vec<(String, Json)> = Vec::new();
            m.push(key("from", Json::Str(string_of(from.as_slice()))));
            m.push(key("to_host", Json::Str(to_host)));
            m.push(key("to_project", Json::Str(sanitize(to_project.as_str()))));
            proof {
                lemma_jv_members(m@);
            }
            let ghost base = jv_members(m@);
            assert(base =~= seq![
                ("from"@, JsonV::Str(from@)),
                ("to_host"@, JsonV::Str(to_host_v)),
                ("to_project"@, JsonV::Str(sanitize_spec(to_project_v))),
            ]);
            push_opt(&mut m, "attention", opt_string_json(attention));
            push_opt(&mut m, "subject", opt_string_json(subject));
            push_opt(&mut m, "message_type", opt_string_json(message_type));
            push_opt(&mut m, "meta", mj);
            push_opt(&mut m, "payload", pj);
            let r = Json::Object(m);
            assert(r@ == JsonV::Object(jv_members(m@)));
            assert(host@ == (match env_host_v {
                Some(h) if not_blank(h) => trim(h),
                _ => opt_view(conn_host_v)->0,
            }));
            assert(project@ == project_v);
            assert(jv_members(m@) =~= base + opt_member("attention"@, opt_str(att_v)) + opt_member("subject"@, opt_str(subj_v))
                + opt_member("message_type"@, opt_str(mt_v)) + opt_member("meta"@, mj_v) + opt_member("payload"@, pj_v));
            assert(r@ == send_request_spec(to_host_v, to_project_v, from_address(host@, project@, from_alias_v),
                att_v, subj_v, mt_v, mj_v, pj_v));
            assert(mail_request_spec(cmd0, env0, ch0) == Ok::<(Seq<char>, JsonV), Seq<char>>(("send"@, r@)));
            Ok(("send", r))
        },
        MailCommands::List { alias, status, project } => {
            let ghost st0 = crate::sql::opt_strings_view(status);
            let ghost pr0 = project;
            let ghost det = opt_view(env.project_dir);
            let pd = match resolve_project(
                match &project {
                    Some(p) => Some(p.as_str()),
                    None => None,
                },
                detect_project_dir(env.project_dir),
            ) {
                Ok(p) => p,
                Err(e) => return Err(e),
            };
            let statuses = match status {
                Some(s) => s,
                None => {
                    let mut v: Vec<String> = Vec::new();
                    v.push(String::from_str("NEW"));
                    v.push(String::from_str("READ"));
                    assert(strings_view(v@) =~= seq!["NEW"@, "READ"@]);
                    v
                },
            };
            let ghost sv = strings_view(statuses@);
            let ghost pdv = pd@;
            assert(mail_project(pr0, det) == Some(pdv));
            assert(sv == (match st0 {
                Some(s) => s,
                None => seq!["NEW"@, "READ"@],
            }));
            let mut m: Vec<(String, Json)> = Vec::new();
            m.push(key("project_dir", Json::Str(pd)));
            m.push(key("status", json_strings(statuses)));
            let has_alias = alias.len() > 0;
            let ghost av = strings_view(alias@);
            if has_alias {
                m.push(key("aliases", json_strings(alias)));
            }
            proof {
                lemma_jv_members(m@);
            }
            assert(jv_members(m@) =~= seq![
                ("project_dir"@, JsonV::Str(pdv)),
                ("status"@, str_list(sv)),
            ] + (if has_alias {
                seq![("aliases"@, str_list(av))]
            } else {
                Seq::<(Seq<char>, JsonV)>::empty()
            }));
            let r = Json::Object(m);
            let ghost expected = JsonV::Object(seq![
                ("project_dir"@, JsonV::Str(pdv)),
                ("status"@, str_list(sv)),
            ] + (if has_alias {
                seq![("aliases"@, str_list(av))]
            } else {
                Seq::<(Seq<char>, JsonV)>::empty()
            }));
            assert(r@ == expected);
            assert(cmd0 matches MailCommands::List { alias: a, status: st, project: p } && ((a@.len() > 0) == has_alias));
            assert(pr0 == cmd0->List_project);
            assert(det == opt_view(env0.project_dir));
            assert(st0 == crate::sql::opt_strings_view(cmd0->List_status));
            assert(av == strings_view(cmd0->List_alias@));
            assert(sv == (match cmd0->List_status {
                Some(s) => strings_view(s@),
                None => seq!["NEW"@, "READ"@],
            }));
            assert(mail_request_spec(cmd0, env0, ch0) is Ok);
            assert(mail_request_spec(cmd0, env0, ch0)->Ok_0.0 == "list"@);
            assert(mail_project(cmd0->List_project, opt_view(env0.project_dir)) == Some(pdv));
            let ghost e2 = JsonV::Object(seq![
                ("project_dir"@, JsonV::Str(pdv)),
                ("status"@, str_list(match cmd0->List_status {
                    Some(s) => strings_view(s@),
                    None => seq!["NEW"@, "READ"@],
                })),
            ] + (if cmd0->List_alias@.len() > 0 {
                seq![("aliases"@, str_list(strings_view(cmd0->List_alias@)))]
            } else {
                Seq::<(Seq<char>, JsonV)>::empty()
            }));
            assert(str_list(sv) == str_list(match cmd0->List_status {
                Some(s) => strings_view(s@),
                None => seq!["NEW"@, "READ"@],
            }));
            assert((cmd0->List_alias@.len() > 0) == has_alias);
            assert(e2->Object_0 =~= expected->Object_0);
            assert(e2 == expected);
            assert(mail_request_spec(cmd0, env0, ch0)->Ok_0.1->Object_0 =~= e2->Object_0);
            assert(mail_request_spec(cmd0, env0, ch0)->Ok_0.1 == e2);
            assert(mail_request_spec(cmd0, env0, ch0) == Ok::<(Seq<char>, JsonV), Seq<char>>(("list"@, expected)));
            Ok(("list", r))
        },
        MailCommands::Register { alias, project } => {
            let pd = match resolve_project(
                match &project {
                    Some(p) => Some(p.as_str()),
                    None => None,
                },
                detect_project_dir(env.project_dir),
            ) {
                Ok(p) => p,
                Err(e) => return Err(e),
            };
            let ghost av = strings_view(alias@);
            let ghost pdv = pd@;
            let mut m: Vec<(String, Json)> = Vec::new();
            m.push(key("aliases", json_strings(alias)));
            m.push(key("project_dir", Json::Str(pd)));
            m.push(key("register_only", Json::Bool(true)));
            proof {
                lemma_jv_members(m@);
            }
            assert(jv_members(m@) =~= seq![
                ("aliases"@, str_list(av)),
                ("project_dir"@, JsonV::Str(pdv)),
                ("register_only"@, JsonV::Bool(true)),
            ]);
            let r = Json::Object(m);
            assert(mail_request_spec(cmd0, env0, ch0) == Ok::<(Seq<char>, JsonV), Seq<char>>(("list"@, r@)));
            Ok(("list", r))
        },
        MailCommands::Read { message_id } => Ok(("read", message_id_request(message_id))),
        MailCommands::Archive { message_id } => Ok(("archive", message_id_request(message_id))),
        MailCommands::Get { message_id } => Ok(("get", message_id_request(message_id))),
        MailCommands::Outbox { status } => {
            let statuses = match status {
                Some(s) => s,
                None => {
                    let mut v: Vec<String> = Vec::new();
                    v.push(String::from_str("QUEUED"));
                    v.push(String::from_str("DEAD"));
                    assert(strings_view(v@) =~= seq!["QUEUED"@, "DEAD"@]);
                    v
                },
            };
            let mut m: Vec<(String, Json)> = Vec::new();
            let ghost sv = strings_view(statuses@);
            m.push(key("status", json_strings(statuses)));
            proof {
                lemma_jv_members(m@);
            }
            assert(jv_members(m@) =~= seq![("status"@, str_list(sv))]);
            let r = Json::Object(m);
            assert(mail_request_spec(cmd0, env0, ch0) == Ok::<(Seq<char>, JsonV), Seq<char>>(("outbox"@, r@)));
            Ok(("outbox", r))
        },
    }
}

// ── Which node is local ──

/// The instance of this machine's node among info replies: the first reply
/// with an instance whose `mailbox_host` is `local_host` (ignoring ASCII
/// case); failing that, the only reply with an instance; an error when there
/// is none or several.
pub open spec fn named_reply() -> spec_fn(JsonV) -> bool {
    |v: JsonV| str_member_or_empty(v, "instance"@).len() > 0
}

pub open spec fn from_host(local_host: Seq<char>) -> spec_fn(JsonV) -> bool {
    |v: JsonV| eq_ignore_ascii_case(str_member_or_empty(v, "mailbox_host"@), local_host)
}

pub open spec fn local_instance_spec(replies: Seq<JsonV>, local_host: Seq<char>) -> Result<Seq<char>, Seq<char>> {
    let named = replies.filter(named_reply());
    let matching = named.filter(from_host(local_host));
    if matching.len() > 0 {
        Ok(str_member_or_empty(matching[0], "instance"@))
    } else if named.len() == 0 {
        Err("no local stele node found (no info reply)"@)
    } else if named.len() == 1 {
        Ok(str_member_or_empty(named[0], "instance"@))
    } else {
        Err("could not resolve local node: "@ + decimal(named.len()) + " nodes responded, none claims host '"@
            + local_host + "'"@)
    }
}

pub fn pick_local_instance(replies: &Vec<Json>, local_host: &str) -> (r: Result<String, String>)
    ensures
        match r {
            Ok(s) => local_instance_spec(jv_seq(replies@), local_host@) == Ok::<Seq<char>, Seq<char>>(s@),
            Err(e) => local_instance_spec(jv_seq(replies@), local_host@) == Err::<Seq<char>, Seq<char>>(e@),
        },
{
    let ghost rv = jv_seq(replies@);
    let ghost pn = named_reply();
    let ghost pm = from_host(local_host@);
    proof {
        lemma_jv_seq(replies@);
    }
    let lh = chars_of(local_host);
    let mut candidates: Vec<Vec<char>> = Vec::new();
    let mut i: usize = 0;
    while i < replies.len()
        invariant
            i <= replies@.len(),
            rv == jv_seq(replies@),
            rv.len() == replies@.len(),
            lh@ == local_host@,
            pn == named_reply(),
            pm == from_host(local_host@),
            forall|k: int| 0 <= k < replies@.len() ==> #[trigger] rv[k] == replies@[k]@,
            rv.take(i as int).filter(pn).filter(pm).len() == 0,
            candidates@.len() == rv.take(i as int).filter(pn).len(),
            forall|k: int| 0 <= k < candidates@.len() ==> (#[trigger] candidates@[k])@
                == str_member_or_empty(rv.take(i as int).filter(pn)[k], "instance"@),
        decreases replies.len() - i,
    {
        let inst = get_str_or_empty(&replies[i], "instance");
        let host = get_str_or_empty(&replies[i], "mailbox_host");
        let ghost t0 = rv.take(i as int);
        let ghost t1 = rv.take(i + 1);
        proof {
            assert(t1.drop_last() =~= t0);
            assert(t1.last() == rv[i as int]);
            t0.lemma_filter_push(rv[i as int], pn);
        }
        assert(rv[i as int] == replies@[i as int]@);
        assert(pn(rv[i as int]) == (inst@.len() > 0));
        assert(pm(rv[i as int]) == eq_ignore_ascii_case(host@, local_host@));
        if inst.len() == 0 {
            assert(t1.filter(pn) =~= t0.filter(pn)) by {
                assert(t0.push(rv[i as int]) =~= t1);
                t0.lemma_filter_push(rv[i as int], pn);
            }
            i = i + 1;
            continue;
        }
        proof {
            assert(t0.push(rv[i as int]) =~= t1);
            assert(t1.filter(pn) =~= t0.filter(pn).push(rv[i as int]));
            t0.filter(pn).lemma_filter_push(rv[i as int], pm);
        }
        if eq_ignore_ascii_case_exec(host.as_slice(), lh.as_slice()) {
            proof {
                let f = rv.filter(pn);
                let g = f.filter(pm);
                lemma_filter_prefix(rv, pn, pm, i as int);
            }
            return Ok(string_of(inst.as_slice()));
        }
        candidates.push(inst);
        proof {
            assert(t1.filter(pn).filter(pm) =~= t0.filter(pn).filter(pm));
        }
        i = i + 1;
    }
    proof {
        assert(rv.take(i as int) =~= rv);
    }
    if candidates.len() == 0 {
        Err(String::from_str("no local stele node found (no info reply)"))
    } else if candidates.len() == 1 {
        Ok(string_of(candidates[0].as_slice()))
    } else {
        let mut out = chars_of("could not resolve local node: ");
        let d = decimal_chars(candidates.len() as u64);
        push_all(&mut out, d.as_slice());
        push_str(&mut out, " nodes responded, none claims host '");
        push_str(&mut out, local_host);
        push_str(&mut out, "'");
        Err(string_of(out.as_slice()))
    }
}

/// When the first `i` replies hold no named reply for the local host and
/// reply `i` is one, it is the first of all such replies.
proof fn lemma_filter_prefix(rv: Seq<JsonV>, pn: spec_fn(JsonV) -> bool, pm: spec_fn(JsonV) -> bool, i: int)
    requires
        0 <= i < rv.len(),
        rv.take(i).filter(pn).filter(pm).len() == 0,
        pn(rv[i]),
        pm(rv[i]),
    ensures
        rv.filter(pn).filter(pm).len() > 0,
        rv.filter(pn).filter(pm)[0] == rv[i],
{
    let a = rv.take(i + 1);
    let b = rv.skip(i + 1);
    assert(rv =~= a + b);
    rv.take(i).lemma_filter_push(rv[i], pn);
    assert(rv.take(i).push(rv[i]) =~= a);
    rv.take(i).filter(pn).lemma_filter_push(rv[i], pm);
    Seq::<JsonV>::filter_distributes_over_add(a, b, pn);
    Seq::<JsonV>::filter_distributes_over_add(a.filter(pn), b.filter(pn), pm);
    let fa = a.filter(pn).filter(pm);
    assert(fa =~= seq![rv[i]]);
}

/// The mailbox leaf each subcommand queries: its own name, except `register`,
/// which registers aliases through the `list` leaf.
pub open spec fn subcommand_leaf(cmd: MailCommands) -> Seq<char> {
    match cmd {
        MailCommands::Send { .. } => "send"@,
        MailCommands::List { .. } => "list"@,
        MailCommands::Read { .. } => "read"@,
        MailCommands::Archive { .. } => "archive"@,
        MailCommands::Get { .. } => "get"@,
        MailCommands::Outbox { .. } => "outbox"@,
        MailCommands::Register { .. } => "list"@,
    }
}

/// Every request goes to its subcommand's leaf; `read`, `archive` and `get`
/// always succeed and send just the message's id.
pub proof fn lemma_request_leaf(cmd: MailCommands, env: MailEnv, conn_host: Option<String>)
    ensures
        mail_request_spec(cmd, env, conn_host) matches Ok((leaf, _)) ==> leaf == subcommand_leaf(cmd),
        cmd matches MailCommands::Read { message_id } ==> mail_request_spec(cmd, env, conn_host)
            == Ok::<(Seq<char>, JsonV), Seq<char>>(("read"@, JsonV::Object(seq![("message_id"@, JsonV::Int(message_id))]))),
        cmd matches MailCommands::Archive { message_id } ==> mail_request_spec(cmd, env, conn_host)
            == Ok::<(Seq<char>, JsonV), Seq<char>>(("archive"@, JsonV::Object(seq![("message_id"@, JsonV::Int(message_id))]))),
        cmd matches MailCommands::Get { message_id } ==> mail_request_spec(cmd, env, conn_host)
            == Ok::<(Seq<char>, JsonV), Seq<char>>(("get"@, JsonV::Object(seq![("message_id"@, JsonV::Int(message_id))]))),
{
}

} // verus!
