use stele::json::Json;
use stele::mail_cli::{build_request, detect_project_dir, local_host, pick_local_instance, resolve_project, sanitize, MailCommands, MailEnv};
use stele::mailbox::{
    check_caller, delivery_outcome, err_envelope, exit_for_reply, find_invalid_status, is_local_host, mailbox_host,
    mailbox_leaf, message_from_request, ok_envelope, pick_dest_instance, plan_list, plan_send, unknown_leaf_reply,
    MailboxLeaf,
};

fn obj(members: Vec<(&str, Json)>) -> Json {
    Json::Object(members.into_iter().map(|(k, v)| (k.to_string(), v)).collect())
}

fn text(s: &str) -> Json {
    Json::Str(s.to_string())
}

#[test]
fn send_plans() {
    let p = plan_send("a:/p", "b:/q:USER", None).ok().unwrap();
    assert_eq!(p.from_id, "a:/p");
    assert_eq!(p.to_project, "/q");
    let p = plan_send("a:/p", "b:/q", Some("a:/p:USER")).ok().unwrap();
    assert_eq!(p.from_id, "a:/p:USER");
    assert_eq!(plan_send("bad", "b:/q", None).err().unwrap(), "id: id missing ':' separator");
    assert_eq!(plan_send("a:/p", "b:/q", Some("x")).err().unwrap(), "from: id missing ':' separator");
    assert_eq!(plan_send("a:/p", ":q", None).err().unwrap(), "to: id host segment is empty");
}

#[test]
fn list_plans() {
    let p = plan_list("a:/p", None, Some("  ".to_string()), None).ok().unwrap();
    assert_eq!(p.project_dir, "/p");
    assert!(p.aliases.is_empty());
    assert_eq!(p.statuses, vec!["NEW".to_string()]);
    let p = plan_list("a:/p", Some("b:/q"), Some("ann".to_string()), Some(vec!["READ".to_string()])).ok().unwrap();
    assert_eq!(p.project_dir, "/q");
    assert_eq!(p.aliases, vec!["ann".to_string()]);
    assert_eq!(
        plan_list("a:/p", None, None, Some(vec!["NEW".to_string(), "LOST".to_string()])).err().unwrap(),
        "status: invalid value 'LOST'"
    );
    assert_eq!(find_invalid_status(&vec!["NEW".to_string(), "ARCHIVE".to_string()]), None);
    assert_eq!(find_invalid_status(&vec!["ARCHIVED".to_string()]).as_deref(), Some("ARCHIVED"));
    assert!(check_caller("a:/p").is_ok());
}

#[test]
fn messages_get_defaults() {
    let m = message_from_request(None, Some(" ".to_string()), Some("".to_string()), None, Some(Json::Int(1)));
    assert_eq!(m.subject, "");
    assert_eq!(m.message_type, "NOTE");
    assert!(m.attention.is_none());
    assert!(matches!(m.meta, Json::Object(ref v) if v.is_empty()));
    assert!(matches!(m.payload, Json::Int(1)));
}

#[test]
fn envelopes_and_exit_codes() {
    let e = err_envelope("not_found", "no such message");
    assert_eq!(exit_for_reply(&e), 3);
    assert_eq!(exit_for_reply(&err_envelope("conflict", "x")), 4);
    assert_eq!(exit_for_reply(&err_envelope("bad_request", "x")), 2);
    assert_eq!(exit_for_reply(&err_envelope("internal", "x")), 1);
    let ok = ok_envelope(obj(vec![("message_id", Json::Int(5))]));
    assert_eq!(exit_for_reply(&ok), 0);
    assert_eq!(delivery_outcome(&ok), Ok(Some(5)));
    assert_eq!(delivery_outcome(&e), Err("no such message".to_string()));
    assert_eq!(delivery_outcome(&obj(vec![])), Err("delivery rejected".to_string()));
    let u = unknown_leaf_reply("zap");
    assert_eq!(u.get("reason").and_then(|r| r.as_str()), Some("unknown mailbox leaf 'zap'"));
}

#[test]
fn leaves_and_hosts() {
    assert!(matches!(mailbox_leaf("send"), MailboxLeaf::Send));
    assert!(matches!(mailbox_leaf("outbox"), MailboxLeaf::Outbox));
    assert!(matches!(mailbox_leaf("nope"), MailboxLeaf::Unknown));
    assert!(is_local_host("MyBox", "mybox"));
    assert!(!is_local_host("a", "b"));
    assert_eq!(mailbox_host(Some("  h1 ".to_string()), Some("m".to_string()), "i"), "h1");
    assert_eq!(mailbox_host(Some(" ".to_string()), None, "inst"), "inst");
}

#[test]
fn destination_instances() {
    let replies = vec![
        obj(vec![("instance", text("one")), ("mailbox_host", text("alpha"))]),
        obj(vec![("instance", text("two")), ("mailbox_host", text("Beta"))]),
    ];
    assert_eq!(pick_dest_instance(&replies, "beta", &vec!["two".to_string()]).as_deref(), Some("two"));
    assert!(pick_dest_instance(&replies, "beta", &vec![]).is_none());
    assert_eq!(pick_local_instance(&replies, "ALPHA").ok().unwrap(), "one");
    assert_eq!(
        pick_local_instance(&replies, "gamma").err().unwrap(),
        "could not resolve local node: 2 nodes responded, none claims host 'gamma'"
    );
    assert_eq!(pick_local_instance(&vec![], "g").err().unwrap(), "no local stele node found (no info reply)");
}

#[test]
fn local_identity() {
    assert_eq!(sanitize("C:\\my dir"), "C-\\mydir");
    assert_eq!(detect_project_dir(Some("/a:b".to_string())).as_deref(), Some("/a-b"));
    assert!(detect_project_dir(Some(String::new())).is_none());
    assert_eq!(local_host(Some(" ".to_string()), Some("p".to_string())).as_deref(), Some("p"));
    assert_eq!(resolve_project(None, None).err().unwrap(), "could not detect project dir (set --project)");
    assert_eq!(resolve_project(Some("x y"), None).ok().unwrap(), "xy");
}

fn env() -> MailEnv {
    MailEnv { stele_host: Some("box".to_string()), project_dir: Some("/w".to_string()), meta: Ok(None), payload: Ok(None) }
}

#[test]
fn mail_requests() {
    let send = MailCommands::Send {
        to_host: "peer".to_string(),
        to_project: "/x".to_string(),
        attention: None,
        subject: Some("hi".to_string()),
        message_type: None,
        meta: None,
        payload: None,
        from_alias: Some("bot".to_string()),
    };
    let (leaf, req) = build_request(send, env(), None).ok().unwrap();
    assert_eq!(leaf, "send");
    assert_eq!(req.get("from").and_then(|f| f.as_str()), Some("box:/w:bot"));
    assert_eq!(req.get("subject").and_then(|f| f.as_str()), Some("hi"));
    assert!(req.get("attention").is_none());

    let (leaf, req) = build_request(MailCommands::Outbox { status: None }, env(), None).ok().unwrap();
    assert_eq!(leaf, "outbox");
    assert!(matches!(req.get("status"), Some(Json::Array(v)) if v.len() == 2));

    let e = MailEnv { meta: Err("bad meta".to_string()), ..env() };
    let send = MailCommands::Send {
        to_host: "p".to_string(),
        to_project: "/x".to_string(),
        attention: None,
        subject: None,
        message_type: None,
        meta: None,
        payload: None,
        from_alias: None,
    };
    assert_eq!(build_request(send, e, None).err().unwrap(), "bad meta");
    let none = MailEnv { project_dir: None, ..env() };
    let list = MailCommands::List { alias: vec![], status: None, project: None };
    assert_eq!(build_request(list, none, None).err().unwrap(), "could not detect project dir (set --project)");
}
