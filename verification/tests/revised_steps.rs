use stele::auth::{generate_key, key_from_bytes, KEY_BYTES};
use stele::node::{backoff, hostname_instance, sweep_row, OutboxRow};
use stele::server_config::settings_path;
use stele::sql::{SqlValue, Statement};
use stele::store::{
    entity_plan, entity_plan_now, relation_plan, relation_plan_now, INSERT_ENTITY, INSERT_OBSERVATION, INSERT_RELATION,
    TOUCH_ENTITY,
};
use stele::transport::first_free_port;

use base64::Engine;

fn texts(st: &Statement) -> Vec<String> {
    st.params
        .iter()
        .map(|p| match p {
            SqlValue::Text(s) => s.clone(),
            SqlValue::Int(i) => format!("#{i}"),
            SqlValue::Null => "NULL".to_string(),
        })
        .collect()
}

#[test]
fn settings_path_is_joined_to_the_parent() {
    assert_eq!(settings_path("/var/lib/stele/stele.db"), "/var/lib/stele/config.toml");
    assert_eq!(settings_path("./stele.db"), "./config.toml");
    assert_eq!(settings_path("stele.db"), "config.toml");
    assert_eq!(settings_path(""), "./config.toml");
    assert_eq!(settings_path("/data/a.db"), settings_path("/data/b.db"));
}

#[test]
fn key_is_base64_of_its_bytes() {
    let zeros = vec![0u8; KEY_BYTES];
    assert_eq!(key_from_bytes(&zeros), "A".repeat(43));
    let bytes: Vec<u8> = (0u8..32).collect();
    let k = key_from_bytes(&bytes);
    assert_eq!(base64::engine::general_purpose::URL_SAFE_NO_PAD.decode(&k).unwrap(), bytes);
    let g = generate_key();
    assert_eq!(base64::engine::general_purpose::URL_SAFE_NO_PAD.decode(&g).unwrap().len(), 32);
}

#[test]
fn hostname_is_lowered_then_normalized() {
    assert_eq!(hostname_instance("My_Host.Local").as_deref(), Some("my-host-local"));
    assert_eq!(hostname_instance("--BOX--").as_deref(), Some("box"));
    assert_eq!(hostname_instance("___"), None);
    let long = "A".repeat(40);
    assert_eq!(hostname_instance(&long).unwrap(), "a".repeat(32));
}

#[test]
fn backoff_follows_the_formula_and_never_shrinks() {
    let expected = [5u64, 5, 10, 20, 40, 80, 160, 300, 300];
    for (a, e) in expected.iter().enumerate() {
        assert_eq!(backoff(a as i64), *e);
    }
    assert_eq!(backoff(33), 300);
    assert_eq!(backoff(4_294_967_297), 300);
    assert_eq!(backoff(i64::MAX), 300);
    assert_eq!(backoff(-7), 5);
    let mut last = 0;
    for a in -3..70 {
        let d = backoff(a);
        assert!(d >= last && (5..=300).contains(&d));
        last = d;
    }
}

fn row(attempts: i64, created_at: &str) -> OutboxRow {
    OutboxRow {
        mail_uid: "M1".to_string(),
        attempts,
        next_attempt_at: "2024-01-01T00:00:00+00:00".to_string(),
        created_at: created_at.to_string(),
    }
}

// 2024-01-10T00:00:00Z
const NOW: i64 = 1_704_844_800;

#[test]
fn sweep_rows() {
    let fresh = row(3, "2024-01-09T00:00:00+00:00");
    assert!(sweep_row(&fresh, NOW, 0, None).is_none());

    let m = sweep_row(&fresh, NOW, 0, Some(Ok(Some(17)))).unwrap();
    assert_eq!((m.status.as_str(), m.attempts, m.remote_message_id), ("DELIVERED", 3, Some(17)));
    assert_eq!(m.mail_uid, "M1");
    assert_eq!(m.next_attempt_at, "2024-01-01T00:00:00+00:00");
    assert!(m.last_error.is_none());

    let m = sweep_row(&fresh, NOW, 0, Some(Err("timeout".to_string()))).unwrap();
    assert_eq!((m.status.as_str(), m.attempts), ("QUEUED", 4));
    assert_eq!(m.next_attempt_at, "2024-01-10T00:00:40+00:00");
    assert_eq!(m.last_error.as_deref(), Some("timeout"));

    let m = sweep_row(&row(49, "2024-01-09T00:00:00+00:00"), NOW, 0, Some(Err("down".to_string()))).unwrap();
    assert_eq!((m.status.as_str(), m.attempts), ("DEAD", 50));
    assert_eq!(m.next_attempt_at, "2024-01-01T00:00:00+00:00");

    // exactly seven days old is not yet aged out; a nanosecond more is
    let m = sweep_row(&row(1, "2024-01-03T00:00:00+00:00"), NOW, 0, Some(Err("x".to_string()))).unwrap();
    assert_eq!(m.status, "QUEUED");
    let m = sweep_row(&row(1, "2024-01-03T00:00:00+00:00"), NOW, 1, Some(Err("x".to_string()))).unwrap();
    assert_eq!(m.status, "DEAD");
    // a creation time in another offset is read as the same instant
    let m = sweep_row(&row(1, "2024-01-02T23:00:00+02:00"), NOW, 0, Some(Err("x".to_string()))).unwrap();
    assert_eq!(m.status, "DEAD");
    // an unreadable creation time never ages out
    let m = sweep_row(&row(1, "yesterday"), NOW, 0, Some(Err("x".to_string()))).unwrap();
    assert_eq!(m.status, "QUEUED");
}

#[test]
fn first_free_port_in_range() {
    assert_eq!(first_free_port(7447, 4, &vec![false, true, true, false]), Ok(7448));
    assert_eq!(
        first_free_port(7447, 2, &vec![false, false]),
        Err("no free port in [7447, 7449) for TCP+UDP dual bind".to_string())
    );
    assert!(first_free_port(100, 0, &vec![]).is_err());
    assert_eq!(first_free_port(65534, 5, &vec![true]), Ok(65534));
}

#[test]
fn creating_an_entity_twice_reuses_it() {
    let obs = vec!["likes tea".to_string()];
    let ids = vec!["O1".to_string()];
    let fresh = entity_plan(None, "E1", "alice", "person", "team", &obs, &ids, "T");
    assert_eq!(fresh.id, "E1");
    assert!(fresh.created);
    assert_eq!(fresh.statements.len(), 3);
    assert_eq!(fresh.statements[0].sql, INSERT_ENTITY);
    assert_eq!(texts(&fresh.statements[0]), vec!["E1", "alice", "person", "team", "T", "T"]);
    assert_eq!(fresh.statements[1].sql, INSERT_OBSERVATION);
    assert_eq!(texts(&fresh.statements[1]), vec!["O1", "E1", "likes tea", "T"]);
    assert_eq!(fresh.statements[2].sql, TOUCH_ENTITY);

    let again = entity_plan(Some("E0".to_string()), "E1", "alice", "person", "team", &obs, &ids, "T");
    assert_eq!(again.id, "E0");
    assert!(!again.created);
    assert_eq!(again.statements.len(), 2);
    assert_eq!(again.statements[0].sql, INSERT_OBSERVATION);
    assert_eq!(texts(&again.statements[0]), vec!["O1", "E0", "likes tea", "T"]);

    let quiet = entity_plan(Some("E0".to_string()), "E1", "alice", "person", "team", &vec![], &vec![], "T");
    assert!(quiet.statements.is_empty());

    let now_plan = entity_plan_now(None, "bob", "person", "team", &obs);
    assert!(now_plan.created);
    assert_eq!(now_plan.id.len(), 26);
}

#[test]
fn creating_a_relation_twice_reuses_it() {
    let fresh = relation_plan(None, "R1", "A", "B", "knows", "team", "T");
    assert!(fresh.created);
    assert_eq!(fresh.id, "R1");
    let st = fresh.statement.unwrap();
    assert_eq!(st.sql, INSERT_RELATION);
    assert_eq!(texts(&st), vec!["R1", "A", "B", "knows", "team", "T"]);
    let again = relation_plan(Some("R0".to_string()), "R1", "A", "B", "knows", "team", "T");
    assert_eq!(again.id, "R0");
    assert!(!again.created && again.statement.is_none());
    let now_plan = relation_plan_now(None, "A", "B", "knows", "team");
    assert!(now_plan.created && now_plan.id.len() == 26 && now_plan.statement.is_some());
}
