use stele::address::{compose_id, parse_id, Principal};
use stele::node::{
    after_failed_delivery, backoff, derive_instance, heartbeat_instance, instance_with_fallback, is_valid_instance,
    last_segment, listen_endpoints, node_key_expr, normalize_hostname, RetryDecision,
};

const SID: &str = "0123abcd-0000-4000-8000-00000000abcd";

#[test]
fn project_address_parses() {
    let p = parse_id("laptop:/home/me/proj").unwrap();
    assert_eq!(p.host, "laptop");
    assert_eq!(p.project_dir, "/home/me/proj");
    assert!(matches!(p.principal, Principal::Project));
}

#[test]
fn session_and_user_addresses_parse() {
    let s = parse_id(&format!("h:/p:{SID}")).unwrap();
    assert!(matches!(&s.principal, Principal::Session(x) if x == SID));
    let u = parse_id("h:/p:USER").unwrap();
    assert!(matches!(u.principal, Principal::User));
}

#[test]
fn a_colon_in_the_directory_starts_a_third_segment() {
    assert_eq!(
        parse_id("h:C:/dir").err().unwrap(),
        "id 3rd segment must be a session UUID or the literal 'USER'"
    );
    let p = parse_id("h:C:/dir:USER").unwrap();
    assert_eq!(p.project_dir, "C:/dir");
}

#[test]
fn bad_addresses_are_refused_with_reasons() {
    assert_eq!(parse_id("nocolon").err().unwrap(), "id missing ':' separator");
    assert_eq!(parse_id(":/p").err().unwrap(), "id host segment is empty");
    assert_eq!(parse_id("h:").err().unwrap(), "id project_dir segment is empty");
    assert_eq!(parse_id("h:/p:").err().unwrap(), "id 3rd segment is empty");
    assert_eq!(
        parse_id("h:/p:bob").err().unwrap(),
        "id 3rd segment must be a session UUID or the literal 'USER'"
    );
}

#[test]
fn compose_gives_back_the_address() {
    for a in ["h:/p", "h:/p:USER"] {
        let p = parse_id(a).unwrap();
        assert_eq!(compose_id(&p), a);
    }
    let a = format!("h:/p:{SID}");
    assert_eq!(compose_id(&parse_id(&a).unwrap()), a);
}

#[test]
fn instance_grammar() {
    assert!(is_valid_instance("stele-1"));
    assert!(is_valid_instance("0abc"));
    assert!(!is_valid_instance("-abc"));
    assert!(!is_valid_instance("Abc"));
    assert!(!is_valid_instance(""));
}

#[test]
fn hostnames_become_instances() {
    assert_eq!(normalize_hostname("my.host.local").unwrap(), "my-host-local");
    assert_eq!(normalize_hostname("--x--").unwrap(), "x");
    assert!(normalize_hostname("...").is_none());
}

#[test]
fn override_instance_wins_when_valid() {
    assert_eq!(derive_instance(Some("  box-1  ")).unwrap(), "box-1");
    let d = derive_instance(Some("Bad Name"));
    if let Some(s) = d {
        assert!(is_valid_instance(&s) && s.len() <= 32);
    }
}

#[test]
fn zid_fallback() {
    assert_eq!(instance_with_fallback(None, "abcdef0123456789"), "stele-abcdef01");
    assert_eq!(instance_with_fallback(Some("n".to_string()), "z"), "n");
}

#[test]
fn key_expressions() {
    let k = node_key_expr("lab", "box", "heartbeat");
    assert_eq!(k, "stylos/lab/stele/box/heartbeat");
    assert_eq!(heartbeat_instance(&k).unwrap(), "box");
    assert!(heartbeat_instance("stylos/lab").is_none());
    assert_eq!(last_segment(&k), "heartbeat");
}

#[test]
fn endpoints() {
    assert_eq!(listen_endpoints(7447, true), vec!["quic/0.0.0.0:7447".to_string(), "tcp/0.0.0.0:7447".to_string()]);
    assert_eq!(listen_endpoints(80, false), vec!["tcp/0.0.0.0:80".to_string()]);
}

#[test]
fn retry_schedule() {
    assert_eq!(backoff(0), 5);
    assert_eq!(backoff(1), 5);
    assert_eq!(backoff(2), 10);
    assert_eq!(backoff(4), 40);
    assert_eq!(backoff(7), 300);
    assert_eq!(backoff(1000), 300);
    assert!(matches!(after_failed_delivery(0, false), RetryDecision::Retry { attempts: 1, delay_secs: 5 }));
    assert!(matches!(after_failed_delivery(49, false), RetryDecision::Dead { attempts: 50 }));
    assert!(matches!(after_failed_delivery(3, true), RetryDecision::Dead { attempts: 4 }));
}
