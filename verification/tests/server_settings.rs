use stele::auth::{authorize, ct_eq, generate_key, unauthorized, HEADER_NAME};
use stele::json::Json;
use stele::notify::{init, notification_from, notify_reply, show, shown_reply};
use stele::server_config::{
    applied_settings, bind_mode_of, chosen_ip, dashboard_url, default_bind_ip, desktop_bind_addr, replace_str,
    resolve_auth_key, settings_path, BindMode, Config, ServerSettings, Settings, StyloSettings,
};
use stele::transport::{no_free_port, port_candidates, running_health, TlsPaths, TlsSettings};

fn config() -> Config {
    Config {
        bind: "127.0.0.1:3100".to_string(),
        db: "./stele.db".to_string(),
        mcp_path: "/mcp".to_string(),
        settings: false,
        auth_key: None,
        stylos_enabled: None,
        no_stylos: false,
        stylos_mode: None,
        stylos_realm: None,
        stylos_instance: None,
        stylos_connect: vec![],
    }
}

fn base() -> StyloSettings {
    StyloSettings {
        enabled: true,
        mode: "peer".to_string(),
        realm: "home".to_string(),
        instance: None,
        connect: vec!["tcp/a:1".to_string()],
    }
}

#[test]
fn stylos_merge_precedence() {
    let mut c = config();
    c.no_stylos = true;
    c.stylos_enabled = Some(true);
    assert!(!c.merge_stylos(base()).enabled);
    let mut c = config();
    c.stylos_enabled = Some(false);
    c.stylos_realm = Some("lab".to_string());
    c.stylos_connect = vec!["tcp/b:2".to_string(), "tcp/c:3".to_string()];
    let m = c.merge_stylos(base());
    assert!(!m.enabled);
    assert_eq!(m.mode, "peer");
    assert_eq!(m.realm, "lab");
    assert_eq!(m.connect, vec!["tcp/b:2".to_string(), "tcp/c:3".to_string()]);
    let m = config().merge_stylos(base());
    assert!(m.enabled);
    assert_eq!(m.connect, vec!["tcp/a:1".to_string()]);
}

#[test]
fn settings_defaults() {
    assert_eq!(default_bind_ip(), "127.0.0.1");
    let s = Settings::default();
    assert_eq!(s.server.bind_ip, "127.0.0.1");
    assert!(s.server.auth_key.is_none());
    assert_eq!(ServerSettings::default().bind_ip, "127.0.0.1");
}

#[test]
fn settings_file_sits_beside_the_database() {
    assert!(settings_path("/var/lib/stele/stele.db").ends_with("config.toml"));
    assert!(settings_path("/var/lib/stele/stele.db").starts_with("/var/lib/stele"));
    assert!(settings_path("stele.db").ends_with("config.toml"));
}

#[test]
fn auth_key_precedence() {
    let file = Settings { server: ServerSettings { bind_ip: "0.0.0.0".to_string(), auth_key: Some("file".to_string()) } };
    assert_eq!(resolve_auth_key(&config(), &file).as_deref(), Some("file"));
    let mut c = config();
    c.auth_key = Some("cli".to_string());
    assert_eq!(resolve_auth_key(&c, &file).as_deref(), Some("cli"));
}

#[test]
fn dashboard_urls() {
    assert_eq!(dashboard_url("0.0.0.0:3100"), "http://127.0.0.1:3100/api/v1/stats");
    assert_eq!(dashboard_url("10.1.2.3:80"), "http://10.1.2.3:80/api/v1/stats");
    assert_eq!(replace_str("aaaa", "aa", "b"), "bb");
    assert_eq!(replace_str("abc", "x", "y"), "abc");
}

#[test]
fn desktop_bind() {
    assert_eq!(desktop_bind_addr("127.0.0.1:3100", "0.0.0.0"), "0.0.0.0:3100");
    assert_eq!(desktop_bind_addr("10.0.0.1:9000", "0.0.0.0"), "10.0.0.1:9000");
}

#[test]
fn settings_dialog() {
    let (m, c) = bind_mode_of("127.0.0.1");
    assert!(m == BindMode::Localhost && c.is_empty());
    let (m, _) = bind_mode_of("0.0.0.0");
    assert!(m == BindMode::AllInterfaces);
    let (m, c) = bind_mode_of("192.168.1.5");
    assert!(m == BindMode::Custom && c == "192.168.1.5");
    assert_eq!(chosen_ip(&BindMode::Custom, "  10.0.0.2 "), "10.0.0.2");
    assert_eq!(chosen_ip(&BindMode::AllInterfaces, "x"), "0.0.0.0");
    let existing = Settings { server: ServerSettings { bind_ip: "127.0.0.1".to_string(), auth_key: Some("k".to_string()) } };
    let s = applied_settings("0.0.0.0".to_string(), existing);
    assert_eq!(s.server.bind_ip, "0.0.0.0");
    assert_eq!(s.server.auth_key.as_deref(), Some("k"));
}

#[test]
fn keys() {
    assert_eq!(HEADER_NAME, "x-stele-key");
    assert!(ct_eq(b"abc", b"abc"));
    assert!(!ct_eq(b"abc", b"abd"));
    assert!(!ct_eq(b"abc", b"ab"));
    assert!(authorize(&None, ""));
    assert!(authorize(&Some("s3cret".to_string()), "s3cret"));
    assert!(!authorize(&Some("s3cret".to_string()), ""));
    let k = generate_key();
    assert_eq!(k.len(), 43);
    assert!(k.chars().all(|c| c.is_ascii_alphanumeric() || c == '-' || c == '_'));
    assert_ne!(generate_key(), k);
    let (status, body) = unauthorized();
    assert_eq!(status, 401);
    assert_eq!(body.get("error").and_then(|e| e.as_str()), Some("unauthorized"));
}

#[test]
fn notifications_without_desktop() {
    init();
    let n = notification_from(None, None, Some("sub".to_string()), true);
    assert_eq!(n.title, "Steop");
    assert_eq!(n.body, "");
    assert_eq!(show(&n), Err("notifications unavailable in headless build".to_string()));
    let (status, body) = notify_reply();
    assert_eq!(status, 501);
    assert_eq!(body.get("error").and_then(|e| e.as_str()), Some("notify unavailable in headless mode"));
    let (status, body) = shown_reply(Ok(()));
    assert_eq!(status, 204);
    assert!(matches!(body, Json::Object(v) if v.is_empty()));
    assert_eq!(shown_reply(Err("boom".to_string())).0, 500);
}

#[test]
fn transport() {
    assert_eq!(port_candidates(7447, 3), vec![7447, 7448, 7449]);
    assert_eq!(port_candidates(65534, 5), vec![65534]);
    assert_eq!(no_free_port(7447, 3), "no free port in [7447, 7450) for TCP+UDP dual bind");
    assert!(TlsPaths::from_config(None).is_none());
    let none = TlsSettings { root_ca_certificate: None, listen_certificate: None, listen_private_key: None };
    assert!(TlsPaths::from_config(Some(none)).is_none());
    let some = TlsSettings { root_ca_certificate: Some("ca.pem".to_string()), listen_certificate: None, listen_private_key: None };
    let p = TlsPaths::from_config(Some(some)).unwrap();
    assert_eq!(p.root_ca.as_deref(), Some("ca.pem"));
    let h = running_health("peer", "home", "box", "zid".to_string(), 2, 1);
    assert!(h.enabled && h.peers == 2 && h.routers == 1 && h.listen_endpoints.is_empty());
}
