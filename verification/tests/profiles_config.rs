use stele::profiles::{
    backfill_hosts, backfill_machine_host, clean_hostname, config_from_parts, default_zenoh_endpoint, remove_profile,
    resolve_connection, resolve_profile, set_profile, CliArgs, EnvArgs, Profile, SteleConfig,
};

fn profile(url: &str) -> Profile {
    Profile { server_url: url.to_string(), auth_key: None, host: None, zenoh_endpoint: default_zenoh_endpoint() }
}

fn no_cli() -> CliArgs {
    CliArgs { profile: None, server_url: None, auth_key: None, zenoh_endpoint: None }
}

fn no_env() -> EnvArgs {
    EnvArgs { profile: None, server_url: None, auth_key: None, zenoh_endpoint: None }
}

#[test]
fn default_config_has_local_profile() {
    let c = SteleConfig::default();
    assert_eq!(c.default_profile, "local");
    assert_eq!(c.profiles.len(), 1);
    assert_eq!(c.profiles[0].0, "local");
    assert_eq!(c.profiles[0].1.server_url, "http://127.0.0.1:3100");
    assert_eq!(c.profiles[0].1.zenoh_endpoint, "tcp/127.0.0.1:31747");
}

#[test]
fn file_without_profiles_gets_the_default() {
    let c = config_from_parts(Some("x".to_string()), vec![]);
    assert_eq!(c.default_profile, "local");
    let c = config_from_parts(None, vec![("w".to_string(), profile("http://w"))]);
    assert_eq!(c.default_profile, "local");
    assert_eq!(c.profiles[0].0, "w");
}

#[test]
fn unknown_profile_resolves_to_localhost() {
    let c = SteleConfig::default();
    let (url, key) = resolve_profile(&c, "nope");
    assert_eq!(url, "http://localhost:3100");
    assert!(key.is_none());
}

#[test]
fn set_then_resolve_gives_what_was_set() {
    let mut c = SteleConfig::default();
    set_profile(&mut c, "work", "http://work:3100", Some("k".to_string()), true);
    assert_eq!(c.default_profile, "work");
    let (url, key) = resolve_profile(&c, "work");
    assert_eq!(url, "http://work:3100");
    assert_eq!(key.as_deref(), Some("k"));
    set_profile(&mut c, "local", "http://other", None, false);
    assert_eq!(c.profiles.len(), 2);
    assert_eq!(c.profiles[0].1.server_url, "http://other");
}

#[test]
fn setting_keeps_host_and_endpoint() {
    let mut c = SteleConfig::default();
    c.profiles[0].1.host = Some("box".to_string());
    c.profiles[0].1.zenoh_endpoint = "tcp/10.0.0.1:1".to_string();
    set_profile(&mut c, "local", "http://new", None, false);
    assert_eq!(c.profiles[0].1.host.as_deref(), Some("box"));
    assert_eq!(c.profiles[0].1.zenoh_endpoint, "tcp/10.0.0.1:1");
}

#[test]
fn remove_then_resolve_falls_back() {
    let mut c = SteleConfig::default();
    set_profile(&mut c, "work", "http://work", None, false);
    assert!(remove_profile(&mut c, "local"));
    assert_eq!(c.default_profile, "work");
    assert!(!remove_profile(&mut c, "local"));
    assert_eq!(resolve_profile(&c, "local").0, "http://localhost:3100");
    assert!(remove_profile(&mut c, "work"));
    assert_eq!(c.default_profile, "local");
    assert!(c.profiles.is_empty());
}

#[test]
fn connection_precedence() {
    let mut c = SteleConfig::default();
    set_profile(&mut c, "work", "http://work", Some("wk".to_string()), false);
    let (url, key, host, z) = resolve_connection(no_cli(), no_env(), &c);
    assert_eq!(url, "http://127.0.0.1:3100");
    assert!(key.is_none() && host.is_none());
    assert_eq!(z, "tcp/127.0.0.1:31747");

    let env = EnvArgs { profile: Some("work".to_string()), ..no_env() };
    let (url, key, _, _) = resolve_connection(no_cli(), env, &c);
    assert_eq!(url, "http://work");
    assert_eq!(key.as_deref(), Some("wk"));

    let cli = CliArgs { server_url: Some("http://cli".to_string()), ..no_cli() };
    let env = EnvArgs { server_url: Some("http://env".to_string()), zenoh_endpoint: Some("tcp/e".to_string()), ..no_env() };
    let (url, _, _, z) = resolve_connection(cli, env, &c);
    assert_eq!(url, "http://cli");
    assert_eq!(z, "tcp/e");

    let cli = CliArgs { profile: Some("ghost".to_string()), ..no_cli() };
    let (url, _, _, z) = resolve_connection(cli, no_env(), &c);
    assert_eq!(url, "http://localhost:3100");
    assert_eq!(z, "tcp/127.0.0.1:31747");
}

#[test]
fn hostnames_are_cleaned() {
    assert_eq!(clean_hostname("my host\t"), "myhost");
    assert_eq!(clean_hostname(" \n"), "unknown");
}

#[test]
fn hosts_are_backfilled() {
    let mut c = SteleConfig::default();
    set_profile(&mut c, "b", "http://b", None, false);
    c.profiles[1].1.host = Some("kept".to_string());
    assert!(backfill_hosts(&mut c, &"box".to_string()));
    assert_eq!(c.profiles[0].1.host.as_deref(), Some("box"));
    assert_eq!(c.profiles[1].1.host.as_deref(), Some("kept"));
    assert!(!backfill_hosts(&mut c, &"other".to_string()));
}

#[test]
fn machine_host_is_graphic() {
    let mut c = SteleConfig::default();
    let (changed, host) = backfill_machine_host(&mut c);
    assert!(changed);
    assert!(!host.is_empty());
    assert!(host.chars().all(|ch| ch.is_ascii_graphic()));
    assert_eq!(c.profiles[0].1.host.as_deref(), Some(host.as_str()));
}
