use simple_chat::configuration_manager::{AppConfig, ConfigurationManager, ConnectionInfo};
use simple_chat::core_executor::save;

fn cfg(u: &str, i: &str, p: &str) -> AppConfig {
    AppConfig { username: u.to_string(), ip: i.to_string(), port: p.to_string() }
}

#[test]
fn new_manager_is_empty_and_uses_config_json() {
    let m = ConfigurationManager::new();
    assert_eq!(m.config, cfg("", "", ""));
    assert_eq!(m.file_path, "config.json");
}

#[test]
fn load_replaces_settings() {
    let mut m = ConfigurationManager::new();
    m.load(Some(cfg("alice", "10.0.0.1", "9000")));
    assert_eq!(m.config, cfg("alice", "10.0.0.1", "9000"));
    assert_eq!(m.file_path, "config.json");
}

#[test]
fn load_of_nothing_keeps_settings() {
    let mut m = ConfigurationManager::new();
    m.save("bob".into(), "localhost".into(), "8080".into());
    m.load(None);
    assert_eq!(m.config, cfg("bob", "localhost", "8080"));
}

#[test]
fn last_save_wins() {
    let mut m = ConfigurationManager::new();
    m.save("a".into(), "b".into(), "c".into());
    save(&mut m, "x".into(), "y".into(), "z".into());
    assert_eq!(m.config, cfg("x", "y", "z"));
    assert_eq!(m.file_path, "config.json");
}

#[test]
fn connection_info_holds_values() {
    let c = ConnectionInfo { ip: "127.0.0.1".into(), port: 8080, username: "carol".into() };
    assert_eq!(c.clone(), c);
}
