use simple_chat::configuration_manager::{AppConfig, ConfigurationManager};
use simple_chat::core_executor::{socket_address, CoreCommand, CoreExecutor, NetAction};
use simple_chat::ui_manager::UIEvent;

fn cfg(u: &str, i: &str, p: &str) -> AppConfig {
    AppConfig { username: u.to_string(), ip: i.to_string(), port: p.to_string() }
}

#[test]
fn address_joins_ip_and_port() {
    assert_eq!(socket_address("127.0.0.1", "8080"), "127.0.0.1:8080");
    assert_eq!(socket_address("::1", "1"), "::1:1");
}

#[test]
fn start_server_saves_then_listens() {
    let mut ex = CoreExecutor::new(ConfigurationManager::new());
    let step = ex.handle_command(CoreCommand::StartServer {
        username: "alice".into(),
        ip: "0.0.0.0".into(),
        port: "7000".into(),
    });
    assert!(step.persist_config);
    assert_eq!(step.action, NetAction::StartServer { addr: "0.0.0.0:7000".into() });
    assert_eq!(ex.config.config, cfg("alice", "0.0.0.0", "7000"));
    assert_eq!(ex.config.file_path, "config.json");
}

#[test]
fn start_client_saves_then_connects() {
    let mut ex = CoreExecutor::new(ConfigurationManager::new());
    let step = ex.handle_command(CoreCommand::StartClient {
        username: "bob".into(),
        ip: "localhost".into(),
        port: "7000".into(),
    });
    assert!(step.persist_config);
    assert_eq!(step.action, NetAction::ConnectToServer { addr: "localhost:7000".into() });
    assert_eq!(ex.config.config, cfg("bob", "localhost", "7000"));
}

#[test]
fn send_message_leaves_settings() {
    let mut m = ConfigurationManager::new();
    m.save("u".into(), "i".into(), "p".into());
    let mut ex = CoreExecutor::new(m);
    let step = ex.handle_command(CoreCommand::SendMessage { text: "hi".into() });
    assert!(!step.persist_config);
    assert_eq!(step.action, NetAction::SendMessage { text: "hi".into() });
    assert_eq!(ex.config.config, cfg("u", "i", "p"));
}

#[test]
fn outcomes_of_success() {
    let a = NetAction::StartServer { addr: "1.2.3.4:5".into() };
    assert_eq!(
        CoreExecutor::action_outcome(&a, Ok(())),
        Some(UIEvent::ServerStarted { addr: "1.2.3.4:5".into() })
    );
    let a = NetAction::ConnectToServer { addr: "h:1".into() };
    assert_eq!(
        CoreExecutor::action_outcome(&a, Ok(())),
        Some(UIEvent::ClientConnected { addr: "h:1".into() })
    );
    let a = NetAction::SendMessage { text: "x".into() };
    assert_eq!(CoreExecutor::action_outcome(&a, Ok(())), None);
}

#[test]
fn outcomes_of_failure() {
    let a = NetAction::StartServer { addr: "1.2.3.4:5".into() };
    assert_eq!(
        CoreExecutor::action_outcome(&a, Err("address in use".into())),
        Some(UIEvent::Error { message: "Failed to start server: address in use".into() })
    );
    let a = NetAction::ConnectToServer { addr: "h:1".into() };
    assert_eq!(
        CoreExecutor::action_outcome(&a, Err("refused".into())),
        Some(UIEvent::Error { message: "Failed to connect: refused".into() })
    );
    let a = NetAction::SendMessage { text: "x".into() };
    assert_eq!(
        CoreExecutor::action_outcome(&a, Err("broken pipe".into())),
        Some(UIEvent::Error { message: "Send failed: broken pipe".into() })
    );
}
