use simple_chat::core_executor::CoreCommand;
use simple_chat::ui_manager::{
    change_page, client_mode, connection_page_validation, handle_ui_event, send_message_clicked,
    server_mode, start_animation, username_page_validation, validate_ip_field, validate_port_field,
    validate_username_field, window_event, RenderPhase, UIEvent, UiState, CHAT_PAGE,
    CONNECTION_PAGE, MODE_PAGE, USERNAME_PAGE,
};

fn fresh() -> UiState {
    UiState {
        ip: "127.0.0.1".into(),
        port: "8080".into(),
        username: "alice".into(),
        ip_error: false,
        port_error: false,
        username_error: false,
        first_start: true,
        active_page: CONNECTION_PAGE,
        mode_button_is_active: true,
        chat_messages: Vec::new(),
    }
}

#[test]
fn change_page_sets_page_only() {
    let mut ui = fresh();
    change_page(&mut ui, 2);
    let mut expected = fresh();
    expected.active_page = 2;
    assert_eq!(ui, expected);
}

#[test]
fn animation_starts_once() {
    let mut ui = fresh();
    start_animation(&mut ui);
    assert!(!ui.first_start);
    let after_first = ui.clone();
    start_animation(&mut ui);
    assert_eq!(ui, after_first);
}

#[test]
fn first_frame_starts_animation() {
    let mut ui = fresh();
    window_event(&mut ui, RenderPhase::BeforeRendering);
    assert!(ui.first_start);
    window_event(&mut ui, RenderPhase::RenderingSetup);
    assert!(ui.first_start);
    window_event(&mut ui, RenderPhase::AfterRendering);
    assert!(!ui.first_start);
    window_event(&mut ui, RenderPhase::AfterRendering);
    assert!(!ui.first_start);
}

#[test]
fn field_checks_mark_errors() {
    let mut ui = fresh();
    validate_username_field(&mut ui, "ab");
    assert!(ui.username_error);
    validate_username_field(&mut ui, "abc");
    assert!(!ui.username_error);
    validate_port_field(&mut ui, "0");
    assert!(ui.port_error);
    validate_port_field(&mut ui, "80");
    assert!(!ui.port_error);
    let before = ui.clone();
    validate_ip_field(&mut ui, "300.1.1.1");
    assert!(ui.ip_error);
    validate_ip_field(&mut ui, "::1");
    assert!(!ui.ip_error);
    assert_eq!(ui, before);
}

#[test]
fn connection_page_advances_when_both_valid() {
    let mut ui = fresh();
    connection_page_validation(&mut ui);
    assert_eq!(ui.active_page, USERNAME_PAGE);
    assert!(!ui.ip_error && !ui.port_error);
}

#[test]
fn connection_page_stays_and_marks_errors() {
    let mut ui = fresh();
    ui.port = "70000".into();
    connection_page_validation(&mut ui);
    assert_eq!(ui.active_page, CONNECTION_PAGE);
    assert!(!ui.ip_error && ui.port_error);

    let mut ui = fresh();
    ui.ip = "example.com".into();
    connection_page_validation(&mut ui);
    assert_eq!(ui.active_page, CONNECTION_PAGE);
    assert!(ui.ip_error && !ui.port_error);
}

#[test]
fn username_page_advances_to_mode_page() {
    let mut ui = fresh();
    ui.active_page = USERNAME_PAGE;
    username_page_validation(&mut ui);
    assert_eq!(ui.active_page, MODE_PAGE);

    let mut ui = fresh();
    ui.active_page = USERNAME_PAGE;
    ui.username = "x".into();
    username_page_validation(&mut ui);
    assert_eq!(ui.active_page, USERNAME_PAGE);
}

#[test]
fn mode_buttons_lock_and_send_commands() {
    let mut ui = fresh();
    let cmd = server_mode(&mut ui);
    assert!(!ui.mode_button_is_active);
    assert_eq!(
        cmd,
        CoreCommand::StartServer { username: "alice".into(), ip: "127.0.0.1".into(), port: "8080".into() }
    );
    let mut ui = fresh();
    let cmd = client_mode(&mut ui);
    assert!(!ui.mode_button_is_active);
    assert_eq!(
        cmd,
        CoreCommand::StartClient { username: "alice".into(), ip: "127.0.0.1".into(), port: "8080".into() }
    );
}

#[test]
fn send_button_ignores_empty_text() {
    assert_eq!(send_message_clicked(""), None);
    assert_eq!(send_message_clicked("hi"), Some(CoreCommand::SendMessage { text: "hi".into() }));
    assert_eq!(send_message_clicked(" "), Some(CoreCommand::SendMessage { text: " ".into() }));
}

#[test]
fn started_or_connected_opens_chat() {
    let mut ui = fresh();
    handle_ui_event(&mut ui, UIEvent::ServerStarted { addr: "0.0.0.0:1".into() });
    assert_eq!(ui.active_page, CHAT_PAGE);
    let mut ui = fresh();
    handle_ui_event(&mut ui, UIEvent::ClientConnected { addr: "h:1".into() });
    assert_eq!(ui.active_page, CHAT_PAGE);
}

#[test]
fn messages_append_in_order() {
    let mut ui = fresh();
    ui.chat_messages.push("old".into());
    handle_ui_event(&mut ui, UIEvent::MessageReceived { text: "one".into() });
    handle_ui_event(&mut ui, UIEvent::MessageReceived { text: "two".into() });
    assert_eq!(ui.chat_messages, vec!["old".to_string(), "one".to_string(), "two".to_string()]);
}

#[test]
fn failed_mode_choice_returns_to_start() {
    let mut ui = fresh();
    let _ = server_mode(&mut ui);
    ui.active_page = MODE_PAGE;
    handle_ui_event(&mut ui, UIEvent::Error { message: "Failed to start server: x".into() });
    assert_eq!(ui.active_page, CONNECTION_PAGE);
    assert!(ui.ip_error && ui.port_error && ui.mode_button_is_active);
    assert_eq!(ui.username, "alice");
}
