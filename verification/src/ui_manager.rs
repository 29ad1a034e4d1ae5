//! The state of the user interface and how it changes: page switches, the
//! error marks of the input fields, the mode buttons, the chat history and
//! the start animation.
//!
//! The window itself lives outside this library; it copies its properties
//! into a `UiState`, calls these functions and copies the result back.

use vstd::prelude::*;
use crate::core_executor::CoreCommand;
use crate::validators::{
    ip_accepted, port_accepted, username_accepted, validate_ip, validate_port, validate_username,
};

verus! {

/// The page where IP and port are entered.
pub const CONNECTION_PAGE: i32 = 0;

/// The page where the username is entered.
pub const USERNAME_PAGE: i32 = 1;

/// The page where server or client mode is chosen.
pub const MODE_PAGE: i32 = 2;

/// The chat page.
pub const CHAT_PAGE: i32 = 3;

/// Events sent from the executor back to the user interface.
#[derive(Debug, PartialEq, Eq)]
pub enum UIEvent {
    ServerStarted { addr: String },
    ClientConnected { addr: String },
    MessageReceived { text: String },
    Error { message: String },
}

/// An event, with its texts as character sequences.
pub enum UIEventView {
    ServerStarted { addr: Seq<char> },
    ClientConnected { addr: Seq<char> },
    MessageReceived { text: Seq<char> },
    Error { message: Seq<char> },
}

impl View for UIEvent {
    type V = UIEventView;

    open spec fn view(&self) -> UIEventView {
        match self {
            UIEvent::ServerStarted { addr } => UIEventView::ServerStarted { addr: addr@ },
            UIEvent::ClientConnected { addr } => UIEventView::ClientConnected { addr: addr@ },
            UIEvent::MessageReceived { text } => UIEventView::MessageReceived { text: text@ },
            UIEvent::Error { message } => UIEventView::Error { message: message@ },
        }
    }
}

/// The phases of a frame that the window reports to its rendering notifier.
#[derive(Debug, PartialEq, Eq)]
pub enum RenderPhase {
    RenderingSetup,
    BeforeRendering,
    AfterRendering,
    RenderingTeardown,
}

/// The window's properties that the application reads and writes.
#[derive(Clone, Debug, PartialEq, Eq)]
pub struct UiState {
    pub ip: String,
    pub port: String,
    pub username: String,
    pub ip_error: bool,
    pub port_error: bool,
    pub username_error: bool,
    /// True until the first frame has been drawn; clearing it starts the
    /// fade-in animation.
    pub first_start: bool,
    pub active_page: i32,
    pub mode_button_is_active: bool,
    pub chat_messages: Vec<String>,
}

/// The window's properties, with texts as character sequences.
pub struct UiView {
    pub ip: Seq<char>,
    pub port: Seq<char>,
    pub username: Seq<char>,
    pub ip_error: bool,
    pub port_error: bool,
    pub username_error: bool,
    pub first_start: bool,
    pub active_page: i32,
    pub mode_button_is_active: bool,
    pub chat_messages: Seq<Seq<char>>,
}

impl View for UiState {
    type V = UiView;

    open spec fn view(&self) -> UiView {
        UiView {
            ip: self.ip@,
            port: self.port@,
            username: self.username@,
            ip_error: self.ip_error,
            port_error: self.port_error,
            username_error: self.username_error,
            first_start: self.first_start,
            active_page: self.active_page,
            mode_button_is_active: self.mode_button_is_active,
            chat_messages: self.chat_messages@.map_values(|m: String| m@),
        }
    }
}

/// The window after it handled `ev`: a started server or a made connection
/// opens the chat page, a received message is added at the end of the chat
/// history, and an error goes back to the connection page with IP and port
/// marked wrong and the mode buttons usable again.
pub open spec fn after_event(ui: UiView, ev: UIEventView) -> UiView {
    match ev {
        UIEventView::ServerStarted { .. } => UiView { active_page: CHAT_PAGE, ..ui },
        UIEventView::ClientConnected { .. } => UiView { active_page: CHAT_PAGE, ..ui },
        UIEventView::MessageReceived { text } => UiView {
            chat_messages: ui.chat_messages.push(text),
            ..ui
        },
        UIEventView::Error { .. } => UiView {
            active_page: CONNECTION_PAGE,
            ip_error: true,
            port_error: true,
            mode_button_is_active: true,
            ..ui
        },
    }
}

/// The window once its start animation has been started.
pub open spec fn animation_started(ui: UiView) -> UiView {
    UiView { first_start: false, ..ui }
}

/// Switches to `page`.
pub fn change_page(ui: &mut UiState, page: i32)
    ensures
        final(ui)@ == (UiView { active_page: page, ..old(ui)@ }),
{
    ui.active_page = page;
}

/// Starts the fade-in animation, once: the first-start flag is cleared.
pub fn start_animation(ui: &mut UiState)
    ensures
        final(ui)@ == animation_started(old(ui)@),
{
    if ui.first_start {
        ui.first_start = false;
    }
}

/// The rendering notifier: the first completed frame starts the animation;
/// every other notification leaves the window as it is.
pub fn window_event(ui: &mut UiState, phase: RenderPhase)
    ensures
        phase is AfterRendering ==> final(ui)@ == animation_started(old(ui)@),
        !(phase is AfterRendering) ==> final(ui)@ == old(ui)@,
{
    match phase {
        RenderPhase::AfterRendering => {
            if !ui.first_start {
                return;
            }
            ui.first_start = false;
        },
        _ => {},
    }
}

/// Marks the username field wrong when its text is not a valid username.
pub fn validate_username_field(ui: &mut UiState, text: &str)
    ensures
        final(ui)@ == (UiView { username_error: !username_accepted(text@), ..old(ui)@ }),
{
    let is_valid = validate_username(text);
    ui.username_error = !is_valid;
}

/// Marks the port field wrong when its text is not a valid port.
pub fn validate_port_field(ui: &mut UiState, text: &str)
    ensures
        final(ui)@ == (UiView { port_error: !port_accepted(text@), ..old(ui)@ }),
{
    let is_valid = validate_port(text);
    ui.port_error = !is_valid;
}

/// Marks the IP field wrong when its text is not a valid IP address or
/// local host name.
pub fn validate_ip_field(ui: &mut UiState, text: &str)
    ensures
        final(ui)@ == (UiView { ip_error: !ip_accepted(text@), ..old(ui)@ }),
{
    let is_valid = validate_ip(text);
    ui.ip_error = !is_valid;
}

/// Leaves the connection page when IP and port are both valid; marks each
/// field by its own check either way.
pub fn connection_page_validation(ui: &mut UiState)
    ensures
        ({
            let ip_ok = ip_accepted(old(ui).ip@);
            let port_ok = port_accepted(old(ui).port@);
            final(ui)@ == (UiView {
                ip_error: !ip_ok,
                port_error: !port_ok,
                active_page: if ip_ok && port_ok {
                    USERNAME_PAGE
                } else {
                    old(ui).active_page
                },
                ..old(ui)@
            })
        }),
{
    let ip = validate_ip(ui.ip.as_str());
    let port = validate_port(ui.port.as_str());
    ui.ip_error = !ip;
    ui.port_error = !port;
    if ip && port {
        change_page(ui, USERNAME_PAGE);
    }
}

/// Leaves the username page for the mode page when the username is valid.
pub fn username_page_validation(ui: &mut UiState)
    ensures
        final(ui)@ == (UiView {
            active_page: if username_accepted(old(ui).username@) {
                MODE_PAGE
            } else {
                old(ui).active_page
            },
            ..old(ui)@
        }),
{
    if validate_username(ui.username.as_str()) {
        change_page(ui, MODE_PAGE);
    }
}

/// The server-mode button: the mode buttons are locked and the executor is
/// asked to start a server with the window's username, IP and port.
pub fn server_mode(ui: &mut UiState) -> (cmd: CoreCommand)
    ensures
        final(ui)@ == (UiView { mode_button_is_active: false, ..old(ui)@ }),
        cmd matches CoreCommand::StartServer { username, ip, port } && username@ == old(
            ui,
        ).username@ && ip@ == old(ui).ip@ && port@ == old(ui).port@,
{
    ui.mode_button_is_active = false;
    CoreCommand::StartServer {
        username: String::from_str(ui.username.as_str()),
        ip: String::from_str(ui.ip.as_str()),
        port: String::from_str(ui.port.as_str()),
    }
}

/// The client-mode button: the mode buttons are locked and the executor is
/// asked to connect with the window's username, IP and port.
pub fn client_mode(ui: &mut UiState) -> (cmd: CoreCommand)
    ensures
        final(ui)@ == (UiView { mode_button_is_active: false, ..old(ui)@ }),
        cmd matches CoreCommand::StartClient { username, ip, port } && username@ == old(
            ui,
        ).username@ && ip@ == old(ui).ip@ && port@ == old(ui).port@,
{
    ui.mode_button_is_active = false;
    CoreCommand::StartClient {
        username: String::from_str(ui.username.as_str()),
        ip: String::from_str(ui.ip.as_str()),
        port: String::from_str(ui.port.as_str()),
    }
}

/// The send button: a non-empty text becomes a command to send it; an empty
/// one is ignored.
pub fn send_message_clicked(text: &str) -> (cmd: Option<CoreCommand>)
    ensures
        text@.len() == 0 ==> cmd is None,
        text@.len() > 0 ==> (cmd matches Some(CoreCommand::SendMessage { text: t }) && t@ == text@),
{
    if !text.is_empty() {
        Some(CoreCommand::SendMessage { text: String::from_str(text) })
    } else {
        None
    }
}

/// Handles an event from the executor (see `after_event`).
pub fn handle_ui_event(ui: &mut UiState, event: UIEvent)
    ensures
        final(ui)@ == after_event(old(ui)@, event@),
{
    match event {
        UIEvent::ServerStarted { .. } => {
            change_page(ui, CHAT_PAGE);
        },
        UIEvent::ClientConnected { .. } => {
            change_page(ui, CHAT_PAGE);
        },
        UIEvent::MessageReceived { text } => {
            let ghost before = ui.chat_messages@;
            let ghost t = text@;
            ui.chat_messages.push(text);
            assert(ui.chat_messages@.map_values(|m: String| m@) =~= before.map_values(
                |m: String| m@,
            ).push(t));
        },
        UIEvent::Error { .. } => {
            change_page(ui, CONNECTION_PAGE);
            ui.ip_error = true;
            ui.port_error = true;
            ui.mode_button_is_active = true;
        },
    }
}

/// Received messages are shown in the order they arrive, after the history
/// already there.
pub proof fn lemma_messages_in_arrival_order(ui: UiView, first: Seq<char>, second: Seq<char>)
    ensures
        after_event(
            after_event(ui, UIEventView::MessageReceived { text: first }),
            UIEventView::MessageReceived { text: second },
        ).chat_messages == ui.chat_messages + seq![first, second],
{
    assert(ui.chat_messages.push(first).push(second) =~= ui.chat_messages + seq![first, second]);
}

/// The start animation runs once: starting it again changes nothing.
pub proof fn lemma_animation_starts_once(ui: UiView)
    ensures
        animation_started(animation_started(ui)) == animation_started(ui),
{
}

/// Starting the animation clears the first-start flag and changes nothing
/// else, whatever the window holds.
pub proof fn lemma_animation_start_effect(ui: UiView)
    ensures
        animation_started(ui).first_start == false,
        animation_started(ui).ip == ui.ip,
        animation_started(ui).port == ui.port,
        animation_started(ui).username == ui.username,
        animation_started(ui).ip_error == ui.ip_error,
        animation_started(ui).port_error == ui.port_error,
        animation_started(ui).username_error == ui.username_error,
        animation_started(ui).active_page == ui.active_page,
        animation_started(ui).mode_button_is_active == ui.mode_button_is_active,
        animation_started(ui).chat_messages == ui.chat_messages,
{
}

/// What each event changes. A started server or a made connection opens the
/// chat page (3) and nothing else. A received message only adds its text at
/// the end of the chat history: the page and every other field stay. An error
/// opens the connection page (0), marks IP and port wrong and unlocks the
/// mode buttons, and keeps the texts, the username mark, the animation flag
/// and the history.
pub proof fn lemma_event_effects(ui: UiView, ev: UIEventView)
    ensures
        ({
            let after = after_event(ui, ev);
            &&& after.ip == ui.ip
            &&& after.port == ui.port
            &&& after.username == ui.username
            &&& after.username_error == ui.username_error
            &&& after.first_start == ui.first_start
            &&& match ev {
                UIEventView::ServerStarted { .. } | UIEventView::ClientConnected { .. } => {
                    &&& after.active_page == 3
                    &&& after.ip_error == ui.ip_error
                    &&& after.port_error == ui.port_error
                    &&& after.mode_button_is_active == ui.mode_button_is_active
                    &&& after.chat_messages == ui.chat_messages
                },
                UIEventView::MessageReceived { text } => {
                    &&& after.active_page == ui.active_page
                    &&& after.ip_error == ui.ip_error
                    &&& after.port_error == ui.port_error
                    &&& after.mode_button_is_active == ui.mode_button_is_active
                    &&& after.chat_messages.len() == ui.chat_messages.len() + 1
                    &&& after.chat_messages.subrange(0, ui.chat_messages.len() as int)
                        == ui.chat_messages
                    &&& after.chat_messages[ui.chat_messages.len() as int] == text
                },
                UIEventView::Error { .. } => {
                    &&& after.active_page == 0
                    &&& after.ip_error
                    &&& after.port_error
                    &&& after.mode_button_is_active
                    &&& after.chat_messages == ui.chat_messages
                },
            }
        }),
{
    if let UIEventView::MessageReceived { text } = ev {
        assert(ui.chat_messages.push(text).subrange(0, ui.chat_messages.len() as int)
            =~= ui.chat_messages);
    }
}

/// The pages in their order: connection (0), username (1), mode (2),
/// chat (3).
pub proof fn lemma_page_numbers()
    ensures
        CONNECTION_PAGE == 0,
        USERNAME_PAGE == 1,
        MODE_PAGE == 2,
        CHAT_PAGE == 3,
{
}

} // verus!
