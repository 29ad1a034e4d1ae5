//! The executor's decisions: what each command from the user interface
//! changes in the settings, which network operation it asks for, and which
//! event the outcome of that operation sends back to the user interface.
//!
//! The network operations themselves run outside this library; their
//! outcome comes back to `CoreExecutor::action_outcome`.

use vstd::prelude::*;
use crate::configuration_manager::{AppConfig, ConfigurationManager};
use crate::text::join_text;
use crate::ui_manager::{after_event, UIEvent, UIEventView, UiView, CHAT_PAGE, CONNECTION_PAGE};

verus! {

/// Commands sent from the user interface to the executor.
#[derive(Debug, PartialEq, Eq)]
pub enum CoreCommand {
    StartServer { username: String, ip: String, port: String },
    StartClient { username: String, ip: String, port: String },
    SendMessage { text: String },
}

/// The network operation that a command asks for.
#[derive(Debug, PartialEq, Eq)]
pub enum NetAction {
    /// Listen for clients on `addr`.
    StartServer { addr: String },
    /// Connect to the server at `addr`.
    ConnectToServer { addr: String },
    /// Send `text` over the open connection.
    SendMessage { text: String },
}

/// A network operation, with its texts as character sequences.
pub enum NetActionView {
    StartServer { addr: Seq<char> },
    ConnectToServer { addr: Seq<char> },
    SendMessage { text: Seq<char> },
}

impl View for NetAction {
    type V = NetActionView;

    open spec fn view(&self) -> NetActionView {
        match self {
            NetAction::StartServer { addr } => NetActionView::StartServer { addr: addr@ },
            NetAction::ConnectToServer { addr } => NetActionView::ConnectToServer { addr: addr@ },
            NetAction::SendMessage { text } => NetActionView::SendMessage { text: text@ },
        }
    }
}

/// What the executor does for one command: whether the settings changed and
/// must be written to the settings file, and the network operation to run.
#[derive(Debug, PartialEq, Eq)]
pub struct ExecutorStep {
    pub persist_config: bool,
    pub action: NetAction,
}

/// The socket address `ip:port`.
pub open spec fn address(ip: Seq<char>, port: Seq<char>) -> Seq<char> {
    ip + seq![':'] + port
}

/// The event that the outcome of a network operation sends to the user
/// interface, if any.
pub open spec fn outcome_event(action: NetActionView, outcome: Result<(), String>) -> Option<
    UIEventView,
> {
    match outcome {
        Ok(_) => match action {
            NetActionView::StartServer { addr } => Some(UIEventView::ServerStarted { addr }),
            NetActionView::ConnectToServer { addr } => Some(UIEventView::ClientConnected { addr }),
            NetActionView::SendMessage { .. } => None,
        },
        Err(e) => Some(
            UIEventView::Error {
                message: match action {
                    NetActionView::StartServer { .. } => "Failed to start server: "@ + e@,
                    NetActionView::ConnectToServer { .. } => "Failed to connect: "@ + e@,
                    NetActionView::SendMessage { .. } => "Send failed: "@ + e@,
                },
            },
        ),
    }
}

/// An optional event, with its texts as character sequences.
pub open spec fn event_option_view(ev: Option<UIEvent>) -> Option<UIEventView> {
    match ev {
        Some(e) => Some(e@),
        None => None,
    }
}

/// The text `ip:port`.
pub fn socket_address(ip: &str, port: &str) -> (r: String)
    ensures
        r@ == address(ip@, port@),
{
    let mut r = join_text(ip, ":");
    r.append(port);
    proof {
        reveal_strlit(":");
    }
    r
}

/// Stores the given values as the current settings.
pub fn save(config: &mut ConfigurationManager, username: String, ip: String, port: String)
    ensures
        final(config).file_path == old(config).file_path,
        final(config).config == (AppConfig { username, ip, port }),
{
    config.save(username, ip, port);
}

/// The executor's state: the settings it saves to.
pub struct CoreExecutor {
    pub config: ConfigurationManager,
}

impl CoreExecutor {
    /// An executor that saves to `config`.
    pub fn new(config: ConfigurationManager) -> (r: CoreExecutor)
        ensures
            r.config == config,
    {
        CoreExecutor { config }
    }

    /// Handles one command. Starting a server or a client first saves the
    /// username, IP and port as the settings, then asks to listen on, or
    /// connect to, `ip:port`; sending a message asks to send its text and
    /// leaves the settings alone.
    pub fn handle_command(&mut self, cmd: CoreCommand) -> (step: ExecutorStep)
        ensures
            final(self).config.file_path == old(self).config.file_path,
            match cmd {
                CoreCommand::StartServer { username, ip, port } => {
                    &&& final(self).config.config == (AppConfig { username, ip, port })
                    &&& step.persist_config
                    &&& step.action@ == (NetActionView::StartServer { addr: address(ip@, port@) })
                },
                CoreCommand::StartClient { username, ip, port } => {
                    &&& final(self).config.config == (AppConfig { username, ip, port })
                    &&& step.persist_config
                    &&& step.action@ == (NetActionView::ConnectToServer {
                        addr: address(ip@, port@),
                    })
                },
                CoreCommand::SendMessage { text } => {
                    &&& final(self).config.config == old(self).config.config
                    &&& !step.persist_config
                    &&& step.action@ == (NetActionView::SendMessage { text: text@ })
                },
            },
    {
        match cmd {
            CoreCommand::StartServer { ip, port, username } => {
                let addr = socket_address(ip.as_str(), port.as_str());
                save(&mut self.config, username, ip, port);
                ExecutorStep { persist_config: true, action: NetAction::StartServer { addr } }
            },
            CoreCommand::StartClient { ip, port, username } => {
                let addr = socket_address(ip.as_str(), port.as_str());
                save(&mut self.config, username, ip, port);
                ExecutorStep { persist_config: true, action: NetAction::ConnectToServer { addr } }
            },
            CoreCommand::SendMessage { text } => {
                ExecutorStep { persist_config: false, action: NetAction::SendMessage { text } }
            },
        }
    }

    /// The event for the user interface once a network operation has ended:
    /// a started server or a connection reports its address, a sent message
    /// reports nothing, and a failure reports an error that names the
    /// operation and the cause.
    pub fn action_outcome(action: &NetAction, outcome: Result<(), String>) -> (ev: Option<UIEvent>)
        ensures
            event_option_view(ev) == outcome_event(action@, outcome),
    {
        match outcome {
            Ok(()) => match action {
                NetAction::StartServer { addr } => Some(
                    UIEvent::ServerStarted { addr: String::from_str(addr.as_str()) },
                ),
                NetAction::ConnectToServer { addr } => Some(
                    UIEvent::ClientConnected { addr: String::from_str(addr.as_str()) },
                ),
                NetAction::SendMessage { .. } => None,
            },
            Err(e) => {
                let message = match action {
                    NetAction::StartServer { .. } => join_text("Failed to start server: ", e.as_str()),
                    NetAction::ConnectToServer { .. } => join_text("Failed to connect: ", e.as_str()),
                    NetAction::SendMessage { .. } => join_text("Send failed: ", e.as_str()),
                };
                Some(UIEvent::Error { message })
            },
        }
    }
}

/// The mode choice as the user sees it. After a mode button was pressed
/// (which locks the mode buttons), a server that started or a connection
/// that was made opens the chat page; a failure goes back to the connection
/// page, marks IP and port wrong, unlocks the mode buttons and reports why.
pub proof fn lemma_mode_choice_outcome(
    ui: UiView,
    ip: Seq<char>,
    port: Seq<char>,
    as_server: bool,
    outcome: Result<(), String>,
)
    ensures
        ({
            let locked = UiView { mode_button_is_active: false, ..ui };
            let action = if as_server {
                NetActionView::StartServer { addr: address(ip, port) }
            } else {
                NetActionView::ConnectToServer { addr: address(ip, port) }
            };
            let ev = outcome_event(action, outcome);
            &&& ev is Some
            &&& outcome is Ok ==> after_event(locked, ev->0) == UiView {
                active_page: CHAT_PAGE,
                ..locked
            }
            &&& outcome is Err ==> after_event(locked, ev->0) == UiView {
                active_page: CONNECTION_PAGE,
                ip_error: true,
                port_error: true,
                mode_button_is_active: true,
                ..ui
            }
            &&& outcome matches Err(e) ==> ev->0 matches UIEventView::Error { message } && (
            if as_server {
                message == "Failed to start server: "@ + e@
            } else {
                message == "Failed to connect: "@ + e@
            })
        }),
{
}

/// Sending a message never opens or leaves a page: a sent message reports
/// nothing, and a failed send reports why.
pub proof fn lemma_send_outcome(text: Seq<char>, outcome: Result<(), String>)
    ensures
        outcome is Ok ==> outcome_event(NetActionView::SendMessage { text }, outcome) is None,
        outcome matches Err(e) ==> outcome_event(NetActionView::SendMessage { text }, outcome)
            == Some(UIEventView::Error { message: "Send failed: "@ + e@ }),
{
}

/// The socket address is the whole IP text, a colon, then the whole port
/// text.
pub proof fn lemma_address_parts(ip: Seq<char>, port: Seq<char>)
    ensures
        address(ip, port).len() == ip.len() + 1 + port.len(),
        address(ip, port).subrange(0, ip.len() as int) == ip,
        address(ip, port)[ip.len() as int] == ':',
        address(ip, port).subrange(ip.len() + 1int, address(ip, port).len() as int) == port,
{
    let a = address(ip, port);
    assert(a.subrange(0, ip.len() as int) =~= ip);
    assert(a.subrange(ip.len() + 1int, a.len() as int) =~= port);
}

} // verus!
