//! What the client does for each command, given whether it holds a
//! connection to the signaling server: the decisions of the command loop,
//! apart from the reading and writing that carries them out.

use crate::command::{Command, CommandSpec};
use crate::config::{
    append_decimal, decimal_text, lemma_decimal_text_digits, lemma_port_text_roundtrip,
    spec_parse_port, Config,
};
use crate::frame::{abort_frame, abortt_kind, echo_header, echooo_kind, spec_header};
use std::sync::mpsc::Sender;
use vstd::prelude::*;
use vstd::string::*;

verus! {

/// The version of this client.
pub const CLI_VERSION: &'static str = "v0.1.0";

/// The version of the LetsConnectDreams protocol that this client speaks.
pub const PROTOCOL_VERSION: &'static str = "v0.1.0";

/// What the client is to do for a command.
pub enum CommandAction {
    /// Print the version banner.
    ShowVersion(String),
    /// Tell the user that there is no connection.
    NotConnected,
    /// Send the header, then the data, of an `ECHOOO` frame, and check the reply.
    SendEcho { header: [u8; 12], payload: Vec<u8> },
    /// Send the `ABORTT` frame, then close the connection.
    SendAbort { frame: [u8; 12] },
    /// Tell the user that a connection is already open.
    AlreadyConnected,
    /// Open a TCP connection to the address, written `host:port`.
    OpenConnection { address: String },
}

/// The kinds of [`CommandAction`].
#[derive(Clone, Copy, Debug, PartialEq, Eq)]
pub enum ActionKind {
    ShowVersion,
    NotConnected,
    SendEcho,
    SendAbort,
    AlreadyConnected,
    OpenConnection,
}

impl CommandAction {
    pub open spec fn kind(&self) -> ActionKind {
        match self {
            CommandAction::ShowVersion(_) => ActionKind::ShowVersion,
            CommandAction::NotConnected => ActionKind::NotConnected,
            CommandAction::SendEcho { .. } => ActionKind::SendEcho,
            CommandAction::SendAbort { .. } => ActionKind::SendAbort,
            CommandAction::AlreadyConnected => ActionKind::AlreadyConnected,
            CommandAction::OpenConnection { .. } => ActionKind::OpenConnection,
        }
    }
}

/// The version banner.
pub open spec fn spec_version_banner() -> Seq<char> {
    "\n+++++++++++++++++++++++++++++\nCLI version: "@ + CLI_VERSION@
        + "\nPROTOCOL LetsConnectDreams version: "@ + PROTOCOL_VERSION@
        + "\nWritten by KevinDev64 <kevindev56@yandex.ru>\n+++++++++++++++++++++++++++++\n\n"@
}

/// The version banner: the client and protocol versions and the author,
/// between two rules.
pub fn version_banner() -> (r: String)
    ensures
        r@ == spec_version_banner(),
{
    String::from_str("\n+++++++++++++++++++++++++++++\nCLI version: ").concat(CLI_VERSION).concat(
        "\nPROTOCOL LetsConnectDreams version: ",
    ).concat(PROTOCOL_VERSION).concat(
        "\nWritten by KevinDev64 <kevindev56@yandex.ru>\n+++++++++++++++++++++++++++++\n\n",
    )
}

/// The address of the signaling server, written `host:port`.
pub open spec fn spec_server_address(config: (Seq<char>, u16)) -> Seq<char> {
    config.0 + seq![':'] + decimal_text(config.1 as nat)
}

/// The address of the signaling server, written `host:port`.
pub fn server_address(config: &Config) -> (r: String)
    ensures
        r@ == spec_server_address(config@),
{
    let mut s = String::from_str(config.host.as_str()).concat(":");
    proof {
        reveal_strlit(":");
    }
    append_decimal(&mut s, config.port);
    assert(s@ =~= spec_server_address(config@));
    s
}

/// The address of the server is its host, a `:`, and its port in decimal
/// digits: it begins with the host, the host is followed by a `:`, only
/// decimal digits follow that `:`, and they read back as the port.
pub proof fn lemma_server_address_parts(host: Seq<char>, port: u16)
    ensures
        spec_server_address((host, port)).len() > host.len() + 1,
        spec_server_address((host, port)).subrange(0, host.len() as int) == host,
        spec_server_address((host, port))[host.len() as int] == ':',
        forall|k: int|
            host.len() < k < spec_server_address((host, port)).len() ==> '0' <= #[trigger] spec_server_address(
                (host, port),
            )[k] <= '9',
        spec_parse_port(
            spec_server_address((host, port)).subrange(
                host.len() as int + 1,
                spec_server_address((host, port)).len() as int,
            ),
        ) == Some(port),
{
    let a = spec_server_address((host, port));
    let d = decimal_text(port as nat);
    lemma_decimal_text_digits(port as nat);
    lemma_port_text_roundtrip(port);
    assert(a.subrange(0, host.len() as int) =~= host);
    assert(a.subrange(host.len() as int + 1, a.len() as int) =~= d);
    assert forall|k: int| host.len() < k < a.len() implies '0' <= #[trigger] a[k] <= '9' by {
        assert(a[k] == d[k - host.len() - 1]);
    }
}

/// The kind of action that a command asks for, with or without a connection.
pub open spec fn spec_action_kind(command: CommandSpec, connected: bool) -> ActionKind {
    match command {
        CommandSpec::Version => ActionKind::ShowVersion,
        CommandSpec::Echooo(_) => if connected {
            ActionKind::SendEcho
        } else {
            ActionKind::NotConnected
        },
        CommandSpec::Disconnect => if connected {
            ActionKind::SendAbort
        } else {
            ActionKind::NotConnected
        },
        CommandSpec::Connect => if connected {
            ActionKind::AlreadyConnected
        } else {
            ActionKind::OpenConnection
        },
    }
}

/// What the client is to do for `command`, given whether it is connected
/// and where the server is.
pub fn plan_command(command: &Command, connected: bool, config: &Config) -> (r: CommandAction)
    ensures
        r.kind() == spec_action_kind(command@, connected),
        r matches CommandAction::ShowVersion(b) ==> b@ == spec_version_banner(),
        r matches CommandAction::SendEcho { header, payload } ==> command@ matches CommandSpec::Echooo(n)
            && payload@ == vstd::utf8::encode_utf8(n) && header@ == spec_header(
            echooo_kind(),
            payload@.len() as u32,
        ),
        r matches CommandAction::SendAbort { frame } ==> frame@ == spec_header(abortt_kind(), 0),
        r matches CommandAction::OpenConnection { address } ==> address@ == spec_server_address(
            config@,
        ),
{
    match command {
        Command::Version() => CommandAction::ShowVersion(version_banner()),
        Command::Echooo(n) => {
            if !connected {
                CommandAction::NotConnected
            } else {
                let payload = n.as_str().as_bytes_vec();
                let header = echo_header(payload.as_slice());
                CommandAction::SendEcho { header, payload }
            }
        },
        Command::Disconnect() => {
            if !connected {
                CommandAction::NotConnected
            } else {
                CommandAction::SendAbort { frame: abort_frame() }
            }
        },
        Command::Connect() => {
            if connected {
                CommandAction::AlreadyConnected
            } else {
                CommandAction::OpenConnection { address: server_address(config) }
            }
        },
    }
}

/// Whether the client is connected after an action: closing ends the
/// connection, opening gives one when it succeeded, and every other action
/// leaves the connection as it was.
pub open spec fn spec_connected_after(connected: bool, kind: ActionKind, succeeded: bool) -> bool {
    match kind {
        ActionKind::SendAbort => false,
        ActionKind::OpenConnection => succeeded,
        _ => connected,
    }
}

/// Whether the client is connected after carrying out `action`, which
/// `succeeded` or not.
pub fn connected_after(connected: bool, action: &CommandAction, succeeded: bool) -> (r: bool)
    ensures
        r == spec_connected_after(connected, action.kind(), succeeded),
{
    match action {
        CommandAction::SendAbort { .. } => false,
        CommandAction::OpenConnection { .. } => succeeded,
        _ => connected,
    }
}

/// A session goes round: a disconnected client that connects
/// successfully, then disconnects, is disconnected again; while it is
/// connected a second `connect` is refused and changes nothing, and once
/// it is disconnected `echooo` and `disconnect` send nothing.
pub proof fn lemma_session_cycle(text: Seq<char>)
    ensures
        spec_action_kind(CommandSpec::Connect, false) == ActionKind::OpenConnection,
        spec_connected_after(false, ActionKind::OpenConnection, true),
        spec_action_kind(CommandSpec::Connect, true) == ActionKind::AlreadyConnected,
        spec_connected_after(true, ActionKind::AlreadyConnected, true),
        spec_action_kind(CommandSpec::Disconnect, true) == ActionKind::SendAbort,
        !spec_connected_after(true, ActionKind::SendAbort, true),
        spec_action_kind(CommandSpec::Echooo(text), false) == ActionKind::NotConnected,
        spec_action_kind(CommandSpec::Disconnect, false) == ActionKind::NotConnected,
{
}

/// Only disconnecting and connecting change whether the client is
/// connected: every other action (the version banner, an echo, or a
/// refusal) leaves the connection as it was, whether or not it succeeded.
/// In particular `version`, and `echooo` of any text, never change it.
pub proof fn lemma_other_actions_keep_connection(
    connected: bool,
    kind: ActionKind,
    succeeded: bool,
    text: Seq<char>,
)
    ensures
        kind != ActionKind::SendAbort && kind != ActionKind::OpenConnection
            ==> spec_connected_after(connected, kind, succeeded) == connected,
        spec_connected_after(
            connected,
            spec_action_kind(CommandSpec::Version, connected),
            succeeded,
        ) == connected,
        spec_connected_after(
            connected,
            spec_action_kind(CommandSpec::Echooo(text), connected),
            succeeded,
        ) == connected,
{
}

#[verifier::external_type_specification]
#[verifier::external_body]
#[verifier::reject_recursive_types(T)]
pub struct ExSender<T>(Sender<T>);

/// The authentication hook of the input loop; it does nothing yet.
pub fn check_auth(tx: Sender<Command>, user_input: &str) {
}

} // verus!
