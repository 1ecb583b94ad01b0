use letsconnectdreams_tui::command::Command;
use letsconnectdreams_tui::config::Config;
use letsconnectdreams_tui::session::{
    connected_after, plan_command, server_address, version_banner, CommandAction, CLI_VERSION,
    PROTOCOL_VERSION,
};

fn config() -> Config {
    Config { host: "127.0.0.1".to_string(), port: 4222 }
}

#[test]
fn versions() {
    assert_eq!(CLI_VERSION, "v0.1.0");
    assert_eq!(PROTOCOL_VERSION, "v0.1.0");
}

#[test]
fn banner_text() {
    let expected = "\n+++++++++++++++++++++++++++++\nCLI version: v0.1.0\nPROTOCOL LetsConnectDreams version: v0.1.0\nWritten by KevinDev64 <kevindev56@yandex.ru>\n+++++++++++++++++++++++++++++\n\n";
    assert_eq!(version_banner(), expected);
}

#[test]
fn address_text() {
    assert_eq!(server_address(&config()), "127.0.0.1:4222");
    for port in [0u16, 7, 10, 99, 100, 65535] {
        let c = Config { host: "example.org".to_string(), port };
        assert_eq!(server_address(&c), format!("example.org:{}", port));
    }
}

#[test]
fn version_needs_no_connection() {
    for connected in [false, true] {
        match plan_command(&Command::Version(), connected, &config()) {
            CommandAction::ShowVersion(b) => assert_eq!(b, version_banner()),
            _ => panic!("expected the banner"),
        }
    }
}

#[test]
fn echo_needs_connection() {
    let c = Command::Echooo("data".to_string());
    assert!(matches!(plan_command(&c, false, &config()), CommandAction::NotConnected));
    match plan_command(&c, true, &config()) {
        CommandAction::SendEcho { header, payload } => {
            assert_eq!(&header, b"\0\0ECHOOO\0\0\0\x04");
            assert_eq!(payload, b"data".to_vec());
        }
        _ => panic!("expected an echo frame"),
    }
}

#[test]
fn disconnect_needs_connection() {
    let c = Command::Disconnect();
    assert!(matches!(plan_command(&c, false, &config()), CommandAction::NotConnected));
    match plan_command(&c, true, &config()) {
        CommandAction::SendAbort { frame } => assert_eq!(&frame, b"\0\0ABORTT\0\0\0\0"),
        _ => panic!("expected the abort frame"),
    }
}

#[test]
fn connect_only_once() {
    let c = Command::Connect();
    assert!(matches!(plan_command(&c, true, &config()), CommandAction::AlreadyConnected));
    match plan_command(&c, false, &config()) {
        CommandAction::OpenConnection { address } => assert_eq!(address, "127.0.0.1:4222"),
        _ => panic!("expected a connection attempt"),
    }
}

#[test]
fn connection_state_after_actions() {
    let open = plan_command(&Command::Connect(), false, &config());
    assert!(connected_after(false, &open, true));
    assert!(!connected_after(false, &open, false));
    let close = plan_command(&Command::Disconnect(), true, &config());
    assert!(!connected_after(true, &close, true));
    let echo = plan_command(&Command::Echooo("x".to_string()), true, &config());
    assert!(connected_after(true, &echo, true));
    let refused = plan_command(&Command::Connect(), true, &config());
    assert!(connected_after(true, &refused, false));
}
