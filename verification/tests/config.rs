use letsconnectdreams_tui::config::{
    config_from_values, default_config, default_config_file, load_config, parse_port, try_load_config, Config,
    ConfigError, ConfigSource, DEFAULT_PORT,
};

fn cfg(host: &str, port: u16) -> Config {
    Config { host: host.to_string(), port }
}

#[test]
fn port_parsing_follows_std() {
    for s in ["4222", "0", "65535", "65536", "+80", "+", "-1", "", " 80", "80 ", "0080", "1e3", "99999999999", "٣"] {
        assert_eq!(parse_port(s), s.parse::<u16>().ok(), "{s:?}");
    }
}

#[test]
fn port_values() {
    assert_eq!(parse_port("4222"), Some(4222));
    assert_eq!(parse_port("+443"), Some(443));
    assert_eq!(parse_port("65536"), None);
    assert_eq!(parse_port("abc"), None);
}

#[test]
fn values_to_config() {
    assert_eq!(config_from_values(Some("example.org"), Some("9000")), Ok(cfg("example.org", 9000)));
    assert_eq!(config_from_values(None, Some("9000")), Err(ConfigError::MissingHost));
    assert_eq!(config_from_values(Some("h"), None), Err(ConfigError::MissingPort));
    assert_eq!(config_from_values(Some("h"), Some("x")), Err(ConfigError::InvalidPort));
}

#[test]
fn default_configuration() {
    assert_eq!(default_config(), cfg("127.0.0.1", 4222));
    assert_eq!(DEFAULT_PORT, 4222);
    let f = default_config_file();
    assert_eq!(f.get_from(Some("server"), "host"), Some("127.0.0.1"));
    assert_eq!(f.get_from(Some("server"), "port"), Some("4222"));
    let mut out = Vec::new();
    f.write_to(&mut out).unwrap();
    let text = String::from_utf8(out).unwrap();
    assert!(text.contains("[server]"));
    assert!(text.contains("host=127.0.0.1"));
    assert!(text.contains("port=4222"));
}

fn read(text: Option<&str>) -> Config {
    match load_config(text) {
        ConfigSource::Read(c) => c,
        _ => panic!("expected a configuration read from the text"),
    }
}

fn created(text: Option<&str>) -> Config {
    match load_config(text) {
        ConfigSource::Created(c, f) => {
            assert_eq!(f.get_from(Some("server"), "port"), Some("4222"));
            c
        }
        _ => panic!("expected the default configuration"),
    }
}

#[test]
fn reads_server_section() {
    assert_eq!(read(Some("[server]\nhost=10.0.0.2\nport=5000\n")), cfg("10.0.0.2", 5000));
    assert_eq!(read(Some("[other]\nhost=x\n[server]\nport = 7\nhost = h\n")), cfg("h", 7));
    assert_eq!(read(Some("\u{feff}[server]\nhost=a\nport=1\n")), cfg("a", 1));
}

#[test]
fn unreadable_file_gives_default() {
    assert_eq!(created(None), cfg("127.0.0.1", 4222));
    // A property without a key makes the file unusable.
    assert_eq!(created(Some("[server]\n=a\n")), cfg("127.0.0.1", 4222));
    assert_eq!(created(Some("[server\nhost=a\n")), cfg("127.0.0.1", 4222));
}

#[test]
fn bad_server_section() {
    assert!(matches!(try_load_config(Some("[server]\nport=1\n")), Err(ConfigError::MissingHost)));
    assert!(matches!(try_load_config(Some("[client]\nhost=a\nport=1\n")), Err(ConfigError::MissingHost)));
    assert!(matches!(try_load_config(Some("[server]\nhost=a\n")), Err(ConfigError::MissingPort)));
    assert!(matches!(try_load_config(Some("[server]\nhost=a\nport=http\n")), Err(ConfigError::InvalidPort)));
    assert!(matches!(try_load_config(Some("")), Err(ConfigError::MissingHost)));
}

#[test]
fn port_text_reads_back() {
    for port in [0u16, 1, 9, 10, 4222, 9999, 10000, 65535] {
        assert_eq!(parse_port(&port.to_string()), Some(port));
    }
}

#[test]
fn checked_load_agrees() {
    assert!(matches!(try_load_config(None), Ok(ConfigSource::Created(_, _))));
    assert!(matches!(
        try_load_config(Some("[server]\nhost=h\nport=9\n")),
        Ok(ConfigSource::Read(c)) if c == cfg("h", 9)
    ));
}
