use letsconnectdreams_tui::command::{command_from_words, command_words, Command};

fn words(line: &str) -> Vec<String> {
    command_words(line)
}

#[test]
fn splits_on_ascii_whitespace() {
    assert_eq!(words("version\n"), vec!["version"]);
    assert_eq!(words("  echooo   hello \t\r\n"), vec!["echooo", "hello"]);
    assert_eq!(words("echooo a b c"), vec!["echooo", "a", "b", "c"]);
    assert_eq!(words(""), Vec::<String>::new());
    assert_eq!(words(" \t\n"), Vec::<String>::new());
}

#[test]
fn trims_unicode_whitespace_at_the_ends() {
    assert_eq!(words("\u{3000}version\u{a0}"), vec!["version"]);
    // Inside the line only ASCII whitespace separates words.
    assert_eq!(words("echooo\u{a0}x"), vec!["echooo\u{a0}x"]);
}

#[test]
fn agrees_with_std_split() {
    for line in ["a  b", "\u{2003} echooo  héllo wörld \n", "x\x0cy", "x\x0by", "\u{85}z\u{85}"] {
        let expected: Vec<String> =
            line.trim().split_ascii_whitespace().map(|s| s.to_string()).collect();
        assert_eq!(words(line), expected);
    }
}

#[test]
fn keywords_name_commands() {
    assert_eq!(command_from_words(&words("version")), Some(Command::Version()));
    assert_eq!(command_from_words(&words("disconnect")), Some(Command::Disconnect()));
    assert_eq!(command_from_words(&words("connect")), Some(Command::Connect()));
    assert_eq!(
        command_from_words(&words("echooo hi there")),
        Some(Command::Echooo("hi".to_string()))
    );
}

#[test]
fn unknown_keyword_is_incorrect() {
    assert_eq!(command_from_words(&words("help")), None);
    assert_eq!(command_from_words(&words("Version")), None);
    assert_eq!(command_from_words(&words("echo x")), None);
}

#[test]
fn command_text() {
    assert_eq!(Command::Version().try_into(), Ok("version".to_string()));
    assert_eq!(Command::Echooo("data".to_string()).try_into(), Ok("echooo data".to_string()));
    assert_eq!(Command::Disconnect().try_into(), Ok("disconnect".to_string()));
    assert_eq!(Command::Connect().try_into(), Ok("connect".to_string()));
}

#[test]
fn command_text_reads_back() {
    let commands = vec![
        Command::Version(),
        Command::Echooo("ping".to_string()),
        Command::Echooo("héllo".to_string()),
        Command::Disconnect(),
        Command::Connect(),
    ];
    for c in commands {
        let text = c.clone().try_into().unwrap();
        assert_eq!(command_from_words(&command_words(&text)), Some(c));
    }
}
