use initiative_tracker::cli::{parse_command, CLIError, Command};

#[test]
fn short_aliases_parse() {
    assert_eq!(parse_command("h"), Ok(Command::Help));
    assert_eq!(parse_command("q"), Ok(Command::Quit));
    assert_eq!(parse_command("a"), Ok(Command::Create));
    assert_eq!(parse_command("d"), Ok(Command::Delete));
    assert_eq!(parse_command("p"), Ok(Command::List));
    assert_eq!(parse_command("c"), Ok(Command::Update));
    assert_eq!(parse_command("r"), Ok(Command::Read));
    assert_eq!(parse_command("n"), Ok(Command::Next));
}

#[test]
fn full_names_parse() {
    assert_eq!(parse_command("help"), Ok(Command::Help));
    assert_eq!(parse_command("quit"), Ok(Command::Quit));
    assert_eq!(parse_command("add"), Ok(Command::Create));
    assert_eq!(parse_command("delete"), Ok(Command::Delete));
    assert_eq!(parse_command("print"), Ok(Command::List));
    assert_eq!(parse_command("change"), Ok(Command::Update));
    assert_eq!(parse_command("read"), Ok(Command::Read));
    assert_eq!(parse_command("next"), Ok(Command::Next));
}

#[test]
fn parsing_ignores_ascii_case() {
    assert_eq!(parse_command("HELP"), Ok(Command::Help));
    assert_eq!(parse_command("HeLp"), Ok(Command::Help));
    assert_eq!(parse_command("Q"), Ok(Command::Quit));
    assert_eq!(parse_command("Add"), Ok(Command::Create));
    assert_eq!(parse_command("NeXt"), Ok(Command::Next));
}

#[test]
fn unknown_words_are_rejected() {
    assert_eq!(parse_command(""), Err(CLIError::InvalidCommand));
    assert_eq!(parse_command("x"), Err(CLIError::InvalidCommand));
    assert_eq!(parse_command("helpp"), Err(CLIError::InvalidCommand));
    assert_eq!(parse_command("hel"), Err(CLIError::InvalidCommand));
    assert_eq!(parse_command("help "), Err(CLIError::InvalidCommand));
}
