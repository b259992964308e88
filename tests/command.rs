use deet::command::{parse_command, Command};

fn words(line: &str) -> Vec<String> {
    line.split_whitespace().map(|w| w.to_string()).collect()
}

#[test]
fn breakpoint_with_non_hex_address_gives_no_command() {
    assert!(parse_command(&words("breakpoint zzz")).is_none());
}

#[test]
fn breakpoint_with_hex_address() {
    assert!(matches!(parse_command(&words("b 0x401136")), Some(Command::Breakpoint { addr: 0x401136 })));
    assert!(matches!(parse_command(&words("break 10")), Some(Command::Breakpoint { addr: 16 })));
    assert!(parse_command(&words("break")).is_none());
}

#[test]
fn run_passes_the_remaining_words() {
    match parse_command(&words("run a bb")) {
        Some(Command::Run { args }) => assert_eq!(args, vec!["a".to_string(), "bb".to_string()]),
        other => panic!("unexpected {:?}", other),
    }
    match parse_command(&words("r")) {
        Some(Command::Run { args }) => assert!(args.is_empty()),
        other => panic!("unexpected {:?}", other),
    }
}

#[test]
fn other_commands_and_aliases() {
    assert!(matches!(parse_command(&words("q")), Some(Command::Quit)));
    assert!(matches!(parse_command(&words("quit")), Some(Command::Quit)));
    assert!(matches!(parse_command(&words("c")), Some(Command::Continue)));
    assert!(matches!(parse_command(&words("cont")), Some(Command::Continue)));
    assert!(matches!(parse_command(&words("continue")), Some(Command::Continue)));
    assert!(matches!(parse_command(&words("bt")), Some(Command::Backtrace)));
    assert!(matches!(parse_command(&words("back")), Some(Command::Backtrace)));
    assert!(matches!(parse_command(&words("backtrace")), Some(Command::Backtrace)));
}

#[test]
fn unknown_or_empty_line_gives_no_command() {
    assert!(parse_command(&words("step")).is_none());
    assert!(parse_command(&words("")).is_none());
}
