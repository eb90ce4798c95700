use akc::session::{execute, one_argument, parse_command, session_step, Action, Command};
use akc::storage::Keychain;

fn printed(a: Action) -> Vec<String> {
    match a {
        Action::Print(lines) => lines,
        _ => panic!("expected lines to print"),
    }
}

#[test]
fn parses_blank_and_simple_commands() {
    assert!(matches!(parse_command(""), Command::Blank));
    assert!(matches!(parse_command("   \t "), Command::Blank));
    assert!(matches!(parse_command("help"), Command::Help));
    assert!(matches!(parse_command("?"), Command::Help));
    assert!(matches!(parse_command(" exit "), Command::Exit));
    assert!(matches!(parse_command("quit"), Command::Exit));
    assert!(matches!(parse_command("list"), Command::List));
    assert!(matches!(parse_command("init"), Command::Init));
}

#[test]
fn parses_commands_with_arguments() {
    match parse_command("get  api_key ") {
        Command::Get(k) => assert_eq!(k, "api_key"),
        _ => panic!(),
    }
    match parse_command("set k   some value  ") {
        Command::SetSecret(k, v) => {
            assert_eq!(k, "k");
            assert_eq!(v, "some value");
        }
        _ => panic!(),
    }
    match parse_command("delete k") {
        Command::Delete(k) => assert_eq!(k, "k"),
        _ => panic!(),
    }
}

#[test]
fn usage_messages() {
    let usage = |line: &str| match parse_command(line) {
        Command::Usage(m) => m,
        _ => panic!("expected usage for {line}"),
    };
    assert_eq!(usage("list x"), "usage: list");
    assert_eq!(usage("get"), "usage: get <key>");
    assert_eq!(usage("get a b"), "usage: get <key>");
    assert_eq!(usage("set k"), "usage: set <key> <value>");
    assert_eq!(usage("set"), "usage: set <key> <value>");
    assert_eq!(usage("delete"), "usage: delete <key>");
}

#[test]
fn unknown_command_keeps_its_name() {
    match parse_command("frob a b") {
        Command::Unknown(c) => assert_eq!(c, "frob"),
        _ => panic!(),
    }
    // The command ends at the first space only.
    match parse_command("get\tkey") {
        Command::Unknown(c) => assert_eq!(c, "get\tkey"),
        _ => panic!(),
    }
}

#[test]
fn one_argument_checks() {
    assert_eq!(one_argument("key", "get <key>"), Ok("key"));
    assert_eq!(one_argument("", "get <key>"), Err("usage: get <key>".to_string()));
    assert_eq!(one_argument("a b", "get <key>"), Err("usage: get <key>".to_string()));
}

#[test]
fn session_runs_commands_on_keychain() {
    let mut kc = Keychain::new();
    assert!(matches!(session_step(&mut kc, "set b 2"), Action::Save));
    assert!(matches!(session_step(&mut kc, "set a 1"), Action::Save));
    assert_eq!(printed(session_step(&mut kc, "get a")), vec!["1"]);
    assert_eq!(printed(session_step(&mut kc, "get zz")), vec!["error: key not found: zz"]);
    assert_eq!(printed(session_step(&mut kc, "list")), vec!["a", "b"]);
    assert!(matches!(session_step(&mut kc, "delete a"), Action::Save));
    assert_eq!(printed(session_step(&mut kc, "delete a")), vec!["error: key not found: a"]);
    assert_eq!(kc.keys(), vec!["b"]);
    assert!(matches!(session_step(&mut kc, ""), Action::Continue));
    assert!(matches!(session_step(&mut kc, "init"), Action::Init));
    assert!(matches!(session_step(&mut kc, "exit"), Action::Exit));
    assert_eq!(
        printed(session_step(&mut kc, "help")),
        vec!["Commands: get <key>, set <key> <value>, list, delete <key>, init, help, exit"]
    );
    assert_eq!(
        printed(session_step(&mut kc, "bogus")),
        vec!["unknown command: bogus. Type 'help' for commands."]
    );
}

#[test]
fn execute_usage_prints_message() {
    let mut kc = Keychain::new();
    assert_eq!(printed(execute(&mut kc, Command::Usage("usage: list".to_string()))), vec!["usage: list"]);
    assert_eq!(kc.len(), 0);
}
