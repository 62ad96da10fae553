use netgraph::command::Command;
use netgraph::console::KeyOutcome;
use netgraph::console::TerminalCursor;
use netgraph::console::TerminalKey;
use netgraph::console::history_text;
use netgraph::console::pick_click;
use netgraph::console::submit;

fn typed(cursor: &TerminalCursor) -> String {
    cursor.current_input.iter().collect()
}

fn type_str(cursor: &mut TerminalCursor, s: &str) {
    for c in s.chars() {
        let t = c.to_string();
        assert!(matches!(
            cursor.handle_key(true, TerminalKey::Other, Some(t.as_str())),
            KeyOutcome::Continue
        ));
    }
}

#[test]
fn command_parse_words() {
    assert_eq!(Command::parse("ls"), Command::List);
    assert_eq!(Command::parse("  ?  "), Command::Help);
    assert_eq!(Command::parse(""), Command::Noop);
    assert_eq!(Command::parse(" \t "), Command::Noop);
    assert_eq!(Command::parse("rm"), Command::Invalid);
    assert_eq!(Command::parse("LS"), Command::Invalid);
}

#[test]
fn help_without_arguments_lists_commands() {
    let out = Command::Help.run(&[]);
    assert_eq!(
        out,
        vec!["Lol, can't remember your own commands?".to_string(), "? ls".to_string()]
    );
}

#[test]
fn help_on_a_command() {
    let out = Command::Help.run(&["ls".to_string()]);
    assert_eq!(out, vec!["ls: List stuff. Like \"virus\" for viruses.".to_string()]);
    let out = Command::Help.run(&["?".to_string()]);
    assert_eq!(out, vec!["?: Uh... You serious?".to_string()]);
    let out = Command::Help.run(&["zap".to_string(), "x".to_string()]);
    assert_eq!(
        out,
        vec!["zap: Man... I don't even know! What nonsense are you asking me?".to_string()]
    );
}

#[test]
fn other_commands_output() {
    assert_eq!(Command::List.run(&[]), vec!["TODO".to_string()]);
    assert_eq!(Command::Noop.run(&[]), vec![String::new()]);
    assert_eq!(
        Command::Invalid.run(&["rm".to_string(), "-rf".to_string()]),
        vec!["Invalid command, dummy (type ? if you already forgot your own scripts): rm"
            .to_string()]
    );
    assert_eq!(Command::Help.name(), "?");
    assert_eq!(Command::List.name(), "ls");
}

#[test]
fn submit_dispatches_words() {
    assert_eq!(
        submit(&"  ?   ls ".chars().collect()),
        vec!["ls: List stuff. Like \"virus\" for viruses.".to_string()]
    );
    assert_eq!(submit(&"   ".chars().collect()), vec![String::new()]);
    assert_eq!(
        submit(&"oops now".chars().collect()),
        vec!["Invalid command, dummy (type ? if you already forgot your own scripts): oops"
            .to_string()]
    );
    assert_eq!(submit(&"ls".chars().collect()), vec!["TODO".to_string()]);
}

#[test]
fn typing_and_submitting() {
    let mut cursor = TerminalCursor::new();
    type_str(&mut cursor, "ls");
    assert_eq!(typed(&cursor), "ls");
    assert_eq!(cursor.cursor_location, 2);
    assert_eq!(cursor.display_text(), "> ls");
    match cursor.handle_key(true, TerminalKey::Enter, None) {
        KeyOutcome::Submitted(raw, out) => {
            assert_eq!(raw, "ls");
            assert_eq!(out, vec!["TODO".to_string()]);
        }
        _ => panic!("expected a submitted line"),
    }
    assert!(cursor.current_input.is_empty());
    assert_eq!(cursor.cursor_location, 0);
}

#[test]
fn releases_are_ignored() {
    let mut cursor = TerminalCursor::new();
    assert!(matches!(
        cursor.handle_key(false, TerminalKey::Other, Some("a")),
        KeyOutcome::Released
    ));
    assert!(cursor.current_input.is_empty());
}

#[test]
fn backspace_rules() {
    let mut cursor = TerminalCursor::new();
    assert!(matches!(
        cursor.handle_key(true, TerminalKey::Backspace, None),
        KeyOutcome::Continue
    ));
    type_str(&mut cursor, "abc");
    cursor.handle_key(true, TerminalKey::Backspace, None);
    assert_eq!(typed(&cursor), "ab");
    assert_eq!(cursor.cursor_location, 2);
    cursor.cursor_location = 1;
    cursor.handle_key(true, TerminalKey::Backspace, None);
    assert_eq!(typed(&cursor), "b");
    assert_eq!(cursor.cursor_location, 0);
    cursor.handle_key(true, TerminalKey::Backspace, None);
    assert_eq!(typed(&cursor), "b");
}

#[test]
fn delete_and_missing_text() {
    let mut cursor = TerminalCursor::new();
    assert!(matches!(
        cursor.handle_key(true, TerminalKey::Delete, None),
        KeyOutcome::Continue
    ));
    type_str(&mut cursor, "xy");
    assert!(matches!(
        cursor.handle_key(true, TerminalKey::Delete, None),
        KeyOutcome::Continue
    ));
    cursor.cursor_location = 0;
    assert!(matches!(
        cursor.handle_key(true, TerminalKey::Delete, None),
        KeyOutcome::Stop
    ));
    assert!(matches!(
        cursor.handle_key(true, TerminalKey::Other, None),
        KeyOutcome::Stop
    ));
    cursor.handle_key(true, TerminalKey::Other, Some("q"));
    assert_eq!(typed(&cursor), "qxy");
    assert_eq!(cursor.cursor_location, 1);
}

#[test]
fn history_lines() {
    let out = vec!["one".to_string(), "two".to_string()];
    assert_eq!(history_text("ls", &out), "> ls\none\ntwo");
    assert_eq!(history_text("", &[String::new()]), "> \n");
    assert_eq!(history_text("x", &[]), "> x\n");
}

#[test]
fn click_is_in_range() {
    assert_eq!(pick_click(0), None);
    assert_eq!(pick_click(1), Some(0));
    for _ in 0..50 {
        assert!(pick_click(3).unwrap() < 3);
    }
}
