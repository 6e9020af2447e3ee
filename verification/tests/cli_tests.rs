use xtools::cli::XToolsHelper;
use xtools::command::CommandResult;
use xtools::config::AppConfig;
use xtools::keymap::{map_key, KeyAction, TerminalKey};
use xtools::session::SessionState;

#[test]
fn completion_offers_matching_commands() {
    let h = XToolsHelper::new();
    let (start, cands) = h.complete("co", 2);
    assert_eq!(start, 0);
    assert_eq!(cands, vec!["connect", "conn", "config"]);
}

#[test]
fn completion_of_empty_prefix_offers_everything() {
    let h = XToolsHelper::new();
    let (_, cands) = h.complete("", 0);
    assert_eq!(cands.len(), 21);
    assert_eq!(cands[0], "help");
}

#[test]
fn completion_stops_after_first_word() {
    let h = XToolsHelper::new();
    let (_, cands) = h.complete("connect CO", 10);
    assert!(cands.is_empty());
}

#[test]
fn hint_completes_first_strict_extension() {
    let h = XToolsHelper::new();
    assert_eq!(h.hint("conn", 4), Some(String::from("ect")));
    assert_eq!(h.hint("disc", 4), Some(String::from("onnect")));
    assert_eq!(h.hint("x", 1), None);
    assert_eq!(h.hint("", 0), None);
    // No hint while the cursor is not at the end of the line.
    assert_eq!(h.hint("conn", 2), None);
}

#[test]
fn keymap_special_keys() {
    let cases = [
        (TerminalKey::Enter, "\r"),
        (TerminalKey::Backspace, "\u{7f}"),
        (TerminalKey::Tab, "\t"),
        (TerminalKey::Esc, "\u{1b}"),
        (TerminalKey::Up, "\u{1b}[A"),
        (TerminalKey::Down, "\u{1b}[B"),
        (TerminalKey::Right, "\u{1b}[C"),
        (TerminalKey::Left, "\u{1b}[D"),
        (TerminalKey::Home, "\u{1b}[H"),
        (TerminalKey::End, "\u{1b}[F"),
        (TerminalKey::Delete, "\u{1b}[3~"),
    ];
    for (key, expected) in cases {
        assert_eq!(map_key(&key, false), KeyAction::Send(String::from(expected)));
    }
}

#[test]
fn keymap_plain_and_control_characters() {
    assert_eq!(
        map_key(&TerminalKey::Character('x'), false),
        KeyAction::Send(String::from("x"))
    );
    assert_eq!(
        map_key(&TerminalKey::Character('a'), true),
        KeyAction::Send(String::from("\u{1}"))
    );
    assert_eq!(
        map_key(&TerminalKey::Character('c'), true),
        KeyAction::Send(String::from("\u{3}"))
    );
    assert_eq!(map_key(&TerminalKey::Other, false), KeyAction::Ignore);
}

#[test]
fn control_bracket_always_exits() {
    assert_eq!(map_key(&TerminalKey::Character(']'), true), KeyAction::ExitTerminal);
    // Without the modifier the bracket is sent like any other character.
    assert_eq!(
        map_key(&TerminalKey::Character(']'), false),
        KeyAction::Send(String::from("]"))
    );
}

#[test]
fn session_transitions() {
    let s = SessionState::new();
    assert!(s.running);
    assert!(!s.connected);
    let after = s.after_command(&CommandResult::Success(String::new()), true);
    assert!(after.running);
    assert!(after.connected);
    let stopped = after.after_command(&CommandResult::Exit, true);
    assert!(!stopped.running);
    let interrupted = after.interrupted();
    assert!(!interrupted.running);
    assert!(interrupted.connected);
}

#[test]
fn default_config_values() {
    let c = AppConfig::default();
    assert_eq!(c.serial.port, "");
    assert_eq!(c.serial.baud_rate, 115200);
    assert_eq!(c.serial.custom_baud_rate, 0);
    assert_eq!(c.serial.data_bits, 8);
    assert_eq!(c.serial.stop_bits, 1);
    assert_eq!(c.serial.parity, "none");
    assert!(!c.serial.hex_mode);
    assert!(c.serial.append_newline);
    assert_eq!(c.serial.newline_type, "crlf");
    assert!(c.display.auto_scroll);
    assert!(c.display.show_timestamp);
    assert!(!c.display.show_hex);
    assert_eq!(c.display.font_size, 14);
    assert!(!c.display.terminal_mode);
}
