use xtools::command::{handle_command, cmd_config, cmd_status, CommandResult};
use xtools::serial::SerialManager;
use xtools::text::{parse_baud, tokenize, u32_to_string};

fn success_text(r: CommandResult) -> String {
    match r {
        CommandResult::Success(m) => m,
        other => panic!("expected success, got {:?}", other),
    }
}

fn error_text(r: CommandResult) -> String {
    match r {
        CommandResult::Error(m) => m,
        other => panic!("expected error, got {:?}", other),
    }
}

#[test]
fn empty_line_is_empty_success() {
    let mut mgr = SerialManager::new();
    assert_eq!(success_text(handle_command("", &mut mgr)), "");
    assert_eq!(success_text(handle_command("   \t ", &mut mgr)), "");
}

#[test]
fn exit_aliases_signal_exit() {
    let mut mgr = SerialManager::new();
    for line in ["exit", "quit", "q", "EXIT", "Quit"] {
        assert_eq!(handle_command(line, &mut mgr), CommandResult::Exit);
    }
}

#[test]
fn unknown_command_is_reported_by_name() {
    let mut mgr = SerialManager::new();
    let m = error_text(handle_command("frobnicate", &mut mgr));
    assert_eq!(m, "unknown command: frobnicate (type 'help' for a list)");
}

#[test]
fn send_requires_connection() {
    let mut mgr = SerialManager::new();
    let m = error_text(handle_command("send hi", &mut mgr));
    assert_eq!(m, "not connected to a serial port");
    let m = error_text(handle_command("hex 5A", &mut mgr));
    assert_eq!(m, "not connected to a serial port");
    assert!(!mgr.is_connected());
}

#[test]
fn terminal_requires_connection() {
    let mut mgr = SerialManager::new();
    let m = error_text(handle_command("terminal", &mut mgr));
    assert_eq!(m, "not connected to a serial port");
    let m = error_text(handle_command("term", &mut mgr));
    assert_eq!(m, "not connected to a serial port");
}

#[test]
fn connect_without_arguments_is_usage_error() {
    let mut mgr = SerialManager::new();
    let m = error_text(handle_command("connect", &mut mgr));
    assert_eq!(m, "usage: connect <port> [baud]");
    assert!(!mgr.is_connected());
}

#[test]
fn connect_to_missing_device_reports_error() {
    let mut mgr = SerialManager::new();
    let m = error_text(handle_command("connect /dev/does-not-exist-xtools 9600", &mut mgr));
    assert!(m.starts_with("cannot open port: "));
    assert!(!mgr.is_connected());
}

#[test]
fn disconnect_always_succeeds() {
    let mut mgr = SerialManager::new();
    assert_eq!(
        success_text(handle_command("disconnect", &mut mgr)),
        "disconnected"
    );
    assert_eq!(success_text(handle_command("disc", &mut mgr)), "disconnected");
}

#[test]
fn status_reflects_connection_state() {
    let mut mgr = SerialManager::new();
    let m = success_text(handle_command("status", &mut mgr));
    assert_eq!(m, "status: \u{1b}[31mdisconnected\u{1b}[0m");
    assert_eq!(
        cmd_status(true),
        CommandResult::Success(String::from("status: \u{1b}[32mconnected\u{1b}[0m"))
    );
}

#[test]
fn help_is_case_insensitive() {
    let mut mgr = SerialManager::new();
    let a = success_text(handle_command("help", &mut mgr));
    let b = success_text(handle_command("HELP", &mut mgr));
    let c = success_text(handle_command("?", &mut mgr));
    assert_eq!(a, b);
    assert_eq!(a, c);
    assert!(a.contains("connect <port> [baud]"));
}

#[test]
fn clear_returns_ansi_clear() {
    let mut mgr = SerialManager::new();
    let m = success_text(handle_command("cls", &mut mgr));
    assert_eq!(m, "\u{1b}[2J\u{1b}[1;1H");
}

#[test]
fn config_with_and_without_arguments() {
    let with = cmd_config(&vec![String::from("baud")]);
    assert_eq!(
        with,
        CommandResult::Success(String::from(
            "settings are taken from the connect command's arguments"
        ))
    );
    let without = success_text(cmd_config(&Vec::new()));
    assert!(without.contains("parity (none/odd/even)"));
}

#[test]
fn list_runs_without_device_assumptions() {
    let mut mgr = SerialManager::new();
    match handle_command("list", &mut mgr) {
        CommandResult::Success(_) => {}
        other => panic!("expected a listing or the no-ports note, got {:?}", other),
    }
}

#[test]
fn tokenizer_splits_on_whitespace() {
    assert_eq!(tokenize("a  b\tc"), vec!["a", "b", "c"]);
    assert_eq!(tokenize("  lead and trail  "), vec!["lead", "and", "trail"]);
    assert!(tokenize("").is_empty());
    assert!(tokenize(" \t\r\n").is_empty());
}

#[test]
fn baud_parsing_with_fallback() {
    assert_eq!(parse_baud("9600"), 9600);
    assert_eq!(parse_baud("115200"), 115200);
    assert_eq!(parse_baud("fast"), 115200);
    assert_eq!(parse_baud(""), 115200);
    assert_eq!(parse_baud("99999999999"), 115200);
    assert_eq!(parse_baud("4294967295"), u32::MAX);
}

#[test]
fn decimal_rendering() {
    assert_eq!(u32_to_string(0), "0");
    assert_eq!(u32_to_string(9600), "9600");
    assert_eq!(u32_to_string(u32::MAX), "4294967295");
}
