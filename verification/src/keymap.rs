//! Key mapping for the raw terminal bridge: each keystroke becomes the exact
//! byte sequence a terminal emulator would send, and one reserved chord exits
//! the bridge.

use vstd::prelude::*;

verus! {

/// A keystroke as the bridge sees it, already stripped of library detail.
#[derive(Debug, Clone, PartialEq, Eq)]
pub enum TerminalKey {
    Enter,
    Backspace,
    Tab,
    Esc,
    Up,
    Down,
    Right,
    Left,
    Home,
    End,
    Delete,
    Character(char),
    Other,
}

/// What the bridge does with a keystroke: send text to the device, leave the
/// bridge, or nothing.
#[derive(Debug, Clone, PartialEq, Eq)]
pub enum KeyAction {
    Send(String),
    ExitTerminal,
    Ignore,
}

/// The control character a printable key sends with the control modifier
/// held: its code point modulo 32, the classic ASCII control mapping.
pub open spec fn control_code(c: char) -> char {
    ((c as u32) % 32) as char
}

/// Whether this keystroke is the reserved escape chord (control and `]`)
/// that leaves the bridge.
pub open spec fn is_escape_chord(key: TerminalKey, ctrl: bool) -> bool {
    ctrl && key == TerminalKey::Character(']')
}

/// Map one keystroke to its action, per the fixed table: Enter sends a
/// carriage return, Backspace the DEL byte, navigation keys their ANSI
/// escape sequences, printable characters themselves (or their control
/// code with the control modifier), and the escape chord exits. Unlisted
/// keys are ignored.
pub fn map_key(key: &TerminalKey, ctrl: bool) -> (a: KeyAction)
    ensures
        a is ExitTerminal <==> is_escape_chord(*key, ctrl),
        !is_escape_chord(*key, ctrl) ==> (match *key {
            TerminalKey::Enter => (a matches KeyAction::Send(s) && s@ == "\r"@),
            TerminalKey::Backspace => (a matches KeyAction::Send(s) && s@ == "\u{7f}"@),
            TerminalKey::Tab => (a matches KeyAction::Send(s) && s@ == "\t"@),
            TerminalKey::Esc => (a matches KeyAction::Send(s) && s@ == "\u{1b}"@),
            TerminalKey::Up => (a matches KeyAction::Send(s) && s@ == "\u{1b}[A"@),
            TerminalKey::Down => (a matches KeyAction::Send(s) && s@ == "\u{1b}[B"@),
            TerminalKey::Right => (a matches KeyAction::Send(s) && s@ == "\u{1b}[C"@),
            TerminalKey::Left => (a matches KeyAction::Send(s) && s@ == "\u{1b}[D"@),
            TerminalKey::Home => (a matches KeyAction::Send(s) && s@ == "\u{1b}[H"@),
            TerminalKey::End => (a matches KeyAction::Send(s) && s@ == "\u{1b}[F"@),
            TerminalKey::Delete => (a matches KeyAction::Send(s) && s@ == "\u{1b}[3~"@),
            TerminalKey::Character(c) => (a matches KeyAction::Send(s) && s@ == (if ctrl {
                seq![control_code(c)]
            } else {
                seq![c]
            })),
            TerminalKey::Other => a is Ignore,
        }),
{
    if ctrl {
        match key {
            TerminalKey::Character(c) => {
                if *c == ']' {
                    return KeyAction::ExitTerminal;
                }
            }
            _ => (),
        }
    }
    match key {
        TerminalKey::Enter => KeyAction::Send(String::from_str("\r")),
        TerminalKey::Backspace => KeyAction::Send(String::from_str("\u{7f}")),
        TerminalKey::Tab => KeyAction::Send(String::from_str("\t")),
        TerminalKey::Esc => KeyAction::Send(String::from_str("\u{1b}")),
        TerminalKey::Up => KeyAction::Send(String::from_str("\u{1b}[A")),
        TerminalKey::Down => KeyAction::Send(String::from_str("\u{1b}[B")),
        TerminalKey::Right => KeyAction::Send(String::from_str("\u{1b}[C")),
        TerminalKey::Left => KeyAction::Send(String::from_str("\u{1b}[D")),
        TerminalKey::Home => KeyAction::Send(String::from_str("\u{1b}[H")),
        TerminalKey::End => KeyAction::Send(String::from_str("\u{1b}[F")),
        TerminalKey::Delete => KeyAction::Send(String::from_str("\u{1b}[3~")),
        TerminalKey::Character(c) => {
            let ch: char = if ctrl {
                (((*c as u32) % 32) as u8) as char
            } else {
                *c
            };
            let s = crate::text::chars_to_string(&vec![ch]);
            proof {
                assert(s@ =~= seq![ch]);
            }
            KeyAction::Send(s)
        }
        TerminalKey::Other => KeyAction::Ignore,
    }
}

} // verus!
