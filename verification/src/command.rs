//! Command dispatcher: parse one line of user input into a command and
//! arguments, run the matching connection-manager operation, and return a
//! human-readable result. The dispatcher never terminates the process; the
//! exit command is signalled to the caller through a distinct result kind,
//! and entering the raw terminal bridge likewise.

use vstd::prelude::*;
use crate::ports::{DetectedPort, PortInfo, infos_describe};
use crate::serial::SerialManager;
use crate::text::{
    default_baud, dec_digits, lower_seq, parse_baud_spec, split_tokens,
};

verus! {

/// What one dispatched command produced.
#[derive(Debug, Clone, PartialEq, Eq)]
pub enum CommandResult {
    Success(String),
    Error(String),
    Exit,
    EnterTerminal,
}

// ---- command-name tables ----------------------------------------------

pub open spec fn names_help(t: Seq<char>) -> bool {
    lower_seq(t) == "help"@ || lower_seq(t) == "h"@ || lower_seq(t) == "?"@
}

pub open spec fn names_list(t: Seq<char>) -> bool {
    lower_seq(t) == "list"@ || lower_seq(t) == "ls"@
}

pub open spec fn names_connect(t: Seq<char>) -> bool {
    lower_seq(t) == "connect"@ || lower_seq(t) == "conn"@
}

pub open spec fn names_disconnect(t: Seq<char>) -> bool {
    lower_seq(t) == "disconnect"@ || lower_seq(t) == "disc"@
}

pub open spec fn names_send(t: Seq<char>) -> bool {
    lower_seq(t) == "send"@ || lower_seq(t) == "s"@
}

pub open spec fn names_hex(t: Seq<char>) -> bool {
    lower_seq(t) == "hex"@
}

pub open spec fn names_terminal(t: Seq<char>) -> bool {
    lower_seq(t) == "terminal"@ || lower_seq(t) == "term"@
}

pub open spec fn names_config(t: Seq<char>) -> bool {
    lower_seq(t) == "config"@ || lower_seq(t) == "cfg"@
}

pub open spec fn names_clear(t: Seq<char>) -> bool {
    lower_seq(t) == "clear"@ || lower_seq(t) == "cls"@
}

pub open spec fn names_status(t: Seq<char>) -> bool {
    lower_seq(t) == "status"@ || lower_seq(t) == "st"@
}

pub open spec fn names_exit(t: Seq<char>) -> bool {
    lower_seq(t) == "exit"@ || lower_seq(t) == "quit"@ || lower_seq(t) == "q"@
}

/// No word names two different commands: the alias table is disjoint.
proof fn lemma_names_disjoint(t: Seq<char>)
    ensures
        names_help(t) ==> !(names_list(t) || names_connect(t) || names_disconnect(t)
            || names_send(t) || names_hex(t) || names_terminal(t) || names_config(t)
            || names_clear(t) || names_status(t) || names_exit(t)),
        names_list(t) ==> !(names_connect(t) || names_disconnect(t) || names_send(t)
            || names_hex(t) || names_terminal(t) || names_config(t) || names_clear(t)
            || names_status(t) || names_exit(t)),
        names_connect(t) ==> !(names_disconnect(t) || names_send(t) || names_hex(t)
            || names_terminal(t) || names_config(t) || names_clear(t) || names_status(t)
            || names_exit(t)),
        names_disconnect(t) ==> !(names_send(t) || names_hex(t) || names_terminal(t)
            || names_config(t) || names_clear(t) || names_status(t) || names_exit(t)),
        names_send(t) ==> !(names_hex(t) || names_terminal(t) || names_config(t)
            || names_clear(t) || names_status(t) || names_exit(t)),
        names_hex(t) ==> !(names_terminal(t) || names_config(t) || names_clear(t)
            || names_status(t) || names_exit(t)),
        names_terminal(t) ==> !(names_config(t) || names_clear(t) || names_status(t)
            || names_exit(t)),
        names_config(t) ==> !(names_clear(t) || names_status(t) || names_exit(t)),
        names_clear(t) ==> !(names_status(t) || names_exit(t)),
        names_status(t) ==> !names_exit(t),
{
    reveal_strlit("help"); reveal_strlit("h"); reveal_strlit("?");
    reveal_strlit("list"); reveal_strlit("ls");
    reveal_strlit("connect"); reveal_strlit("conn");
    reveal_strlit("disconnect"); reveal_strlit("disc");
    reveal_strlit("send"); reveal_strlit("s"); reveal_strlit("hex");
    reveal_strlit("terminal"); reveal_strlit("term");
    reveal_strlit("config"); reveal_strlit("cfg");
    reveal_strlit("clear"); reveal_strlit("cls");
    reveal_strlit("status"); reveal_strlit("st");
    reveal_strlit("exit"); reveal_strlit("quit"); reveal_strlit("q");
    assert("help"@.len() == 4 && "h"@.len() == 1 && "?"@.len() == 1 && "list"@.len() == 4
        && "ls"@.len() == 2 && "connect"@.len() == 7 && "conn"@.len() == 4 && "disconnect"@.len()
        == 10 && "disc"@.len() == 4 && "send"@.len() == 4 && "s"@.len() == 1 && "hex"@.len() == 3
        && "terminal"@.len() == 8 && "term"@.len() == 4 && "config"@.len() == 6 && "cfg"@.len()
        == 3 && "clear"@.len() == 5 && "cls"@.len() == 3 && "status"@.len() == 6 && "st"@.len()
        == 2 && "exit"@.len() == 4 && "quit"@.len() == 4 && "q"@.len() == 1);
    assert("h"@[0] == 'h' && "?"@[0] == '?' && "s"@[0] == 's' && "q"@[0] == 'q' && "ls"@[0] == 'l'
        && "st"@[0] == 's' && "hex"@[0] == 'h' && "cfg"@[0] == 'c' && "cls"@[0] == 'c'
        && "cfg"@[1] == 'f' && "cls"@[1] == 'l' && "help"@[0] == 'h' && "list"@[0] == 'l'
        && "conn"@[0] == 'c' && "disc"@[0] == 'd' && "send"@[0] == 's' && "term"@[0] == 't'
        && "quit"@[0] == 'q' && "exit"@[0] == 'e' && "status"@[0] == 's' && "config"@[0] == 'c');
}

fn is_cmd(t: &str, name: &str) -> (r: bool)
    requires
        lower_seq(name@) == name@,
    ensures
        r == (lower_seq(t@) == name@),
{
    crate::text::eq_ignore_case(t, name)
}

// ---- fixed message texts ----------------------------------------------

pub open spec fn help_message() -> Seq<char> {
    "\ncommands:\n  list, ls                 list available serial ports\n  connect <port> [baud]    open a port (default baud 115200)\n  disconnect, disc         close the open port\n  send <data>              send text, with CRLF appended\n  hex <pairs>              send hex pairs, e.g. hex 48 65 6C 6C 6F\n  terminal, term           raw pass-through mode (Ctrl+] to leave)\n  status, st               show the connection state\n  config, cfg              show configuration options\n  clear, cls               clear the screen\n  help, h, ?               this help\n  exit, quit, q            leave the shell\n"@
}

pub open spec fn status_message(connected: bool) -> Seq<char> {
    if connected {
        "status: \u{1b}[32mconnected\u{1b}[0m"@
    } else {
        "status: \u{1b}[31mdisconnected\u{1b}[0m"@
    }
}

pub open spec fn config_help_message() -> Seq<char> {
    "\nconfiguration options:\n  baud <rate>       baud rate (default 115200)\n  data <bits>       data bits (5-8)\n  stop <bits>       stop bits (1-2)\n  parity <kind>     parity (none/odd/even)\n\npass the values to connect; example: connect COM3 9600\n"@
}

pub open spec fn config_note_message() -> Seq<char> {
    "settings are taken from the connect command's arguments"@
}

pub open spec fn clear_screen_text() -> Seq<char> {
    "\u{1b}[2J\u{1b}[1;1H"@
}

pub open spec fn not_connected_message() -> Seq<char> {
    "not connected to a serial port"@
}

pub open spec fn unknown_message(t: Seq<char>) -> Seq<char> {
    "unknown command: "@ + t + " (type 'help' for a list)"@
}

pub open spec fn no_ports_message() -> Seq<char> {
    "no serial ports detected"@
}

/// One listing line: two-space indent, the one-based index in brackets, the
/// port's name and description.
pub open spec fn port_line(idx: int, p: PortInfo) -> Seq<char> {
    "  ["@ + dec_digits(idx) + "] "@ + p.name@ + " - "@ + p.description@ + "\n"@
}

/// The first `k` listing lines, in order.
pub open spec fn listing_prefix(infos: Seq<PortInfo>, k: int) -> Seq<char>
    decreases k,
{
    if k <= 0 {
        Seq::empty()
    } else {
        listing_prefix(infos, k - 1) + port_line(k, infos[k - 1])
    }
}

/// The whole listing: a header, then one line per port.
pub open spec fn listing_text(infos: Seq<PortInfo>) -> Seq<char> {
    "\navailable ports:\n"@ + listing_prefix(infos, infos.len() as int)
}

/// The arguments joined back together with single spaces.
pub open spec fn join_spaces(ts: Seq<Seq<char>>) -> Seq<char>
    decreases ts.len(),
{
    if ts.len() == 0 {
        Seq::empty()
    } else if ts.len() == 1 {
        ts[0]
    } else {
        join_spaces(ts.drop_last()) + seq![' '] + ts.last()
    }
}

fn join_args(args: &Vec<String>) -> (r: String)
    ensures
        r@ == join_spaces(args.deep_view()),
{
    let mut out = String::new();
    let mut i: usize = 0;
    while i < args.len()
        invariant
            i <= args@.len(),
            out@ == join_spaces(args.deep_view().take(i as int)),
        decreases args@.len() - i,
    {
        proof {
            let dv = args.deep_view();
            assert(dv.take(i + 1 as int).drop_last() =~= dv.take(i as int));
            assert(dv.take(i + 1 as int).last() == dv[i as int]);
            if i == 0 {
                assert(dv.take(1)[0] == dv[0]);
            }
        }
        if i > 0 {
            out.append(" ");
            proof {
                reveal_strlit(" ");
                assert(" "@ =~= seq![' ']);
            }
        }
        out.append(args[i].as_str());
        i = i + 1;
    }
    proof {
        assert(args.deep_view().take(args@.len() as int) =~= args.deep_view());
    }
    out
}

fn tail_args(toks: &Vec<String>) -> (r: Vec<String>)
    requires
        toks@.len() >= 1,
    ensures
        r.deep_view() == toks.deep_view().skip(1),
{
    let mut out: Vec<String> = Vec::new();
    let mut i: usize = 1;
    while i < toks.len()
        invariant
            1 <= i <= toks@.len(),
            out@.len() == i - 1,
            forall|j: int| 0 <= j < i - 1 ==> (#[trigger] out@[j])@ == toks@[j + 1]@,
        decreases toks@.len() - i,
    {
        out.push(toks[i].clone());
        i = i + 1;
    }
    proof {
        assert(out.deep_view() =~= toks.deep_view().skip(1));
    }
    out
}

// ---- the individual commands ------------------------------------------

/// List the available ports, numbered, or say that none were detected.
pub fn cmd_list_ports() -> (r: CommandResult)
    ensures
        r is Success || r is Error,
        r matches CommandResult::Success(m) ==> m@ == no_ports_message() || exists|
            ds: Seq<DetectedPort>,
            infos: Seq<PortInfo>,
        | infos_describe(ds, infos) && infos.len() > 0 && m@ == listing_text(infos),
{
    match crate::ports::list_available_ports() {
        Err(e) => CommandResult::Error(e.message()),
        Ok(ports) => {
            if ports.len() == 0 {
                CommandResult::Success(String::from_str("no serial ports detected"))
            } else {
                let ghost infos = ports@;
                let mut out = String::from_str("\navailable ports:\n");
                let mut i: usize = 0;
                while i < ports.len()
                    invariant
                        i <= ports@.len(),
                        ports@ == infos,
                        out@ == "\navailable ports:\n"@ + listing_prefix(infos, i as int),
                    decreases ports@.len() - i,
                {
                    out.append("  [");
                    crate::text::append_decimal(&mut out, (i + 1) as u64);
                    out.append("] ");
                    out.append(ports[i].name.as_str());
                    out.append(" - ");
                    out.append(ports[i].description.as_str());
                    out.append("\n");
                    proof {
                        reveal_strlit("\n");
                        assert(out@ =~= "\navailable ports:\n"@ + listing_prefix(
                            infos,
                            i + 1 as int,
                        ));
                    }
                    i = i + 1;
                }
                let res = CommandResult::Success(out);
                proof {
                    assert(res matches CommandResult::Success(m) ==> m@ == listing_text(infos));
                }
                res
            }
        }
    }
}

/// Open the port named by the first argument, at the baud rate named by the
/// second (default when absent or unreadable), with eight data bits, one
/// stop bit and no parity.
pub fn cmd_connect(args: &Vec<String>, mgr: &mut SerialManager) -> (r: CommandResult)
    ensures
        args.deep_view().len() == 0 ==> (r matches CommandResult::Error(m) && m@
            == "usage: connect <port> [baud]"@ && *final(mgr) == *old(mgr)),
        r matches CommandResult::Success(m) ==> args.deep_view().len() > 0
            && final(mgr).connected() && final(mgr).name_view() == args.deep_view()[0] && ({
            let baud = if args.deep_view().len() > 1 {
                parse_baud_spec(args.deep_view()[1])
            } else {
                default_baud()
            };
            m@ == "connected to "@ + args.deep_view()[0] + " @ "@ + dec_digits(baud as int)
                + " bps"@
        }),
        args.deep_view().len() > 0 && (r is Error) ==> !final(mgr).connected(),
        r is Success || r is Error,
{
    if args.len() == 0 {
        return CommandResult::Error(String::from_str("usage: connect <port> [baud]"));
    }
    let port = &args[0];
    let baud: u32 = if args.len() > 1 {
        crate::text::parse_baud(args[1].as_str())
    } else {
        115200
    };
    match mgr.connect(port.as_str(), baud, 8, 1, "none") {
        Ok(_) => {
            let mut m = String::from_str("connected to ");
            m.append(port.as_str());
            m.append(" @ ");
            crate::text::append_decimal(&mut m, baud as u64);
            m.append(" bps");
            CommandResult::Success(m)
        }
        Err(e) => CommandResult::Error(e.message()),
    }
}

/// Close the connection; always succeeds.
pub fn cmd_disconnect(mgr: &mut SerialManager) -> (r: CommandResult)
    ensures
        r matches CommandResult::Success(m) && m@ == "disconnected"@,
        !final(mgr).connected(),
{
    let _ = mgr.disconnect();
    CommandResult::Success(String::from_str("disconnected"))
}

/// Send the arguments as one text payload with CRLF appended. Requires an
/// open connection and at least one argument.
pub fn cmd_send(args: &Vec<String>, mgr: &mut SerialManager) -> (r: CommandResult)
    ensures
        final(mgr).connected() == old(mgr).connected(),
        !old(mgr).connected() ==> (r matches CommandResult::Error(m) && m@
            == not_connected_message() && *final(mgr) == *old(mgr)),
        old(mgr).connected() && args.deep_view().len() == 0 ==> (r matches CommandResult::Error(m)
            && m@ == "usage: send <data>"@ && *final(mgr) == *old(mgr)),
        r matches CommandResult::Success(m) ==> old(mgr).connected() && args.deep_view().len() > 0
            && exists|ts: Seq<char>| m@ == "["@ + ts + "] TX: "@ + join_spaces(args.deep_view()),
        r is Success || r is Error,
{
    if !mgr.is_connected() {
        return CommandResult::Error(String::from_str("not connected to a serial port"));
    }
    if args.len() == 0 {
        return CommandResult::Error(String::from_str("usage: send <data>"));
    }
    let data = join_args(args);
    let mut payload = data.clone();
    payload.append("\r\n");
    match mgr.send(payload.as_str(), false) {
        Ok(_) => {
            let stamp = crate::device::now_timestamp();
            let ghost ts = stamp@;
            let mut m = String::from_str("[");
            m.append(stamp.as_str());
            m.append("] TX: ");
            m.append(data.as_str());
            let res = CommandResult::Success(m);
            proof {
                assert(res matches CommandResult::Success(mm) ==> mm@ == "["@ + ts + "] TX: "@
                    + join_spaces(args.deep_view()));
            }
            res
        }
        Err(e) => CommandResult::Error(e.message()),
    }
}

/// Send the arguments as hex pairs. Requires an open connection and at least
/// one argument; decode errors are reported and nothing is sent.
pub fn cmd_send_hex(args: &Vec<String>, mgr: &mut SerialManager) -> (r: CommandResult)
    ensures
        final(mgr).connected() == old(mgr).connected(),
        !old(mgr).connected() ==> (r matches CommandResult::Error(m) && m@
            == not_connected_message() && *final(mgr) == *old(mgr)),
        old(mgr).connected() && args.deep_view().len() == 0 ==> (r matches CommandResult::Error(m)
            && m@ == "usage: hex <hex pairs>"@ && *final(mgr) == *old(mgr)),
        r matches CommandResult::Success(m) ==> old(mgr).connected() && args.deep_view().len() > 0
            && crate::hex::decodes_ok(join_spaces(args.deep_view())) && exists|ts: Seq<char>| m@
            == "["@ + ts + "] TX HEX: "@ + join_spaces(args.deep_view()),
        old(mgr).connected() && args.deep_view().len() > 0 && !crate::hex::decodes_ok(
            join_spaces(args.deep_view()),
        ) ==> r is Error,
        r is Success || r is Error,
{
    if !mgr.is_connected() {
        return CommandResult::Error(String::from_str("not connected to a serial port"));
    }
    if args.len() == 0 {
        return CommandResult::Error(String::from_str("usage: hex <hex pairs>"));
    }
    let data = join_args(args);
    match mgr.send(data.as_str(), true) {
        Ok(_) => {
            let stamp = crate::device::now_timestamp();
            let ghost ts = stamp@;
            let mut m = String::from_str("[");
            m.append(stamp.as_str());
            m.append("] TX HEX: ");
            m.append(data.as_str());
            let res = CommandResult::Success(m);
            proof {
                assert(res matches CommandResult::Success(mm) ==> mm@ == "["@ + ts + "] TX HEX: "@
                    + join_spaces(args.deep_view()));
            }
            res
        }
        Err(e) => CommandResult::Error(e.message()),
    }
}

/// Enter the raw terminal bridge, or refuse while disconnected.
pub fn cmd_terminal(mgr: &SerialManager) -> (r: CommandResult)
    ensures
        r is EnterTerminal <==> mgr.connected(),
        !mgr.connected() ==> (r matches CommandResult::Error(m) && m@ == not_connected_message()),
{
    if mgr.is_connected() {
        CommandResult::EnterTerminal
    } else {
        CommandResult::Error(String::from_str("not connected to a serial port"))
    }
}

/// Show the configuration options, or note where settings are taken from.
pub fn cmd_config(args: &Vec<String>) -> (r: CommandResult)
    ensures
        r matches CommandResult::Success(m),
        args.deep_view().len() == 0 ==> (r matches CommandResult::Success(m) && m@
            == config_help_message()),
        args.deep_view().len() > 0 ==> (r matches CommandResult::Success(m) && m@
            == config_note_message()),
{
    if args.len() == 0 {
        CommandResult::Success(String::from_str(
            "\nconfiguration options:\n  baud <rate>       baud rate (default 115200)\n  data <bits>       data bits (5-8)\n  stop <bits>       stop bits (1-2)\n  parity <kind>     parity (none/odd/even)\n\npass the values to connect; example: connect COM3 9600\n",
        ))
    } else {
        CommandResult::Success(String::from_str(
            "settings are taken from the connect command's arguments",
        ))
    }
}

/// Report the connection state.
pub fn cmd_status(connected: bool) -> (r: CommandResult)
    ensures
        r matches CommandResult::Success(m) && m@ == status_message(connected),
{
    if connected {
        CommandResult::Success(String::from_str("status: \u{1b}[32mconnected\u{1b}[0m"))
    } else {
        CommandResult::Success(String::from_str("status: \u{1b}[31mdisconnected\u{1b}[0m"))
    }
}

// ---- the dispatcher ---------------------------------------------------

/// Dispatch one input line: split it on whitespace, match the first word
/// (case-insensitively) against the command table, and run the command.
/// Commands that need a connection fail with a not-connected error instead
/// of attempting the operation; an unknown first word is reported by name;
/// an empty line is an empty success. `Exit` and `EnterTerminal` only
/// signal; the caller controls shutdown and the bridge.
pub fn handle_command(input: &str, mgr: &mut SerialManager) -> (r: CommandResult)
    ensures
        ({
            let ts = split_tokens(input@);
            &&& ts.len() == 0 ==> (r matches CommandResult::Success(m) && m@
                == Seq::<char>::empty() && *final(mgr) == *old(mgr))
            &&& (r is Exit <==> ts.len() > 0 && names_exit(ts[0]))
            &&& (r is EnterTerminal <==> ts.len() > 0 && names_terminal(ts[0])
                && old(mgr).connected())
            &&& ts.len() > 0 && !(names_connect(ts[0]) || names_disconnect(ts[0]) || names_send(
                ts[0],
            ) || names_hex(ts[0])) ==> *final(mgr) == *old(mgr)
            &&& ts.len() > 0 && names_help(ts[0]) ==> (r matches CommandResult::Success(m) && m@
                == help_message())
            &&& ts.len() > 0 && names_status(ts[0]) ==> (r matches CommandResult::Success(m) && m@
                == status_message(old(mgr).connected()))
            &&& ts.len() > 0 && names_clear(ts[0]) ==> (r matches CommandResult::Success(m) && m@
                == clear_screen_text())
            &&& ts.len() > 0 && names_config(ts[0]) ==> r is Success
            &&& ts.len() > 0 && names_disconnect(ts[0]) ==> r is Success
                && !final(mgr).connected()
            &&& ts.len() > 0 && names_connect(ts[0]) && ts.len() == 1 ==> r is Error && *final(mgr)
                == *old(mgr)
            &&& ts.len() > 0 && (names_send(ts[0]) || names_hex(ts[0]) || names_terminal(ts[0]))
                && !old(mgr).connected() ==> (r matches CommandResult::Error(m) && m@
                == not_connected_message() && *final(mgr) == *old(mgr))
            &&& ts.len() > 0 && (names_send(ts[0]) || names_hex(ts[0])) ==> final(mgr).connected()
                == old(mgr).connected()
            &&& ts.len() > 0 && !(names_help(ts[0]) || names_list(ts[0]) || names_connect(ts[0])
                || names_disconnect(ts[0]) || names_send(ts[0]) || names_hex(ts[0])
                || names_terminal(ts[0]) || names_config(ts[0]) || names_clear(ts[0])
                || names_status(ts[0]) || names_exit(ts[0])) ==> (r matches CommandResult::Error(m)
                && m@ == unknown_message(ts[0]) && *final(mgr) == *old(mgr))
        }),
{
    proof {
        reveal_strlit("help"); reveal_strlit("h"); reveal_strlit("?");
        reveal_strlit("list"); reveal_strlit("ls");
        reveal_strlit("connect"); reveal_strlit("conn");
        reveal_strlit("disconnect"); reveal_strlit("disc");
        reveal_strlit("send"); reveal_strlit("s"); reveal_strlit("hex");
        reveal_strlit("terminal"); reveal_strlit("term");
        reveal_strlit("config"); reveal_strlit("cfg");
        reveal_strlit("clear"); reveal_strlit("cls");
        reveal_strlit("status"); reveal_strlit("st");
        reveal_strlit("exit"); reveal_strlit("quit"); reveal_strlit("q");
        assert(lower_seq("help"@) =~= "help"@);
        assert(lower_seq("h"@) =~= "h"@);
        assert(lower_seq("?"@) =~= "?"@);
        assert(lower_seq("list"@) =~= "list"@);
        assert(lower_seq("ls"@) =~= "ls"@);
        assert(lower_seq("connect"@) =~= "connect"@);
        assert(lower_seq("conn"@) =~= "conn"@);
        assert(lower_seq("disconnect"@) =~= "disconnect"@);
        assert(lower_seq("disc"@) =~= "disc"@);
        assert(lower_seq("send"@) =~= "send"@);
        assert(lower_seq("s"@) =~= "s"@);
        assert(lower_seq("hex"@) =~= "hex"@);
        assert(lower_seq("terminal"@) =~= "terminal"@);
        assert(lower_seq("term"@) =~= "term"@);
        assert(lower_seq("config"@) =~= "config"@);
        assert(lower_seq("cfg"@) =~= "cfg"@);
        assert(lower_seq("clear"@) =~= "clear"@);
        assert(lower_seq("cls"@) =~= "cls"@);
        assert(lower_seq("status"@) =~= "status"@);
        assert(lower_seq("st"@) =~= "st"@);
        assert(lower_seq("exit"@) =~= "exit"@);
        assert(lower_seq("quit"@) =~= "quit"@);
        assert(lower_seq("q"@) =~= "q"@);
    }
    let toks = crate::text::tokenize(input);
    if toks.len() == 0 {
        return CommandResult::Success(String::new());
    }
    let cmd = &toks[0];
    let c = cmd.as_str();
    proof {
        assert(toks.deep_view().len() == toks@.len());
        assert(toks.deep_view()[0] == toks@[0]@);
        assert(c@ == split_tokens(input@)[0]);
        lemma_names_disjoint(c@);
    }
    if is_cmd(c, "help") || is_cmd(c, "h") || is_cmd(c, "?") {
        CommandResult::Success(String::from_str(
            "\ncommands:\n  list, ls                 list available serial ports\n  connect <port> [baud]    open a port (default baud 115200)\n  disconnect, disc         close the open port\n  send <data>              send text, with CRLF appended\n  hex <pairs>              send hex pairs, e.g. hex 48 65 6C 6C 6F\n  terminal, term           raw pass-through mode (Ctrl+] to leave)\n  status, st               show the connection state\n  config, cfg              show configuration options\n  clear, cls               clear the screen\n  help, h, ?               this help\n  exit, quit, q            leave the shell\n",
        ))
    } else if is_cmd(c, "list") || is_cmd(c, "ls") {
        cmd_list_ports()
    } else if is_cmd(c, "connect") || is_cmd(c, "conn") {
        let args = tail_args(&toks);
        cmd_connect(&args, mgr)
    } else if is_cmd(c, "disconnect") || is_cmd(c, "disc") {
        cmd_disconnect(mgr)
    } else if is_cmd(c, "send") || is_cmd(c, "s") {
        let args = tail_args(&toks);
        cmd_send(&args, mgr)
    } else if is_cmd(c, "hex") {
        let args = tail_args(&toks);
        cmd_send_hex(&args, mgr)
    } else if is_cmd(c, "terminal") || is_cmd(c, "term") {
        cmd_terminal(mgr)
    } else if is_cmd(c, "config") || is_cmd(c, "cfg") {
        let args = tail_args(&toks);
        cmd_config(&args)
    } else if is_cmd(c, "clear") || is_cmd(c, "cls") {
        CommandResult::Success(String::from_str("\u{1b}[2J\u{1b}[1;1H"))
    } else if is_cmd(c, "status") || is_cmd(c, "st") {
        cmd_status(mgr.is_connected())
    } else if is_cmd(c, "exit") || is_cmd(c, "quit") || is_cmd(c, "q") {
        CommandResult::Exit
    } else {
        let mut m = String::from_str("unknown command: ");
        m.append(c);
        m.append(" (type 'help' for a list)");
        CommandResult::Error(m)
    }
}

} // verus!
