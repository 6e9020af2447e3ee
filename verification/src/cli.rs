//! Line-editing support for the interactive shell: the fixed command table,
//! prefix completion for the first word of a line, and an inline hint for
//! the rest of a partly typed command name.

use vstd::prelude::*;
use crate::text::is_space;

verus! {

/// The command words the shell completes, in the order they are offered.
pub open spec fn repl_commands() -> Seq<Seq<char>> {
    seq![
        "help"@, "list"@, "ls"@, "connect"@, "conn"@, "disconnect"@, "disc"@, "send"@, "s"@,
        "hex"@, "terminal"@, "term"@, "config"@, "cfg"@, "clear"@, "cls"@, "status"@, "st"@,
        "exit"@, "quit"@, "q"@,
    ]
}

/// `a` is a prefix of `b`.
pub open spec fn is_prefix(a: Seq<char>, b: Seq<char>) -> bool {
    a.len() <= b.len() && forall|i: int| 0 <= i < a.len() ==> a[i] == b[i]
}

/// The commands the input is a prefix of, in table order.
pub open spec fn prefix_matches(cmds: Seq<Seq<char>>, input: Seq<char>) -> Seq<Seq<char>>
    decreases cmds.len(),
{
    if cmds.len() == 0 {
        Seq::empty()
    } else {
        let rest = prefix_matches(cmds.drop_last(), input);
        if is_prefix(input, cmds.last()) {
            rest.push(cmds.last())
        } else {
            rest
        }
    }
}

/// The completion a partly typed command name earns: the rest of the first
/// command in table order that strictly extends the input.
pub open spec fn first_hint(cmds: Seq<Seq<char>>, input: Seq<char>) -> Option<Seq<char>>
    decreases cmds.len(),
{
    if cmds.len() == 0 {
        None
    } else if is_prefix(input, cmds[0]) && cmds[0] != input {
        Some(cmds[0].skip(input.len() as int))
    } else {
        first_hint(cmds.skip(1), input)
    }
}

/// Leading whitespace removed.
pub open spec fn trim_front(s: Seq<char>) -> Seq<char>
    decreases s.len(),
{
    if s.len() > 0 && is_space(s[0]) {
        trim_front(s.skip(1))
    } else {
        s
    }
}

/// Trailing whitespace removed.
pub open spec fn trim_back(s: Seq<char>) -> Seq<char>
    decreases s.len(),
{
    if s.len() > 0 && is_space(s.last()) {
        trim_back(s.drop_last())
    } else {
        s
    }
}

/// Both ends trimmed.
pub open spec fn trimmed(s: Seq<char>) -> Seq<char> {
    trim_back(trim_front(s))
}

/// Helper state for the line editor: the fixed command table.
pub struct XToolsHelper {
    commands: Vec<String>,
}

impl XToolsHelper {
    /// The table the helper completes against.
    pub closed spec fn commands_view(self) -> Seq<Seq<char>> {
        self.commands.deep_view()
    }

    /// A helper over the full command table.
    pub fn new() -> (r: XToolsHelper)
        ensures
            r.commands_view() == repl_commands(),
    {
        let commands = vec![
            String::from_str("help"), String::from_str("list"), String::from_str("ls"),
            String::from_str("connect"), String::from_str("conn"),
            String::from_str("disconnect"), String::from_str("disc"), String::from_str("send"),
            String::from_str("s"), String::from_str("hex"), String::from_str("terminal"),
            String::from_str("term"), String::from_str("config"), String::from_str("cfg"),
            String::from_str("clear"), String::from_str("cls"), String::from_str("status"),
            String::from_str("st"), String::from_str("exit"), String::from_str("quit"),
            String::from_str("q"),
        ];
        let r = XToolsHelper { commands };
        proof {
            assert(r.commands_view() =~= repl_commands());
        }
        r
    }

    /// Complete the first word of a line: when the text before the cursor
    /// holds no space yet, every command it is a prefix of is offered, from
    /// the start of the line; once a space appears nothing is offered.
    pub fn complete(&self, line: &str, pos: usize) -> (r: (usize, Vec<String>))
        requires
            pos <= line@.len(),
        ensures
            r.0 == 0,
            (exists|i: int| 0 <= i < pos && line@[i] == ' ') ==> r.1.deep_view() =~= Seq::<
                Seq<char>,
            >::empty(),
            !(exists|i: int| 0 <= i < pos && line@[i] == ' ') ==> r.1.deep_view()
                == prefix_matches(self.commands_view(), line@.take(pos as int)),
    {
        let mut i: usize = 0;
        while i < pos
            invariant
                pos <= line@.len(),
                i <= pos,
                forall|j: int| 0 <= j < i ==> line@[j] != ' ',
            decreases pos - i,
        {
            if line.get_char(i) == ' ' {
                return (0, Vec::new());
            }
            i = i + 1;
        }
        let mut out: Vec<String> = Vec::new();
        let mut k: usize = 0;
        while k < self.commands.len()
            invariant
                pos <= line@.len(),
                k <= self.commands@.len(),
                out.deep_view() == prefix_matches(
                    self.commands.deep_view().take(k as int),
                    line@.take(pos as int),
                ),
            decreases self.commands@.len() - k,
        {
            let ghost cmds = self.commands.deep_view();
            proof {
                assert(cmds.take(k + 1 as int).drop_last() =~= cmds.take(k as int));
                assert(cmds.take(k + 1 as int).last() == cmds[k as int]);
            }
            if starts_with_input(&self.commands[k], line, pos) {
                out.push(self.commands[k].clone());
                proof {
                    assert(out.deep_view() =~= prefix_matches(
                        cmds.take(k + 1 as int),
                        line@.take(pos as int),
                    ));
                }
            }
            k = k + 1;
        }
        proof {
            assert(self.commands.deep_view().take(self.commands@.len() as int)
                =~= self.commands.deep_view());
        }
        (0, out)
    }

    /// Hint the rest of a command name: only at the end of a non-empty line,
    /// for the first command the trimmed input strictly prefixes.
    pub fn hint(&self, line: &str, pos: usize) -> (r: Option<String>)
        ensures
            line@.len() == 0 || pos < line@.len() ==> r is None,
            line@.len() > 0 && pos >= line@.len() ==> {
                let h = first_hint(self.commands_view(), trimmed(line@));
                &&& (r is Some <==> h is Some)
                &&& (r matches Some(s) ==> h matches Some(t) && s@ == t)
            },
    {
        let n = line.unicode_len();
        if n == 0 || pos < n {
            return None;
        }
        let mut start: usize = 0;
        proof {
            assert(line@.skip(0) =~= line@);
        }
        while start < n && space_at(line, start)
            invariant
                n == line@.len(),
                start <= n,
                trim_front(line@) == trim_front(line@.skip(start as int)),
                forall|j: int| 0 <= j < start ==> is_space(line@[j]),
            decreases n - start,
        {
            proof {
                assert(line@.skip(start as int).skip(1) =~= line@.skip(start + 1 as int));
            }
            start = start + 1;
        }
        let mut end: usize = n;
        while end > start && space_at(line, end - 1)
            invariant
                n == line@.len(),
                start <= end <= n,
                trim_front(line@) == trim_front(line@.skip(start as int)),
                forall|j: int| 0 <= j < start ==> is_space(line@[j]),
                trimmed(line@) == trim_back(line@.subrange(start as int, end as int)),
            decreases end,
        {
            proof {
                lemma_trim_front_nospace(line@.skip(start as int));
                assert(line@.subrange(start as int, end as int).drop_last() =~= line@.subrange(
                    start as int,
                    end - 1 as int,
                ));
            }
            end = end - 1;
        }
        proof {
            lemma_trim_front_nospace(line@.skip(start as int));
            if start < end {
                assert(!is_space(line@.subrange(start as int, end as int).last()));
            }
            assert(trimmed(line@) == line@.subrange(start as int, end as int));
        }
        let input_len = end - start;
        let ghost input = trimmed(line@);
        let mut k: usize = 0;
        proof {
            assert(self.commands.deep_view().skip(0) =~= self.commands.deep_view());
        }
        while k < self.commands.len()
            invariant
                n == line@.len(),
                0 < n,
                pos >= n,
                start <= end <= n,
                input_len == end - start,
                input == line@.subrange(start as int, end as int),
                input == trimmed(line@),
                k <= self.commands@.len(),
                first_hint(self.commands_view(), input) == first_hint(
                    self.commands.deep_view().skip(k as int),
                    input,
                ),
            decreases self.commands@.len() - k,
        {
            let ghost cmds = self.commands.deep_view();
            proof {
                assert(cmds.skip(k as int)[0] == cmds[k as int]);
                assert(cmds.skip(k as int).skip(1) =~= cmds.skip(k + 1 as int));
            }
            let cmd = &self.commands[k];
            let clen = cmd.as_str().unicode_len();
            if clen > input_len && prefix_of_subrange(cmd, line, start, end) {
                let tail = cmd.as_str().substring_char(input_len, clen);
                let res = tail.to_owned();
                proof {
                    let cmdk = self.commands.deep_view()[k as int];
                    assert(cmdk == cmd@);
                    assert(cmdk != input);
                    assert(first_hint(self.commands.deep_view().skip(k as int), input) == Some(
                        cmdk.skip(input_len as int),
                    ));
                    assert(res@ =~= cmdk.skip(input_len as int));
                }
                return Some(res);
            }
            proof {
                if is_prefix(input, cmds[k as int]) {
                    assert(cmds[k as int].len() == input.len());
                    assert(cmds[k as int] =~= input);
                }
            }
            k = k + 1;
        }
        proof {
            assert(self.commands.deep_view().skip(self.commands@.len() as int) =~= Seq::<
                Seq<char>,
            >::empty());
        }
        None
    }
}

fn space_at(line: &str, i: usize) -> (r: bool)
    requires
        i < line@.len(),
    ensures
        r == is_space(line@[i as int]),
{
    let c = line.get_char(i);
    c == ' ' || c == '\t' || c == '\r' || c == '\n'
}

/// When the first character is no longer whitespace, front-trimming is done.
proof fn lemma_trim_front_nospace(s: Seq<char>)
    ensures
        s.len() == 0 || !is_space(s[0]) ==> trim_front(s) == s,
{
}

fn starts_with_input(cmd: &String, line: &str, pos: usize) -> (r: bool)
    requires
        pos <= line@.len(),
    ensures
        r == is_prefix(line@.take(pos as int), cmd@),
{
    let clen = cmd.as_str().unicode_len();
    if clen < pos {
        return false;
    }
    let mut i: usize = 0;
    while i < pos
        invariant
            pos <= line@.len(),
            clen == cmd@.len(),
            pos <= clen,
            i <= pos,
            forall|j: int| 0 <= j < i ==> line@.take(pos as int)[j] == cmd@[j],
        decreases pos - i,
    {
        if line.get_char(i) != cmd.as_str().get_char(i) {
            return false;
        }
        i = i + 1;
    }
    true
}

fn prefix_of_subrange(cmd: &String, line: &str, start: usize, end: usize) -> (r: bool)
    requires
        start <= end <= line@.len(),
        end - start <= cmd@.len(),
    ensures
        r == is_prefix(line@.subrange(start as int, end as int), cmd@),
{
    let mut i: usize = 0;
    while i < end - start
        invariant
            start <= end <= line@.len(),
            end - start <= cmd@.len(),
            i <= end - start,
            forall|j: int| 0 <= j < i ==> line@.subrange(start as int, end as int)[j] == cmd@[j],
        decreases end - start - i,
    {
        if line.get_char(start + i) != cmd.as_str().get_char(i) {
            return false;
        }
        i = i + 1;
    }
    true
}

} // verus!
