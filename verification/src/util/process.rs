//! Discovery of the process that listens on a TCP port, from the lines that
//! the host's `netstat` prints, and the commands that list and end processes.

use crate::util::os::TargetOs;
use crate::util::text::{
    before_first, chars_before_first, chars_end_with, chars_eq, chars_of, decimal, ends_with,
    fields, is_digit, lemma_decimal_digits, lemma_decimal_injective, parse_u32, parse_unsigned,
    split_fields, u64_to_string, word_views,
};
use vstd::prelude::*;
use vstd::string::StringExecFns;

verus! {

/// The text with which the local address of a socket bound to `port` ends.
pub open spec fn port_suffix(port: u32) -> Seq<char> {
    seq![':'] + decimal(port as nat)
}

/// Reading of a process id.
pub open spec fn pid_of(s: Seq<char>) -> Option<u32> {
    match parse_unsigned(s, u32::MAX as nat) {
        Some(n) => Some(n as u32),
        None => None,
    }
}

/// The process id in a line of `netstat -ano` on Windows, such as
/// `TCP    0.0.0.0:8080    0.0.0.0:0    LISTENING    1`, if the line shows a
/// TCP socket that listens on exactly `port`.
pub open spec fn windows_listener(line: Seq<char>, port: u32) -> Option<u32> {
    let f = fields(line);
    if f.len() >= 5 && f[0] == "TCP"@ && ends_with(f[1], port_suffix(port)) && f[3]
        == "LISTENING"@ {
        pid_of(f[4])
    } else {
        None
    }
}

/// The process id in a line of `netstat -apn` on Linux, such as
/// `tcp    0    0 0.0.0.0:8080    0.0.0.0:*    LISTEN    1/java`, if the
/// line shows a TCP socket that listens on exactly `port`.
pub open spec fn linux_listener(line: Seq<char>, port: u32) -> Option<u32> {
    let f = fields(line);
    if f.len() >= 7 && f[0] == "tcp"@ && ends_with(f[3], port_suffix(port)) && f[5] == "LISTEN"@ {
        pid_of(before_first(f[6], '/'))
    } else {
        None
    }
}

/// The process that a line of the host's socket listing shows listening on
/// `port`. No listing is read on macOS.
pub open spec fn listener(os: TargetOs, line: Seq<char>, port: u32) -> Option<u32> {
    match os {
        TargetOs::Windows => windows_listener(line, port),
        TargetOs::Linux => linux_listener(line, port),
        TargetOs::Macos => None,
    }
}

fn port_suffix_chars(port: u32) -> (r: Vec<char>)
    ensures
        r@ == port_suffix(port),
{
    let digits = u64_to_string(port as u64);
    let d = chars_of(digits.as_str());
    let mut r: Vec<char> = Vec::new();
    r.push(':');
    let mut i: usize = 0;
    while i < d.len()
        invariant
            i <= d.len(),
            r@ == seq![':'] + d@.take(i as int),
        decreases d.len() - i,
    {
        r.push(d[i]);
        assert(d@.take(i + 1) == d@.take(i as int).push(d@[i as int]));
        i += 1;
    }
    assert(d@.take(d.len() as int) == d@);
    r
}

fn parse_pid(word: &Vec<char>) -> (r: Option<u32>)
    ensures
        r == pid_of(word@),
{
    parse_u32(word)
}

/// Reads one line of the host's socket listing.
///
/// Returns the id of the process that the line shows listening on TCP port
/// `port`. The port must match exactly: a listener on 8080 is not one on 80.
/// Any other line, also one that is cut short or names no process, gives
/// `None`.
pub fn extract_process_id(os: TargetOs, line: String, port: u32) -> (r: Option<u32>)
    ensures
        r == listener(os, line@, port),
{
    let chars = chars_of(line.as_str());
    let parts = split_fields(&chars);
    let ghost f = fields(line@);
    assert forall|i: int| 0 <= i < parts.len() implies f[i] == #[trigger] parts@[i]@ by {
        assert(word_views(parts@)[i] == parts@[i]@);
    }
    let suffix = port_suffix_chars(port);
    match os {
        TargetOs::Windows => {
            if parts.len() < 5 {
                return None;
            }
            if !chars_eq(&parts[0], &chars_of("TCP")) {
                return None;
            }
            if !chars_end_with(&parts[1], &suffix) {
                return None;
            }
            if !chars_eq(&parts[3], &chars_of("LISTENING")) {
                return None;
            }
            parse_pid(&parts[4])
        },
        TargetOs::Linux => {
            if parts.len() < 7 {
                return None;
            }
            if !chars_eq(&parts[0], &chars_of("tcp")) {
                return None;
            }
            if !chars_end_with(&parts[3], &suffix) {
                return None;
            }
            if !chars_eq(&parts[5], &chars_of("LISTEN")) {
                return None;
            }
            let id = chars_before_first(&parts[6], '/');
            parse_pid(&id)
        },
        TargetOs::Macos => None,
    }
}

/// The process that the first matching line of a socket listing shows
/// listening on `port`.
pub open spec fn first_listener(os: TargetOs, lines: Seq<Seq<char>>, port: u32) -> Option<u32>
    decreases lines.len(),
{
    if lines.len() == 0 {
        None
    } else if listener(os, lines[0], port) is Some {
        listener(os, lines[0], port)
    } else {
        first_listener(os, lines.drop_first(), port)
    }
}

/// Finds the process bound to `port` in the lines of the host's socket
/// listing. `None` means that nothing listens on the port.
pub fn get_id(os: TargetOs, lines: &Vec<String>, port: u32) -> (r: Option<u32>)
    ensures
        r == first_listener(os, lines.deep_view(), port),
{
    let ghost all = lines.deep_view();
    let mut i: usize = 0;
    assert(all.skip(0) == all);
    while i < lines.len()
        invariant
            i <= lines.len(),
            all == lines.deep_view(),
            first_listener(os, all, port) == first_listener(os, all.skip(i as int), port),
        decreases lines.len() - i,
    {
        let ghost rest = all.skip(i as int);
        assert(rest[0] == lines@[i as int]@);
        assert(rest.drop_first() == all.skip(i + 1));
        let found = extract_process_id(os, lines[i].clone(), port);
        if found.is_some() {
            return found;
        }
        i += 1;
    }
    None
}

/// A program and the arguments to start it with.
#[derive(Debug)]
pub struct ShellCommand {
    pub program: String,
    pub args: Vec<String>,
}

/// A `ShellCommand` as text.
pub struct CommandLine {
    pub program: Seq<char>,
    pub args: Seq<Seq<char>>,
}

impl DeepView for ShellCommand {
    type V = CommandLine;

    open spec fn deep_view(&self) -> CommandLine {
        CommandLine { program: self.program@, args: self.args.deep_view() }
    }
}

/// The shell line that lists the sockets on which `port` occurs.
pub open spec fn listing_line(os: TargetOs, port: u32) -> Seq<char> {
    match os {
        TargetOs::Windows => "netstat -ano | findstr "@ + decimal(port as nat),
        _ => "netstat -apn | grep "@ + decimal(port as nat),
    }
}

/// The shell line that ends process `pid` at once.
pub open spec fn kill_line(os: TargetOs, pid: u32) -> Seq<char> {
    match os {
        TargetOs::Windows => "taskkill /F /PID "@ + decimal(pid as nat),
        _ => "kill -9 "@ + decimal(pid as nat),
    }
}

/// How the system's shell is asked to run `line`. The agent drives no shell
/// on macOS.
pub open spec fn shell_command(os: TargetOs, line: Seq<char>) -> Option<CommandLine> {
    match os {
        TargetOs::Windows => Some(CommandLine { program: "cmd"@, args: seq!["/C"@, line] }),
        TargetOs::Linux => Some(CommandLine { program: "sh"@, args: seq!["-c"@, line] }),
        TargetOs::Macos => None,
    }
}

fn shell(os: TargetOs, line: String) -> (r: Option<ShellCommand>)
    ensures
        r.deep_view() == shell_command(os, line@),
{
    let (program, flag) = match os {
        TargetOs::Windows => ("cmd", "/C"),
        TargetOs::Linux => ("sh", "-c"),
        TargetOs::Macos => {
            return None;
        },
    };
    let mut args: Vec<String> = Vec::new();
    args.push(flag.to_owned());
    args.push(line);
    assert(args.deep_view() == seq![flag@, line@]);
    Some(ShellCommand { program: program.to_owned(), args })
}

/// The command that prints the host's sockets on which `port` occurs:
/// `netstat`, filtered, run by the system's shell.
pub fn listing_command(os: TargetOs, port: u32) -> (r: Option<ShellCommand>)
    ensures
        r.deep_view() == shell_command(os, listing_line(os, port)),
{
    let mut line = match os {
        TargetOs::Windows => "netstat -ano | findstr ".to_owned(),
        _ => "netstat -apn | grep ".to_owned(),
    };
    line.append(u64_to_string(port as u64).as_str());
    shell(os, line)
}

/// The command that ends process `process_id` by force, without waiting
/// for it.
pub fn kill(os: TargetOs, process_id: u32) -> (r: Option<ShellCommand>)
    ensures
        r.deep_view() == shell_command(os, kill_line(os, process_id)),
{
    let mut line = match os {
        TargetOs::Windows => "taskkill /F /PID ".to_owned(),
        _ => "kill -9 ".to_owned(),
    };
    line.append(u64_to_string(process_id as u64).as_str());
    shell(os, line)
}

/// An address ends with the suffix of one port only.
pub proof fn lemma_port_suffix_exact(address: Seq<char>, p: u32, q: u32)
    requires
        ends_with(address, port_suffix(p)),
        ends_with(address, port_suffix(q)),
    ensures
        p == q,
{
    let a = decimal(p as nat);
    let b = decimal(q as nat);
    lemma_decimal_digits(p as nat);
    lemma_decimal_digits(q as nat);
    let n = address.len() as int;
    let sa = address.subrange(n - a.len() - 1, n);
    let sb = address.subrange(n - b.len() - 1, n);
    assert(sa == port_suffix(p));
    assert(sb == port_suffix(q));
    if a.len() < b.len() {
        assert(sa[0] == ':');
        assert(sb[b.len() - a.len()] == b[b.len() - a.len() - 1]);
        assert(is_digit(b[b.len() - a.len() - 1]));
        assert(sa[0] == address[n - a.len() - 1]);
        assert(sb[b.len() - a.len()] == address[n - a.len() - 1]);
    } else if b.len() < a.len() {
        assert(sb[0] == ':');
        assert(sa[a.len() - b.len()] == a[a.len() - b.len() - 1]);
        assert(is_digit(a[a.len() - b.len() - 1]));
        assert(sb[0] == address[n - b.len() - 1]);
        assert(sa[a.len() - b.len()] == address[n - b.len() - 1]);
    } else {
        assert(a =~= b) by {
            assert forall|i: int| 0 <= i < a.len() implies a[i] == b[i] by {
                assert(sa[i + 1] == a[i]);
                assert(sb[i + 1] == b[i]);
            }
        }
        lemma_decimal_injective(p as nat, q as nat);
    }
}

/// A line of the socket listing shows a listener on one port at most: the
/// line of a listener on 8080 is none of a listener on 80.
pub proof fn lemma_listener_port_exact(os: TargetOs, line: Seq<char>, p: u32, q: u32)
    requires
        listener(os, line, p) is Some,
        listener(os, line, q) is Some,
    ensures
        p == q,
{
    let f = fields(line);
    match os {
        TargetOs::Windows => lemma_port_suffix_exact(f[1], p, q),
        TargetOs::Linux => lemma_port_suffix_exact(f[3], p, q),
        TargetOs::Macos => {},
    }
}

} // verus!
