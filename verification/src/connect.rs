//! What is run to connect to a profile: the program and its arguments.
//! Running it is left to the caller.
use crate::config::{Host, HostView};
use crate::i18n::{
    exit_code_text, possible_reasons_text, press_enter_to_return_text,
    ssh_connection_failed_text, I18n,
};
use crate::text::{
    char_line_end, chars_of, decimal_text, find_char_line_end, joined, lemma_char_line_end,
    lines_text, push_decimal, push_line, trimmed, trimmed_string,
};
use vstd::prelude::*;
use vstd::string::*;

verus! {

/// The exit status with which `ssh` says that the connection failed.
pub const CONNECTION_FAILED: i32 = 255;

/// The commands among the lines that start at the character `i` or after it:
/// each line without the white space around it, unless nothing is left of
/// it. A line starts at 0 and after each line feed.
pub open spec fn command_parts_from(chars: Seq<char>, i: int) -> Seq<Seq<char>>
    decreases chars.len() + 1 - i,
{
    if i < 0 || i > chars.len() {
        Seq::empty()
    } else if i == 0 || chars[i - 1] == '\n' {
        let part = trimmed(chars.subrange(i, char_line_end(chars, i)));
        (if part.len() > 0 {
            seq![part]
        } else {
            Seq::empty()
        }) + command_parts_from(chars, i + 1)
    } else {
        command_parts_from(chars, i + 1)
    }
}

/// The commands that are run after the login, one for each line that is not
/// blank.
pub open spec fn command_parts(command: Seq<char>) -> Seq<Seq<char>> {
    command_parts_from(command, 0)
}

/// The command line that is handed to the remote shell: the commands in a
/// row, and then a login shell in their place.
pub open spec fn remote_command_text(command: Seq<char>) -> Seq<char> {
    joined(command_parts(command), "; "@) + "; exec $SHELL -l"@
}

/// The arguments that follow the options: the target, and the remote
/// command where the profile has commands to run.
pub open spec fn target_args(host: HostView) -> Seq<Seq<char>> {
    let target = host.user + "@"@ + host.host;
    match host.command {
        Some(command) => if command_parts(command).len() > 0 {
            seq![target, remote_command_text(command)]
        } else {
            seq![target]
        },
        None => seq![target],
    }
}

/// The port option, where the profile names a port.
pub open spec fn port_args(host: HostView) -> Seq<Seq<char>> {
    match host.port {
        Some(port) => seq!["-p"@, decimal_text(port as nat)],
        None => Seq::empty(),
    }
}

/// The arguments of `ssh` for a profile: a terminal, a time limit of thirty
/// seconds, new host keys accepted, the port, the target, the remote
/// command.
pub open spec fn ssh_arg_texts(host: HostView) -> Seq<Seq<char>> {
    seq![
        "-t"@,
        "-o"@,
        "ConnectTimeout=30"@,
        "-o"@,
        "StrictHostKeyChecking=accept-new"@,
    ] + port_args(host) + target_args(host)
}

/// What is to be run, as plain values.
pub enum LaunchView {
    Run { program: Seq<char>, args: Seq<Seq<char>> },
    MissingSshpass,
}

/// What is to be run for a profile. A profile with a password goes through
/// `sshpass`, which has to be there; a profile without one runs `ssh`.
pub open spec fn launch_of(host: HostView, sshpass_available: bool) -> LaunchView {
    match host.password {
        Some(password) => if sshpass_available {
            LaunchView::Run {
                program: "sshpass"@,
                args: seq!["-p"@, password, "ssh"@] + ssh_arg_texts(host),
            }
        } else {
            LaunchView::MissingSshpass
        },
        None => LaunchView::Run { program: "ssh"@, args: ssh_arg_texts(host) },
    }
}

/// What is to be run.
#[derive(Debug)]
pub enum Launch {
    /// Run `program` with `args`, on the terminal of the caller.
    Run { program: String, args: Vec<String> },
    /// The profile has a password and `sshpass` is not installed: nothing
    /// can be run.
    MissingSshpass,
}

impl View for Launch {
    type V = LaunchView;

    open spec fn view(&self) -> LaunchView {
        match *self {
            Launch::Run { program, args } => LaunchView::Run {
                program: program@,
                args: lines_text(args@),
            },
            Launch::MissingSshpass => LaunchView::MissingSshpass,
        }
    }
}

/// Where no line starts between `i` and `j`, the commands from `i` on are
/// the commands from `j` on.
pub proof fn lemma_no_parts_between(chars: Seq<char>, i: int, j: int)
    requires
        0 < i <= j <= chars.len() + 1,
        forall|k: int| i - 1 <= k < j - 1 ==> chars[k] != '\n',
    ensures
        command_parts_from(chars, i) == command_parts_from(chars, j),
    decreases j - i,
{
    if i < j {
        lemma_no_parts_between(chars, i + 1, j);
    }
}

/// The commands of a profile in one row, with `; ` between them; none
/// where every line is blank.
pub fn joined_commands(command: &str) -> (r: Option<String>)
    ensures
        match r {
            Some(text) => command_parts(command@).len() > 0 && text@ == joined(
                command_parts(command@),
                "; "@,
            ),
            None => command_parts(command@).len() == 0,
        },
{
    let chars = chars_of(command);
    let n = chars.len();
    let mut out = String::new();
    let mut any = false;
    let ghost mut parts: Seq<Seq<char>> = Seq::empty();
    let mut start: usize = 0;
    proof {
        assert(parts + command_parts_from(chars@, 0) =~= command_parts(command@));
    }
    loop
        invariant
            chars@ == command@,
            n == chars@.len(),
            start <= n,
            start == 0 || chars@[start - 1] == '\n',
            any == (parts.len() > 0),
            out@ == joined(parts, "; "@),
            parts + command_parts_from(chars@, start as int) == command_parts(command@),
        decreases n - start,
    {
        let end = find_char_line_end(&chars, start);
        let part = trimmed_string(&chars, start, end);
        let ghost before = parts;
        if !part.as_str().is_empty() {
            if any {
                out.append("; ");
            }
            out.append(part.as_str());
            any = true;
            proof {
                parts = parts.push(part@);
                assert(parts.drop_last() =~= before);
                assert(Seq::<char>::empty() + part@ =~= part@);
            }
        }
        proof {
            lemma_char_line_end(chars@, start as int);
            lemma_no_parts_between(chars@, start + 1, end + 1);
            assert(parts + command_parts_from(chars@, end + 1) =~= before + command_parts_from(
                chars@,
                start as int,
            ));
        }
        if end >= n {
            proof {
                assert(parts + command_parts_from(chars@, end + 1) =~= parts);
            }
            if any {
                return Some(out);
            } else {
                return None;
            }
        }
        start = end + 1;
    }
}

/// The arguments of `ssh` for a profile.
pub fn ssh_args(host: &Host) -> (r: Vec<String>)
    ensures
        lines_text(r@) == ssh_arg_texts(host@),
{
    let mut args: Vec<String> = Vec::new();
    push_line(&mut args, "-t".to_owned());
    push_line(&mut args, "-o".to_owned());
    push_line(&mut args, "ConnectTimeout=30".to_owned());
    push_line(&mut args, "-o".to_owned());
    push_line(&mut args, "StrictHostKeyChecking=accept-new".to_owned());
    if let Some(port) = host.port {
        let mut text = String::new();
        push_decimal(&mut text, port as u128);
        proof {
            assert(Seq::<char>::empty() + decimal_text(port as nat) =~= decimal_text(port as nat));
        }
        push_line(&mut args, "-p".to_owned());
        push_line(&mut args, text);
    }
    let mut target = host.user.clone();
    target.append("@");
    target.append(host.host.as_str());
    push_line(&mut args, target);
    if let Some(command) = &host.command {
        if let Some(mut row) = joined_commands(command.as_str()) {
            row.append("; exec $SHELL -l");
            push_line(&mut args, row);
        }
    }
    proof {
        assert(lines_text(args@) =~= ssh_arg_texts(host@));
    }
    args
}

/// What is to be run to connect to a profile. `sshpass_available` says
/// whether the program `sshpass` was found.
pub fn launch_plan(host: &Host, sshpass_available: bool) -> (r: Launch)
    ensures
        r@ == launch_of(host@, sshpass_available),
{
    match &host.password {
        Some(password) => {
            if !sshpass_available {
                return Launch::MissingSshpass;
            }
            let mut args: Vec<String> = Vec::new();
            push_line(&mut args, "-p".to_owned());
            push_line(&mut args, password.clone());
            push_line(&mut args, "ssh".to_owned());
            let mut rest = ssh_args(host);
            let ghost first = lines_text(args@);
            let ghost second = lines_text(rest@);
            args.append(&mut rest);
            proof {
                assert(lines_text(args@) =~= first + second);
                assert(first =~= seq!["-p"@, password@, "ssh"@]);
            }
            Launch::Run { program: "sshpass".to_owned(), args }
        },
        None => Launch::Run { program: "ssh".to_owned(), args: ssh_args(host) },
    }
}

/// Whether an exit status says that the connection failed. A program that
/// was ended by a signal has no exit status.
pub fn connection_failed(exit_code: Option<i32>) -> (b: bool)
    ensures
        b == (exit_code == Some(CONNECTION_FAILED)),
{
    match exit_code {
        Some(code) => code == CONNECTION_FAILED,
        None => false,
    }
}

/// What is said after a connection failed: the target, the exit status, the
/// likely reasons and how to go on.
pub open spec fn failure_report(is_chinese: bool, host: HostView) -> Seq<Seq<char>> {
    seq![
        ssh_connection_failed_text(is_chinese, host.user + "@"@ + host.host),
        exit_code_text(is_chinese) + decimal_text(CONNECTION_FAILED as nat),
        possible_reasons_text(is_chinese),
        press_enter_to_return_text(is_chinese),
    ]
}

/// What is said after a connection failed.
pub fn failure_report_lines(i18n: &I18n, host: &Host) -> (r: Vec<String>)
    ensures
        lines_text(r@) == failure_report(i18n.is_chinese, host@),
{
    let mut target = host.user.clone();
    target.append("@");
    target.append(host.host.as_str());
    let mut code = i18n.exit_code().to_owned();
    push_decimal(&mut code, 255);
    let mut out: Vec<String> = Vec::new();
    push_line(&mut out, i18n.ssh_connection_failed(target.as_str()));
    push_line(&mut out, code);
    push_line(&mut out, i18n.possible_reasons().to_owned());
    push_line(&mut out, i18n.press_enter_to_return().to_owned());
    proof {
        assert(lines_text(out@) =~= failure_report(i18n.is_chinese, host@));
    }
    out
}

} // verus!
