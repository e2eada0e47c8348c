//! Installing the runtime with the publisher's install script: which script
//! to fetch, where to keep it, and how to run it.

use crate::paths::{join_path, joined_path};
use crate::report::ReportLine;
use crate::text::{texts, trim, trimmed};
use vstd::prelude::*;

verus! {

/// The character of a decimal digit.
pub open spec fn digit_char(d: nat) -> char {
    if d == 0 {
        '0'
    } else if d == 1 {
        '1'
    } else if d == 2 {
        '2'
    } else if d == 3 {
        '3'
    } else if d == 4 {
        '4'
    } else if d == 5 {
        '5'
    } else if d == 6 {
        '6'
    } else if d == 7 {
        '7'
    } else if d == 8 {
        '8'
    } else {
        '9'
    }
}

/// The decimal numeral of `n`, without leading zeros.
pub open spec fn decimal(n: nat) -> Seq<char>
    decreases n,
{
    if n < 10 {
        seq![digit_char(n)]
    } else {
        decimal(n / 10).push(digit_char(n % 10))
    }
}

/// The numeral of a signed number: a minus sign before a negative one.
pub open spec fn signed_decimal(n: int) -> Seq<char> {
    if n < 0 {
        seq!['-'] + decimal((-n) as nat)
    } else {
        decimal(n as nat)
    }
}

/// The text of one decimal digit.
fn digit_text(d: u64) -> (r: &'static str)
    requires
        d < 10,
    ensures
        r@ == seq![digit_char(d as nat)],
{
    proof {
        reveal_strlit("0");
        reveal_strlit("1");
        reveal_strlit("2");
        reveal_strlit("3");
        reveal_strlit("4");
        reveal_strlit("5");
        reveal_strlit("6");
        reveal_strlit("7");
        reveal_strlit("8");
        reveal_strlit("9");
    }
    let r = if d == 0 {
        "0"
    } else if d == 1 {
        "1"
    } else if d == 2 {
        "2"
    } else if d == 3 {
        "3"
    } else if d == 4 {
        "4"
    } else if d == 5 {
        "5"
    } else if d == 6 {
        "6"
    } else if d == 7 {
        "7"
    } else if d == 8 {
        "8"
    } else {
        "9"
    };
    assert(r@ =~= seq![digit_char(d as nat)]);
    r
}

/// Appends the decimal numeral of `n` to `out`.
pub fn push_decimal(out: &mut String, n: u64)
    ensures
        final(out)@ == old(out)@ + decimal(n as nat),
    decreases n,
{
    if n >= 10 {
        push_decimal(out, n / 10);
    }
    out.append(digit_text(n % 10));
    assert(final(out)@ =~= old(out)@ + decimal(n as nat));
}

/// The name of the install script for the platform.
pub open spec fn script_name(windows: bool) -> Seq<char> {
    if windows {
        "dotnet-install.ps1"@
    } else {
        "dotnet-install.sh"@
    }
}

/// Where the install script for the platform is published.
pub fn installer_url(windows: bool) -> (r: &'static str)
    ensures
        r@ == (if windows {
            "https://dotnet.microsoft.com/download/dotnet/scripts/v1/dotnet-install.ps1"@
        } else {
            "https://dotnet.microsoft.com/download/dotnet/scripts/v1/dotnet-install.sh"@
        }),
{
    if windows {
        "https://dotnet.microsoft.com/download/dotnet/scripts/v1/dotnet-install.ps1"
    } else {
        "https://dotnet.microsoft.com/download/dotnet/scripts/v1/dotnet-install.sh"
    }
}

/// The name of the install script for the platform.
pub fn installer_file_name(windows: bool) -> (r: &'static str)
    ensures
        r@ == script_name(windows),
{
    if windows {
        "dotnet-install.ps1"
    } else {
        "dotnet-install.sh"
    }
}

/// The name under which this process keeps its copy of the script: the
/// script's name, an underscore and the process identifier, so that two
/// runs at once do not write the same file.
pub fn unique_script_name(windows: bool, pid: u32) -> (r: String)
    ensures
        r@ == script_name(windows) + seq!['_'] + decimal(pid as nat),
{
    let mut name = installer_file_name(windows).to_owned();
    name.append("_");
    proof {
        reveal_strlit("_");
        assert(name@ =~= script_name(windows) + seq!['_']);
    }
    push_decimal(&mut name, pid as u64);
    name
}

/// Where this process keeps its copy of the script, in the directory
/// `temp_dir`.
pub fn script_path(temp_dir: &str, windows: bool, pid: u32) -> (r: String)
    ensures
        r@ == joined_path(
            temp_dir@,
            script_name(windows) + seq!['_'] + decimal(pid as nat),
        ),
{
    let name = unique_script_name(windows, pid);
    join_path(temp_dir, name.as_str())
}

/// Whether the script has to be marked executable before it is run: on
/// every platform but Windows.
pub fn needs_executable_mode(windows: bool) -> (r: bool)
    ensures
        r == !windows,
{
    !windows
}

/// What to install and where.
#[derive(Debug, PartialEq, Eq)]
pub struct InstallRequest {
    /// Install the current long-term-support release.
    pub lts: bool,
    /// Install this version; ignored where `lts` is set.
    pub version: Option<String>,
    /// Install into this directory and not into the script's default.
    pub install_path: Option<String>,
}

/// A program and its arguments.
#[derive(Debug, PartialEq, Eq)]
pub struct CommandLine {
    pub program: String,
    pub args: Vec<String>,
}

/// The interpreter that runs the script on the platform.
pub open spec fn interpreter(windows: bool) -> Seq<char> {
    if windows {
        "powershell"@
    } else {
        "bash"@
    }
}

/// The arguments that make the interpreter run the script.
pub open spec fn script_args(windows: bool, script: Seq<char>) -> Seq<Seq<char>> {
    if windows {
        seq![
            "-NoLogo"@,
            "-NoProfile"@,
            "-NonInteractive"@,
            "-ExecutionPolicy"@,
            "Bypass"@,
            "-File"@,
            script,
        ]
    } else {
        seq![script]
    }
}

/// The arguments that tell the script what to install: the long-term-support
/// channel, else the given version, else nothing.
pub open spec fn release_args(lts: bool, version: Option<String>) -> Seq<Seq<char>> {
    if lts {
        seq!["-Channel"@, "LTS"@]
    } else {
        match version {
            Some(v) => seq!["-Version"@, v@],
            None => Seq::empty(),
        }
    }
}

/// The arguments that tell the script where to install.
pub open spec fn directory_args(install_path: Option<String>) -> Seq<Seq<char>> {
    match install_path {
        Some(p) => seq!["-InstallDir"@, p@],
        None => Seq::empty(),
    }
}

/// The command that runs the script at `script` for `request`.
pub fn installer_command(windows: bool, script: &str, request: &InstallRequest) -> (command:
    CommandLine)
    ensures
        command.program@ == interpreter(windows),
        texts(command.args@) == script_args(windows, script@) + release_args(
            request.lts,
            request.version,
        ) + directory_args(request.install_path),
{
    let mut args: Vec<String> = Vec::new();
    let program = if windows {
        args.push("-NoLogo".to_owned());
        args.push("-NoProfile".to_owned());
        args.push("-NonInteractive".to_owned());
        args.push("-ExecutionPolicy".to_owned());
        args.push("Bypass".to_owned());
        args.push("-File".to_owned());
        "powershell".to_owned()
    } else {
        "bash".to_owned()
    };
    args.push(script.to_owned());
    assert(texts(args@) =~= script_args(windows, script@));
    if request.lts {
        args.push("-Channel".to_owned());
        args.push("LTS".to_owned());
    } else {
        match &request.version {
            Some(v) => {
                args.push("-Version".to_owned());
                args.push(v.clone());
            },
            None => {},
        }
    }
    assert(texts(args@) =~= script_args(windows, script@) + release_args(
        request.lts,
        request.version,
    ));
    match &request.install_path {
        Some(p) => {
            args.push("-InstallDir".to_owned());
            args.push(p.clone());
        },
        None => {},
    }
    assert(texts(args@) =~= script_args(windows, script@) + release_args(
        request.lts,
        request.version,
    ) + directory_args(request.install_path));
    CommandLine { program, args }
}

/// What an install request does: nothing but a report where the runtime is
/// already there, the installation where it is not.
#[derive(Debug, PartialEq, Eq, Clone, Copy)]
pub enum InstallAction {
    /// The runtime is installed: report its version.
    ReportInstalled,
    /// The runtime is absent: fetch the script and run it.
    Install,
}

/// Decides what an install request does.
pub fn install_action(installed: bool) -> (r: InstallAction)
    ensures
        r == (if installed {
            InstallAction::ReportInstalled
        } else {
            InstallAction::Install
        }),
{
    if installed {
        InstallAction::ReportInstalled
    } else {
        InstallAction::Install
    }
}

/// The line that reports the version already installed.
pub fn installed_report(stdout: &str) -> (line: ReportLine)
    ensures
        line.text@ == "Current version: "@ + trim(stdout@),
        !line.diagnostic,
{
    let mut text = "Current version: ".to_owned();
    text.append(trimmed(stdout).as_str());
    ReportLine { text, diagnostic: false }
}

/// The text of an exit status: `Some(<code>)`, or `None` where the script
/// was ended without one.
pub open spec fn status_text(code: Option<i32>) -> Seq<char> {
    match code {
        Some(c) => "Some("@ + signed_decimal(c as int) + ")"@,
        None => "None"@,
    }
}

/// The lines of a failed run of the script: its exit status, then what it
/// wrote to its error stream and to its output stream, each without
/// surrounding white space and left out where the stream was empty.
pub open spec fn failure_texts(code: Option<i32>, stderr: Seq<char>, stdout: Seq<char>) -> Seq<
    Seq<char>,
> {
    seq!["dotnet-install script failed with status: "@ + status_text(code)] + (if stderr.len()
        > 0 {
        seq![trim(stderr)]
    } else {
        Seq::empty()
    }) + (if stdout.len() > 0 {
        seq![trim(stdout)]
    } else {
        Seq::empty()
    })
}

/// The lines that report a failed run of the script, all of them diagnostics.
pub fn failure_report(code: Option<i32>, stderr: &str, stdout: &str) -> (lines: Vec<ReportLine>)
    ensures
        lines.len() == failure_texts(code, stderr@, stdout@).len(),
        forall|i: int|
            0 <= i < lines.len() ==> (#[trigger] lines[i]).diagnostic && lines[i].text@
                == failure_texts(code, stderr@, stdout@)[i],
{
    let mut head = "dotnet-install script failed with status: ".to_owned();
    match code {
        Some(c) => {
            head.append("Some(");
            if c < 0 {
                head.append("-");
                proof {
                    reveal_strlit("-");
                }
                push_decimal(&mut head, (-(c as i64)) as u64);
            } else {
                push_decimal(&mut head, c as u64);
            }
            head.append(")");
        },
        None => {
            head.append("None");
        },
    }
    assert(head@ =~= "dotnet-install script failed with status: "@ + status_text(code));
    let mut lines: Vec<ReportLine> = Vec::new();
    lines.push(ReportLine { text: head, diagnostic: true });
    if !stderr.is_empty() {
        lines.push(ReportLine { text: trimmed(stderr), diagnostic: true });
    }
    if !stdout.is_empty() {
        lines.push(ReportLine { text: trimmed(stdout), diagnostic: true });
    }
    lines
}

} // verus!
