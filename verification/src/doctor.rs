//! The environment check: is the runtime tool there, and is the user's SDK
//! directory on the search path.

use crate::paths::{is_same_path, join_path, joined_path, same_path};
use crate::text::{split, split_text, texts};
use vstd::prelude::*;

verus! {

/// One finding of the environment check.
#[derive(Debug, PartialEq, Eq, Clone, Copy)]
pub enum DoctorFinding {
    /// The runtime tool can be run.
    DotnetAvailable,
    /// The runtime tool cannot be run.
    DotnetMissing,
    /// The user's SDK directory is on the search path.
    SdkDirInPath,
    /// The user's SDK directory is not on the search path.
    SdkDirNotInPath,
}

/// The environment variable that names the user's home directory.
pub fn home_variable(windows: bool) -> (r: &'static str)
    ensures
        r@ == (if windows {
            "USERPROFILE"@
        } else {
            "HOME"@
        }),
{
    if windows {
        "USERPROFILE"
    } else {
        "HOME"
    }
}

/// The user's SDK directory: `.dotnet` in the home directory.
pub open spec fn sdk_dir(home: Seq<char>) -> Seq<char> {
    joined_path(home, ".dotnet"@)
}

/// Whether one of the entries of a search path, which a colon separates, is
/// the directory `dir`.
pub open spec fn lists_dir(search_path: Seq<char>, dir: Seq<char>) -> bool {
    exists|k: int|
        0 <= k < split(search_path, ':').len() && same_path(
            #[trigger] split(search_path, ':')[k],
            dir,
        )
}

/// The view of an optional text.
pub open spec fn opt_text(value: Option<&str>) -> Option<Seq<char>> {
    match value {
        Some(text) => Some(text@),
        None => None,
    }
}

/// The findings of the check. Without the tool nothing else is looked at.
/// With it, the search path is looked at where both the home directory and
/// the search path are known.
pub open spec fn findings_for(
    available: bool,
    home: Option<Seq<char>>,
    search_path: Option<Seq<char>>,
) -> Seq<DoctorFinding> {
    if !available {
        seq![DoctorFinding::DotnetMissing]
    } else {
        match (home, search_path) {
            (Some(h), Some(p)) => seq![
                DoctorFinding::DotnetAvailable,
                if lists_dir(p, sdk_dir(h)) {
                    DoctorFinding::SdkDirInPath
                } else {
                    DoctorFinding::SdkDirNotInPath
                },
            ],
            _ => seq![DoctorFinding::DotnetAvailable],
        }
    }
}

/// Decides whether a search path lists the directory `dir`.
pub fn search_path_lists(search_path: &str, dir: &str) -> (r: bool)
    ensures
        r == lists_dir(search_path@, dir@),
{
    let entries = split_text(search_path, ':');
    let mut k: usize = 0;
    while k < entries.len()
        invariant
            k <= entries.len(),
            texts(entries@) == split(search_path@, ':'),
            forall|j: int| 0 <= j < k ==> !same_path(#[trigger] split(search_path@, ':')[j], dir@),
        decreases entries.len() - k,
    {
        assert(texts(entries@)[k as int] == entries[k as int]@);
        if is_same_path(entries[k].as_str(), dir) {
            return true;
        }
        k += 1;
    }
    false
}

/// Runs the check on what the caller found: whether the tool ran, the home
/// directory, and the search path.
pub fn doctor_findings(available: bool, home: Option<&str>, search_path: Option<&str>) -> (findings:
    Vec<DoctorFinding>)
    ensures
        findings@ == findings_for(available, opt_text(home), opt_text(search_path)),
{
    let mut findings: Vec<DoctorFinding> = Vec::new();
    if !available {
        findings.push(DoctorFinding::DotnetMissing);
        assert(findings@ =~= seq![DoctorFinding::DotnetMissing]);
        return findings;
    }
    findings.push(DoctorFinding::DotnetAvailable);
    match (home, search_path) {
        (Some(h), Some(p)) => {
            let dir = join_path(h, ".dotnet");
            let finding = if search_path_lists(p, dir.as_str()) {
                DoctorFinding::SdkDirInPath
            } else {
                DoctorFinding::SdkDirNotInPath
            };
            findings.push(finding);
            assert(findings@ =~= seq![DoctorFinding::DotnetAvailable, finding]);
        },
        _ => {
            assert(findings@ =~= seq![DoctorFinding::DotnetAvailable]);
        },
    }
    findings
}

/// The line that opens the check.
pub fn doctor_heading() -> (r: &'static str)
    ensures
        r@ == "Checking for common issues..."@,
{
    "Checking for common issues..."
}

/// The line that tells a finding.
pub fn finding_text(finding: DoctorFinding) -> (r: &'static str)
    ensures
        r@ == (match finding {
            DoctorFinding::DotnetAvailable => "\u{2705} dotnet command is available in your PATH."@,
            DoctorFinding::DotnetMissing =>
                "\u{274c} dotnet command not found. Please install .NET and ensure PATH is correct."@,
            DoctorFinding::SdkDirInPath =>
                "\u{2705} .NET SDK installation directory is in your PATH."@,
            DoctorFinding::SdkDirNotInPath =>
                "\u{26a0}\u{fe0f} .NET SDK installation directory (~/.dotnet) might not be in PATH."@,
        }),
{
    match finding {
        DoctorFinding::DotnetAvailable => "\u{2705} dotnet command is available in your PATH.",
        DoctorFinding::DotnetMissing =>
            "\u{274c} dotnet command not found. Please install .NET and ensure PATH is correct.",
        DoctorFinding::SdkDirInPath => "\u{2705} .NET SDK installation directory is in your PATH.",
        DoctorFinding::SdkDirNotInPath =>
            "\u{26a0}\u{fe0f} .NET SDK installation directory (~/.dotnet) might not be in PATH.",
    }
}

} // verus!
