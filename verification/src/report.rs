//! What the commands tell the user, line by line.

use crate::inventory::InstalledSdk;
use crate::paths::{quote_path, quoted_path};
use crate::removal::{RemovalOutcome, RemovalPlan};
use crate::text::{trim, trimmed};
use vstd::prelude::*;

verus! {

/// One line for the user.
#[derive(Debug, PartialEq, Eq)]
pub struct ReportLine {
    /// The text, without a line ending.
    pub text: String,
    /// Whether the line is a diagnostic, for the error stream, and not a
    /// result, for the output stream.
    pub diagnostic: bool,
}

/// The line for a target that was removed.
pub open spec fn removed_text(version: Seq<char>) -> Seq<char> {
    "Removed "@ + version
}

/// The line for a target whose directory was already absent.
pub open spec fn not_found_text(version: Seq<char>) -> Seq<char> {
    "Directory for "@ + version + " not found"@
}

/// The line for a target that lies outside every root.
pub open spec fn skipped_text(version: Seq<char>, path: Seq<char>) -> Seq<char> {
    "Skipping "@ + version + ": path "@ + quoted_path(path) + " outside known SDK roots"@
}

/// The line for a target whose deletion failed.
pub open spec fn failed_text(version: Seq<char>, cause: Seq<char>) -> Seq<char> {
    "Failed to remove "@ + version + ": "@ + cause
}

/// The line that tells how the removal of `sdk` ended. Removals and absent
/// directories are results; skipped and failed targets are diagnostics.
pub fn removal_report(outcome: &RemovalOutcome, sdk: &InstalledSdk) -> (line: ReportLine)
    ensures
        line.text@ == (match *outcome {
            RemovalOutcome::Removed => removed_text(sdk.version@),
            RemovalOutcome::NotFound => not_found_text(sdk.version@),
            RemovalOutcome::SkippedUnsafe => skipped_text(sdk.version@, sdk.install_path@),
            RemovalOutcome::Failed(cause) => failed_text(sdk.version@, cause@),
        }),
        line.diagnostic == (*outcome is SkippedUnsafe || *outcome is Failed),
{
    let version = sdk.version.as_str();
    match outcome {
        RemovalOutcome::Removed => {
            let mut text = "Removed ".to_owned();
            text.append(version);
            ReportLine { text, diagnostic: false }
        },
        RemovalOutcome::NotFound => {
            let mut text = "Directory for ".to_owned();
            text.append(version);
            text.append(" not found");
            ReportLine { text, diagnostic: false }
        },
        RemovalOutcome::SkippedUnsafe => {
            let quoted = quote_path(sdk.install_path.as_str());
            let mut text = "Skipping ".to_owned();
            text.append(version);
            text.append(": path ");
            text.append(quoted.as_str());
            text.append(" outside known SDK roots");
            ReportLine { text, diagnostic: true }
        },
        RemovalOutcome::Failed(cause) => {
            let mut text = "Failed to remove ".to_owned();
            text.append(version);
            text.append(": ");
            text.append(cause.as_str());
            ReportLine { text, diagnostic: true }
        },
    }
}

/// The line for a plan that removes nothing, or `None` for one that has
/// targets: a request that names nothing is told to name something, on the
/// error stream; a selector without a match is reported as a result.
pub fn plan_notice(plan: &RemovalPlan) -> (line: Option<ReportLine>)
    ensures
        match *plan {
            RemovalPlan::NothingRequested => line matches Some(l) && l.diagnostic && l.text@
                == "Provide a version or --all to uninstall."@,
            RemovalPlan::NoMatch => line matches Some(l) && !l.diagnostic && l.text@
                == "No matching SDKs found."@,
            RemovalPlan::Remove(_) => line is None,
        },
{
    match plan {
        RemovalPlan::NothingRequested => Some(
            ReportLine {
                text: "Provide a version or --all to uninstall.".to_owned(),
                diagnostic: true,
            },
        ),
        RemovalPlan::NoMatch => Some(
            ReportLine { text: "No matching SDKs found.".to_owned(), diagnostic: false },
        ),
        RemovalPlan::Remove(_) => None,
    }
}

/// The line for the active version: the tool's output without surrounding
/// white space where the query succeeded; where it failed, a diagnostic that
/// ends with the tool's own message if it left one.
pub open spec fn current_version_text(success: bool, stdout: Seq<char>, stderr: Seq<char>) -> Seq<
    char,
> {
    if success {
        "Current dotnet version: "@ + trim(stdout)
    } else if trim(stderr).len() == 0 {
        "Failed to get current dotnet version"@
    } else {
        "Failed to get current dotnet version"@ + ": "@ + trim(stderr)
    }
}

/// The line that reports the active version, from what the version query
/// gave back.
pub fn current_version_report(success: bool, stdout: &str, stderr: &str) -> (line: ReportLine)
    ensures
        line.text@ == current_version_text(success, stdout@, stderr@),
        line.diagnostic == !success,
{
    if success {
        let mut text = "Current dotnet version: ".to_owned();
        text.append(trimmed(stdout).as_str());
        ReportLine { text, diagnostic: false }
    } else {
        let cause = trimmed(stderr);
        let mut text = "Failed to get current dotnet version".to_owned();
        if cause.as_str().unicode_len() > 0 {
            text.append(": ");
            text.append(cause.as_str());
        }
        ReportLine { text, diagnostic: true }
    }
}

/// The line that confirms a pin.
pub fn pin_report(version: &str, target: &str) -> (line: ReportLine)
    ensures
        line.text@ == "SDK version set to "@ + version@ + " in "@ + quoted_path(target@),
        !line.diagnostic,
{
    let mut text = "SDK version set to ".to_owned();
    text.append(version);
    text.append(" in ");
    text.append(quote_path(target).as_str());
    ReportLine { text, diagnostic: false }
}

} // verus!
