use dver::report::{current_version_report, pin_report, ReportLine};

#[test]
fn current_version_is_reported_trimmed() {
    assert_eq!(
        current_version_report(true, "8.0.406\n", "ignored"),
        ReportLine { text: "Current dotnet version: 8.0.406".to_string(), diagnostic: false }
    );
    assert_eq!(
        current_version_report(true, "", ""),
        ReportLine { text: "Current dotnet version: ".to_string(), diagnostic: false }
    );
}

#[test]
fn failed_version_query_ends_with_the_tool_s_message() {
    assert_eq!(
        current_version_report(false, "8.0.406", "  no such command\n"),
        ReportLine {
            text: "Failed to get current dotnet version: no such command".to_string(),
            diagnostic: true
        }
    );
}

#[test]
fn failed_version_query_without_message() {
    assert_eq!(
        current_version_report(false, "8.0.406", " \n"),
        ReportLine { text: "Failed to get current dotnet version".to_string(), diagnostic: true }
    );
}

#[test]
fn pin_is_confirmed_with_the_quoted_path() {
    assert_eq!(
        pin_report("9.0.100", "/work/global.json"),
        ReportLine {
            text: "SDK version set to 9.0.100 in \"/work/global.json\"".to_string(),
            diagnostic: false
        }
    );
}
