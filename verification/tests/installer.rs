use dver::installer::{
    failure_report, install_action, installed_report, installer_command, installer_file_name,
    installer_url, needs_executable_mode, push_decimal, script_path, unique_script_name,
    CommandLine, InstallAction, InstallRequest,
};
use dver::report::ReportLine;

fn request(lts: bool, version: Option<&str>, install_path: Option<&str>) -> InstallRequest {
    InstallRequest {
        lts,
        version: version.map(|v| v.to_string()),
        install_path: install_path.map(|p| p.to_string()),
    }
}

fn strings(items: &[&str]) -> Vec<String> {
    items.iter().map(|s| s.to_string()).collect()
}

fn diagnostic(text: &str) -> ReportLine {
    ReportLine { text: text.to_string(), diagnostic: true }
}

#[test]
fn script_follows_the_platform() {
    assert_eq!(
        installer_url(false),
        "https://dotnet.microsoft.com/download/dotnet/scripts/v1/dotnet-install.sh"
    );
    assert_eq!(
        installer_url(true),
        "https://dotnet.microsoft.com/download/dotnet/scripts/v1/dotnet-install.ps1"
    );
    assert_eq!(installer_file_name(false), "dotnet-install.sh");
    assert_eq!(installer_file_name(true), "dotnet-install.ps1");
    assert!(needs_executable_mode(false));
    assert!(!needs_executable_mode(true));
}

#[test]
fn decimal_numerals() {
    for n in [0u64, 7, 10, 42, 99, 100, 4321, 4294967295, u64::MAX] {
        let mut out = String::from("x");
        push_decimal(&mut out, n);
        assert_eq!(out, format!("x{}", n));
    }
}

#[test]
fn script_name_carries_the_process_identifier() {
    assert_eq!(unique_script_name(false, 4321), "dotnet-install.sh_4321");
    assert_eq!(unique_script_name(true, 0), "dotnet-install.ps1_0");
    assert_eq!(unique_script_name(false, u32::MAX), "dotnet-install.sh_4294967295");
    assert_eq!(script_path("/tmp", false, 17), "/tmp/dotnet-install.sh_17");
}

#[test]
fn command_on_unix() {
    assert_eq!(
        installer_command(false, "/tmp/dotnet-install.sh_1", &request(false, None, None)),
        CommandLine { program: "bash".to_string(), args: strings(&["/tmp/dotnet-install.sh_1"]) }
    );
}

#[test]
fn command_on_windows() {
    assert_eq!(
        installer_command(true, "C:\\t\\dotnet-install.ps1_1", &request(false, None, None)),
        CommandLine {
            program: "powershell".to_string(),
            args: strings(&[
                "-NoLogo",
                "-NoProfile",
                "-NonInteractive",
                "-ExecutionPolicy",
                "Bypass",
                "-File",
                "C:\\t\\dotnet-install.ps1_1",
            ]),
        }
    );
}

#[test]
fn command_names_channel_version_and_directory() {
    assert_eq!(
        installer_command(false, "s", &request(true, None, None)).args,
        strings(&["s", "-Channel", "LTS"])
    );
    assert_eq!(
        installer_command(false, "s", &request(false, Some("8.0.406"), None)).args,
        strings(&["s", "-Version", "8.0.406"])
    );
    assert_eq!(
        installer_command(false, "s", &request(true, Some("8.0.406"), None)).args,
        strings(&["s", "-Channel", "LTS"])
    );
    assert_eq!(
        installer_command(false, "s", &request(false, None, Some("/opt/dotnet"))).args,
        strings(&["s", "-InstallDir", "/opt/dotnet"])
    );
    assert_eq!(
        installer_command(false, "s", &request(false, Some("9.0.100"), Some("/opt/dotnet"))).args,
        strings(&["s", "-Version", "9.0.100", "-InstallDir", "/opt/dotnet"])
    );
}

#[test]
fn install_only_where_absent() {
    assert_eq!(install_action(true), InstallAction::ReportInstalled);
    assert_eq!(install_action(false), InstallAction::Install);
}

#[test]
fn installed_version_is_reported_trimmed() {
    assert_eq!(
        installed_report("8.0.406\n"),
        ReportLine { text: "Current version: 8.0.406".to_string(), diagnostic: false }
    );
}

#[test]
fn failure_is_reported_with_status_and_streams() {
    assert_eq!(
        failure_report(Some(1), " boom \n", "partial\n"),
        vec![
            diagnostic("dotnet-install script failed with status: Some(1)"),
            diagnostic("boom"),
            diagnostic("partial"),
        ]
    );
}

#[test]
fn failure_leaves_empty_streams_out() {
    assert_eq!(
        failure_report(None, "", ""),
        vec![diagnostic("dotnet-install script failed with status: None")]
    );
    assert_eq!(
        failure_report(Some(0), "", "out"),
        vec![diagnostic("dotnet-install script failed with status: Some(0)"), diagnostic("out")]
    );
    assert_eq!(
        failure_report(Some(2), " \n", ""),
        vec![diagnostic("dotnet-install script failed with status: Some(2)"), diagnostic("")]
    );
}

#[test]
fn failure_status_is_written_as_debug_writes_it() {
    for code in [Some(-1), Some(i32::MIN), Some(i32::MAX), Some(127), None] {
        assert_eq!(
            failure_report(code, "", "")[0].text,
            format!("dotnet-install script failed with status: {:?}", code)
        );
    }
}
