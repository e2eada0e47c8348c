use dver::doctor::{
    doctor_findings, doctor_heading, finding_text, home_variable, search_path_lists, DoctorFinding,
};

#[test]
fn home_variable_follows_the_platform() {
    assert_eq!(home_variable(false), "HOME");
    assert_eq!(home_variable(true), "USERPROFILE");
}

#[test]
fn without_the_tool_nothing_else_is_looked_at() {
    assert_eq!(
        doctor_findings(false, Some("/home/u"), Some("/home/u/.dotnet")),
        vec![DoctorFinding::DotnetMissing]
    );
    assert_eq!(doctor_findings(false, None, None), vec![DoctorFinding::DotnetMissing]);
}

#[test]
fn sdk_directory_on_the_search_path() {
    assert_eq!(
        doctor_findings(true, Some("/home/u"), Some("/usr/bin:/home/u/.dotnet:/bin")),
        vec![DoctorFinding::DotnetAvailable, DoctorFinding::SdkDirInPath]
    );
    assert_eq!(
        doctor_findings(true, Some("/home/u/"), Some("/home/u/.dotnet/")),
        vec![DoctorFinding::DotnetAvailable, DoctorFinding::SdkDirInPath]
    );
}

#[test]
fn sdk_directory_off_the_search_path() {
    assert_eq!(
        doctor_findings(true, Some("/home/u"), Some("/usr/bin:/home/u/.dotnet/tools:/bin")),
        vec![DoctorFinding::DotnetAvailable, DoctorFinding::SdkDirNotInPath]
    );
    assert_eq!(
        doctor_findings(true, Some("/home/u"), Some("")),
        vec![DoctorFinding::DotnetAvailable, DoctorFinding::SdkDirNotInPath]
    );
}

#[test]
fn unknown_home_or_search_path_ends_the_check() {
    assert_eq!(doctor_findings(true, None, Some("/bin")), vec![DoctorFinding::DotnetAvailable]);
    assert_eq!(doctor_findings(true, Some("/home/u"), None), vec![DoctorFinding::DotnetAvailable]);
    assert_eq!(doctor_findings(true, None, None), vec![DoctorFinding::DotnetAvailable]);
}

#[test]
fn search_path_entries_are_compared_as_paths() {
    assert!(search_path_lists("/a:/b/c", "/b/c"));
    assert!(search_path_lists("/a:/b//c/", "/b/c"));
    assert!(!search_path_lists("/a:/b/c/d", "/b/c"));
    assert!(!search_path_lists("/a:/b", "/b/c"));
    assert!(search_path_lists("", ""));
}

#[test]
fn findings_are_told_in_words() {
    assert_eq!(doctor_heading(), "Checking for common issues...");
    assert_eq!(
        finding_text(DoctorFinding::DotnetAvailable),
        "\u{2705} dotnet command is available in your PATH."
    );
    assert_eq!(
        finding_text(DoctorFinding::DotnetMissing),
        "\u{274c} dotnet command not found. Please install .NET and ensure PATH is correct."
    );
    assert_eq!(
        finding_text(DoctorFinding::SdkDirInPath),
        "\u{2705} .NET SDK installation directory is in your PATH."
    );
    assert_eq!(
        finding_text(DoctorFinding::SdkDirNotInPath),
        "\u{26a0}\u{fe0f} .NET SDK installation directory (~/.dotnet) might not be in PATH."
    );
}
