use dver::inventory::InstalledSdk;
use dver::selector::{select_targets, VersionSelector};

fn entry(version: &str) -> InstalledSdk {
    InstalledSdk {
        version: version.to_string(),
        install_path: format!("/usr/share/dotnet/sdk/{}", version),
    }
}

fn versions(targets: &Vec<InstalledSdk>) -> Vec<String> {
    targets.iter().map(|t| t.version.clone()).collect()
}

#[test]
fn text_with_a_dot_is_a_full_version() {
    assert_eq!(VersionSelector::parse("8.0.406"), VersionSelector::Exact("8.0.406".to_string()));
    assert_eq!(VersionSelector::parse("8.0"), VersionSelector::Exact("8.0".to_string()));
    assert_eq!(VersionSelector::parse("."), VersionSelector::Exact(".".to_string()));
}

#[test]
fn text_without_a_dot_is_a_major_number() {
    assert_eq!(VersionSelector::parse("8"), VersionSelector::MajorPrefix("8".to_string()));
    assert_eq!(VersionSelector::parse("abc"), VersionSelector::MajorPrefix("abc".to_string()));
    assert_eq!(VersionSelector::parse(""), VersionSelector::MajorPrefix(String::new()));
}

#[test]
fn request_for_all_wins_over_a_version() {
    assert_eq!(VersionSelector::from_request(None, true), Some(VersionSelector::All));
    assert_eq!(VersionSelector::from_request(Some("8.0.406"), true), Some(VersionSelector::All));
}

#[test]
fn request_with_a_version_reads_it() {
    assert_eq!(
        VersionSelector::from_request(Some("8.0.406"), false),
        Some(VersionSelector::Exact("8.0.406".to_string()))
    );
    assert_eq!(
        VersionSelector::from_request(Some("8"), false),
        Some(VersionSelector::MajorPrefix("8".to_string()))
    );
}

#[test]
fn request_with_neither_names_nothing() {
    assert_eq!(VersionSelector::from_request(None, false), None);
}

#[test]
fn exact_matches_equal_text_only() {
    let s = VersionSelector::Exact("8.0.4".to_string());
    assert!(s.matches("8.0.4"));
    assert!(!s.matches("8.0.406"));
    assert!(!s.matches("8.0"));
    assert!(!s.matches("18.0.4"));
    assert!(!s.matches(""));
}

#[test]
fn exact_is_case_sensitive() {
    let s = VersionSelector::Exact("9.0.100-RC.1".to_string());
    assert!(s.matches("9.0.100-RC.1"));
    assert!(!s.matches("9.0.100-rc.1"));
}

#[test]
fn major_matches_number_and_dot() {
    let s = VersionSelector::MajorPrefix("8".to_string());
    assert!(s.matches("8.0.406"));
    assert!(s.matches("8.1.0"));
    assert!(s.matches("8."));
    assert!(!s.matches("18.0.0"));
    assert!(!s.matches("8"));
    assert!(!s.matches("80.0.0"));
    assert!(!s.matches(""));
}

#[test]
fn all_matches_everything() {
    assert!(VersionSelector::All.matches("8.0.406"));
    assert!(VersionSelector::All.matches(""));
}

#[test]
fn selection_keeps_inventory_order_and_duplicates() {
    let inventory =
        vec![entry("8.0.406"), entry("9.0.100"), entry("8.1.0"), entry("18.0.0"), entry("8.0.406")];
    let major = select_targets(&inventory, &VersionSelector::MajorPrefix("8".to_string()));
    assert_eq!(versions(&major), vec!["8.0.406", "8.1.0", "8.0.406"]);
    let exact = select_targets(&inventory, &VersionSelector::Exact("8.0.406".to_string()));
    assert_eq!(versions(&exact), vec!["8.0.406", "8.0.406"]);
    assert_eq!(exact[0], inventory[0]);
    let all = select_targets(&inventory, &VersionSelector::All);
    assert_eq!(all, inventory);
}

#[test]
fn selection_may_be_empty() {
    let inventory = vec![entry("8.0.406")];
    let none = select_targets(&inventory, &VersionSelector::Exact("8.0".to_string()));
    assert!(none.is_empty());
    let empty: Vec<InstalledSdk> = Vec::new();
    assert!(select_targets(&empty, &VersionSelector::All).is_empty());
}
