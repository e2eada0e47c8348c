use dver::listing::{installed_versions, text_precedes};

#[test]
fn versions_are_listed_once_in_ascending_order() {
    let listing = "9.0.100 [/usr/share/dotnet/sdk]\n8.0.406 [/usr/share/dotnet/sdk]\n9.0.100 [/opt/sdk]\n10.0.1 [/x]\n";
    assert_eq!(installed_versions(listing), vec!["10.0.1", "8.0.406", "9.0.100"]);
}

#[test]
fn blank_lines_list_nothing() {
    assert_eq!(installed_versions(""), Vec::<String>::new());
    assert_eq!(installed_versions("\n  \n\t\r\n"), Vec::<String>::new());
}

#[test]
fn lines_without_bracket_are_listed_too() {
    assert_eq!(installed_versions("  b rest\na\n"), vec!["a", "b"]);
}

#[test]
fn listing_agrees_with_sort_and_dedup() {
    let listing = "b\n\u{e9}\na\nB\nab\n\na\n\u{4e16} x\n\u{10348}\nzz\n\u{ff5e}\nb";
    let mut expected: Vec<String> = listing
        .lines()
        .filter_map(|line| line.split_whitespace().next().map(|s| s.to_string()))
        .collect();
    expected.sort();
    expected.dedup();
    assert_eq!(installed_versions(listing), expected);
}

#[test]
fn order_is_by_code_point_with_prefix_first() {
    assert!(text_precedes("", "a"));
    assert!(text_precedes("a", "ab"));
    assert!(text_precedes("10.0", "8.0"));
    assert!(text_precedes("B", "a"));
    assert!(!text_precedes("a", "a"));
    assert!(!text_precedes("", ""));
    assert!(!text_precedes("ab", "a"));
    assert!(!text_precedes("b", "a"));
}

#[test]
fn order_agrees_with_std() {
    let samples = ["", "a", "ab", "b", "8.0.406", "10.0", "\u{e9}", "\u{ff5e}", "\u{10348}", "B"];
    for a in samples {
        for b in samples {
            assert_eq!(text_precedes(a, b), a < b, "{:?} {:?}", a, b);
        }
    }
}
