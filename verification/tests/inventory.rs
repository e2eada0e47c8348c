use dver::inventory::{parse_sdk_line, parse_sdk_list, InstalledSdk};

fn sdk(version: &str, install_path: &str) -> InstalledSdk {
    InstalledSdk { version: version.to_string(), install_path: install_path.to_string() }
}

#[test]
fn well_formed_line_gives_one_record() {
    assert_eq!(
        parse_sdk_line("8.0.406 [/usr/share/dotnet/sdk]"),
        Some(sdk("8.0.406", "/usr/share/dotnet/sdk/8.0.406"))
    );
}

#[test]
fn install_path_is_joined_not_concatenated() {
    assert_eq!(
        parse_sdk_line("8.0.406 [/usr/share/dotnet/sdk/]"),
        Some(sdk("8.0.406", "/usr/share/dotnet/sdk/8.0.406"))
    );
}

#[test]
fn surrounding_white_space_is_dropped() {
    assert_eq!(
        parse_sdk_line("  \t9.0.100   [  /opt/dotnet/sdk  ]  \r"),
        Some(sdk("9.0.100", "/opt/dotnet/sdk/9.0.100"))
    );
}

#[test]
fn tokens_after_the_version_are_ignored() {
    assert_eq!(
        parse_sdk_line("9.0.100 preview x64 [/opt/dotnet/sdk]"),
        Some(sdk("9.0.100", "/opt/dotnet/sdk/9.0.100"))
    );
}

#[test]
fn base_may_hold_spaces_and_brackets_inside() {
    assert_eq!(
        parse_sdk_line("8.0.1 [/opt/my sdks/[x]/sdk]"),
        Some(sdk("8.0.1", "/opt/my sdks/[x]/sdk/8.0.1"))
    );
}

#[test]
fn one_closing_bracket_at_the_end_is_dropped() {
    assert_eq!(parse_sdk_line("8.0.1 [/a]]"), Some(sdk("8.0.1", "/a]/8.0.1")));
    assert_eq!(parse_sdk_line("8.0.1 [/opt/sdk]]]"), Some(sdk("8.0.1", "/opt/sdk]]/8.0.1")));
    assert_eq!(parse_sdk_line("8.0.1 [/opt/sdk ] ]"), Some(sdk("8.0.1", "/opt/sdk ]/8.0.1")));
    assert_eq!(parse_sdk_line("8.0.1 [/opt/sdk"), Some(sdk("8.0.1", "/opt/sdk/8.0.1")));
    assert_eq!(parse_sdk_line("8.0.1 [/opt/sdk ]"), Some(sdk("8.0.1", "/opt/sdk/8.0.1")));
}

#[test]
fn line_without_bracket_gives_nothing() {
    assert_eq!(parse_sdk_line("8.0.406 /usr/share/dotnet/sdk"), None);
    assert_eq!(parse_sdk_line(""), None);
    assert_eq!(parse_sdk_line("No SDKs were found."), None);
}

#[test]
fn line_without_version_gives_nothing() {
    assert_eq!(parse_sdk_line("[/usr/share/dotnet/sdk]"), None);
    assert_eq!(parse_sdk_line("   [/usr/share/dotnet/sdk]"), None);
}

#[test]
fn line_without_base_gives_nothing() {
    assert_eq!(parse_sdk_line("8.0.406 ["), None);
    assert_eq!(parse_sdk_line("8.0.406 []"), None);
    assert_eq!(parse_sdk_line("8.0.406 [  ]  "), None);
    assert_eq!(parse_sdk_line("8.0.406 [ ] "), None);
}

#[test]
fn brackets_left_after_the_first_are_the_base() {
    assert_eq!(parse_sdk_line("8.0.406 [ ]]] "), Some(sdk("8.0.406", "]]/8.0.406")));
}

#[test]
fn listing_keeps_line_order_and_duplicates() {
    let text = "9.0.100 [/usr/share/dotnet/sdk]\n8.0.406 [/opt/dotnet/sdk]\n9.0.100 [/usr/share/dotnet/sdk]\n";
    assert_eq!(
        parse_sdk_list(text),
        vec![
            sdk("9.0.100", "/usr/share/dotnet/sdk/9.0.100"),
            sdk("8.0.406", "/opt/dotnet/sdk/8.0.406"),
            sdk("9.0.100", "/usr/share/dotnet/sdk/9.0.100"),
        ]
    );
}

#[test]
fn malformed_lines_do_not_stop_the_listing() {
    let text = "garbage\n8.0.406 [/usr/share/dotnet/sdk]\n\n [/x]\n7.0.0 [\r\n9.0.100 [/usr/share/dotnet/sdk]\r\n";
    assert_eq!(
        parse_sdk_list(text),
        vec![
            sdk("8.0.406", "/usr/share/dotnet/sdk/8.0.406"),
            sdk("9.0.100", "/usr/share/dotnet/sdk/9.0.100"),
        ]
    );
}

#[test]
fn empty_listing_gives_no_record() {
    assert_eq!(parse_sdk_list(""), Vec::<InstalledSdk>::new());
    assert_eq!(parse_sdk_list("\n\n"), Vec::<InstalledSdk>::new());
}

#[test]
fn two_listings_one_below_the_other_give_both_inventories() {
    let first = "8.0.406 [/a]\nbad line";
    let second = "9.0.100 [/b]\n8.0.406 [/a]";
    let mut expected = parse_sdk_list(first);
    expected.extend(parse_sdk_list(second));
    assert_eq!(parse_sdk_list(&format!("{}\n{}", first, second)), expected);
    assert_eq!(expected.len(), 3);
}

#[test]
fn duplicate_keeps_both_fields() {
    let a = sdk("8.0.406", "/usr/share/dotnet/sdk/8.0.406");
    assert_eq!(a.duplicate(), a);
}
