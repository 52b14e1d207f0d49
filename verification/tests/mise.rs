use upgate::domain::{PackageName, VersionText};
use upgate::mise::{
    complete_dry_run_items, complete_dry_run_items_without_installed_lookup,
    parse_upgrade_dry_run_targets, MiseError, MiseInstalledTool,
};

#[test]
fn parse_upgrade_dry_run_keeps_uninstall_install_pair_versions() {
    let items = complete_dry_run_items_without_installed_lookup(
        parse_upgrade_dry_run_targets("Would uninstall node@24.14.1\nWould install node@24.16.0\n")
            .expect("paired dry-run output should parse"),
    )
    .expect("paired dry-run targets should complete");

    assert_eq!(items.len(), 1);
    assert_eq!(items[0].tool.as_str(), "node");
    assert_eq!(items[0].from_version.as_str(), "24.14.1");
    assert_eq!(items[0].to_version.as_str(), "24.16.0");
}

#[test]
fn complete_install_only_dry_run_from_installed_tools() {
    let items = parse_upgrade_dry_run_targets(
        "Would install node@24.16.0\nWould install npm:@example-org/sample-cli@2.1.158\n",
    )
    .expect("install-only dry-run output should parse");
    let completed = complete_dry_run_items(
        items,
        vec![
            MiseInstalledTool {
                tool: PackageName::new("node").expect("valid package"),
                version: VersionText::new("24.14.1").expect("valid version"),
            },
            MiseInstalledTool {
                tool: PackageName::new("npm:@example-org/sample-cli").expect("valid package"),
                version: VersionText::new("2.1.156").expect("valid version"),
            },
        ],
    )
    .expect("install-only targets should complete from installed tools");

    assert_eq!(completed.len(), 2);
    assert_eq!(completed[0].tool.as_str(), "node");
    assert_eq!(completed[0].from_version.as_str(), "24.14.1");
    assert_eq!(completed[0].to_version.as_str(), "24.16.0");
    assert_eq!(completed[1].tool.as_str(), "npm:@example-org/sample-cli");
    assert_eq!(completed[1].from_version.as_str(), "2.1.156");
    assert_eq!(completed[1].to_version.as_str(), "2.1.158");
}

#[test]
fn malformed_recognized_dry_run_line_still_fails() {
    let err = parse_upgrade_dry_run_targets("Would install node\n")
        .expect_err("malformed install line should fail");

    assert!(matches!(err, MiseError::InvalidDryRun(_)));
    assert!(err.message().contains("invalid mise dry-run install line"));
}

#[test]
fn uninstall_without_matching_install_is_rejected() {
    let err = parse_upgrade_dry_run_targets("Would uninstall node@24.14.1\n")
        .expect_err("a lone uninstall line should fail");
    assert!(matches!(err, MiseError::InvalidDryRun(_)));
}

#[test]
fn install_only_item_without_installed_version_fails_to_complete() {
    let items = parse_upgrade_dry_run_targets("Would install node@24.16.0\n")
        .expect("install-only dry-run output should parse");
    assert_eq!(items.len(), 1);
    assert!(items[0].from_version.is_none());
    assert!(complete_dry_run_items_without_installed_lookup(items).is_err());
}

#[test]
fn unrelated_dry_run_lines_are_ignored() {
    let items = parse_upgrade_dry_run_targets("mise all tools are up to date\n\n")
        .expect("unrelated lines parse to nothing");
    assert!(items.is_empty());
}
