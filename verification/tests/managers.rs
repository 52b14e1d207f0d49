use upgate::bun::{
    bun_global_cwd, bun_release_lookup, list_command_outcome, packages_from_roots,
    reports_empty_global_install, time_map_to_timeline, BunError, BunViewOutcome,
};
use upgate::domain::{PackageName, VersionText};
use upgate::mise_metadata::{
    backend_matches, duration_arg, github_audit_subject, installed_tools_from_listing,
    pep440_versions_equivalent, semver_versions_equivalent, strip_backend_options, MiseLsEntry,
};
use upgate::pipx::{
    changes_package_source, is_bare_package_identity, newest_pypi_upload_timestamp,
    normalize_python_name, pipx_constraint, pypi_release_lookup, PipxInstalledPackage,
    PypiReleaseFile,
};
use upgate::platform_artifacts::is_platform_artifact_version;
use upgate::plan::SkipReason;
use upgate::release::ReleaseLookupResult;

fn pipx_package(args: &[&str]) -> PipxInstalledPackage {
    PipxInstalledPackage {
        name: PackageName::new("black").expect("valid package"),
        version: VersionText::new("24.1.0").expect("valid version"),
        package_or_url: Some("black".to_owned()),
        pip_args: args.iter().map(|a| (*a).to_owned()).collect(),
        pinned: false,
        locked: false,
        suffix: String::new(),
    }
}

fn rule_text(reason: SkipReason) -> String {
    match reason {
        SkipReason::ManagerRule(text) => text,
        SkipReason::Pinned => "pinned".to_owned(),
    }
}

#[test]
fn parse_installed_json_prefers_active_version() {
    let tools = installed_tools_from_listing(vec![(
        "node".to_owned(),
        vec![
            MiseLsEntry { version: Some("20.19.4".to_owned()), active: false },
            MiseLsEntry { version: Some("24.14.1".to_owned()), active: true },
            MiseLsEntry { version: Some("22.22.3".to_owned()), active: false },
        ],
    )])
    .expect("installed listing should read");

    assert_eq!(tools.len(), 1);
    assert_eq!(tools[0].tool.as_str(), "node");
    assert_eq!(tools[0].version.as_str(), "24.14.1");
}

#[test]
fn python_names_normalize_separators_and_case() {
    assert_eq!(normalize_python_name("Foo_Bar..baz"), "foo-bar-baz");
    assert_eq!(normalize_python_name("black"), "black");
    assert!(is_bare_package_identity("Black", "black"));
    assert!(!is_bare_package_identity("black==24.1", "black"));
    assert!(!is_bare_package_identity("git+https://x/black", "black"));
}

#[test]
fn package_source_options_are_recognized() {
    assert!(changes_package_source("-i"));
    assert!(changes_package_source("--index-url=https://example.test/simple"));
    assert!(changes_package_source("--no-index"));
    assert!(!changes_package_source("--pre"));
    assert!(!changes_package_source("--index-urlx"));
}

#[test]
fn pipx_constraint_reads_the_earliest_upload_cutoff() {
    let package = pipx_package(&[
        "--uploaded-prior-to",
        "2024-01-02T00:00:00Z",
        "--uploaded-prior-to=2024-01-01T00:00:00Z",
    ]);
    assert_eq!(pipx_constraint(&package).expect("constraint should read"), Some(1_704_067_200));
    assert_eq!(pipx_constraint(&pipx_package(&[])).expect("no constraint"), None);
}

#[test]
fn pipx_constraint_skips_unsupported_installations() {
    let mut pinned = pipx_package(&[]);
    pinned.pinned = true;
    assert!(matches!(pipx_constraint(&pinned), Err(SkipReason::Pinned)));

    let mut locked = pipx_package(&[]);
    locked.locked = true;
    assert_eq!(
        rule_text(pipx_constraint(&locked).unwrap_err()),
        "pipx package is controlled by a lock file"
    );

    let mut suffixed = pipx_package(&[]);
    suffixed.suffix = "@2".to_owned();
    assert_eq!(
        rule_text(pipx_constraint(&suffixed).unwrap_err()),
        "pipx package uses unsupported suffix `@2`"
    );

    let mut from_url = pipx_package(&[]);
    from_url.package_or_url = Some("https://example.test/black.tar.gz".to_owned());
    assert_eq!(
        rule_text(pipx_constraint(&from_url).unwrap_err()),
        "pipx package was installed from a URL, path, or versioned requirement"
    );

    assert_eq!(
        rule_text(pipx_constraint(&pipx_package(&["--uploaded-prior-to"])).unwrap_err()),
        "pipx has an incomplete --uploaded-prior-to constraint"
    );
    assert_eq!(
        rule_text(pipx_constraint(&pipx_package(&["--uploaded-prior-to=soon"])).unwrap_err()),
        "pipx has an invalid --uploaded-prior-to constraint `soon`"
    );
    assert_eq!(
        rule_text(pipx_constraint(&pipx_package(&["--find-links=/tmp"])).unwrap_err()),
        "pipx package uses unsupported package-source argument `--find-links=/tmp`"
    );
}

#[test]
fn newest_upload_prefers_iso_times_and_reports_bad_ones() {
    let files = vec![
        PypiReleaseFile {
            upload_time_iso_8601: Some("2024-01-01T00:00:00.000000Z".to_owned()),
            upload_time: None,
        },
        PypiReleaseFile {
            upload_time_iso_8601: Some("2024-01-03T00:00:00.000000Z".to_owned()),
            upload_time: Some("2024-01-02T00:00:00".to_owned()),
        },
    ];
    assert_eq!(
        newest_pypi_upload_timestamp("1.0", &files).expect("times should read"),
        Some("2024-01-03T00:00:00.000000Z".to_owned())
    );
    assert_eq!(newest_pypi_upload_timestamp("1.0", &[]).expect("no files"), None);
    let bad = vec![PypiReleaseFile { upload_time_iso_8601: Some("later".to_owned()), upload_time: None }];
    assert!(newest_pypi_upload_timestamp("1.0", &bad).is_err());
}

#[test]
fn pypi_lookup_builds_a_timeline_or_reports_why_not() {
    let package = PackageName::new("black").expect("valid package");
    let releases = vec![
        (
            "24.1.0".to_owned(),
            vec![PypiReleaseFile {
                upload_time_iso_8601: Some("2024-01-01T00:00:00Z".to_owned()),
                upload_time: None,
            }],
        ),
        ("24.2.0".to_owned(), Vec::new()),
    ];
    match pypi_release_lookup(&package, Ok(releases)) {
        ReleaseLookupResult::Known(timeline) => {
            assert_eq!(timeline.versions.len(), 1);
            assert_eq!(timeline.versions[0].version.as_str(), "24.1.0");
            assert_eq!(timeline.versions[0].published_at.unix_secs, 1_704_067_200);
        }
        other => panic!("unexpected lookup {other:?}"),
    }
    assert!(matches!(
        pypi_release_lookup(&package, Ok(vec![("1.0".to_owned(), Vec::new())])),
        ReleaseLookupResult::MissingMetadata
    ));
    match pypi_release_lookup(&package, Err("offline".to_owned())) {
        ReleaseLookupResult::LookupFailed(e) => assert_eq!(e.detail, "offline"),
        other => panic!("unexpected lookup {other:?}"),
    }
}

#[test]
fn bun_recognizes_an_empty_global_installation() {
    assert!(reports_empty_global_install("warn\nerror: missing lockfile, nothing to list\n"));
    assert!(reports_empty_global_install("  error: missing package.json  "));
    assert!(!reports_empty_global_install("{}"));
    assert_eq!(list_command_outcome(false, true, "", "error: missing package.json").unwrap(), true);
    assert_eq!(list_command_outcome(true, true, "{}", "").unwrap(), false);
    match list_command_outcome(false, false, "", "") {
        Err(BunError::Interrupted(d)) => assert_eq!(d, "bun pm ls -g --json failed (exit signal)"),
        other => panic!("unexpected outcome {other:?}"),
    }
    match list_command_outcome(false, true, "out", "  ") {
        Err(BunError::Infra(d)) => assert_eq!(d, "bun pm ls -g --json failed: out"),
        other => panic!("unexpected outcome {other:?}"),
    }
}

#[test]
fn bun_roots_list_each_package_once_by_name() {
    let packages = packages_from_roots(vec![
        vec![("zod".to_owned(), Some("3.0.0".to_owned())), ("alpha".to_owned(), Some("1.0.0".to_owned()))],
        vec![("zod".to_owned(), Some("3.1.0".to_owned()))],
    ])
    .expect("roots should read");
    assert_eq!(packages.len(), 2);
    assert_eq!(packages[0].name.as_str(), "alpha");
    assert_eq!(packages[1].name.as_str(), "zod");
    assert_eq!(packages[1].version.as_str(), "3.1.0");
}

#[test]
fn bun_time_map_skips_created_and_modified() {
    let package = PackageName::new("zod").expect("valid package");
    let timeline = time_map_to_timeline(
        &package,
        vec![
            ("created".to_owned(), "2020-01-01T00:00:00Z".to_owned()),
            ("1.0.0".to_owned(), "2024-01-01T00:00:00Z".to_owned()),
            ("modified".to_owned(), "2024-02-01T00:00:00Z".to_owned()),
        ],
    )
    .expect("time map should read");
    assert_eq!(timeline.versions.len(), 1);
    assert_eq!(timeline.versions[0].version.as_str(), "1.0.0");

    match time_map_to_timeline(&package, vec![("created".to_owned(), "2020-01-01T00:00:00Z".to_owned())]) {
        Err(BunError::MissingReleaseMetadata(m)) => {
            assert_eq!(m, "registry time metadata is empty for zod")
        }
        other => panic!("unexpected result {other:?}"),
    }
    assert!(matches!(
        bun_release_lookup(&package, BunViewOutcome::NoGlobalDir),
        Ok(ReleaseLookupResult::MissingMetadata)
    ));
    match bun_release_lookup(
        &package,
        BunViewOutcome::Fetched(Ok(vec![("1.0.0".to_owned(), "yesterday".to_owned())])),
    ) {
        Ok(ReleaseLookupResult::LookupFailed(e)) => {
            assert_eq!(e.detail, "invalid timestamp `yesterday` for version `1.0.0`")
        }
        other => panic!("unexpected result {other:?}"),
    }
}

#[test]
fn bun_global_directory_prefers_bun_install() {
    assert_eq!(
        bun_global_cwd(Some(" /opt/bun ".to_owned()), Some("/home/u".to_owned())),
        Some("/opt/bun/install/global".to_owned())
    );
    assert_eq!(
        bun_global_cwd(Some("  ".to_owned()), Some("/home/u".to_owned())),
        Some("/home/u/.bun/install/global".to_owned())
    );
    assert_eq!(bun_global_cwd(None, None), None);
}

#[test]
fn mise_versions_compare_up_to_a_v_prefix() {
    assert!(semver_versions_equivalent("v1.2.3", " 1.2.3 "));
    assert!(!semver_versions_equivalent("1.2.3", "1.2.4"));
    assert!(pep440_versions_equivalent("1.0", "1.0.0"));
    assert!(!pep440_versions_equivalent("1.0", "1.1"));
}

#[test]
fn mise_durations_use_the_largest_whole_unit() {
    assert_eq!(duration_arg(86_400), "1d");
    assert_eq!(duration_arg(7_200), "2h");
    assert_eq!(duration_arg(120), "2m");
    assert_eq!(duration_arg(61), "61s");
    assert_eq!(duration_arg(0), "0d");
}

#[test]
fn mise_backends_match_without_options() {
    assert_eq!(strip_backend_options("aqua:cli/cli[exe=gh]"), "aqua:cli/cli");
    assert!(backend_matches("aqua:cli/cli[exe=gh]", "aqua:cli/cli"));
    assert!(!backend_matches("aqua:cli/cli", "ubi:cli/cli"));
}

#[test]
fn github_repositories_become_git_audit_subjects() {
    let subject = github_audit_subject(" cli/cli.git ").expect("valid").expect("a subject");
    assert_eq!(subject.package_name.as_str(), "https://github.com/cli/cli.git");
    assert!(github_audit_subject("no-slash").expect("valid").is_none());
    assert!(github_audit_subject("a/b/c").expect("valid").is_none());
    assert!(github_audit_subject("/name").expect("valid").is_none());
}

#[test]
fn platform_artifact_versions_are_recognized() {
    assert!(is_platform_artifact_version("1.2.3-linux-x64"));
    assert!(!is_platform_artifact_version("1.2.3"));
}

fn main_package(name: &str, version: &str, args: &[&str]) -> upgate::pipx::PipxMainPackage {
    upgate::pipx::PipxMainPackage {
        package: name.to_owned(),
        package_version: version.to_owned(),
        package_or_url: Some(name.to_owned()),
        pip_args: args.iter().map(|a| (*a).to_owned()).collect(),
        pinned: false,
        locked: false,
        suffix: String::new(),
    }
}

#[test]
fn pipx_listing_keeps_the_first_environment_of_each_package() {
    let packages = upgate::pipx::packages_from_venvs(vec![
        main_package("ruff", "0.5.0", &[]),
        main_package("black", "24.1.0", &["--pre"]),
        main_package("black", "23.0.0", &[]),
    ])
    .expect("listing reads");
    assert_eq!(packages.len(), 2);
    assert_eq!(packages[0].name.as_str(), "black");
    assert_eq!(packages[0].version.as_str(), "24.1.0");
    assert_eq!(packages[0].pip_args, vec!["--pre".to_owned()]);
    assert_eq!(packages[1].name.as_str(), "ruff");

    match upgate::pipx::packages_from_venvs(vec![main_package("ruff", "0.5.0", &[]), main_package("x", " ", &[])]) {
        Err(upgate::pipx::PipxError::Domain(d)) => assert_eq!(d, "version text must not be empty"),
        other => panic!("unexpected result {other:?}"),
    }
}

#[test]
fn pipx_upload_cutoff_limits_the_versions_visible_to_planning() {
    let packages = upgate::pipx::packages_from_venvs(vec![upgate::pipx::PipxMainPackage {
        package: "pymobiledevice3".to_owned(),
        package_version: "9.7.3".to_owned(),
        package_or_url: Some("pymobiledevice3".to_owned()),
        pip_args: vec!["--uploaded-prior-to=2026-03-24T15:31:25Z".to_owned()],
        pinned: false,
        locked: false,
        suffix: String::new(),
    }])
    .expect("pipx listing should read");
    let releases = vec![
        (
            "10.10.0".to_owned(),
            vec![PypiReleaseFile { upload_time_iso_8601: Some("2026-03-20T00:00:00Z".to_owned()), upload_time: None }],
        ),
        (
            "10.11.5".to_owned(),
            vec![PypiReleaseFile { upload_time_iso_8601: Some("2026-04-01T00:00:00Z".to_owned()), upload_time: None }],
        ),
    ];
    let lookup = pypi_release_lookup(&packages[0].name, Ok(releases));
    let input = upgate::pipx::package_update_input(&packages[0], lookup)
        .expect("pipx metadata should produce a planning input");

    let upgate::plan::ManagerUpdateInput::Seed(seed) = &input else {
        panic!("expected an update seed");
    };
    assert_eq!(
        seed.target_selection.target_version().expect("known target").as_str(),
        "10.10.0"
    );
}

#[test]
fn bun_missing_global_lockfile_is_an_empty_installation() {
    let empty = list_command_outcome(
        false,
        true,
        "",
        "error: missing lockfile, nothing to list\nnote: run 'bun install' first",
    )
    .expect("an uninitialized Bun global directory should not be an error");
    let inputs: Vec<upgate::scan::ManagerScanInput> = if empty { Vec::new() } else { panic!("expected no listing") };
    assert!(inputs.is_empty());
}
