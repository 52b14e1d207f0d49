use upgate::adapter::{available_manager_ids, ensure_known_manager, ManagerAdapterError, ManagerAdapterErrorKind};
use upgate::audit::{
    audit_result_from_osv, osv_query, parse_batch_response, AuditError, AuditService, OsvVulnerability,
};
use upgate::cli::{
    check_run_arguments, cli_run_result, live_selection_result, live_selection_step, logging_failure_is_fatal,
    manager_mode_allows_run, map_manager_error, reported_command_log_dir, selected_manager_ids,
    with_success_suggestion, AppError, CliCommand, CliRunResult, LiveSelectionStep, ManagerMode,
};
use upgate::cli::{default_manager_mode, manager_batch_step, refused_apply_error, ManagerBatchStep};
use upgate::evaluate::newest_eligible_index;
use upgate::selection::SelectedItem;
use upgate::versions::VersionOrder;
use upgate::domain::ManagerId;
use upgate::plan::UpdatePlan;
use upgate::screen::{InteractiveManagerSelectionDraft, InteractiveSelectionOutcome};
use upgate::selection::UpdateSelectionPolicy;
use upgate::domain::{AuditLookupResult, AuditPackageName, AuditQuery, AuditSubject, OsvEcosystem, VersionText};
use upgate::infra::{
    command_failure_message, effective_parallelism, status_allowed, Clock, CommandCheck, MutationMode,
};
use upgate::release::{
    age_since, newest_pep440_version, newest_semver_version, release_evidence_for_version, ReleaseEntry,
    ReleaseTimeline, ReleaseTimestamp,
};
use upgate::timestamps::{
    parse_mise_timestamp, parse_registry_timestamp, read_release_times, timestamp_missing_timezone, TimeFormat,
};

fn query(name: &str, version: &str) -> AuditQuery {
    AuditQuery::new(
        AuditSubject::new(OsvEcosystem::Npm, AuditPackageName::new(name).expect("valid name")),
        VersionText::new(version).expect("valid version"),
    )
}

fn vulnerability(id: &str) -> OsvVulnerability {
    OsvVulnerability {
        id: id.to_owned(),
        aliases: vec!["CVE-1".to_owned()],
        summary: Some("bad".to_owned()),
        severity_scores: Vec::new(),
        database_severity: Some("HIGH".to_owned()),
        reference_urls: vec![None, Some("https://example.test/advisory".to_owned())],
    }
}

fn timeline(entries: &[(&str, i64)]) -> ReleaseTimeline {
    ReleaseTimeline::new(
        entries
            .iter()
            .map(|(v, t)| ReleaseEntry::new(VersionText::new(v).expect("valid version"), ReleaseTimestamp::new(*t)))
            .collect(),
    )
}

#[test]
fn osv_queries_carry_the_ecosystem_name() {
    let q = osv_query(&query("left-pad", "1.0.0"));
    assert_eq!(q.package_name, "left-pad");
    assert_eq!(q.version, "1.0.0");
    assert_eq!(q.ecosystem, "npm");
}

#[test]
fn osv_results_become_findings() {
    assert!(matches!(audit_result_from_osv(Vec::new()), AuditLookupResult::Clean));
    match audit_result_from_osv(vec![vulnerability("GHSA-1")]) {
        AuditLookupResult::Vulnerable { findings } => {
            assert_eq!(findings.len(), 1);
            assert_eq!(findings[0].id, "GHSA-1");
            assert_eq!(findings[0].severity.as_deref(), Some("HIGH"));
            assert_eq!(findings[0].references, vec!["https://example.test/advisory".to_owned()]);
        }
        other => panic!("unexpected answer {other:?}"),
    }
}

#[test]
fn batch_response_must_answer_every_query() {
    let queries = vec![query("a", "1.0.0"), query("b", "2.0.0")];
    match parse_batch_response(&queries, vec![Vec::new()]) {
        Err(AuditError::Json(d)) => assert_eq!(d, "OSV returned 1 results for 2 queries"),
        other => panic!("unexpected response {other:?}"),
    }
    let answers = parse_batch_response(&queries, vec![Vec::new(), vec![vulnerability("X")]])
        .expect("counts match");
    assert_eq!(answers.len(), 2);
    assert!(matches!(answers[0].1, AuditLookupResult::Clean));
    assert!(matches!(answers[1].1, AuditLookupResult::Vulnerable { .. }));
}

#[test]
fn audit_service_asks_only_for_unanswered_queries() {
    let mut service = AuditService::new("https://api.osv.dev".to_owned(), 0);
    assert_eq!(service.max_concurrency(), 1);
    assert_eq!(service.base_url_str(), "https://api.osv.dev");
    let requested = AuditService::requested(vec![query("b", "1.0.0"), query("a", "1.0.0"), query("b", "1.0.0")]);
    assert_eq!(requested.len(), 2);
    assert_eq!(service.missing_chunks(&requested).len(), 1);
    service.record(vec![(query("a", "1.0.0"), AuditLookupResult::Clean)]);
    let missing = service.missing_chunks(&requested);
    assert_eq!(missing.len(), 1);
    assert_eq!(missing[0].len(), 1);
    let answers = service.answers(&requested);
    assert_eq!(answers.entries.len(), 1);

    let chunk = missing.into_iter().next().expect("one chunk");
    service.record(upgate::audit::chunk_answers(chunk, Err(AuditError::Infra("offline".to_owned()))));
    assert!(service.missing_chunks(&requested).is_empty());
    let answers = service.answers(&requested);
    assert_eq!(answers.entries.len(), 2);
    assert!(matches!(answers.get(&query("a", "1.0.0")), Some(AuditLookupResult::Clean)));
    assert!(matches!(
        answers.get(&query("b", "1.0.0")),
        Some(AuditLookupResult::LookupFailed { detail }) if detail == "offline"
    ));
}

#[test]
fn run_arguments_gate_interactive_apply() {
    match check_run_arguments(Some(CliCommand::Plan), true, true, true) {
        Err(AppError::InvalidArgs(d)) => assert_eq!(d, "--yolo is only supported with apply"),
        other => panic!("unexpected {other:?}"),
    }
    match check_run_arguments(None, false, true, false) {
        Err(AppError::InvalidArgs(d)) => {
            assert_eq!(d, "interactive apply requires a TTY; use --yolo for non-interactive apply")
        }
        other => panic!("unexpected {other:?}"),
    }
    assert!(matches!(check_run_arguments(None, false, true, true), Ok(true)));
    assert!(matches!(check_run_arguments(Some(CliCommand::Apply), true, false, false), Ok(false)));
    assert!(matches!(check_run_arguments(Some(CliCommand::Scan), false, false, false), Ok(false)));
}

#[test]
fn manager_modes_and_logging() {
    assert!(!manager_mode_allows_run(ManagerMode::Off, false));
    assert!(manager_mode_allows_run(ManagerMode::Plan, false));
    assert!(!manager_mode_allows_run(ManagerMode::Plan, true));
    assert!(manager_mode_allows_run(ManagerMode::Apply, true));
    assert!(logging_failure_is_fatal(false, CliCommand::Apply));
    assert!(!logging_failure_is_fatal(false, CliCommand::Plan));
    assert_eq!(reported_command_log_dir(false, Some("/tmp/l".to_owned())), None);
    assert_eq!(reported_command_log_dir(true, Some("/tmp/l".to_owned())), Some("/tmp/l".to_owned()));
}

#[test]
fn successful_runs_suggest_the_next_command() {
    assert_eq!(
        with_success_suggestion("table".to_owned(), CliCommand::Scan),
        "table\nTo preview available updates, run:\nupgate plan\n\nTo choose updates interactively, run:\nupgate apply\n"
    );
    assert_eq!(with_success_suggestion("done".to_owned(), CliCommand::Apply), "done");
}

#[test]
fn selected_managers_are_checked_and_deduplicated() {
    let all = selected_manager_ids(&[]).expect("defaults");
    assert_eq!(all.len(), available_manager_ids().len());
    let ids = selected_manager_ids(&["npm".to_owned(), "pipx".to_owned(), "npm".to_owned()]).expect("known");
    assert_eq!(ids.len(), 2);
    assert_eq!(ids[0].as_str(), "npm");
    assert_eq!(ids[1].as_str(), "pipx");
    match selected_manager_ids(&["zypper".to_owned()]) {
        Err(AppError::Manager(d)) => assert_eq!(d, "unknown manager `zypper`"),
        other => panic!("unexpected {other:?}"),
    }
    assert!(ensure_known_manager("mise").is_ok());
    assert!(ensure_known_manager("apt").is_err());
}

#[test]
fn adapter_failures_map_to_app_errors() {
    let interrupted = ManagerAdapterError::Manager {
        kind: ManagerAdapterErrorKind::Interrupted,
        detail: "stopped".to_owned(),
    };
    assert!(matches!(map_manager_error(interrupted), AppError::Interrupted(d) if d == "stopped"));
    let parse = ManagerAdapterError::Manager { kind: ManagerAdapterErrorKind::Parse, detail: "bad".to_owned() };
    assert!(matches!(map_manager_error(parse), AppError::Manager(d) if d == "bad"));
}

#[test]
fn command_status_checks() {
    assert!(status_allowed(true, Some(0), &CommandCheck::Success));
    assert!(!status_allowed(false, Some(1), &CommandCheck::Success));
    assert!(status_allowed(false, Some(1), &CommandCheck::Allow(vec![1])));
    assert!(!status_allowed(false, None, &CommandCheck::Allow(vec![1])));
    assert!(status_allowed(false, None, &CommandCheck::IgnoreStatus));
    assert_eq!(MutationMode::from_dry_run(true), MutationMode::Skip);
}

#[test]
fn command_failures_read_with_code_and_stderr() {
    assert_eq!(command_failure_message("npm ls", Some(1), " boom \n"), "npm ls failed (exit 1): boom");
    assert_eq!(command_failure_message("npm ls", Some(-2), ""), "npm ls failed (exit -2)");
    assert_eq!(command_failure_message("npm ls", None, "  "), "npm ls failed (exit signal)");
}

#[test]
fn parallelism_stays_between_one_and_the_manager_cap() {
    assert_eq!(effective_parallelism(0, 4), 1);
    assert_eq!(effective_parallelism(8, 4), 4);
    assert_eq!(effective_parallelism(3, 4), 3);
    assert_eq!(effective_parallelism(3, 0), 1);
    assert_eq!(Clock::fixed(42).now(), 42);
}

#[test]
fn newest_release_is_the_latest_published() {
    let t = timeline(&[("1.10.0", 10), ("1.9.0", 20), ("not-a-version", 30)]);
    assert_eq!(newest_semver_version(&t).expect("a version").as_str(), "1.9.0");
    let tie = timeline(&[("1.2.0", 5), ("1.10.0", 5), ("v1.3", 4)]);
    assert_eq!(newest_semver_version(&tie).expect("a version").as_str(), "1.10.0");
    assert!(newest_semver_version(&timeline(&[("latest", 1)])).is_none());
    let p = timeline(&[("2.0", 1), ("2.0.post1", 2), ("10.0b1", 3)]);
    assert_eq!(newest_pep440_version(&p).expect("a version").as_str(), "10.0b1");
}

#[test]
fn releases_before_1970_keep_their_order_by_date() {
    let t = timeline(&[("1.0.0", -100), ("0.9.0", -10)]);
    assert_eq!(newest_semver_version(&t).expect("a version").as_str(), "0.9.0");
    assert_eq!(age_since(ReleaseTimestamp::new(-100), 50), 150);
    assert_eq!(age_since(ReleaseTimestamp::new(60), 50), 0);
    assert_eq!(age_since(ReleaseTimestamp::new(i64::MIN), u64::MAX), u64::MAX);
    let times = vec![("1.0.0".to_owned(), "1969-12-31T23:59:00Z".to_owned())];
    let entries = read_release_times(TimeFormat::Registry, &times).expect("readable");
    assert_eq!(entries[0].published_at.unix_secs, -60);
}

#[test]
fn release_evidence_is_found_by_version() {
    let t = timeline(&[("1.0.0", 10), ("1.1.0", 20)]);
    let e = release_evidence_for_version(&t, &VersionText::new("1.1.0").expect("valid")).expect("found");
    assert_eq!(e.published_at.unix_secs, 20);
    assert!(release_evidence_for_version(&t, &VersionText::new("2.0.0").expect("valid")).is_none());
}

#[test]
fn registry_and_mise_timestamps_parse() {
    let t = parse_registry_timestamp("2024-01-01T00:00:00.000Z").expect("rfc3339");
    assert_eq!(t.secs, 1_704_067_200);
    assert!(parse_registry_timestamp("2024-01-01").is_none());
    assert!(timestamp_missing_timezone(&"2024-01-01T00:00:00".chars().collect::<Vec<_>>()));
    assert!(!timestamp_missing_timezone(&"2024-01-01T00:00:00Z".chars().collect::<Vec<_>>()));
    let m = parse_mise_timestamp("2024-01-01T00:00:00").expect("naive time read as UTC");
    assert_eq!(m.secs, 1_704_067_200);
}

#[test]
fn manager_results_are_gathered_in_order() {
    let ok = upgate::cli::ManagerBatchOutput {
        table: upgate::batch::manager_error_table(&upgate::domain::ManagerId::new("npm").expect("valid id"), "x", "y"),
        failed: false,
    };
    let outputs = vec![
        (upgate::domain::ManagerId::new("npm").expect("valid id"), Ok(ok)),
        (upgate::domain::ManagerId::new("pipx").expect("valid id"), Err(AppError::Manager("boom".to_owned()))),
    ];
    let (table, failed) = upgate::cli::collect_manager_outputs(outputs, "plan").expect("no interruption");
    assert!(failed);
    assert_eq!(table.rows.len(), 2);
    assert_eq!(table.rows[1].notes[0].text, "plan failed: boom");

    let stopped = upgate::cli::collect_manager_outputs(
        vec![
            (upgate::domain::ManagerId::new("npm").expect("valid id"), Err(AppError::Interrupted("ctrl-c".to_owned()))),
            (upgate::domain::ManagerId::new("npm").expect("valid id"), Err(AppError::Manager("later".to_owned()))),
        ],
        "scan",
    );
    assert!(matches!(stopped, Err(AppError::Interrupted(d)) if d == "ctrl-c"));

    assert!(matches!(
        upgate::cli::batch_result("rows\n".to_owned(), true, CliCommand::Plan),
        Err(AppError::Manager(d)) if d == "rows\n"
    ));
    assert_eq!(
        upgate::cli::batch_result(String::new(), false, CliCommand::Plan).expect("ok"),
        "To choose and apply updates interactively, run:\nupgate apply\n"
    );
}

#[test]
fn a_whole_audit_query_answers_every_distinct_query_once() {
    let mut service = AuditService::new("https://api.osv.dev".to_owned(), 2);
    assert!(service.missing_chunks(&AuditService::requested(Vec::new())).is_empty());
    let mut queries = Vec::new();
    for i in 0..150 {
        queries.push(query(&format!("pkg{i}"), "1.0.0"));
        queries.push(query(&format!("pkg{i}"), "1.0.0"));
    }
    let requested = AuditService::requested(queries);
    assert_eq!(requested.len(), 150);
    let chunks = service.missing_chunks(&requested);
    assert_eq!(chunks.iter().map(|c| c.len()).collect::<Vec<_>>(), vec![100, 50]);
    for chunk in chunks {
        service.record(upgate::audit::chunk_answers(chunk, Ok(Vec::new())));
    }
    assert!(service.missing_chunks(&requested).is_empty());
    let answers = service.answers(&requested);
    assert_eq!(answers.entries.len(), 150);
    assert!(matches!(
        answers.get(&query("pkg7", "1.0.0")),
        Some(AuditLookupResult::LookupFailed { detail }) if detail.starts_with("OSV returned 0 results for ")
    ));
}

#[test]
fn the_live_picker_outcome_decides_the_next_step() {
    assert!(matches!(live_selection_step(InteractiveSelectionOutcome::Cancelled), LiveSelectionStep::Finish(Ok(None))));
    match live_selection_step(InteractiveSelectionOutcome::Interrupted) {
        LiveSelectionStep::Finish(Err(AppError::Interrupted(d))) => assert_eq!(d, "interactive selection interrupted"),
        other => panic!("unexpected {other:?}"),
    }
    let npm = || ManagerId::new("npm").expect("valid");
    let draft = || InteractiveManagerSelectionDraft {
        manager_id: npm(),
        selected_items: Vec::new(),
        selection_policy: UpdateSelectionPolicy::include_all(),
    };
    let LiveSelectionStep::AwaitPlanning(drafts) = live_selection_step(InteractiveSelectionOutcome::Confirmed(vec![draft()]))
    else {
        panic!("expected to wait for planning")
    };
    assert_eq!(drafts.len(), 1);

    match live_selection_result(Err(AppError::Planning("worker failed".to_owned())), &drafts) {
        Err(AppError::Planning(d)) => assert_eq!(d, "worker failed"),
        other => panic!("unexpected {other:?}"),
    }
    let plan = UpdatePlan::new(npm(), Vec::new()).expect("empty plan");
    let confirmed = live_selection_result(Ok((vec![plan], Vec::new())), &drafts).expect("confirmed").expect("some");
    assert_eq!(confirmed.len(), 1);
    assert_eq!(confirmed[0].selection.manager_id.as_str(), "npm");
    let plan = UpdatePlan::new(npm(), Vec::new()).expect("empty plan");
    match live_selection_result(Ok((vec![plan], Vec::new())), &[]) {
        Err(AppError::Planning(d)) => assert_eq!(d, "missing interactive selection for npm"),
        other => panic!("unexpected {other:?}"),
    }
}

#[test]
fn a_run_result_reports_the_log_directory_only_when_logging() {
    match cli_run_result(Ok(Some("done\n".to_owned())), true, Some("/tmp/logs".to_owned())) {
        CliRunResult::Completed(o) => {
            assert_eq!(o.stdout, "done\n");
            assert_eq!(o.command_log_dir.as_deref(), Some("/tmp/logs"));
        }
        other => panic!("unexpected {other:?}"),
    }
    match cli_run_result(Ok(None), false, Some("/tmp/logs".to_owned())) {
        CliRunResult::Cancelled(o) => {
            assert_eq!(o.stdout, "");
            assert_eq!(o.command_log_dir, None);
        }
        other => panic!("unexpected {other:?}"),
    }
    match cli_run_result(Err(AppError::Manager("npm failed".to_owned())), true, None) {
        CliRunResult::Failed { error: AppError::Manager(d), command_log_dir } => {
            assert_eq!(d, "npm failed");
            assert_eq!(command_log_dir, None);
        }
        other => panic!("unexpected {other:?}"),
    }
}

#[test]
fn each_manager_step_follows_mode_executable_and_command() {
    assert_eq!(manager_batch_step(CliCommand::Scan, ManagerMode::Off, true, false), ManagerBatchStep::Skip);
    assert_eq!(manager_batch_step(CliCommand::Plan, ManagerMode::Apply, false, false), ManagerBatchStep::Skip);
    assert_eq!(manager_batch_step(CliCommand::Apply, ManagerMode::Plan, true, false), ManagerBatchStep::Skip);
    assert_eq!(manager_batch_step(CliCommand::Scan, ManagerMode::Plan, true, false), ManagerBatchStep::Scan);
    assert_eq!(manager_batch_step(CliCommand::Scan, ManagerMode::Apply, true, true), ManagerBatchStep::VerboseScan);
    assert_eq!(manager_batch_step(CliCommand::Plan, ManagerMode::Plan, true, true), ManagerBatchStep::Plan);
    assert_eq!(manager_batch_step(CliCommand::Apply, ManagerMode::Apply, true, false), ManagerBatchStep::RefuseApply);
    match refused_apply_error() {
        AppError::Execution(d) => assert_eq!(d, "batch apply must be prepared before serial execution"),
        other => panic!("unexpected {other:?}"),
    }
    assert_eq!(default_manager_mode("npm").expect("known"), ManagerMode::Apply);
    assert_eq!(default_manager_mode("gem").expect("known"), ManagerMode::Off);
    assert_eq!(default_manager_mode("dotnet").expect("known"), ManagerMode::Off);
    assert!(default_manager_mode("apt").is_err());
}

#[test]
fn a_query_asks_only_for_what_has_no_answer() {
    let calls = std::cell::Cell::new(0usize);
    let mut service = AuditService::new("https://api.osv.dev".to_owned(), 1);
    let mut queries = Vec::new();
    for i in 0..120 {
        queries.push(query(&format!("pkg{i}"), "1.0.0"));
    }
    queries.push(query("pkg3", "1.0.0"));
    let offline = |_: &Vec<AuditQuery>| {
        calls.set(calls.get() + 1);
        Err(AuditError::Infra("offline".to_owned()))
    };
    let answers = service.query(queries.clone(), offline);
    assert_eq!(calls.get(), 2);
    assert_eq!(answers.entries.len(), 120);
    assert!(matches!(
        answers.get(&query("pkg3", "1.0.0")),
        Some(AuditLookupResult::LookupFailed { detail }) if detail == "offline"
    ));
    let again = service.query(queries, |_: &Vec<AuditQuery>| {
        calls.set(calls.get() + 1);
        Ok(Vec::new())
    });
    assert_eq!(calls.get(), 2);
    assert_eq!(again.entries.len(), 120);
    let none = service.query(Vec::new(), |_: &Vec<AuditQuery>| {
        calls.set(calls.get() + 1);
        Ok(Vec::new())
    });
    assert_eq!(calls.get(), 2);
    assert!(none.entries.is_empty());
}

#[test]
fn the_newest_pick_uses_time_then_version_order() {
    let published = vec![10, 20, 20, 5];
    let mut order = vec![vec![None; 4]; 4];
    order[2][1] = Some(VersionOrder::Greater);
    assert_eq!(newest_eligible_index(&published, &vec![true, true, true, true], &order), Some(2));
    assert_eq!(newest_eligible_index(&published, &vec![true, true, false, true], &order), Some(1));
    order[2][1] = Some(VersionOrder::Less);
    assert_eq!(newest_eligible_index(&published, &vec![true, true, true, true], &order), Some(1));
    assert_eq!(newest_eligible_index(&published, &vec![false; 4], &order), None);
}

#[test]
fn a_draft_naming_a_missing_row_is_refused_with_the_selection_error() {
    let npm = || ManagerId::new("npm").expect("valid");
    let draft = InteractiveManagerSelectionDraft {
        manager_id: npm(),
        selected_items: vec![SelectedItem::recommended(upgate::domain::PlanItemId::new("npm:ghost").expect("valid"))],
        selection_policy: UpdateSelectionPolicy::include_all(),
    };
    let plan = UpdatePlan::new(npm(), Vec::new()).expect("empty plan");
    match live_selection_result(Ok((vec![plan], Vec::new())), &[draft]) {
        Err(AppError::Planning(d)) => assert_eq!(d, "selected item `npm:ghost` is not in the plan"),
        other => panic!("unexpected {other:?}"),
    }
}
