use upgate::adapter::{ManagerAdapterError, ManagerAdapterErrorKind};
use upgate::audit::AuditError;
use upgate::batch::{
    manager_error_table, scan_report_table, unselected_update_rows, update_plan_table, BatchRenderOptions,
};
use upgate::cli::AppError;
use upgate::batch::apply_execution_report_table;
use upgate::execution::{
    execution_report_has_failures, ExecutionItemResult, ExecutionReport, ExecutionStatus, ResolvedExecutionTarget,
};
use upgate::domain::{
    AuditLookupResult, AuditPackageName, AuditQuery, AuditSubject, InstalledTool, ManagerId,
    ManagerMetadata, OsvEcosystem, PackageName, ToolId, ToolName, VersionPolicy, VersionScheme,
    VersionText,
};
use upgate::evaluate::AuditResults;
use upgate::outcome::{
    shown_table, OutcomeNote, OutcomeRow, OutcomeStatusView, OutcomeSubjectView, OutcomeTable, OutcomeVisibility,
};
use upgate::plan::{ExecutionSupport, ManagerUpdateInput, SkipReason, UpdateSeed};
use upgate::planner::{finalize_plan_from_inputs, PlanningSettings};
use upgate::release::{
    ReleaseEntry, ReleaseLookupResult, ReleaseTimeline, ReleaseTimestamp, VersionReleaseEvidence,
};
use upgate::scan::{
    scan_audit_queries, scan_discovery_failure, scan_item_from_evidence_input_with_audit,
    scan_report_from_inputs, scan_report_with_audit, ManagerRuleReason, ManagerScanEvidenceInput,
    ManagerScanInput, ScanIssue, ScanItem, ScanReport,
};
use upgate::selection::{PlanSelection, SelectedItem, SelectedUpdate, UpdateSelectionPolicy};
use upgate::snapshot::{snapshot_rows, snapshot_rows_for_selections};

const NOW: u64 = 1_800_000_000;

fn version(value: &str) -> VersionText {
    VersionText::new(value).expect("valid version")
}

fn npm() -> ManagerId {
    ManagerId::new("npm").expect("valid manager id")
}

fn tool(package: &str, installed: &str) -> InstalledTool {
    InstalledTool::new(
        npm(),
        ToolId::new(package).expect("valid tool id"),
        PackageName::new(package).expect("valid package name"),
        ToolName::new(package).expect("valid tool name"),
        version(installed),
        ManagerMetadata::empty(),
    )
}

fn subject(package: &str) -> AuditSubject {
    AuditSubject::new(OsvEcosystem::Npm, AuditPackageName::new(package).expect("valid name"))
}

fn audited_tool(package: &str, installed: &str) -> InstalledTool {
    tool(package, installed).with_audit_subject(subject(package))
}

fn seed(package: &str, installed: &str, target: &str, age: u64) -> UpdateSeed {
    UpdateSeed::new(
        tool(package, installed),
        version(target),
        VersionScheme::SemVer,
        ReleaseLookupResult::Known(ReleaseTimeline::new(vec![ReleaseEntry::new(
            version(target),
            ReleaseTimestamp::new((NOW - age) as i64),
        )])),
        ExecutionSupport::exact_only(),
    )
}

fn note_texts(row: &upgate::outcome::OutcomeRow) -> Vec<String> {
    row.notes.iter().map(|n| n.text.clone()).collect()
}

#[test]
fn plan_table_has_one_row_per_item() {
    let settings = PlanningSettings { policy: VersionPolicy::Unfiltered, now: NOW, min_release_age: 0 };
    let plan = finalize_plan_from_inputs(
        npm(),
        vec![
            ManagerUpdateInput::Seed(seed("alpha", "1.0.0", "1.1.0", 3_600)),
            ManagerUpdateInput::Skipped { installed: tool("beta", "1.0.0"), reason: SkipReason::Pinned },
        ],
        settings,
        &AuditResults::new(),
    )
    .expect("plan");
    let table = update_plan_table(&plan, BatchRenderOptions::new());
    assert_eq!(table.rows.len(), 2);
    assert_eq!(table.rows[0].status, OutcomeStatusView::Update);
    assert_eq!(note_texts(&table.rows[0]), vec!["1h ago".to_owned()]);
    assert_eq!(table.rows[0].notes[0].visibility, OutcomeVisibility::VerboseOnly);
    assert_eq!(table.rows[1].status, OutcomeStatusView::Skipped);
    assert_eq!(note_texts(&table.rows[1]), vec!["pinned".to_owned()]);

    let nothing_selected = PlanSelection {
        manager_id: npm(),
        selected_items: Vec::new(),
        selection_policy: UpdateSelectionPolicy::include_all(),
    };
    let rows = unselected_update_rows(&plan, &nothing_selected);
    assert_eq!(rows.len(), 1);
    assert_eq!(rows[0].status, OutcomeStatusView::Skipped);
    assert_eq!(note_texts(&rows[0]), vec!["not selected".to_owned()]);
}

#[test]
fn manager_failures_get_a_one_row_table() {
    let table = manager_error_table(&npm(), "npm outdated", "exit 1");
    assert_eq!(table.rows.len(), 1);
    assert_eq!(table.rows[0].status, OutcomeStatusView::Error);
    assert!(matches!(table.rows[0].subject, OutcomeSubjectView::Manager(_)));
    assert_eq!(note_texts(&table.rows[0]), vec!["npm outdated failed: exit 1".to_owned()]);
}

#[test]
fn scan_table_lists_issues_then_items() {
    let report = ScanReport::new(
        npm(),
        vec![
            ScanItem::Installed(tool("alpha", "1.0.0")),
            ScanItem::InstalledWithReleaseAge { tool: tool("beta", "2.0.0"), age: 172_800 },
            ScanItem::InstalledWithAudit {
                tool: audited_tool("gamma", "3.0.0"),
                age: None,
                audit: AuditLookupResult::LookupFailed { detail: "offline".to_owned() },
            },
            ScanItem::Skipped {
                tool: tool("delta", "4.0.0"),
                reason: ScanIssue::ExcludedByManagerRule(ManagerRuleReason::DefaultGem),
            },
        ],
        vec![ScanIssue::MissingReleaseMetadata],
    );
    let table = scan_report_table(&report);
    assert_eq!(table.rows.len(), 5);
    assert_eq!(table.rows[0].status, OutcomeStatusView::Error);
    assert_eq!(note_texts(&table.rows[0]), vec!["missing release metadata".to_owned()]);
    assert_eq!(table.rows[1].status, OutcomeStatusView::Current);
    assert!(table.rows[1].notes.is_empty());
    assert_eq!(note_texts(&table.rows[2]), vec!["2d ago".to_owned()]);
    assert_eq!(table.rows[2].notes[0].visibility, OutcomeVisibility::VerboseOnly);
    assert_eq!(note_texts(&table.rows[3]), vec!["audit unavailable".to_owned()]);
    assert_eq!(table.rows[4].status, OutcomeStatusView::Skipped);
    assert_eq!(note_texts(&table.rows[4]), vec!["default gem".to_owned()]);
}

#[test]
fn plain_scans_keep_input_order_and_report_discovery_failures() {
    let report = scan_report_from_inputs(
        npm(),
        Ok(vec![
            ManagerScanInput::Installed(tool("alpha", "1.0.0")),
            ManagerScanInput::Skipped {
                installed: tool("beta", "1.0.0"),
                reason: ScanIssue::ExcludedByManagerRule(ManagerRuleReason::Dependency),
            },
        ]),
    )
    .expect("report");
    assert_eq!(report.items.len(), 2);
    assert!(report.issues.is_empty());
    assert!(matches!(&report.items[0], ScanItem::Installed(t) if t.package_name.as_str() == "alpha"));
    assert!(matches!(&report.items[1], ScanItem::Skipped { .. }));

    let failed = scan_report_from_inputs(
        npm(),
        Err(ManagerAdapterError::Manager { kind: ManagerAdapterErrorKind::Infra, detail: "no npm".to_owned() }),
    )
    .expect("a failure report");
    assert!(failed.items.is_empty());
    assert!(matches!(&failed.issues[0], ScanIssue::DiscoveryFailed { detail } if detail == "no npm"));

    let stopped = scan_discovery_failure(
        npm(),
        ManagerAdapterError::Manager { kind: ManagerAdapterErrorKind::Interrupted, detail: "ctrl-c".to_owned() },
    );
    assert!(matches!(stopped, Err(AppError::Interrupted(d)) if d == "ctrl-c"));
}

#[test]
fn verbose_scans_attach_ages_and_audit_answers() {
    let inputs = vec![
        ManagerScanEvidenceInput::Installed {
            tool: audited_tool("alpha", "1.0.0"),
            release_evidence: Some(VersionReleaseEvidence::new(version("1.0.0"), ReleaseTimestamp::new((NOW - 60) as i64))),
        },
        ManagerScanEvidenceInput::Installed { tool: tool("beta", "2.0.0"), release_evidence: None },
        ManagerScanEvidenceInput::Installed {
            tool: audited_tool("gamma", "3.0.0"),
            release_evidence: Some(VersionReleaseEvidence::new(version("3.0.0"), ReleaseTimestamp::new((NOW + 60) as i64))),
        },
    ];
    let queries = scan_audit_queries(&inputs);
    assert_eq!(queries.len(), 2);
    assert_eq!(queries[0].subject.package_name.as_str(), "alpha");
    assert_eq!(queries[1].version.as_str(), "3.0.0");

    let mut results = AuditResults::new();
    results.insert(AuditQuery::new(subject("alpha"), version("1.0.0")), AuditLookupResult::Clean);

    let report = scan_report_with_audit(npm(), inputs, NOW, Ok(results)).expect("report");
    assert_eq!(report.items.len(), 3);
    assert!(matches!(
        &report.items[0],
        ScanItem::InstalledWithAudit { age: Some(60), audit: AuditLookupResult::Clean, .. }
    ));
    assert!(matches!(&report.items[1], ScanItem::Installed(_)));
    assert!(matches!(
        &report.items[2],
        ScanItem::InstalledWithAudit { age: Some(0), audit: AuditLookupResult::LookupFailed { detail }, .. }
            if detail == "audit lookup result missing"
    ));

    let failed = scan_report_with_audit(npm(), Vec::new(), NOW, Err(AuditError::CachePoisoned));
    assert!(matches!(failed, Err(AppError::Planning(d)) if d == "audit cache state is unavailable"));

    let aged = scan_item_from_evidence_input_with_audit(
        ManagerScanEvidenceInput::Installed {
            tool: tool("delta", "1.0.0"),
            release_evidence: Some(VersionReleaseEvidence::new(version("1.0.0"), ReleaseTimestamp::new((NOW - 5) as i64))),
        },
        NOW,
        &AuditResults::new(),
    );
    assert!(matches!(aged, ScanItem::InstalledWithReleaseAge { age: 5, .. }));
}

fn executed(package: &str, failed: bool) -> ExecutionItemResult {
    ExecutionItemResult {
        plan_item_id: upgate::domain::PlanItemId::new(&format!("npm:{package}")).expect("valid id"),
        package_name: PackageName::new(package).expect("valid package"),
        installed_version: version("1.0.0"),
        target: ResolvedExecutionTarget::Known(version("2.0.0")),
        status: if failed {
            ExecutionStatus::Failed { command: format!("npm update {package}"), detail: "command failed".to_owned() }
        } else {
            ExecutionStatus::Succeeded { command: format!("npm update {package}"), skipped_mutation: false }
        },
    }
}

#[test]
fn apply_table_lists_unselected_updates_then_results() {
    let settings = PlanningSettings { policy: VersionPolicy::Unfiltered, now: NOW, min_release_age: 0 };
    let plan = finalize_plan_from_inputs(
        npm(),
        vec![
            ManagerUpdateInput::Seed(seed("applied", "1.0.0", "2.0.0", 100)),
            ManagerUpdateInput::Seed(seed("failed", "1.0.0", "2.0.0", 100)),
            ManagerUpdateInput::Seed(seed("left", "1.0.0", "2.0.0", 100)),
        ],
        settings,
        &AuditResults::new(),
    )
    .expect("plan");
    let all = upgate::planner::default_batch_selection(&plan, &UpdateSelectionPolicy::include_all())
        .expect("selection");
    let selection = PlanSelection {
        manager_id: npm(),
        selected_items: all.selected_items.into_iter().take(2).collect(),
        selection_policy: UpdateSelectionPolicy::include_all(),
    };
    let report = ExecutionReport { manager_id: npm(), items: vec![executed("applied", false), executed("failed", true)] };
    assert!(execution_report_has_failures(&report));
    let table = apply_execution_report_table(&report, &plan, &selection);
    assert_eq!(table.rows.len(), 3);
    assert_eq!(table.rows[0].status, OutcomeStatusView::Skipped);
    assert_eq!(note_texts(&table.rows[0]), vec!["not selected".to_owned()]);
    assert_eq!(table.rows[1].status, OutcomeStatusView::Update);
    assert_eq!(table.rows[2].status, OutcomeStatusView::Error);
    assert_eq!(note_texts(&table.rows[2]), vec!["command failed".to_owned()]);

    let empty_plan = upgate::plan::UpdatePlan::new(npm(), Vec::new()).expect("empty plan");
    let empty_selection = PlanSelection {
        manager_id: npm(),
        selected_items: Vec::new(),
        selection_policy: UpdateSelectionPolicy::include_all(),
    };
    let nothing = ExecutionReport { manager_id: npm(), items: Vec::new() };
    assert!(!execution_report_has_failures(&nothing));
    let table = apply_execution_report_table(&nothing, &empty_plan, &empty_selection);
    assert_eq!(table.rows.len(), 1);
    assert_eq!(table.rows[0].status, OutcomeStatusView::Current);
    assert_eq!(note_texts(&table.rows[0]), vec!["no selected updates".to_owned()]);
}

#[test]
fn scan_evidence_uses_the_installed_version_release_time() {
    let timeline = ReleaseTimeline::new(vec![
        ReleaseEntry::new(version("v1.0.0"), ReleaseTimestamp::new(10)),
        ReleaseEntry::new(version("1.0.0"), ReleaseTimestamp::new(20)),
    ]);
    let clone_timeline = || {
        ReleaseLookupResult::Known(ReleaseTimeline::new(
            timeline.versions.iter().map(|e| ReleaseEntry::new(e.version.clone(), e.published_at)).collect(),
        ))
    };
    match upgate::mise_metadata::scan_input_for_release_lookup(tool("node", "1.0.0"), clone_timeline()) {
        ManagerScanEvidenceInput::Installed { release_evidence: Some(e), .. } => {
            assert_eq!(e.published_at.unix_secs, 10)
        }
        other => panic!("unexpected input {other:?}"),
    }
    match upgate::bun::scan_evidence_input(tool("zod", "1.0.0"), clone_timeline()) {
        ManagerScanEvidenceInput::Installed { release_evidence: Some(e), .. } => {
            assert_eq!(e.published_at.unix_secs, 20)
        }
        other => panic!("unexpected input {other:?}"),
    }
    assert!(matches!(
        upgate::bun::scan_evidence_input(tool("zod", "1.0.0"), ReleaseLookupResult::MissingMetadata),
        ManagerScanEvidenceInput::Installed { release_evidence: None, .. }
    ));
}

#[test]
fn apply_snapshot_says_what_happens_to_each_item() {
    let settings = PlanningSettings { policy: VersionPolicy::Unfiltered, now: NOW, min_release_age: 0 };
    let plan = finalize_plan_from_inputs(
        npm(),
        vec![
            ManagerUpdateInput::Seed(seed("alpha", "1.0.0", "1.1.0", 100)),
            ManagerUpdateInput::Seed(seed("beta", "2.0.0", "2.1.0", 100)),
            ManagerUpdateInput::Skipped { installed: tool("gamma", "3.0.0"), reason: SkipReason::Pinned },
        ],
        settings,
        &AuditResults::new(),
    )
    .expect("plan");
    let selection = PlanSelection {
        manager_id: npm(),
        selected_items: vec![SelectedItem::new(
            upgate::domain::PlanItemId::new("npm:alpha").expect("valid id"),
            SelectedUpdate::Exact { target_version: version("1.0.5") },
        )],
        selection_policy: UpdateSelectionPolicy::include_all(),
    };
    let rows = snapshot_rows(&plan, &selection);
    assert_eq!(rows.len(), 3);
    assert_eq!(rows[0].manager, "npm");
    assert_eq!(rows[0].tool_name, "alpha");
    assert_eq!(rows[0].current, "1.0.0");
    assert_eq!(rows[0].target.as_deref(), Some("1.0.5"));
    assert_eq!(rows[0].action, "update");
    assert_eq!(rows[1].target.as_deref(), Some("2.1.0"));
    assert_eq!(rows[1].action, "skipped");
    assert_eq!(rows[2].target, None);
    assert_eq!(rows[2].action, "skipped");
    let all = snapshot_rows_for_selections(&[(plan, selection)]);
    assert_eq!(all.len(), 3);
}

#[test]
fn verbose_only_rows_and_notes_show_only_when_verbose() {
    let table = || {
        let npm = || ManagerId::new("npm").expect("valid");
        OutcomeTable::new(vec![
            OutcomeRow::manager(OutcomeStatusView::Current, npm())
                .with_note(OutcomeNote::normal("shown".to_owned()))
                .with_note(OutcomeNote::normal("detail".to_owned()).with_visibility(OutcomeVisibility::VerboseOnly)),
            OutcomeRow::manager(OutcomeStatusView::Skipped, npm()).with_visibility(OutcomeVisibility::VerboseOnly),
        ])
    };
    let quiet = shown_table(table(), false);
    assert_eq!(quiet.rows.len(), 1);
    assert_eq!(quiet.rows[0].notes.iter().map(|n| n.text.as_str()).collect::<Vec<_>>(), vec!["shown"]);
    let verbose = shown_table(table(), true);
    assert_eq!(verbose.rows.len(), 2);
    assert_eq!(verbose.rows[0].notes.len(), 2);
    assert_eq!(verbose.rows[1].status, OutcomeStatusView::Skipped);
}
