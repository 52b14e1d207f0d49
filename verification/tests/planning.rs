use upgate::classify::{
    classify_manager_native_release, classify_pep440_release, classify_semver_release, pep440_class_from_facts,
    semver_class_from_prerelease, ReleaseClass,
};
use upgate::versions::{Pep440Facts, Pep440PreKind};
use upgate::components::{clamp_command_log_scroll, spinner_frame};
use upgate::domain::{
    AuditFinding, AuditLookupResult, AuditPackageName, AuditQuery, AuditSubject, DomainError,
    InstalledTool, ManagerId, ManagerMetadata, OsvEcosystem, PackageName, PlanItemId,
    PolicyWarning, ToolId, ToolName, VersionPolicy, VersionScheme, VersionText,
};
use upgate::evaluate::{evaluate_policy, evaluate_seed, AuditResults, PolicyDecision};
use upgate::notes::{
    audit_candidate, human_age, no_eligible_latest_too_fresh, released, skip_reason, too_fresh,
    version_blocked_by_policy, version_policy_warning, version_too_fresh, vulnerability_note,
};
use upgate::plan::{
    BlockReason, DelayReason, ExecutionSupport, ManagerUpdateInput, PlanItem, PolicyBlockReason,
    SkipReason, UpdatePlan, UpdateSeed,
};
use upgate::planner::{
    default_batch_selection, finalize_plan_from_inputs, update_plan_from_inputs, PlanningSettings,
};
use upgate::release::{ReleaseEntry, ReleaseLookupError, ReleaseLookupResult, ReleaseTimeline, ReleaseTimestamp};
use upgate::selection::{UpdateSelectionMode, UpdateSelectionPolicy};

const NOW_SECS: u64 = 1_800_000_000;

fn version(value: &str) -> VersionText {
    VersionText::new(value).expect("valid version")
}

fn tool(package: &str, installed: &str) -> InstalledTool {
    InstalledTool::new(
        ManagerId::new("npm").expect("valid manager id"),
        ToolId::new(package).expect("valid tool id"),
        PackageName::new(package).expect("valid package name"),
        ToolName::new(package).expect("valid tool name"),
        version(installed),
        ManagerMetadata::empty(),
    )
}

fn timeline_seed(package: &str, installed: &str, entries: &[(&str, u64)]) -> UpdateSeed {
    let versions = entries
        .iter()
        .map(|(v, ago)| ReleaseEntry::new(version(v), ReleaseTimestamp::new((NOW_SECS - ago) as i64)))
        .collect::<Vec<_>>();
    let newest = entries.last().expect("non-empty timeline").0;
    UpdateSeed::new(
        tool(package, installed),
        version(newest),
        VersionScheme::SemVer,
        ReleaseLookupResult::Known(ReleaseTimeline::new(versions)),
        ExecutionSupport::exact_only(),
    )
}

fn item_id(value: &str) -> PlanItemId {
    PlanItemId::new(value).expect("valid plan item id")
}

#[test]
fn blank_identifiers_are_refused() {
    assert!(matches!(VersionText::new("  "), Err(DomainError::EmptyVersionText)));
    assert!(matches!(ManagerId::new(""), Err(DomainError::EmptyManagerId)));
    assert!(matches!(PackageName::new("\t"), Err(DomainError::EmptyPackageName)));
    assert!(matches!(PlanItemId::new(" "), Err(DomainError::EmptyPlanItemId)));
    assert_eq!(VersionText::new(" 1.0.0 ").expect("valid").as_str(), " 1.0.0 ");
}

#[test]
fn version_policy_spellings_round_trip() {
    for policy in [VersionPolicy::Unfiltered, VersionPolicy::Stable, VersionPolicy::SameTrack] {
        assert_eq!(VersionPolicy::parse(policy.as_str()).expect("known"), policy);
    }
    assert_eq!(VersionPolicy::Unfiltered.as_str(), "none");
    let err = VersionPolicy::parse("latest").expect_err("unknown policy");
    assert!(matches!(err, DomainError::InvalidVersionPolicy(ref s) if s == "latest"));
}

#[test]
fn release_classes_follow_each_scheme() {
    assert_eq!(classify_semver_release("1.2.3"), ReleaseClass::Final);
    assert_eq!(classify_semver_release("v1.2.3-beta.2"), ReleaseClass::Beta);
    assert_eq!(classify_semver_release("4.0.0-alpha.13"), ReleaseClass::Alpha);
    assert_eq!(classify_semver_release("1.0.0-rc.1"), ReleaseClass::Rc);
    assert_eq!(classify_pep440_release("1.0.0rc1"), ReleaseClass::Rc);
    assert_eq!(classify_pep440_release("1.0.0.dev3"), ReleaseClass::Dev);
    assert_eq!(classify_pep440_release("2.1"), ReleaseClass::Final);
    assert_eq!(classify_manager_native_release("24.16.0"), ReleaseClass::Final);
}

#[test]
fn version_policies_gate_prereleases() {
    assert_eq!(
        evaluate_policy(VersionPolicy::Unfiltered, ReleaseClass::Final, ReleaseClass::Dev),
        PolicyDecision::Allowed { warning: None }
    );
    assert!(matches!(
        evaluate_policy(VersionPolicy::Stable, ReleaseClass::Final, ReleaseClass::Beta),
        PolicyDecision::Blocked { reason: PolicyBlockReason::PreReleaseBlocked, .. }
    ));
    assert!(matches!(
        evaluate_policy(VersionPolicy::Stable, ReleaseClass::Beta, ReleaseClass::Final),
        PolicyDecision::Allowed { .. }
    ));
    assert!(matches!(
        evaluate_policy(VersionPolicy::SameTrack, ReleaseClass::Beta, ReleaseClass::Rc),
        PolicyDecision::Allowed { .. }
    ));
    assert!(matches!(
        evaluate_policy(VersionPolicy::SameTrack, ReleaseClass::Rc, ReleaseClass::Alpha),
        PolicyDecision::Blocked { .. }
    ));
    assert!(matches!(
        evaluate_policy(VersionPolicy::SameTrack, ReleaseClass::Unknown, ReleaseClass::Final),
        PolicyDecision::Allowed { .. }
    ));
}

#[test]
fn too_young_only_target_is_delayed() {
    let seed = timeline_seed("alpha", "1.0.0", &[("1.1.0", 10)]);
    let item = evaluate_seed(item_id("npm:alpha"), seed, VersionPolicy::Unfiltered, NOW_SECS, 100);
    assert!(matches!(
        item,
        PlanItem::Delayed { reason: DelayReason::ReleaseTooFresh, .. }
    ));
}

#[test]
fn update_target_is_old_enough_and_newer_than_installed() {
    let seed = timeline_seed("alpha", "1.0.0", &[("0.9.0", 900), ("1.1.0", 500), ("1.2.0", 5)]);
    let PlanItem::Update { candidate, .. } =
        evaluate_seed(item_id("npm:alpha"), seed, VersionPolicy::Unfiltered, NOW_SECS, 100)
    else {
        panic!("expected update")
    };
    assert_eq!(candidate.target_version().expect("target").as_str(), "1.1.0");
    let selected = candidate.diagnostics.selected_target.expect("selected target fact");
    assert!(selected.age >= 100);
}

#[test]
fn installed_latest_is_current() {
    let seed = timeline_seed("alpha", "1.1.0", &[("1.1.0", 500)]);
    let item = evaluate_seed(item_id("npm:alpha"), seed, VersionPolicy::Unfiltered, NOW_SECS, 0);
    assert!(matches!(item, PlanItem::Current { .. }));
}

#[test]
fn missing_and_failed_release_lookups_block() {
    let missing = UpdateSeed::new(
        tool("alpha", "1.0.0"),
        version("1.1.0"),
        VersionScheme::SemVer,
        ReleaseLookupResult::MissingMetadata,
        ExecutionSupport::exact_only(),
    );
    assert!(matches!(
        evaluate_seed(item_id("a"), missing, VersionPolicy::Unfiltered, NOW_SECS, 0),
        PlanItem::Blocked { reason: BlockReason::MissingReleaseMetadata, .. }
    ));
    let failed = UpdateSeed::new(
        tool("alpha", "1.0.0"),
        version("1.1.0"),
        VersionScheme::SemVer,
        ReleaseLookupResult::LookupFailed(ReleaseLookupError::new("registry down")),
        ExecutionSupport::exact_only(),
    );
    assert!(matches!(
        evaluate_seed(item_id("a"), failed, VersionPolicy::Unfiltered, NOW_SECS, 0),
        PlanItem::Blocked { reason: BlockReason::ReleaseLookupFailed, .. }
    ));
}

#[test]
fn stable_policy_blocks_prerelease_only_update() {
    let seed = timeline_seed("alpha", "1.0.0", &[("2.0.0-beta.1", 500)]);
    let item = evaluate_seed(item_id("a"), seed, VersionPolicy::Stable, NOW_SECS, 0);
    assert!(matches!(
        item,
        PlanItem::Blocked {
            reason: BlockReason::VersionPolicy(PolicyBlockReason::PreReleaseBlocked),
            ..
        }
    ));
}

fn query(version_text: &str) -> AuditQuery {
    AuditQuery::new(
        AuditSubject::new(
            OsvEcosystem::Npm,
            AuditPackageName::new("alpha").expect("valid audit name"),
        ),
        version(version_text),
    )
}

#[test]
fn recorded_audit_answer_is_read_back() {
    let mut results = AuditResults::new();
    assert!(results.get(&query("1.0.0")).is_none());
    results.insert(query("1.0.0"), AuditLookupResult::Clean);
    results.insert(
        query("2.0.0"),
        AuditLookupResult::LookupFailed { detail: "offline".to_owned() },
    );
    assert!(matches!(results.get(&query("1.0.0")), Some(AuditLookupResult::Clean)));
    results.insert(
        query("1.0.0"),
        AuditLookupResult::Vulnerable { findings: Vec::new() },
    );
    assert!(matches!(
        results.get(&query("1.0.0")),
        Some(AuditLookupResult::Vulnerable { .. })
    ));
    assert!(matches!(
        results.get(&query("2.0.0")),
        Some(AuditLookupResult::LookupFailed { .. })
    ));
}

#[test]
fn except_list_inverts_the_selection_mode() {
    let alpha = PackageName::new("alpha").expect("valid");
    let beta = PackageName::new("beta").expect("valid");
    let keep = UpdateSelectionPolicy::new(UpdateSelectionMode::Include, vec![alpha.clone()]);
    assert!(!keep.includes(&alpha));
    assert!(keep.includes(&beta));
    let skip = UpdateSelectionPolicy::new(UpdateSelectionMode::Skip, vec![alpha.clone()]);
    assert!(skip.includes(&alpha));
    assert!(!skip.includes(&beta));

    let mut policy = UpdateSelectionPolicy::include_all();
    policy.set_included(beta.clone(), false);
    assert!(!policy.includes(&beta));
    assert!(policy.includes(&alpha));
    policy.set_included(beta.clone(), true);
    assert!(policy.includes(&beta));
}

#[test]
fn plan_rows_get_manager_prefixed_ids_and_duplicates_are_refused() {
    let settings = PlanningSettings {
        policy: VersionPolicy::Unfiltered,
        now: NOW_SECS,
        min_release_age: 0,
    };
    let inputs = vec![
        ManagerUpdateInput::Seed(timeline_seed("alpha", "1.0.0", &[("1.1.0", 50)])),
        ManagerUpdateInput::Skipped { installed: tool("beta", "1.0.0"), reason: SkipReason::Pinned },
    ];
    let plan = finalize_plan_from_inputs(
        ManagerId::new("npm").expect("valid"),
        inputs,
        settings,
        &AuditResults::new(),
    )
    .expect("distinct tools plan");
    assert_eq!(plan.items.len(), 2);
    assert_eq!(plan.items[0].id().as_str(), "npm:alpha");
    assert_eq!(plan.items[1].id().as_str(), "npm:beta");
    assert!(matches!(plan.items[0], PlanItem::Update { .. }));
    assert!(matches!(plan.items[1], PlanItem::Skipped { .. }));

    let selection =
        default_batch_selection(&plan, &UpdateSelectionPolicy::include_all()).expect("selection");
    assert_eq!(selection.selected_items.len(), 1);
    assert_eq!(selection.selected_items[0].plan_item_id.as_str(), "npm:alpha");

    let duplicated = vec![
        ManagerUpdateInput::Skipped { installed: tool("beta", "1.0.0"), reason: SkipReason::Pinned },
        ManagerUpdateInput::Skipped { installed: tool("beta", "1.0.0"), reason: SkipReason::Pinned },
    ];
    let err = finalize_plan_from_inputs(
        ManagerId::new("npm").expect("valid"),
        duplicated,
        settings,
        &AuditResults::new(),
    )
    .expect_err("duplicate tool ids");
    assert!(matches!(err, DomainError::DuplicatePlanItemId(ref id) if id == "npm:beta"));
}

#[test]
fn update_plan_refuses_duplicate_item_ids() {
    let items = vec![
        PlanItem::Current { id: item_id("npm:a"), installed: tool("a", "1.0.0") },
        PlanItem::Current { id: item_id("npm:a"), installed: tool("a", "1.0.0") },
    ];
    assert!(matches!(
        UpdatePlan::new(ManagerId::new("npm").expect("valid"), items),
        Err(DomainError::DuplicatePlanItemId(_))
    ));
}

#[test]
fn human_ages_use_the_largest_whole_unit() {
    assert_eq!(human_age(59), "59s");
    assert_eq!(human_age(60), "1m");
    assert_eq!(human_age(7_200), "2h");
    assert_eq!(human_age(86_400 * 3 + 5), "3d");
    assert_eq!(released(90), "1m ago");
    assert_eq!(too_fresh(Some(30), 86_400), "too fresh: 30s < 1d");
    assert_eq!(too_fresh(None, 3_600), "too fresh: need 1h");
}

#[test]
fn notes_name_the_version_and_findings() {
    assert_eq!(version_too_fresh(&version("2.0.0")), "2.0.0 too fresh");
    assert_eq!(
        no_eligible_latest_too_fresh(&version("2.0.0")),
        "no eligible release yet; 2.0.0 too fresh"
    );
    assert_eq!(
        version_blocked_by_policy(&version("3.0.0-rc.1")),
        "3.0.0-rc.1 blocked by policy"
    );
    assert_eq!(
        version_policy_warning(PolicyWarning::InstalledTrackUnknownFallbackStable),
        "version policy warning: same-track fell back to stable because installed track is unknown"
    );
    let findings = vec![
        AuditFinding {
            id: "GHSA-1".to_owned(),
            aliases: vec!["CVE-1".to_owned(), "CVE-2".to_owned()],
            summary: None,
            severity: None,
            references: Vec::new(),
        },
        AuditFinding {
            id: "GHSA-2".to_owned(),
            aliases: Vec::new(),
            summary: None,
            severity: None,
            references: Vec::new(),
        },
    ];
    assert_eq!(vulnerability_note(&findings), "vulnerable: GHSA-1, CVE-1, CVE-2");
    assert_eq!(vulnerability_note(&[]), "vulnerable");
    assert_eq!(audit_candidate(&AuditLookupResult::Clean), None);
    assert_eq!(
        audit_candidate(&AuditLookupResult::LookupFailed { detail: "x".to_owned() }),
        Some("audit unavailable".to_owned())
    );
    assert_eq!(skip_reason(&SkipReason::Pinned), "pinned");
    assert_eq!(skip_reason(&SkipReason::ManagerRule("held".to_owned())), "held");
}

#[test]
fn spinner_and_log_scroll_stay_in_range() {
    assert_eq!(spinner_frame(0), spinner_frame(10));
    assert_ne!(spinner_frame(0), spinner_frame(1));
    assert_eq!(clamp_command_log_scroll(50, 10, 4), 6);
    assert_eq!(clamp_command_log_scroll(2, 10, 4), 2);
    assert_eq!(clamp_command_log_scroll(3, 2, 4), 0);
}

#[test]
fn planning_without_audits_matches_finalizing_with_an_empty_table() {
    let settings = PlanningSettings { policy: VersionPolicy::Stable, now: NOW_SECS, min_release_age: 100 };
    let inputs = || {
        vec![
            ManagerUpdateInput::Seed(timeline_seed("alpha", "1.0.0", &[("1.1.0", 500), ("1.2.0-rc.1", 400)])),
            ManagerUpdateInput::Seed(timeline_seed("gamma", "2.0.0", &[("2.1.0", 50)])),
            ManagerUpdateInput::Skipped { installed: tool("beta", "1.0.0"), reason: SkipReason::Pinned },
        ]
    };
    let manager = || ManagerId::new("npm").expect("valid");
    let without = update_plan_from_inputs(manager(), inputs(), settings).expect("plan");
    let with_empty = finalize_plan_from_inputs(manager(), inputs(), settings, &AuditResults::new()).expect("plan");
    assert_eq!(format!("{without:?}"), format!("{with_empty:?}"));
    assert!(matches!(without.items[0], PlanItem::Update { .. }));
    assert!(matches!(without.items[1], PlanItem::Delayed { .. }));

    let repeated = || {
        vec![
            ManagerUpdateInput::Skipped { installed: tool("beta", "1.0.0"), reason: SkipReason::Pinned },
            ManagerUpdateInput::Skipped { installed: tool("beta", "1.0.0"), reason: SkipReason::Pinned },
        ]
    };
    let a = update_plan_from_inputs(manager(), repeated(), settings).expect_err("duplicate");
    let b = finalize_plan_from_inputs(manager(), repeated(), settings, &AuditResults::new()).expect_err("duplicate");
    assert_eq!(format!("{a:?}"), format!("{b:?}"));
}

#[test]
fn release_classes_follow_what_the_parsers_read() {
    assert_eq!(semver_class_from_prerelease("1.2.0-beta.1", Some("beta.1".to_owned())), ReleaseClass::Beta);
    assert_eq!(semver_class_from_prerelease("1.2.0", Some(String::new())), ReleaseClass::Final);
    assert_eq!(semver_class_from_prerelease("1.2.0-custom", Some("custom".to_owned())), ReleaseClass::UnknownPrerelease);
    assert_eq!(semver_class_from_prerelease("1.2-rc1", None), ReleaseClass::Rc);
    assert_eq!(semver_class_from_prerelease("v2", None), ReleaseClass::Final);
    assert_eq!(semver_class_from_prerelease("latest", None), ReleaseClass::Unknown);
    let facts = |is_dev, pre| Some(Pep440Facts { is_dev, pre });
    assert_eq!(pep440_class_from_facts(facts(true, Some(Pep440PreKind::Alpha))), ReleaseClass::Dev);
    assert_eq!(pep440_class_from_facts(facts(false, Some(Pep440PreKind::Rc))), ReleaseClass::Rc);
    assert_eq!(pep440_class_from_facts(facts(false, None)), ReleaseClass::Final);
    assert_eq!(pep440_class_from_facts(None), ReleaseClass::Unknown);
}
