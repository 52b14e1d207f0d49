//! Scan reports: what a manager has installed, with release ages and
//! vulnerability answers where those were looked up.
use vstd::prelude::*;

use crate::adapter::{adapter_error_text, ManagerAdapterError};
use crate::audit::{audit_error_text, AuditError};
use crate::cli::{interrupted_adapter, map_manager_error, AppError};
use crate::domain::{AuditLookupResult, AuditQuery, InstalledTool, ManagerId};
use crate::evaluate::{audit_fact_for, audit_fact_spec, opt_lookup_view, AuditResults};
use crate::release::{age_at, age_since, VersionReleaseEvidence};

verus! {

/// Why a manager's own rules leave a tool out of the scan.
#[derive(Debug)]
pub enum ManagerRuleReason {
    Dependency,
    DefaultGem,
    Other { detail: String },
}

/// A problem met while scanning, for the whole manager or one tool.
#[derive(Debug)]
pub enum ScanIssue {
    DiscoveryFailed { detail: String },
    ReleaseLookupFailed { detail: String },
    MissingReleaseMetadata,
    ExcludedByManagerRule(ManagerRuleReason),
}

/// One scanned tool and what is known of it.
#[derive(Debug)]
pub enum ScanItem {
    Installed(InstalledTool),
    InstalledWithReleaseAge { tool: InstalledTool, age: u64 },
    InstalledWithAudit { tool: InstalledTool, age: Option<u64>, audit: AuditLookupResult },
    Skipped { tool: InstalledTool, reason: ScanIssue },
}

/// Everything a scan of one manager found.
#[derive(Debug)]
pub struct ScanReport {
    pub manager_id: ManagerId,
    pub items: Vec<ScanItem>,
    pub issues: Vec<ScanIssue>,
}

impl ScanReport {
    pub fn new(manager_id: ManagerId, items: Vec<ScanItem>, issues: Vec<ScanIssue>) -> (r: Self)
        ensures
            r.manager_id == manager_id,
            r.items == items,
            r.issues == issues,
    {
        ScanReport { manager_id, items, issues }
    }
}

/// What a manager reports for one tool in a plain scan.
#[derive(Debug)]
pub enum ManagerScanInput {
    Installed(InstalledTool),
    Skipped { installed: InstalledTool, reason: ScanIssue },
}

/// What a manager reports for one tool in a verbose scan, with the
/// publication time of the installed version where it was found.
#[derive(Debug)]
pub enum ManagerScanEvidenceInput {
    Installed { tool: InstalledTool, release_evidence: Option<VersionReleaseEvidence> },
    Skipped { installed: InstalledTool, reason: ScanIssue },
}

pub open spec fn input_item(input: ManagerScanInput) -> ScanItem {
    match input {
        ManagerScanInput::Installed(tool) => ScanItem::Installed(tool),
        ManagerScanInput::Skipped { installed, reason } => ScanItem::Skipped { tool: installed, reason },
    }
}

/// A plain scan input as a report item.
pub fn scan_item_from_input(input: ManagerScanInput) -> (r: ScanItem)
    ensures
        r == input_item(input),
{
    match input {
        ManagerScanInput::Installed(tool) => ScanItem::Installed(tool),
        ManagerScanInput::Skipped { installed, reason } => ScanItem::Skipped { tool: installed, reason },
    }
}

/// How old the installed version is at `now`, where its publication time is known.
pub open spec fn evidence_age(evidence: Option<VersionReleaseEvidence>, now: u64) -> Option<u64> {
    match evidence {
        Some(e) => Some(age_at(e.published_at, now)),
        None => None,
    }
}

/// `item` is the report item of `tool` with release age `age`: a tool with
/// an audit identity carries the recorded answer for its installed version
/// (a lookup failure where none was recorded); any other carries the age
/// alone, where it is known.
pub open spec fn is_audited_item(
    item: ScanItem,
    tool: InstalledTool,
    age: Option<u64>,
    audits: Seq<(AuditQuery, AuditLookupResult)>,
) -> bool {
    match tool.audit_subject {
        None => match age {
            Some(a) => item == ScanItem::InstalledWithReleaseAge { tool, age: a },
            None => item == ScanItem::Installed(tool),
        },
        Some(_) => {
            &&& item matches ScanItem::InstalledWithAudit { tool: t, age: a, audit }
            &&& t == tool
            &&& a == age
            &&& audit_fact_spec(tool.audit_subject, tool.installed_version, audits) == Some(audit@)
        },
    }
}

/// The report item of `tool`, with its release age and, where it has an
/// audit identity, the answer recorded for its installed version.
pub fn scan_item_with_audit(tool: InstalledTool, age: Option<u64>, audit_results: &AuditResults) -> (r: ScanItem)
    ensures
        is_audited_item(r, tool, age, audit_results.entries@),
{
    if tool.audit_subject.is_none() {
        return match age {
            Some(a) => ScanItem::InstalledWithReleaseAge { tool, age: a },
            None => ScanItem::Installed(tool),
        };
    }
    let found = audit_fact_for(&tool.audit_subject, &tool.installed_version, audit_results);
    match found {
        Some(audit) => ScanItem::InstalledWithAudit { tool, age, audit },
        None => {
            assert(opt_lookup_view(found) is None);
            ScanItem::InstalledWithAudit {
                tool,
                age,
                audit: AuditLookupResult::LookupFailed { detail: "audit lookup result missing".to_owned() },
            }
        },
    }
}

pub open spec fn is_evidence_item(
    item: ScanItem,
    input: ManagerScanEvidenceInput,
    now: u64,
    audits: Seq<(AuditQuery, AuditLookupResult)>,
) -> bool {
    match input {
        ManagerScanEvidenceInput::Installed { tool, release_evidence } => is_audited_item(
            item,
            tool,
            evidence_age(release_evidence, now),
            audits,
        ),
        ManagerScanEvidenceInput::Skipped { installed, reason } => item == ScanItem::Skipped {
            tool: installed,
            reason,
        },
    }
}

/// A verbose scan input as a report item: the installed version's age at
/// `now` (zero when published after `now`) and its audit answer.
pub fn scan_item_from_evidence_input_with_audit(
    input: ManagerScanEvidenceInput,
    now: u64,
    audit_results: &AuditResults,
) -> (r: ScanItem)
    ensures
        is_evidence_item(r, input, now, audit_results.entries@),
{
    match input {
        ManagerScanEvidenceInput::Installed { tool, release_evidence } => {
            let age = match &release_evidence {
                Some(e) => Some(age_since(e.published_at, now)),
                None => None,
            };
            scan_item_with_audit(tool, age, audit_results)
        },
        ManagerScanEvidenceInput::Skipped { installed, reason } => ScanItem::Skipped { tool: installed, reason },
    }
}

/// The audit question of one verbose scan input: its installed version, for
/// an installed tool with an audit identity.
pub open spec fn input_queries(input: ManagerScanEvidenceInput) -> Seq<AuditQuery> {
    match input {
        ManagerScanEvidenceInput::Installed { tool, .. } => match tool.audit_subject {
            Some(s) => seq![AuditQuery { subject: s, version: tool.installed_version }],
            None => Seq::empty(),
        },
        ManagerScanEvidenceInput::Skipped { .. } => Seq::empty(),
    }
}

pub open spec fn scan_queries(inputs: Seq<ManagerScanEvidenceInput>) -> Seq<AuditQuery>
    decreases inputs.len(),
{
    if inputs.len() == 0 {
        Seq::empty()
    } else {
        scan_queries(inputs.drop_last()) + input_queries(inputs.last())
    }
}

/// The audit questions of a verbose scan, in input order.
pub fn scan_audit_queries(inputs: &[ManagerScanEvidenceInput]) -> (r: Vec<AuditQuery>)
    ensures
        r@ == scan_queries(inputs@),
{
    let mut out: Vec<AuditQuery> = Vec::new();
    let mut i: usize = 0;
    while i < inputs.len()
        invariant
            i <= inputs@.len(),
            out@ == scan_queries(inputs@.take(i as int)),
        decreases inputs@.len() - i,
    {
        assert(inputs@.take(i + 1).drop_last() =~= inputs@.take(i as int));
        match &inputs[i] {
            ManagerScanEvidenceInput::Installed { tool, .. } => {
                if let Some(s) = &tool.audit_subject {
                    let ghost before = out@;
                    out.push(AuditQuery::new(s.clone(), tool.installed_version.clone()));
                    assert(out@ =~= before + input_queries(inputs@[i as int]));
                } else {
                    assert(out@ =~= out@ + input_queries(inputs@[i as int]));
                }
            },
            ManagerScanEvidenceInput::Skipped { .. } => {
                assert(out@ =~= out@ + input_queries(inputs@[i as int]));
            },
        }
        i = i + 1;
    }
    assert(inputs@.take(inputs@.len() as int) =~= inputs@);
    out
}

/// The report of a manager whose discovery failed: an interruption stops
/// the run; any other failure becomes the report's one issue.
pub open spec fn discovery_failure_report(r: Result<ScanReport, AppError>, manager_id: ManagerId, err: ManagerAdapterError) -> bool {
    if interrupted_adapter(err) {
        &&& r matches Err(AppError::Interrupted(d))
        &&& d@ == adapter_error_text(err)
    } else {
        &&& r matches Ok(rep)
        &&& rep.manager_id == manager_id
        &&& rep.items@.len() == 0
        &&& rep.issues@.len() == 1
        &&& rep.issues@[0] matches ScanIssue::DiscoveryFailed { detail }
        &&& detail@ == adapter_error_text(err)
    }
}

pub fn scan_discovery_failure(manager_id: ManagerId, err: ManagerAdapterError) -> (r: Result<ScanReport, AppError>)
    ensures
        discovery_failure_report(r, manager_id, err),
{
    if err.is_interruption() {
        return Err(map_manager_error(err));
    }
    let mut issues: Vec<ScanIssue> = Vec::new();
    issues.push(ScanIssue::DiscoveryFailed { detail: err.message() });
    Ok(ScanReport::new(manager_id, Vec::new(), issues))
}

/// The report of a plain scan: one item per input, in order, or the
/// discovery failure.
pub fn scan_report_from_inputs(manager_id: ManagerId, inputs: Result<Vec<ManagerScanInput>, ManagerAdapterError>) -> (r:
    Result<ScanReport, AppError>)
    ensures
        match inputs {
            Ok(v) => {
                &&& r matches Ok(rep)
                &&& rep.manager_id == manager_id
                &&& rep.issues@.len() == 0
                &&& rep.items@.len() == v@.len()
                &&& forall|i: int| 0 <= i < v@.len() ==> rep.items@[i] == input_item(#[trigger] v@[i])
            },
            Err(e) => discovery_failure_report(r, manager_id, e),
        },
{
    match inputs {
        Ok(v) => {
            let ghost all = v@;
            let mut rest = v;
            let mut items: Vec<ScanItem> = Vec::new();
            while rest.len() > 0
                invariant
                    items@.len() + rest@.len() == all.len(),
                    rest@ == all.skip(items@.len() as int),
                    forall|i: int| 0 <= i < items@.len() ==> items@[i] == input_item(#[trigger] all[i]),
                decreases rest@.len(),
            {
                let ghost k = items@.len();
                let input = rest.remove(0);
                assert(input == all[k as int]);
                items.push(scan_item_from_input(input));
                assert(rest@ =~= all.skip(items@.len() as int));
            }
            Ok(ScanReport::new(manager_id, items, Vec::new()))
        },
        Err(e) => scan_discovery_failure(manager_id, e),
    }
}

/// The report of a verbose scan: one item per input, in order, with ages at
/// `now` and audit answers; a failed audit query fails the scan.
pub fn scan_report_with_audit(
    manager_id: ManagerId,
    inputs: Vec<ManagerScanEvidenceInput>,
    now: u64,
    audit: Result<AuditResults, AuditError>,
) -> (r: Result<ScanReport, AppError>)
    ensures
        match audit {
            Err(e) => {
                &&& r matches Err(AppError::Planning(d))
                &&& d@ == audit_error_text(e)
            },
            Ok(results) => {
                &&& r matches Ok(rep)
                &&& rep.manager_id == manager_id
                &&& rep.issues@.len() == 0
                &&& rep.items@.len() == inputs@.len()
                &&& forall|i: int| 0 <= i < inputs@.len() ==> is_evidence_item(
                    #[trigger] rep.items@[i],
                    inputs@[i],
                    now,
                    results.entries@,
                )
            },
        },
{
    let results = match audit {
        Ok(results) => results,
        Err(e) => {
            return Err(AppError::Planning(e.message()));
        },
    };
    let ghost all = inputs@;
    let mut rest = inputs;
    let mut items: Vec<ScanItem> = Vec::new();
    while rest.len() > 0
        invariant
            items@.len() + rest@.len() == all.len(),
            rest@ == all.skip(items@.len() as int),
            forall|i: int| 0 <= i < items@.len() ==> is_evidence_item(
                #[trigger] items@[i],
                all[i],
                now,
                results.entries@,
            ),
        decreases rest@.len(),
    {
        let ghost k = items@.len();
        let input = rest.remove(0);
        assert(input == all[k as int]);
        items.push(scan_item_from_evidence_input_with_audit(input, now, &results));
        assert(rest@ =~= all.skip(items@.len() as int));
    }
    Ok(ScanReport::new(manager_id, items, Vec::new()))
}

} // verus!
