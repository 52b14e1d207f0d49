//! The rows of the batch `plan` output: one per plan item, with the notes
//! that explain it.
use vstd::prelude::*;

use crate::domain::{
    AuditView, InstalledTool, ManagerId, PolicyWarning, VersionPolicy, VersionText,
};
use crate::notes::{
    audit_candidate, audit_candidate_text, human_age, human_age_text, no_eligible_latest_too_fresh,
    policy_warning_text, released, skip_reason, skip_reason_text, too_fresh, too_fresh_text,
    version_blocked_by_policy, version_policy_warning, version_too_fresh,
};
use crate::outcome::{
    notes_view, NoteView, OutcomeNote, OutcomeRow, OutcomeStatusView, OutcomeSubjectView,
    OutcomeTable, OutcomeTargetView, OutcomeVersionEmphasis, OutcomeVersionsView,
    OutcomeVisibility, RowView,
};
use crate::plan::{
    AdvisoryLatestFact, AdvisoryView, BlockReason, CandidateAgeFact, DelayReason,
    DiagnosticsView, EvaluationView, PlanDiagnostics, PlanItem, PlannedTarget, SkipReason,
    UpdateCandidate, UpdatePlan, UpdateSeed,
};
use crate::execution::{ExecutionItemResult, ExecutionReport, ExecutionStatus, ResolvedExecutionTarget};
use crate::scan::{ManagerRuleReason, ScanIssue, ScanItem, ScanReport};
use crate::selection::PlanSelection;
use crate::text::concat;

verus! {

/// How plan rows are rendered: the version policy that planning used.
#[derive(Debug, Clone, Copy, PartialEq, Eq, Structural)]
pub struct BatchRenderOptions {
    pub version_policy: Option<VersionPolicy>,
}

impl BatchRenderOptions {
    pub fn new() -> (r: Self)
        ensures
            r.version_policy is None,
    {
        BatchRenderOptions { version_policy: None }
    }

    pub fn with_version_policy(self, version_policy: VersionPolicy) -> (r: Self)
        ensures
            r.version_policy == Some(version_policy),
    {
        BatchRenderOptions { version_policy: Some(version_policy) }
    }
}

// ---------------------------------------------------------------------------
// Notes
// ---------------------------------------------------------------------------

pub open spec fn always(text: Seq<char>) -> NoteView {
    NoteView { text, visibility: OutcomeVisibility::Always }
}

pub open spec fn opt_note(n: Option<NoteView>) -> Seq<NoteView> {
    match n {
        Some(x) => seq![x],
        None => Seq::empty(),
    }
}

/// When the selected target was released, shown only with `--verbose`.
pub open spec fn target_release_note_v(d: DiagnosticsView) -> Option<NoteView> {
    match d.selected_target {
        Some(t) => Some(
            NoteView {
                text: human_age_text(t.age as nat) + " ago"@,
                visibility: OutcomeVisibility::VerboseOnly,
            },
        ),
        None => None,
    }
}

/// The first age fact of `candidates` for `version`.
pub open spec fn first_fact_for(candidates: Seq<CandidateAgeFact>, version: Seq<char>) -> Option<int>
    decreases candidates.len(),
{
    if candidates.len() == 0 {
        None
    } else {
        match first_fact_for(candidates.drop_last(), version) {
            Some(i) => Some(i),
            None => if candidates.last().version@ == version {
                Some(candidates.len() - 1)
            } else {
                None
            },
        }
    }
}

/// The age fact of the advisory latest version: its own, else the first one
/// listed.
pub open spec fn advisory_fact(a: AdvisoryView) -> Option<CandidateAgeFact> {
    match a {
        AdvisoryView::Known { latest_version, candidates } => match first_fact_for(
            candidates,
            latest_version@,
        ) {
            Some(i) => Some(candidates[i]),
            None => if candidates.len() > 0 {
                Some(candidates[0])
            } else {
                None
            },
        },
        _ => None,
    }
}

/// The newest release when it is younger than the required age, else the
/// advisory latest when that is.
pub open spec fn latest_too_fresh_v(d: DiagnosticsView) -> Option<CandidateAgeFact> {
    match d.latest_overall {
        Some(l) if l.age < d.required_age => Some(l),
        _ => match d.advisory_latest {
            Some(a) => match advisory_fact(a) {
                Some(f) if f.age < d.required_age => Some(f),
                _ => None,
            },
            None => None,
        },
    }
}

pub open spec fn latest_too_fresh_note_v(d: DiagnosticsView) -> Option<NoteView> {
    match latest_too_fresh_v(d) {
        Some(l) => Some(always(l.version@ + " too fresh"@)),
        None => None,
    }
}

/// Why an update waits: the target's age against the required one, else
/// the too-young newest release, else the required age itself.
pub open spec fn delayed_note_v(d: DiagnosticsView) -> NoteView {
    match d.selected_target {
        Some(t) => always(too_fresh_text(Some(t.age), d.required_age)),
        None => match latest_too_fresh_v(d) {
            Some(l) => always("no eligible release yet; "@ + l.version@ + " too fresh"@),
            None => always(
                "no eligible release yet; required age "@ + human_age_text(d.required_age as nat),
            ),
        },
    }
}

/// A failed advisory lookup, recorded directly or in the advisory fact.
pub open spec fn advisory_note_v(d: DiagnosticsView) -> Option<NoteView> {
    let failure = match d.advisory_lookup_failure {
        Some(e) => Some(e),
        None => match d.advisory_latest {
            Some(AdvisoryView::LookupFailed { error, .. }) => Some(error),
            _ => None,
        },
    };
    match failure {
        Some(e) => Some(always("advisory latest lookup failed: "@ + e.detail@)),
        None => None,
    }
}

/// The first candidate that the version policy blocked.
pub open spec fn policy_blocked_version(cands: Seq<EvaluationView>) -> Option<VersionText>
    decreases cands.len(),
{
    if cands.len() == 0 {
        None
    } else {
        match policy_blocked_version(cands.drop_last()) {
            Some(v) => Some(v),
            None => if cands.last().policy_block_reason is Some {
                Some(cands.last().version)
            } else {
                None
            },
        }
    }
}

/// Under a filtering policy, the newest version the policy held back.
pub open spec fn policy_note_v(d: DiagnosticsView, policy: Option<VersionPolicy>) -> Option<NoteView> {
    match policy {
        Some(p) => if p == VersionPolicy::Unfiltered {
            None
        } else {
            match policy_blocked_version(d.candidates) {
                Some(v) => Some(always(v@ + " blocked by policy"@)),
                None => None,
            }
        },
        None => None,
    }
}

pub open spec fn warning_notes(ws: Seq<PolicyWarning>) -> Seq<NoteView> {
    ws.map_values(|w: PolicyWarning| always("version policy warning: "@ + policy_warning_text(w)))
}

fn note(text: String) -> (r: OutcomeNote)
    ensures
        r@ == always(text@),
{
    OutcomeNote::normal(text)
}

fn with_opt_note(row: OutcomeRow, n: Option<OutcomeNote>) -> (r: OutcomeRow)
    ensures
        r@ == (RowView {
            notes: row@.notes + opt_note(
                match n {
                    Some(x) => Some(x@),
                    None => None,
                },
            ),
            ..row@
        }),
{
    match n {
        Some(x) => {
            let r = row.with_note(x);
            assert(r@.notes =~= row@.notes + opt_note(Some(x@)));
            r
        },
        None => {
            assert(row@.notes + opt_note(None) =~= row@.notes);
            row
        },
    }
}

pub fn target_release_note(diagnostics: &PlanDiagnostics) -> (r: Option<OutcomeNote>)
    ensures
        match r {
            Some(n) => target_release_note_v(diagnostics@) == Some(n@),
            None => target_release_note_v(diagnostics@) is None,
        },
{
    match &diagnostics.selected_target {
        Some(t) => Some(OutcomeNote::normal(released(t.age)).with_visibility(OutcomeVisibility::VerboseOnly)),
        None => None,
    }
}

pub fn advisory_latest_age_fact(advisory: &AdvisoryLatestFact) -> (r: Option<CandidateAgeFact>)
    ensures
        r == advisory_fact(advisory@),
{
    match advisory {
        AdvisoryLatestFact::Known { latest_version, candidates } => {
            let mut i: usize = 0;
            while i < candidates.len()
                invariant
                    i <= candidates@.len(),
                    advisory@ == (AdvisoryView::Known { latest_version: *latest_version, candidates: candidates@ }),
                    first_fact_for(candidates@.take(i as int), latest_version@) is None,
                decreases candidates@.len() - i,
            {
                assert(candidates@.take(i + 1).drop_last() =~= candidates@.take(i as int));
                assert(candidates@.take(i + 1).last() == candidates@[i as int]);
                if candidates[i].version.same(latest_version) {
                    assert(first_fact_for(candidates@.take(i + 1), latest_version@) == Some(i as int));
                    proof {
                        lemma_first_fact_stop(candidates@, latest_version@, i + 1);
                    }
                    return Some(candidates[i].clone());
                }
                i = i + 1;
            }
            assert(candidates@.take(candidates@.len() as int) =~= candidates@);
            if candidates.len() > 0 {
                Some(candidates[0].clone())
            } else {
                None
            }
        },
        _ => None,
    }
}

proof fn lemma_first_fact_stop(c: Seq<CandidateAgeFact>, v: Seq<char>, k: int)
    requires
        0 <= k <= c.len(),
        first_fact_for(c.take(k), v) is Some,
    ensures
        first_fact_for(c, v) == first_fact_for(c.take(k), v),
    decreases c.len() - k,
{
    if k < c.len() {
        assert(c.take(k + 1).drop_last() =~= c.take(k));
        lemma_first_fact_stop(c, v, k + 1);
    } else {
        assert(c.take(k) =~= c);
    }
}

pub fn latest_too_fresh(diagnostics: &PlanDiagnostics) -> (r: Option<CandidateAgeFact>)
    ensures
        r == latest_too_fresh_v(diagnostics@),
{
    if let Some(l) = &diagnostics.latest_overall {
        if l.age < diagnostics.required_age {
            return Some(l.clone());
        }
    }
    match &diagnostics.advisory_latest {
        Some(a) => match advisory_latest_age_fact(a) {
            Some(f) => if f.age < diagnostics.required_age {
                Some(f)
            } else {
                None
            },
            None => None,
        },
        None => None,
    }
}

pub fn latest_too_fresh_note(diagnostics: &PlanDiagnostics) -> (r: Option<OutcomeNote>)
    ensures
        match r {
            Some(n) => latest_too_fresh_note_v(diagnostics@) == Some(n@),
            None => latest_too_fresh_note_v(diagnostics@) is None,
        },
{
    match latest_too_fresh(diagnostics) {
        Some(l) => Some(note(version_too_fresh(&l.version))),
        None => None,
    }
}

pub fn delayed_note(reason: &DelayReason, diagnostics: &PlanDiagnostics) -> (r: OutcomeNote)
    ensures
        r@ == delayed_note_v(diagnostics@),
{
    match reason {
        DelayReason::ReleaseTooFresh => {
            if let Some(t) = &diagnostics.selected_target {
                return note(too_fresh(Some(t.age), diagnostics.required_age));
            }
            if let Some(l) = latest_too_fresh(diagnostics) {
                return note(no_eligible_latest_too_fresh(&l.version));
            }
            note(
                concat(
                    "no eligible release yet; required age ",
                    human_age(diagnostics.required_age).as_str(),
                ),
            )
        },
    }
}

pub fn append_advisory_warning_notes(row: OutcomeRow, diagnostics: &PlanDiagnostics) -> (r: OutcomeRow)
    ensures
        r@ == (RowView { notes: row@.notes + opt_note(advisory_note_v(diagnostics@)), ..row@ }),
{
    let failure = match &diagnostics.advisory_lookup_failure {
        Some(e) => Some(e),
        None => match &diagnostics.advisory_latest {
            Some(AdvisoryLatestFact::LookupFailed { error, .. }) => Some(error),
            _ => None,
        },
    };
    let n = match failure {
        Some(e) => Some(note(concat("advisory latest lookup failed: ", e.detail.as_str()))),
        None => None,
    };
    with_opt_note(row, n)
}

pub fn latest_policy_blocked_version(diagnostics: &PlanDiagnostics) -> (r: Option<VersionText>)
    ensures
        r == policy_blocked_version(diagnostics@.candidates),
{
    let cands = &diagnostics.candidates;
    let ghost cv = diagnostics@.candidates;
    let mut i: usize = 0;
    while i < cands.len()
        invariant
            i <= cands@.len(),
            cv == crate::plan::evals_view(cands@),
            cv == diagnostics@.candidates,
            policy_blocked_version(cv.take(i as int)) is None,
        decreases cands@.len() - i,
    {
        assert(cv.take(i + 1).drop_last() =~= cv.take(i as int));
        assert(cv.take(i + 1).last() == cv[i as int]);
        assert(cv[i as int] == cands@[i as int]@);
        if cands[i].policy_block_reason.is_some() {
            proof {
                lemma_policy_blocked_stop(cv, i + 1);
            }
            return Some(cands[i].version.clone());
        }
        i = i + 1;
    }
    assert(cv.take(cands@.len() as int) =~= cv);
    None
}

proof fn lemma_policy_blocked_stop(c: Seq<EvaluationView>, k: int)
    requires
        0 <= k <= c.len(),
        policy_blocked_version(c.take(k)) is Some,
    ensures
        policy_blocked_version(c) == policy_blocked_version(c.take(k)),
    decreases c.len() - k,
{
    if k < c.len() {
        assert(c.take(k + 1).drop_last() =~= c.take(k));
        lemma_policy_blocked_stop(c, k + 1);
    } else {
        assert(c.take(k) =~= c);
    }
}

pub fn append_policy_notes(row: OutcomeRow, diagnostics: &PlanDiagnostics, version_policy: Option<VersionPolicy>) -> (r:
    OutcomeRow)
    ensures
        r@ == (RowView { notes: row@.notes + opt_note(policy_note_v(diagnostics@, version_policy)), ..row@ }),
{
    let n = match version_policy {
        Some(p) => match p {
            VersionPolicy::Unfiltered => None,
            _ => match latest_policy_blocked_version(diagnostics) {
                Some(v) => Some(note(version_blocked_by_policy(&v))),
                None => None,
            },
        },
        None => None,
    };
    with_opt_note(row, n)
}

pub fn append_policy_warning_notes(row: OutcomeRow, warnings: &[PolicyWarning]) -> (r: OutcomeRow)
    ensures
        r@ == (RowView { notes: row@.notes + warning_notes(warnings@), ..row@ }),
{
    let mut row = row;
    let ghost start = row@;
    let mut i: usize = 0;
    assert(start.notes + warning_notes(warnings@.take(0)) =~= start.notes);
    while i < warnings.len()
        invariant
            i <= warnings@.len(),
            row@ == (RowView { notes: start.notes + warning_notes(warnings@.take(i as int)), ..start }),
        decreases warnings@.len() - i,
    {
        row = row.with_note(note(version_policy_warning(warnings[i])));
        assert(warning_notes(warnings@.take(i + 1)) =~= warning_notes(warnings@.take(i as int)).push(
            always("version policy warning: "@ + policy_warning_text(warnings@[i as int])),
        ));
        i = i + 1;
    }
    assert(warnings@.take(warnings@.len() as int) =~= warnings@);
    row
}

pub open spec fn lookup_failure_text_v(d: DiagnosticsView) -> Seq<char> {
    match d.lookup_failure {
        Some(e) => e.detail@,
        None => "release lookup failed"@,
    }
}

pub fn lookup_failure_text(diagnostics: &PlanDiagnostics) -> (r: String)
    ensures
        r@ == lookup_failure_text_v(diagnostics@),
{
    match &diagnostics.lookup_failure {
        Some(e) => e.detail.clone(),
        None => "release lookup failed".to_owned(),
    }
}

// ---------------------------------------------------------------------------
// Rows
// ---------------------------------------------------------------------------

pub open spec fn is_audit_block(reason: BlockReason) -> bool {
    reason == BlockReason::AuditVulnerable || reason == BlockReason::AuditLookupFailed
}

/// The version a blocked row names: the candidate the audit blocked, else
/// the seed's target.
pub open spec fn blocked_target_v(seed: UpdateSeed, reason: BlockReason, d: DiagnosticsView) -> Option<VersionText> {
    if is_audit_block(reason) && d.audit_blocking_candidate is Some {
        Some(d.audit_blocking_candidate->0.version)
    } else {
        seed.target_selection.spec_target_version()
    }
}

pub fn blocked_target_version(seed: &UpdateSeed, reason: &BlockReason, diagnostics: &PlanDiagnostics) -> (r:
    Option<VersionText>)
    ensures
        r == blocked_target_v(*seed, *reason, diagnostics@),
{
    let audit = match reason {
        BlockReason::AuditVulnerable => true,
        BlockReason::AuditLookupFailed => true,
        _ => false,
    };
    if audit {
        if let Some(c) = &diagnostics.audit_blocking_candidate {
            return Some(c.version.clone());
        }
    }
    match seed.target_selection.target_version() {
        Some(v) => Some(v.clone()),
        None => None,
    }
}

pub open spec fn candidate_versions(c: UpdateCandidate) -> OutcomeVersionsView {
    match c.target {
        PlannedTarget::Known(v) => OutcomeVersionsView::Change {
            from: c.installed_version,
            to: OutcomeTargetView::Known(v),
            emphasis: OutcomeVersionEmphasis::Target,
        },
        PlannedTarget::ManagerResolved => OutcomeVersionsView::Change {
            from: c.installed_version,
            to: OutcomeTargetView::ManagerResolved,
            emphasis: OutcomeVersionEmphasis::Target,
        },
    }
}

pub open spec fn item_row(status: OutcomeStatusView, m: ManagerId, c: UpdateCandidate, notes: Seq<NoteView>) -> RowView {
    RowView {
        status,
        subject: OutcomeSubjectView::Item {
            manager_id: m,
            package_name: c.package_name,
            versions: candidate_versions(c),
        },
        notes,
        visibility: OutcomeVisibility::Always,
    }
}

pub fn candidate_row(status: OutcomeStatusView, manager_id: &ManagerId, candidate: &UpdateCandidate) -> (r: OutcomeRow)
    ensures
        r@ == item_row(status, *manager_id, *candidate, Seq::empty()),
{
    let versions = match candidate.target_version() {
        Some(v) => OutcomeVersionsView::change(candidate.installed_version.clone(), v.clone()),
        None => OutcomeVersionsView::manager_resolved(candidate.installed_version.clone()),
    };
    OutcomeRow::item(status, manager_id.clone(), candidate.package_name.clone(), versions)
}

/// The notes of an update row.
pub open spec fn update_notes(c: UpdateCandidate, policy: Option<VersionPolicy>) -> Seq<NoteView> {
    let d = c.diagnostics@;
    opt_note(target_release_note_v(d)) + opt_note(latest_too_fresh_note_v(d)) + opt_note(
        advisory_note_v(d),
    ) + opt_note(policy_note_v(d, policy)) + warning_notes(c.policy_warnings@)
}

/// The notes of a delayed row.
pub open spec fn delayed_notes(c: UpdateCandidate, policy: Option<VersionPolicy>) -> Seq<NoteView> {
    let d = c.diagnostics@;
    opt_note(target_release_note_v(d)) + seq![delayed_note_v(d)] + opt_note(advisory_note_v(d))
        + opt_note(policy_note_v(d, policy)) + warning_notes(c.policy_warnings@)
}

pub fn update_row(manager_id: &ManagerId, candidate: &UpdateCandidate, options: BatchRenderOptions) -> (r: OutcomeRow)
    ensures
        r@ == item_row(OutcomeStatusView::Update, *manager_id, *candidate, update_notes(*candidate, options.version_policy)),
{
    let row = candidate_row(OutcomeStatusView::Update, manager_id, candidate);
    let row = with_opt_note(row, target_release_note(&candidate.diagnostics));
    let row = with_opt_note(row, latest_too_fresh_note(&candidate.diagnostics));
    let row = append_advisory_warning_notes(row, &candidate.diagnostics);
    let row = append_policy_notes(row, &candidate.diagnostics, options.version_policy);
    let r = append_policy_warning_notes(row, candidate.policy_warnings.as_slice());
    assert(r@.notes =~= update_notes(*candidate, options.version_policy));
    r
}

pub fn delayed_row(manager_id: &ManagerId, candidate: &UpdateCandidate, reason: &DelayReason, options: BatchRenderOptions) -> (r:
    OutcomeRow)
    ensures
        r@ == item_row(OutcomeStatusView::Delayed, *manager_id, *candidate, delayed_notes(*candidate, options.version_policy)),
{
    let row = candidate_row(OutcomeStatusView::Delayed, manager_id, candidate);
    let row = with_opt_note(row, target_release_note(&candidate.diagnostics));
    let row = row.with_note(delayed_note(reason, &candidate.diagnostics));
    let row = append_advisory_warning_notes(row, &candidate.diagnostics);
    let row = append_policy_notes(row, &candidate.diagnostics, options.version_policy);
    let r = append_policy_warning_notes(row, candidate.policy_warnings.as_slice());
    assert(r@.notes =~= delayed_notes(*candidate, options.version_policy));
    r
}

/// The audit note of a blocked row, or `audit unavailable`.
pub open spec fn audit_note_text(d: DiagnosticsView) -> Seq<char> {
    match d.audit_blocking_target {
        Some(a) => match audit_candidate_text(a) {
            Some(t) => t,
            None => "audit unavailable"@,
        },
        None => "audit unavailable"@,
    }
}

/// The row of a blocked item: a policy block reads as current, the other
/// blocks name the version they stopped, with why.
pub open spec fn blocked_row_v(
    m: ManagerId,
    seed: UpdateSeed,
    reason: BlockReason,
    warnings: Seq<PolicyWarning>,
    d: DiagnosticsView,
    policy: Option<VersionPolicy>,
) -> RowView {
    let installed = seed.installed.installed_version;
    let versions = match blocked_target_v(seed, reason, d) {
        Some(v) => OutcomeVersionsView::Change {
            from: installed,
            to: OutcomeTargetView::Known(v),
            emphasis: OutcomeVersionEmphasis::Current,
        },
        None => OutcomeVersionsView::Change {
            from: installed,
            to: OutcomeTargetView::ManagerResolved,
            emphasis: OutcomeVersionEmphasis::Target,
        },
    };
    let (status, shown, first): (OutcomeStatusView, OutcomeVersionsView, Seq<NoteView>) = match reason {
        BlockReason::VersionPolicy(_) => (
            OutcomeStatusView::Current,
            OutcomeVersionsView::Current { version: installed },
            opt_note(policy_note_v(d, policy)),
        ),
        BlockReason::MissingReleaseMetadata => (
            OutcomeStatusView::Blocked,
            versions,
            seq![always("missing release metadata"@)],
        ),
        BlockReason::ReleaseLookupFailed => (
            OutcomeStatusView::Error,
            versions,
            seq![always(lookup_failure_text_v(d))],
        ),
        _ => (OutcomeStatusView::Blocked, versions, seq![always(audit_note_text(d))]),
    };
    RowView {
        status,
        subject: OutcomeSubjectView::Item {
            manager_id: m,
            package_name: seed.installed.package_name,
            versions: shown,
        },
        notes: first + opt_note(advisory_note_v(d)) + warning_notes(warnings),
        visibility: OutcomeVisibility::Always,
    }
}

pub fn blocked_row(
    manager_id: &ManagerId,
    seed: &UpdateSeed,
    reason: &BlockReason,
    policy_warnings: &[PolicyWarning],
    diagnostics: &PlanDiagnostics,
    options: BatchRenderOptions,
) -> (r: OutcomeRow)
    ensures
        r@ == blocked_row_v(*manager_id, *seed, *reason, policy_warnings@, diagnostics@, options.version_policy),
{
    let installed = seed.installed.installed_version.clone();
    let versions = match blocked_target_version(seed, reason, diagnostics) {
        Some(v) => OutcomeVersionsView::Change {
            from: installed,
            to: OutcomeTargetView::Known(v),
            emphasis: OutcomeVersionEmphasis::Current,
        },
        None => OutcomeVersionsView::manager_resolved(installed),
    };
    let package = seed.installed.package_name.clone();
    let row = match reason {
        BlockReason::VersionPolicy(_) => {
            let row = OutcomeRow::item(
                OutcomeStatusView::Current,
                manager_id.clone(),
                package,
                OutcomeVersionsView::Current { version: seed.installed.installed_version.clone() },
            );
            append_policy_notes(row, diagnostics, options.version_policy)
        },
        BlockReason::MissingReleaseMetadata => OutcomeRow::item(
            OutcomeStatusView::Blocked,
            manager_id.clone(),
            package,
            versions,
        ).with_note(note("missing release metadata".to_owned())),
        BlockReason::ReleaseLookupFailed => OutcomeRow::item(
            OutcomeStatusView::Error,
            manager_id.clone(),
            package,
            versions,
        ).with_note(note(lookup_failure_text(diagnostics))),
        _ => {
            let text = match &diagnostics.audit_blocking_target {
                Some(a) => {
                    let as_lookup = a.to_lookup();
                    match audit_candidate(&as_lookup) {
                        Some(t) => t,
                        None => "audit unavailable".to_owned(),
                    }
                },
                None => "audit unavailable".to_owned(),
            };
            OutcomeRow::item(OutcomeStatusView::Blocked, manager_id.clone(), package, versions).with_note(
                note(text),
            )
        },
    };
    let row = append_advisory_warning_notes(row, diagnostics);
    let r = append_policy_warning_notes(row, policy_warnings);
    proof {
        let d = diagnostics@;
        match *reason {
            BlockReason::VersionPolicy(_) => {
                assert(r@.notes =~= opt_note(policy_note_v(d, options.version_policy)) + opt_note(advisory_note_v(d))
                    + warning_notes(policy_warnings@));
            },
            _ => {
                assert(r@.notes =~= r@.notes.take(1) + opt_note(advisory_note_v(d)) + warning_notes(policy_warnings@));
            },
        }
    }
    r
}

pub open spec fn installed_row(status: OutcomeStatusView, m: ManagerId, t: InstalledTool, notes: Seq<NoteView>, visibility: OutcomeVisibility) -> RowView {
    RowView {
        status,
        subject: OutcomeSubjectView::Item {
            manager_id: m,
            package_name: t.package_name,
            versions: OutcomeVersionsView::Current { version: t.installed_version },
        },
        notes,
        visibility,
    }
}

fn installed_item(status: OutcomeStatusView, manager_id: &ManagerId, installed: &InstalledTool) -> (r: OutcomeRow)
    ensures
        r@ == installed_row(status, *manager_id, *installed, Seq::empty(), OutcomeVisibility::Always),
{
    OutcomeRow::item(
        status,
        manager_id.clone(),
        installed.package_name.clone(),
        OutcomeVersionsView::Current { version: installed.installed_version.clone() },
    )
}

pub fn current_no_newer_row(manager_id: &ManagerId, installed: &InstalledTool) -> (r: OutcomeRow)
    ensures
        r@ == installed_row(
            OutcomeStatusView::Current,
            *manager_id,
            *installed,
            seq![always("no newer version found"@)],
            OutcomeVisibility::VerboseOnly,
        ),
{
    let r = installed_item(OutcomeStatusView::Current, manager_id, installed).with_note(
        note("no newer version found".to_owned()),
    ).with_visibility(OutcomeVisibility::VerboseOnly);
    assert(r@.notes =~= seq![always("no newer version found"@)]);
    r
}

pub fn skipped_plan_row(manager_id: &ManagerId, installed: &InstalledTool, reason: &SkipReason) -> (r: OutcomeRow)
    ensures
        r@ == installed_row(
            OutcomeStatusView::Skipped,
            *manager_id,
            *installed,
            seq![always(skip_reason_text(*reason))],
            OutcomeVisibility::Always,
        ),
{
    let r = installed_item(OutcomeStatusView::Skipped, manager_id, installed).with_note(
        note(skip_reason(reason)),
    );
    assert(r@.notes =~= seq![always(skip_reason_text(*reason))]);
    r
}

/// The row of a plan item.
pub open spec fn plan_row_v(m: ManagerId, item: PlanItem, policy: Option<VersionPolicy>) -> RowView {
    match item {
        PlanItem::Update { candidate, .. } => item_row(
            OutcomeStatusView::Update,
            m,
            candidate,
            update_notes(candidate, policy),
        ),
        PlanItem::Current { installed, .. } => installed_row(
            OutcomeStatusView::Current,
            m,
            installed,
            seq![always("no newer version found"@)],
            OutcomeVisibility::VerboseOnly,
        ),
        PlanItem::Delayed { candidate, .. } => item_row(
            OutcomeStatusView::Delayed,
            m,
            candidate,
            delayed_notes(candidate, policy),
        ),
        PlanItem::Blocked { seed, reason, policy_warnings, diagnostics, .. } => blocked_row_v(
            m,
            seed,
            reason,
            policy_warnings@,
            diagnostics@,
            policy,
        ),
        PlanItem::Skipped { installed, reason, .. } => installed_row(
            OutcomeStatusView::Skipped,
            m,
            installed,
            seq![always(skip_reason_text(reason))],
            OutcomeVisibility::Always,
        ),
        PlanItem::ResolverError { installed, message, .. } => installed_row(
            OutcomeStatusView::Error,
            m,
            installed,
            seq![always(message@)],
            OutcomeVisibility::Always,
        ),
    }
}

pub fn plan_item_row(manager_id: &ManagerId, item: &PlanItem, options: BatchRenderOptions) -> (r: OutcomeRow)
    ensures
        r@ == plan_row_v(*manager_id, *item, options.version_policy),
{
    match item {
        PlanItem::Update { candidate, .. } => update_row(manager_id, candidate, options),
        PlanItem::Current { installed, .. } => current_no_newer_row(manager_id, installed),
        PlanItem::Delayed { candidate, reason, .. } => delayed_row(manager_id, candidate, reason, options),
        PlanItem::Blocked { seed, reason, policy_warnings, diagnostics, .. } => blocked_row(
            manager_id,
            seed,
            reason,
            policy_warnings.as_slice(),
            diagnostics,
            options,
        ),
        PlanItem::Skipped { installed, reason, .. } => skipped_plan_row(manager_id, installed, reason),
        PlanItem::ResolverError { installed, message, .. } => {
            let r = installed_item(OutcomeStatusView::Error, manager_id, installed).with_note(
                note(message.clone()),
            );
            assert(r@.notes =~= seq![always(message@)]);
            r
        },
    }
}

pub open spec fn rows_view(v: Seq<OutcomeRow>) -> Seq<RowView> {
    v.map_values(|r: OutcomeRow| r@)
}

/// The table of a plan: one row per item, in plan order.
pub fn update_plan_table(plan: &UpdatePlan, options: BatchRenderOptions) -> (r: OutcomeTable)
    ensures
        r.rows@.len() == plan.items@.len(),
        forall|i: int|
            0 <= i < plan.items@.len() ==> (#[trigger] r.rows@[i])@ == plan_row_v(
                plan.manager_id,
                plan.items@[i],
                options.version_policy,
            ),
{
    let mut rows: Vec<OutcomeRow> = Vec::new();
    let mut i: usize = 0;
    while i < plan.items.len()
        invariant
            i <= plan.items@.len(),
            rows@.len() == i,
            forall|k: int|
                0 <= k < i ==> (#[trigger] rows@[k])@ == plan_row_v(
                    plan.manager_id,
                    plan.items@[k],
                    options.version_policy,
                ),
        decreases plan.items@.len() - i,
    {
        rows.push(plan_item_row(&plan.manager_id, &plan.items[i], options));
        i = i + 1;
    }
    OutcomeTable::new(rows)
}

/// The one-row table of a manager whose command failed.
pub fn manager_error_table(manager_id: &ManagerId, command: &str, detail: &str) -> (r: OutcomeTable)
    ensures
        r.rows@.len() == 1,
        r.rows@[0]@ == (RowView {
            status: OutcomeStatusView::Error,
            subject: OutcomeSubjectView::Manager(*manager_id),
            notes: seq![always(command@ + " failed: "@ + detail@)],
            visibility: OutcomeVisibility::Always,
        }),
{
    let a = concat(command, " failed: ");
    let text = concat(a.as_str(), detail);
    let row = OutcomeRow::manager(OutcomeStatusView::Error, manager_id.clone()).with_note(note(text));
    assert(row@.notes =~= seq![always(command@ + " failed: "@ + detail@)]);
    let mut rows: Vec<OutcomeRow> = Vec::new();
    rows.push(row);
    OutcomeTable::new(rows)
}

/// The update rows of a plan that the selection left out, in plan order,
/// each marked `not selected`.
pub open spec fn unselected_rows(m: ManagerId, items: Seq<PlanItem>, selected: Seq<Seq<char>>) -> Seq<RowView>
    decreases items.len(),
{
    if items.len() == 0 {
        Seq::empty()
    } else {
        let head = unselected_rows(m, items.drop_last(), selected);
        match items.last() {
            PlanItem::Update { id, candidate } => if selected.contains(id@) {
                head
            } else {
                head.push(item_row(OutcomeStatusView::Skipped, m, candidate, seq![always("not selected"@)]))
            },
            _ => head,
        }
    }
}

pub open spec fn selected_ids(s: PlanSelection) -> Seq<Seq<char>> {
    s.selected_items@.map_values(|i: crate::selection::SelectedItem| i.plan_item_id@)
}

pub fn unselected_update_rows(plan: &UpdatePlan, selection: &PlanSelection) -> (r: Vec<OutcomeRow>)
    ensures
        rows_view(r@) == unselected_rows(plan.manager_id, plan.items@, selected_ids(*selection)),
{
    let ghost sel = selected_ids(*selection);
    let mut rows: Vec<OutcomeRow> = Vec::new();
    let mut i: usize = 0;
    while i < plan.items.len()
        invariant
            i <= plan.items@.len(),
            sel == selected_ids(*selection),
            rows_view(rows@) == unselected_rows(plan.manager_id, plan.items@.take(i as int), sel),
        decreases plan.items@.len() - i,
    {
        assert(plan.items@.take(i + 1).drop_last() =~= plan.items@.take(i as int));
        assert(plan.items@.take(i + 1).last() == plan.items@[i as int]);
        match &plan.items[i] {
            PlanItem::Update { id, candidate } => {
                let mut found = false;
                let mut k: usize = 0;
                while k < selection.selected_items.len()
                    invariant
                        k <= selection.selected_items@.len(),
                        sel == selected_ids(*selection),
                        found == (exists|m: int| 0 <= m < k && sel[m] == id@),
                    decreases selection.selected_items@.len() - k,
                {
                    assert(sel[k as int] == selection.selected_items@[k as int].plan_item_id@);
                    if selection.selected_items[k].plan_item_id.same(id) {
                        found = true;
                    }
                    k = k + 1;
                }
                assert(found == sel.contains(id@));
                if !found {
                    let ghost before = rows_view(rows@);
                    let row = candidate_row(OutcomeStatusView::Skipped, &plan.manager_id, candidate).with_note(
                        note("not selected".to_owned()),
                    );
                    assert(row@.notes =~= seq![always("not selected"@)]);
                    rows.push(row);
                    assert(rows_view(rows@) =~= before.push(row@));
                }
            },
            _ => {},
        }
        i = i + 1;
    }
    assert(plan.items@.take(plan.items@.len() as int) =~= plan.items@);
    rows
}


// ---------------------------------------------------------------------------
// Scan reports
// ---------------------------------------------------------------------------

pub open spec fn manager_rule_text(reason: ManagerRuleReason) -> Seq<char> {
    match reason {
        ManagerRuleReason::Dependency => "dependency"@,
        ManagerRuleReason::DefaultGem => "default gem"@,
        ManagerRuleReason::Other { detail } => detail@,
    }
}

pub fn manager_rule_reason_text(reason: &ManagerRuleReason) -> (r: String)
    ensures
        r@ == manager_rule_text(*reason),
{
    match reason {
        ManagerRuleReason::Dependency => "dependency".to_owned(),
        ManagerRuleReason::DefaultGem => "default gem".to_owned(),
        ManagerRuleReason::Other { detail } => detail.clone(),
    }
}

pub open spec fn scan_issue_text_v(issue: ScanIssue) -> Seq<char> {
    match issue {
        ScanIssue::DiscoveryFailed { detail } => detail@,
        ScanIssue::ReleaseLookupFailed { detail } => detail@,
        ScanIssue::MissingReleaseMetadata => "missing release metadata"@,
        ScanIssue::ExcludedByManagerRule(reason) => manager_rule_text(reason),
    }
}

pub fn scan_issue_text(issue: &ScanIssue) -> (r: String)
    ensures
        r@ == scan_issue_text_v(*issue),
{
    match issue {
        ScanIssue::DiscoveryFailed { detail } => detail.clone(),
        ScanIssue::ReleaseLookupFailed { detail } => detail.clone(),
        ScanIssue::MissingReleaseMetadata => "missing release metadata".to_owned(),
        ScanIssue::ExcludedByManagerRule(reason) => manager_rule_reason_text(reason),
    }
}

/// A manager's own exclusion is a skip; every other scan issue is an error.
pub open spec fn scan_issue_status_v(issue: ScanIssue) -> OutcomeStatusView {
    match issue {
        ScanIssue::ExcludedByManagerRule(_) => OutcomeStatusView::Skipped,
        _ => OutcomeStatusView::Error,
    }
}

pub fn scan_issue_status(issue: &ScanIssue) -> (r: OutcomeStatusView)
    ensures
        r == scan_issue_status_v(*issue),
{
    match issue {
        ScanIssue::ExcludedByManagerRule(_) => OutcomeStatusView::Skipped,
        _ => OutcomeStatusView::Error,
    }
}

fn note_for_scan_issue(issue: &ScanIssue) -> (r: OutcomeNote)
    ensures
        r@ == always(scan_issue_text_v(*issue)),
{
    note(scan_issue_text(issue))
}

/// How long ago a version was published, shown only with `--verbose`.
pub open spec fn age_note_v(age: u64) -> NoteView {
    NoteView { text: human_age_text(age as nat) + " ago"@, visibility: OutcomeVisibility::VerboseOnly }
}

pub fn release_age_note(age: u64) -> (r: OutcomeNote)
    ensures
        r@ == always(human_age_text(age as nat) + " ago"@),
{
    note(released(age))
}

fn verbose_age_note(age: u64) -> (r: OutcomeNote)
    ensures
        r@ == age_note_v(age),
{
    release_age_note(age).with_visibility(OutcomeVisibility::VerboseOnly)
}

/// The row of a scan issue that concerns the whole manager.
pub open spec fn scan_issue_row_v(m: ManagerId, issue: ScanIssue) -> RowView {
    RowView {
        status: scan_issue_status_v(issue),
        subject: OutcomeSubjectView::Manager(m),
        notes: seq![always(scan_issue_text_v(issue))],
        visibility: OutcomeVisibility::Always,
    }
}

pub fn scan_issue_row(manager_id: &ManagerId, issue: &ScanIssue) -> (r: OutcomeRow)
    ensures
        r@ == scan_issue_row_v(*manager_id, *issue),
{
    let r = OutcomeRow::manager(scan_issue_status(issue), manager_id.clone()).with_note(note_for_scan_issue(issue));
    assert(r@.notes =~= seq![always(scan_issue_text_v(*issue))]);
    r
}

pub fn current_scan_row(manager_id: &ManagerId, tool: &InstalledTool) -> (r: OutcomeRow)
    ensures
        r@ == installed_row(OutcomeStatusView::Current, *manager_id, *tool, Seq::empty(), OutcomeVisibility::Always),
{
    installed_item(OutcomeStatusView::Current, manager_id, tool)
}

pub open spec fn opt_age_note(age: Option<u64>) -> Seq<NoteView> {
    match age {
        Some(a) => seq![age_note_v(a)],
        None => Seq::empty(),
    }
}

/// The row of a scanned tool: its installed version, with the age of that
/// release (shown with `--verbose`) and any audit note.
pub open spec fn scan_item_row_v(m: ManagerId, item: ScanItem) -> RowView {
    match item {
        ScanItem::Installed(tool) => installed_row(
            OutcomeStatusView::Current,
            m,
            tool,
            Seq::empty(),
            OutcomeVisibility::Always,
        ),
        ScanItem::InstalledWithReleaseAge { tool, age } => installed_row(
            OutcomeStatusView::Current,
            m,
            tool,
            seq![age_note_v(age)],
            OutcomeVisibility::Always,
        ),
        ScanItem::InstalledWithAudit { tool, age, audit } => installed_row(
            OutcomeStatusView::Current,
            m,
            tool,
            opt_age_note(age) + match audit_candidate_text(audit@) {
                Some(t) => seq![always(t)],
                None => Seq::empty(),
            },
            OutcomeVisibility::Always,
        ),
        ScanItem::Skipped { tool, reason } => installed_row(
            scan_issue_status_v(reason),
            m,
            tool,
            seq![always(scan_issue_text_v(reason))],
            OutcomeVisibility::Always,
        ),
    }
}

pub fn scan_item_row(manager_id: &ManagerId, item: &ScanItem) -> (r: OutcomeRow)
    ensures
        r@ == scan_item_row_v(*manager_id, *item),
{
    match item {
        ScanItem::Installed(tool) => current_scan_row(manager_id, tool),
        ScanItem::InstalledWithReleaseAge { tool, age } => {
            let r = current_scan_row(manager_id, tool).with_note(verbose_age_note(*age));
            assert(r@.notes =~= seq![age_note_v(*age)]);
            r
        },
        ScanItem::InstalledWithAudit { tool, age, audit } => {
            let mut row = current_scan_row(manager_id, tool);
            if let Some(a) = age {
                row = row.with_note(verbose_age_note(*a));
            }
            assert(row@.notes =~= opt_age_note(*age));
            let ghost before = row@.notes;
            match audit_candidate(audit) {
                Some(t) => {
                    row = row.with_note(note(t));
                },
                None => {},
            }
            assert(row@.notes =~= before + match audit_candidate_text(audit@) {
                Some(t) => seq![always(t)],
                None => Seq::<NoteView>::empty(),
            });
            row
        },
        ScanItem::Skipped { tool, reason } => {
            let r = installed_item(scan_issue_status(reason), manager_id, tool).with_note(note_for_scan_issue(reason));
            assert(r@.notes =~= seq![always(scan_issue_text_v(*reason))]);
            r
        },
    }
}

/// The table of a scan: a row per manager-wide issue, then a row per
/// scanned tool, each in report order.
pub fn scan_report_table(report: &ScanReport) -> (r: OutcomeTable)
    ensures
        r.rows@.len() == report.issues@.len() + report.items@.len(),
        forall|i: int|
            0 <= i < report.issues@.len() ==> (#[trigger] r.rows@[i])@ == scan_issue_row_v(
                report.manager_id,
                report.issues@[i],
            ),
        forall|i: int|
            0 <= i < report.items@.len() ==> (#[trigger] r.rows@[report.issues@.len() + i])@
                == scan_item_row_v(report.manager_id, report.items@[i]),
{
    let mut rows: Vec<OutcomeRow> = Vec::new();
    let mut i: usize = 0;
    while i < report.issues.len()
        invariant
            i <= report.issues@.len(),
            rows@.len() == i,
            forall|k: int|
                0 <= k < i ==> (#[trigger] rows@[k])@ == scan_issue_row_v(report.manager_id, report.issues@[k]),
        decreases report.issues@.len() - i,
    {
        rows.push(scan_issue_row(&report.manager_id, &report.issues[i]));
        i = i + 1;
    }
    let n = report.issues.len();
    let mut j: usize = 0;
    while j < report.items.len()
        invariant
            n == report.issues@.len(),
            j <= report.items@.len(),
            rows@.len() == n + j,
            forall|k: int|
                0 <= k < n ==> (#[trigger] rows@[k])@ == scan_issue_row_v(report.manager_id, report.issues@[k]),
            forall|k: int|
                0 <= k < j ==> (#[trigger] rows@[n + k])@ == scan_item_row_v(report.manager_id, report.items@[k]),
        decreases report.items@.len() - j,
    {
        rows.push(scan_item_row(&report.manager_id, &report.items[j]));
        j = j + 1;
    }
    OutcomeTable::new(rows)
}


// ---------------------------------------------------------------------------
// Execution reports
// ---------------------------------------------------------------------------

/// The versions of an executed item: from its installed version to its
/// target, stressing the target.
pub open spec fn execution_versions(item: ExecutionItemResult) -> OutcomeVersionsView {
    OutcomeVersionsView::Change {
        from: item.installed_version,
        to: match item.target {
            ResolvedExecutionTarget::Known(t) => OutcomeTargetView::Known(t),
            ResolvedExecutionTarget::ManagerResolved => OutcomeTargetView::ManagerResolved,
        },
        emphasis: OutcomeVersionEmphasis::Target,
    }
}

/// An executed item's row: an update when it succeeded, else an error with
/// the failure's detail.
pub open spec fn execution_row_v(m: ManagerId, item: ExecutionItemResult) -> RowView {
    RowView {
        status: match item.status {
            ExecutionStatus::Succeeded { .. } => OutcomeStatusView::Update,
            ExecutionStatus::Failed { .. } => OutcomeStatusView::Error,
        },
        subject: OutcomeSubjectView::Item {
            manager_id: m,
            package_name: item.package_name,
            versions: execution_versions(item),
        },
        notes: match item.status {
            ExecutionStatus::Succeeded { .. } => Seq::empty(),
            ExecutionStatus::Failed { detail, .. } => seq![always(detail@)],
        },
        visibility: OutcomeVisibility::Always,
    }
}

pub fn execution_item_row(manager_id: &ManagerId, item: &ExecutionItemResult) -> (r: OutcomeRow)
    ensures
        r@ == execution_row_v(*manager_id, *item),
{
    let versions = match &item.target {
        ResolvedExecutionTarget::Known(t) => OutcomeVersionsView::change(item.installed_version.clone(), t.clone()),
        ResolvedExecutionTarget::ManagerResolved => OutcomeVersionsView::manager_resolved(
            item.installed_version.clone(),
        ),
    };
    match &item.status {
        ExecutionStatus::Succeeded { .. } => OutcomeRow::item(
            OutcomeStatusView::Update,
            manager_id.clone(),
            item.package_name.clone(),
            versions,
        ),
        ExecutionStatus::Failed { detail, .. } => {
            let r = OutcomeRow::item(OutcomeStatusView::Error, manager_id.clone(), item.package_name.clone(), versions)
                .with_note(note(detail.clone()));
            assert(r@.notes =~= seq![always(detail@)]);
            r
        },
    }
}

pub open spec fn execution_rows_v(m: ManagerId, items: Seq<ExecutionItemResult>) -> Seq<RowView> {
    items.map_values(|it: ExecutionItemResult| execution_row_v(m, it))
}

/// A row per executed item, in report order.
pub fn execution_report_rows(report: &ExecutionReport) -> (r: Vec<OutcomeRow>)
    ensures
        rows_view(r@) == execution_rows_v(report.manager_id, report.items@),
{
    let mut rows: Vec<OutcomeRow> = Vec::new();
    let mut i: usize = 0;
    while i < report.items.len()
        invariant
            i <= report.items@.len(),
            rows_view(rows@) == execution_rows_v(report.manager_id, report.items@.take(i as int)),
        decreases report.items@.len() - i,
    {
        let ghost before = rows_view(rows@);
        let row = execution_item_row(&report.manager_id, &report.items[i]);
        let ghost rv = row@;
        rows.push(row);
        assert(rows_view(rows@) =~= before.push(rv));
        assert(report.items@.take(i + 1) =~= report.items@.take(i as int).push(report.items@[i as int]));
        assert(rows_view(rows@) =~= execution_rows_v(report.manager_id, report.items@.take(i + 1)));
        i = i + 1;
    }
    assert(report.items@.take(report.items@.len() as int) =~= report.items@);
    rows
}

/// The rows of an apply: the updates the selection left out, or a manager
/// row saying nothing was selected when there are neither such updates nor
/// executed items, followed by the executed items.
pub open spec fn apply_rows_v(report: ExecutionReport, plan: UpdatePlan, selection: PlanSelection) -> Seq<RowView> {
    let unselected = unselected_rows(plan.manager_id, plan.items@, selected_ids(selection));
    let head = if report.items@.len() == 0 && unselected.len() == 0 {
        seq![
            RowView {
                status: OutcomeStatusView::Current,
                subject: OutcomeSubjectView::Manager(report.manager_id),
                notes: seq![always("no selected updates"@)],
                visibility: OutcomeVisibility::Always,
            },
        ]
    } else {
        unselected
    };
    head + execution_rows_v(report.manager_id, report.items@)
}

pub fn apply_execution_report_table(report: &ExecutionReport, plan: &UpdatePlan, selection: &PlanSelection) -> (r:
    OutcomeTable)
    ensures
        rows_view(r.rows@) == apply_rows_v(*report, *plan, *selection),
{
    let mut rows = unselected_update_rows(plan, selection);
    if report.items.len() == 0 && rows.len() == 0 {
        let row = OutcomeRow::manager(OutcomeStatusView::Current, report.manager_id.clone()).with_note(
            note("no selected updates".to_owned()),
        );
        assert(row@.notes =~= seq![always("no selected updates"@)]);
        rows.push(row);
        assert(rows_view(rows@) =~= seq![row@]);
    }
    let ghost head = rows_view(rows@);
    let mut executed = execution_report_rows(report);
    rows.append(&mut executed);
    assert(rows_view(rows@) =~= head + execution_rows_v(report.manager_id, report.items@));
    OutcomeTable::new(rows)
}

} // verus!
