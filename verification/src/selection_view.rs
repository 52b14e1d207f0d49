//! The picker's view of a plan: one row per plan item, with the targets a
//! user may choose and the notes that explain them.
use vstd::prelude::*;

use crate::domain::{
    clone_findings, findings_view, AuditFinding, AuditView, CandidateAuditFact, FindingView,
    InstalledTool, ManagerId, PackageName, PlanItemId, PolicyWarning, VersionText,
};
use crate::notes::{
    human_age_text, policy_warning_text, released, skip_reason, skip_reason_text, too_fresh,
    too_fresh_text, version_policy_warning, vulnerability_note, vulnerability_text,
};
use crate::plan::{
    evals_view, BlockReason, CandidateEvaluationFact, DiagnosticsView, EvaluationView,
    PlanDiagnostics, PlanItem, PlannedTarget, PolicyBlockReason, UpdateCandidate, UpdatePlan,
    UpdateSeed,
};
use crate::selection::UpdateSelectionPolicy;
use crate::text::concat;

verus! {

// ---------------------------------------------------------------------------
// Notes
// ---------------------------------------------------------------------------

/// Whether a note reports something that the normal plan would refuse.
#[derive(Debug, Clone, Copy, PartialEq, Eq, Structural)]
pub enum CandidateNoteTone {
    Info,
    Violation,
}

#[derive(Debug)]
pub enum CandidateNoteKind {
    Released { age: u64 },
    TooFresh { age: Option<u64>, required_age: u64 },
    PolicyBlocked { reason: PolicyBlockReason },
    PolicyWarning { warning: PolicyWarning },
    AuditVulnerable { findings: Vec<AuditFinding> },
    AuditLookupFailed { detail: String },
    Detail { text: String },
}

#[derive(Debug)]
pub struct CandidateNotePart {
    pub kind: CandidateNoteKind,
    pub tone: CandidateNoteTone,
}

pub enum NoteKindView {
    Released(u64),
    TooFresh(Option<u64>, u64),
    PolicyBlocked(PolicyBlockReason),
    PolicyWarning(PolicyWarning),
    AuditVulnerable(Seq<FindingView>),
    AuditLookupFailed(Seq<char>),
    Detail(Seq<char>),
}

pub struct NoteView {
    pub kind: NoteKindView,
    pub tone: CandidateNoteTone,
}

impl View for CandidateNotePart {
    type V = NoteView;

    open spec fn view(&self) -> NoteView {
        NoteView {
            kind: match self.kind {
                CandidateNoteKind::Released { age } => NoteKindView::Released(age),
                CandidateNoteKind::TooFresh { age, required_age } => NoteKindView::TooFresh(
                    age,
                    required_age,
                ),
                CandidateNoteKind::PolicyBlocked { reason } => NoteKindView::PolicyBlocked(reason),
                CandidateNoteKind::PolicyWarning { warning } => NoteKindView::PolicyWarning(warning),
                CandidateNoteKind::AuditVulnerable { findings } => NoteKindView::AuditVulnerable(
                    findings_view(findings@),
                ),
                CandidateNoteKind::AuditLookupFailed { detail } => NoteKindView::AuditLookupFailed(
                    detail@,
                ),
                CandidateNoteKind::Detail { text } => NoteKindView::Detail(text@),
            },
            tone: self.tone,
        }
    }
}

pub open spec fn notes_view(v: Seq<CandidateNotePart>) -> Seq<NoteView> {
    v.map_values(|p: CandidateNotePart| p@)
}

impl Clone for CandidateNotePart {
    fn clone(&self) -> (r: Self)
        ensures
            r@ == self@,
    {
        let kind = match &self.kind {
            CandidateNoteKind::Released { age } => CandidateNoteKind::Released { age: *age },
            CandidateNoteKind::TooFresh { age, required_age } => CandidateNoteKind::TooFresh {
                age: *age,
                required_age: *required_age,
            },
            CandidateNoteKind::PolicyBlocked { reason } => CandidateNoteKind::PolicyBlocked {
                reason: *reason,
            },
            CandidateNoteKind::PolicyWarning { warning } => CandidateNoteKind::PolicyWarning {
                warning: *warning,
            },
            CandidateNoteKind::AuditVulnerable { findings } => CandidateNoteKind::AuditVulnerable {
                findings: clone_findings(findings),
            },
            CandidateNoteKind::AuditLookupFailed { detail } => CandidateNoteKind::AuditLookupFailed {
                detail: detail.clone(),
            },
            CandidateNoteKind::Detail { text } => CandidateNoteKind::Detail { text: text.clone() },
        };
        CandidateNotePart { kind, tone: self.tone }
    }
}

fn clone_notes(v: &Vec<CandidateNotePart>) -> (r: Vec<CandidateNotePart>)
    ensures
        notes_view(r@) == notes_view(v@),
{
    let mut r: Vec<CandidateNotePart> = Vec::new();
    let mut i: usize = 0;
    while i < v.len()
        invariant
            i <= v@.len(),
            r@.len() == i,
            forall|k: int| 0 <= k < i ==> #[trigger] r@[k]@ == v@[k]@,
        decreases v@.len() - i,
    {
        r.push(v[i].clone());
        i = i + 1;
    }
    assert(notes_view(r@) =~= notes_view(v@));
    r
}

pub open spec fn note_text(n: NoteView) -> Seq<char> {
    match n.kind {
        NoteKindView::Released(age) => human_age_text(age as nat) + " ago"@,
        NoteKindView::TooFresh(age, required) => too_fresh_text(age, required),
        NoteKindView::PolicyBlocked(reason) => policy_block_text(reason),
        NoteKindView::PolicyWarning(w) => "version policy warning: "@ + policy_warning_text(w),
        NoteKindView::AuditVulnerable(findings) => vulnerability_text(findings),
        NoteKindView::AuditLookupFailed(_) => "audit unavailable"@,
        NoteKindView::Detail(text) => text,
    }
}

pub open spec fn policy_block_text(reason: PolicyBlockReason) -> Seq<char> {
    match reason {
        PolicyBlockReason::PreReleaseBlocked => "prerelease blocked by policy"@,
        PolicyBlockReason::TrackRegression => "less stable than the installed track"@,
        PolicyBlockReason::UnknownStability => "release stability unknown"@,
    }
}

/// The text shown for one note.
pub fn note_part_text(part: &CandidateNotePart) -> (r: String)
    ensures
        r@ == note_text(part@),
{
    match &part.kind {
        CandidateNoteKind::Released { age } => released(*age),
        CandidateNoteKind::TooFresh { age, required_age } => too_fresh(*age, *required_age),
        CandidateNoteKind::PolicyBlocked { reason } => match reason {
            PolicyBlockReason::PreReleaseBlocked => "prerelease blocked by policy".to_owned(),
            PolicyBlockReason::TrackRegression => "less stable than the installed track".to_owned(),
            PolicyBlockReason::UnknownStability => "release stability unknown".to_owned(),
        },
        CandidateNoteKind::PolicyWarning { warning } => version_policy_warning(*warning),
        CandidateNoteKind::AuditVulnerable { findings } => vulnerability_note(findings.as_slice()),
        CandidateNoteKind::AuditLookupFailed { .. } => "audit unavailable".to_owned(),
        CandidateNoteKind::Detail { text } => text.clone(),
    }
}

// ---------------------------------------------------------------------------
// Target options
// ---------------------------------------------------------------------------

/// A target that the picker offers for one row.
#[derive(Debug)]
pub enum TargetOption {
    Recommended { target_version: VersionText, note_parts: Vec<CandidateNotePart> },
    ForcedCandidate { target_version: VersionText, note_parts: Vec<CandidateNotePart> },
    AlternateExact { target_version: VersionText, note_parts: Vec<CandidateNotePart> },
    ManagerResolved { note_parts: Vec<CandidateNotePart> },
}

#[derive(Debug, Clone, Copy, PartialEq, Eq, Structural)]
pub enum OptionKind {
    Recommended,
    ForcedCandidate,
    AlternateExact,
    ManagerResolved,
}

pub struct OptionView {
    pub kind: OptionKind,
    pub version: Option<Seq<char>>,
    pub notes: Seq<NoteView>,
}

impl View for TargetOption {
    type V = OptionView;

    open spec fn view(&self) -> OptionView {
        match self {
            TargetOption::Recommended { target_version, note_parts } => OptionView {
                kind: OptionKind::Recommended,
                version: Some(target_version@),
                notes: notes_view(note_parts@),
            },
            TargetOption::ForcedCandidate { target_version, note_parts } => OptionView {
                kind: OptionKind::ForcedCandidate,
                version: Some(target_version@),
                notes: notes_view(note_parts@),
            },
            TargetOption::AlternateExact { target_version, note_parts } => OptionView {
                kind: OptionKind::AlternateExact,
                version: Some(target_version@),
                notes: notes_view(note_parts@),
            },
            TargetOption::ManagerResolved { note_parts } => OptionView {
                kind: OptionKind::ManagerResolved,
                version: None,
                notes: notes_view(note_parts@),
            },
        }
    }
}

pub open spec fn options_view(v: Seq<TargetOption>) -> Seq<OptionView> {
    v.map_values(|o: TargetOption| o@)
}

/// Some note reports a violation.
pub open spec fn notes_violate(notes: Seq<NoteView>) -> bool {
    exists|i: int| 0 <= i < notes.len() && (#[trigger] notes[i]).tone == CandidateNoteTone::Violation
}

impl TargetOption {
    /// The version the option moves to; none for a manager-resolved target.
    pub fn target_version(&self) -> (r: Option<&VersionText>)
        ensures
            match r {
                Some(v) => self@.version == Some(v@),
                None => self@.version is None,
            },
    {
        match self {
            TargetOption::Recommended { target_version, .. } => Some(target_version),
            TargetOption::ForcedCandidate { target_version, .. } => Some(target_version),
            TargetOption::AlternateExact { target_version, .. } => Some(target_version),
            TargetOption::ManagerResolved { .. } => None,
        }
    }

    pub fn note_parts(&self) -> (r: &Vec<CandidateNotePart>)
        ensures
            notes_view(r@) == self@.notes,
    {
        match self {
            TargetOption::Recommended { note_parts, .. } => note_parts,
            TargetOption::ForcedCandidate { note_parts, .. } => note_parts,
            TargetOption::AlternateExact { note_parts, .. } => note_parts,
            TargetOption::ManagerResolved { note_parts } => note_parts,
        }
    }

    pub fn kind(&self) -> (r: OptionKind)
        ensures
            r == self@.kind,
    {
        match self {
            TargetOption::Recommended { .. } => OptionKind::Recommended,
            TargetOption::ForcedCandidate { .. } => OptionKind::ForcedCandidate,
            TargetOption::AlternateExact { .. } => OptionKind::AlternateExact,
            TargetOption::ManagerResolved { .. } => OptionKind::ManagerResolved,
        }
    }

    /// Whether choosing this target overrides a gate of the normal plan.
    pub fn has_violation(&self) -> (r: bool)
        ensures
            r == notes_violate(self@.notes),
    {
        let parts = self.note_parts();
        let mut i: usize = 0;
        while i < parts.len()
            invariant
                i <= parts@.len(),
                notes_view(parts@) == self@.notes,
                forall|k: int| 0 <= k < i ==> (#[trigger] parts@[k])@.tone != CandidateNoteTone::Violation,
            decreases parts@.len() - i,
        {
            if parts[i].tone == CandidateNoteTone::Violation {
                assert(self@.notes[i as int].tone == CandidateNoteTone::Violation);
                return true;
            }
            i = i + 1;
        }
        assert forall|k: int| 0 <= k < self@.notes.len() implies (#[trigger] self@.notes[k]).tone
            != CandidateNoteTone::Violation by {
            assert(self@.notes[k] == parts@[k]@);
        }
        false
    }
}

impl Clone for TargetOption {
    fn clone(&self) -> (r: Self)
        ensures
            r@ == self@,
    {
        match self {
            TargetOption::Recommended { target_version, note_parts } => TargetOption::Recommended {
                target_version: target_version.clone(),
                note_parts: clone_notes(note_parts),
            },
            TargetOption::ForcedCandidate { target_version, note_parts } => TargetOption::ForcedCandidate {
                target_version: target_version.clone(),
                note_parts: clone_notes(note_parts),
            },
            TargetOption::AlternateExact { target_version, note_parts } => TargetOption::AlternateExact {
                target_version: target_version.clone(),
                note_parts: clone_notes(note_parts),
            },
            TargetOption::ManagerResolved { note_parts } => TargetOption::ManagerResolved {
                note_parts: clone_notes(note_parts),
            },
        }
    }
}

pub fn clone_options(v: &Vec<TargetOption>) -> (r: Vec<TargetOption>)
    ensures
        options_view(r@) == options_view(v@),
{
    let mut r: Vec<TargetOption> = Vec::new();
    let mut i: usize = 0;
    while i < v.len()
        invariant
            i <= v@.len(),
            r@.len() == i,
            forall|k: int| 0 <= k < i ==> #[trigger] r@[k]@ == v@[k]@,
        decreases v@.len() - i,
    {
        r.push(v[i].clone());
        i = i + 1;
    }
    assert(options_view(r@) =~= options_view(v@));
    r
}

// ---------------------------------------------------------------------------
// Rows
// ---------------------------------------------------------------------------

#[derive(Debug, Clone, Copy, PartialEq, Eq, Structural)]
pub enum SelectionRowStatus {
    Update,
    Current,
    Delayed,
    Blocked,
    Skipped,
    Error,
}

/// Whether a row shows without "view all".
#[derive(Debug, Clone, Copy, PartialEq, Eq, Structural)]
pub enum SelectionRowVisibility {
    Visible,
    Hidden,
}

/// One row of the picker.
#[derive(Debug)]
pub struct SelectionRow {
    pub plan_item_id: PlanItemId,
    pub package_name: PackageName,
    pub installed_version: VersionText,
    pub target_version: Option<VersionText>,
    pub status: SelectionRowStatus,
    pub default_visibility: SelectionRowVisibility,
    pub notes: Vec<CandidateNotePart>,
    pub initially_selected: bool,
    pub target_options: Vec<TargetOption>,
}

pub struct RowView {
    pub id: Seq<char>,
    pub package: Seq<char>,
    pub installed: Seq<char>,
    pub target: Option<Seq<char>>,
    pub status: SelectionRowStatus,
    pub visibility: SelectionRowVisibility,
    pub notes: Seq<NoteView>,
    pub initially_selected: bool,
    pub options: Seq<OptionView>,
}

pub open spec fn opt_version_view(v: Option<VersionText>) -> Option<Seq<char>> {
    match v {
        Some(v) => Some(v@),
        None => None,
    }
}

impl View for SelectionRow {
    type V = RowView;

    open spec fn view(&self) -> RowView {
        RowView {
            id: self.plan_item_id@,
            package: self.package_name@,
            installed: self.installed_version@,
            target: opt_version_view(self.target_version),
            status: self.status,
            visibility: self.default_visibility,
            notes: notes_view(self.notes@),
            initially_selected: self.initially_selected,
            options: options_view(self.target_options@),
        }
    }
}

impl Clone for SelectionRow {
    fn clone(&self) -> (r: Self)
        ensures
            r@ == self@,
            r.plan_item_id == self.plan_item_id,
            r.package_name == self.package_name,
    {
        SelectionRow {
            plan_item_id: self.plan_item_id.clone(),
            package_name: self.package_name.clone(),
            installed_version: self.installed_version.clone(),
            target_version: match &self.target_version {
                Some(v) => Some(v.clone()),
                None => None,
            },
            status: self.status,
            default_visibility: self.default_visibility,
            notes: clone_notes(&self.notes),
            initially_selected: self.initially_selected,
            target_options: clone_options(&self.target_options),
        }
    }
}

/// The picker rows of one manager.
#[derive(Debug)]
pub struct SelectionView {
    pub manager_id: ManagerId,
    pub rows: Vec<SelectionRow>,
}

pub open spec fn rows_view(v: Seq<SelectionRow>) -> Seq<RowView> {
    v.map_values(|r: SelectionRow| r@)
}

// ---------------------------------------------------------------------------
// From plan rows to picker rows
// ---------------------------------------------------------------------------

pub open spec fn one_note(kind: NoteKindView, tone: CandidateNoteTone) -> Seq<NoteView> {
    seq![NoteView { kind, tone }]
}

/// The notes of one evaluated version: its age (a violation when too
/// young), a policy block, a policy warning and an audit problem.
pub open spec fn eval_notes(e: EvaluationView, required_age: u64) -> Seq<NoteView> {
    let age = if !e.age_allowed {
        one_note(NoteKindView::TooFresh(e.age, required_age), CandidateNoteTone::Violation)
    } else {
        match e.age {
            Some(a) => one_note(NoteKindView::Released(a), CandidateNoteTone::Info),
            None => Seq::empty(),
        }
    };
    let policy = match e.policy_block_reason {
        Some(r) => one_note(NoteKindView::PolicyBlocked(r), CandidateNoteTone::Violation),
        None => Seq::empty(),
    };
    let warning = match e.policy_warning {
        Some(w) => one_note(NoteKindView::PolicyWarning(w), CandidateNoteTone::Info),
        None => Seq::empty(),
    };
    let audit = match e.audit {
        Some(AuditView::Vulnerable(f)) => one_note(NoteKindView::AuditVulnerable(f), CandidateNoteTone::Violation),
        Some(AuditView::LookupFailed(d)) => one_note(NoteKindView::AuditLookupFailed(d), CandidateNoteTone::Violation),
        _ => Seq::empty(),
    };
    age + policy + warning + audit
}

/// Exact alternatives: every evaluated version but `exclude`, in order.
pub open spec fn alternates(cands: Seq<EvaluationView>, exclude: Option<Seq<char>>, required_age: u64) -> Seq<
    OptionView,
>
    decreases cands.len(),
{
    if cands.len() == 0 {
        Seq::empty()
    } else {
        let head = alternates(cands.drop_last(), exclude, required_age);
        let e = cands.last();
        if exclude == Some(e.version@) {
            head
        } else {
            head.push(
                OptionView {
                    kind: OptionKind::AlternateExact,
                    version: Some(e.version@),
                    notes: eval_notes(e, required_age),
                },
            )
        }
    }
}

pub open spec fn warning_notes(ws: Seq<PolicyWarning>) -> Seq<NoteView> {
    ws.map_values(|w: PolicyWarning| NoteView { kind: NoteKindView::PolicyWarning(w), tone: CandidateNoteTone::Info })
}

pub open spec fn option_of(kind: OptionKind, version: Option<Seq<char>>, notes: Seq<NoteView>) -> OptionView {
    OptionView { kind, version, notes }
}

/// The note that explains a blocked row.
pub open spec fn block_notes(reason: BlockReason, audit: Option<AuditView>) -> Seq<NoteView> {
    match reason {
        BlockReason::VersionPolicy(r) => one_note(NoteKindView::PolicyBlocked(r), CandidateNoteTone::Violation),
        BlockReason::MissingReleaseMetadata => one_note(NoteKindView::Detail("release metadata missing"@), CandidateNoteTone::Violation),
        BlockReason::ReleaseLookupFailed => one_note(NoteKindView::Detail("release lookup failed"@), CandidateNoteTone::Violation),
        BlockReason::AuditVulnerable => match audit {
            Some(AuditView::Vulnerable(f)) => one_note(NoteKindView::AuditVulnerable(f), CandidateNoteTone::Violation),
            _ => one_note(NoteKindView::Detail("vulnerable"@), CandidateNoteTone::Violation),
        },
        BlockReason::AuditLookupFailed => match audit {
            Some(AuditView::LookupFailed(d)) => one_note(NoteKindView::AuditLookupFailed(d), CandidateNoteTone::Violation),
            _ => one_note(NoteKindView::Detail("audit unavailable"@), CandidateNoteTone::Violation),
        },
    }
}

/// The version a blocked row can be forced to: the candidate the audit
/// blocked, or the newest candidate the policy blocked.
pub open spec fn forced_candidate(reason: BlockReason, cands: Seq<EvaluationView>, audit_blocked: Option<EvaluationView>) -> Option<EvaluationView> {
    match reason {
        BlockReason::AuditVulnerable => audit_blocked,
        BlockReason::AuditLookupFailed => audit_blocked,
        BlockReason::VersionPolicy(_) => if cands.len() > 0 && !cands[0].policy_allowed {
            Some(cands[0])
        } else {
            None
        },
        _ => None,
    }
}

pub open spec fn update_row_view(id: PlanItemId, c: UpdateCandidate, policy: UpdateSelectionPolicy) -> RowView {
    let d = c.diagnostics@;
    let notes = match d.selected_target {
        Some(f) => one_note(NoteKindView::Released(f.age), CandidateNoteTone::Info),
        None => Seq::empty(),
    } + warning_notes(c.policy_warnings@);
    let primary = match c.target {
        PlannedTarget::Known(v) => option_of(OptionKind::Recommended, Some(v@), notes),
        PlannedTarget::ManagerResolved => option_of(OptionKind::ManagerResolved, None, notes),
    };
    let alts = if c.execution_support.exact {
        alternates(d.candidates, opt_version_view(c.target.spec_version()), d.required_age)
    } else {
        Seq::empty()
    };
    RowView {
        id: id@,
        package: c.package_name@,
        installed: c.installed_version@,
        target: opt_version_view(c.target.spec_version()),
        status: SelectionRowStatus::Update,
        visibility: SelectionRowVisibility::Visible,
        notes,
        initially_selected: policy.spec_includes(c.package_name@),
        options: seq![primary] + alts,
    }
}

pub open spec fn delayed_row_view(id: PlanItemId, c: UpdateCandidate) -> RowView {
    let d = c.diagnostics@;
    let age = match d.selected_target {
        Some(f) => Some(f.age),
        None => None,
    };
    let notes = one_note(NoteKindView::TooFresh(age, d.required_age), CandidateNoteTone::Violation);
    let forced = match c.target {
        PlannedTarget::Known(v) => if c.execution_support.spec_supports_age_bypass() {
            seq![option_of(OptionKind::ForcedCandidate, Some(v@), notes)]
        } else {
            Seq::empty()
        },
        PlannedTarget::ManagerResolved => Seq::empty(),
    };
    let alts = if c.execution_support.exact {
        alternates(d.candidates, opt_version_view(c.target.spec_version()), d.required_age)
    } else {
        Seq::empty()
    };
    RowView {
        id: id@,
        package: c.package_name@,
        installed: c.installed_version@,
        target: opt_version_view(c.target.spec_version()),
        status: SelectionRowStatus::Delayed,
        visibility: SelectionRowVisibility::Visible,
        notes,
        initially_selected: false,
        options: forced + alts,
    }
}

pub open spec fn blocked_row_view(
    id: PlanItemId,
    seed: UpdateSeed,
    reason: BlockReason,
    policy_warnings: Seq<PolicyWarning>,
    d: DiagnosticsView,
) -> RowView {
    let notes = block_notes(reason, d.audit_blocking_target) + warning_notes(policy_warnings);
    let exact = seed.execution_support.exact;
    let chosen = forced_candidate(reason, d.candidates, d.audit_blocking_candidate);
    let forced = match chosen {
        Some(e) => if exact {
            seq![option_of(OptionKind::ForcedCandidate, Some(e.version@), eval_notes(e, d.required_age))]
        } else {
            Seq::empty()
        },
        None => Seq::empty(),
    };
    let excluded = match chosen {
        Some(e) => Some(e.version@),
        None => None,
    };
    let alts = if exact {
        alternates(d.candidates, excluded, d.required_age)
    } else {
        Seq::empty()
    };
    RowView {
        id: id@,
        package: seed.installed.package_name@,
        installed: seed.installed.installed_version@,
        target: None,
        status: SelectionRowStatus::Blocked,
        visibility: SelectionRowVisibility::Visible,
        notes,
        initially_selected: false,
        options: forced + alts,
    }
}

/// A row without targets.
pub open spec fn plain_row_view(
    id: PlanItemId,
    installed: InstalledTool,
    status: SelectionRowStatus,
    visibility: SelectionRowVisibility,
    notes: Seq<NoteView>,
) -> RowView {
    RowView {
        id: id@,
        package: installed.package_name@,
        installed: installed.installed_version@,
        target: None,
        status,
        visibility,
        notes,
        initially_selected: false,
        options: Seq::empty(),
    }
}

/// The picker row of one plan row under a selection rule: updates are
/// preselected as the rule says and offer their target and exact
/// alternatives; delayed and blocked rows may offer a forced target; current
/// and skipped rows are hidden unless the user asks to see all.
pub open spec fn row_view_of(item: PlanItem, policy: UpdateSelectionPolicy) -> RowView {
    match item {
        PlanItem::Update { id, candidate } => update_row_view(id, candidate, policy),
        PlanItem::Delayed { id, candidate, .. } => delayed_row_view(id, candidate),
        PlanItem::Blocked { id, seed, reason, policy_warnings, diagnostics } => blocked_row_view(
            id,
            seed,
            reason,
            policy_warnings@,
            diagnostics@,
        ),
        PlanItem::Current { id, installed } => plain_row_view(
            id,
            installed,
            SelectionRowStatus::Current,
            SelectionRowVisibility::Hidden,
            Seq::empty(),
        ),
        PlanItem::Skipped { id, installed, reason } => plain_row_view(
            id,
            installed,
            SelectionRowStatus::Skipped,
            SelectionRowVisibility::Hidden,
            one_note(NoteKindView::Detail(skip_reason_text(reason)), CandidateNoteTone::Info),
        ),
        PlanItem::ResolverError { id, installed, message } => plain_row_view(
            id,
            installed,
            SelectionRowStatus::Error,
            SelectionRowVisibility::Visible,
            one_note(NoteKindView::Detail(message@), CandidateNoteTone::Violation),
        ),
    }
}

fn note(kind: CandidateNoteKind, tone: CandidateNoteTone) -> (r: CandidateNotePart)
    ensures
        r.kind == kind,
        r.tone == tone,
{
    CandidateNotePart { kind, tone }
}

fn eval_notes_of(e: &CandidateEvaluationFact, required_age: u64) -> (r: Vec<CandidateNotePart>)
    ensures
        notes_view(r@) == eval_notes(e@, required_age),
{
    let mut r: Vec<CandidateNotePart> = Vec::new();
    if !e.age_allowed {
        r.push(note(CandidateNoteKind::TooFresh { age: e.age, required_age }, CandidateNoteTone::Violation));
    } else if let Some(a) = e.age {
        r.push(note(CandidateNoteKind::Released { age: a }, CandidateNoteTone::Info));
    }
    let ghost n0 = notes_view(r@);
    if let Some(reason) = e.policy_block_reason {
        r.push(note(CandidateNoteKind::PolicyBlocked { reason }, CandidateNoteTone::Violation));
    }
    let ghost n1 = notes_view(r@);
    if let Some(warning) = e.policy_warning {
        r.push(note(CandidateNoteKind::PolicyWarning { warning }, CandidateNoteTone::Info));
    }
    let ghost n2 = notes_view(r@);
    match &e.audit {
        Some(CandidateAuditFact::Vulnerable { findings }) => {
            r.push(note(CandidateNoteKind::AuditVulnerable { findings: clone_findings(findings) }, CandidateNoteTone::Violation));
        },
        Some(CandidateAuditFact::LookupFailed { detail }) => {
            r.push(note(CandidateNoteKind::AuditLookupFailed { detail: detail.clone() }, CandidateNoteTone::Violation));
        },
        _ => {},
    }
    proof {
        let ev = e@;
        let age = if !ev.age_allowed {
            one_note(NoteKindView::TooFresh(ev.age, required_age), CandidateNoteTone::Violation)
        } else {
            match ev.age {
                Some(a) => one_note(NoteKindView::Released(a), CandidateNoteTone::Info),
                None => Seq::empty(),
            }
        };
        assert(n0 =~= age);
        assert(notes_view(r@) =~= eval_notes(ev, required_age));
    }
    r
}

fn alternates_of(cands: &Vec<CandidateEvaluationFact>, exclude: Option<&VersionText>, required_age: u64) -> (r:
    Vec<TargetOption>)
    ensures
        options_view(r@) == alternates(
            evals_view(cands@),
            match exclude {
                Some(v) => Some(v@),
                None => None,
            },
            required_age,
        ),
{
    let ghost ex = match exclude {
        Some(v) => Some(v@),
        None => None,
    };
    let ghost cv = evals_view(cands@);
    let mut r: Vec<TargetOption> = Vec::new();
    let mut i: usize = 0;
    assert(cv.take(0) =~= Seq::<EvaluationView>::empty());
    while i < cands.len()
        invariant
            i <= cands@.len(),
            cv == evals_view(cands@),
            cv.len() == cands@.len(),
            ex == match exclude {
                Some(v) => Some(v@),
                None => None,
            },
            options_view(r@) == alternates(cv.take(i as int), ex, required_age),
        decreases cands@.len() - i,
    {
        let e = &cands[i];
        assert(cv.take(i + 1).drop_last() =~= cv.take(i as int));
        assert(cv.take(i + 1).last() == e@);
        let skip = match exclude {
            Some(v) => v.same(&e.version),
            None => false,
        };
        let ghost head = alternates(cv.take(i as int), ex, required_age);
        if !skip {
            assert(ex != Some(e@.version@));
            let opt = TargetOption::AlternateExact { target_version: e.version.clone(), note_parts: eval_notes_of(e, required_age) };
            let ghost before = r@;
            r.push(opt);
            assert(options_view(r@) =~= options_view(before).push(opt@));
            assert(alternates(cv.take(i + 1), ex, required_age) == head.push(
                OptionView { kind: OptionKind::AlternateExact, version: Some(e@.version@), notes: eval_notes(e@, required_age) },
            ));
        } else {
            assert(ex == Some(e@.version@));
            assert(alternates(cv.take(i + 1), ex, required_age) == head);
        }
        i = i + 1;
    }
    assert(cv.take(cands@.len() as int) =~= cv);
    r
}

fn warning_notes_of(ws: &Vec<PolicyWarning>) -> (r: Vec<CandidateNotePart>)
    ensures
        notes_view(r@) == warning_notes(ws@),
{
    let mut r: Vec<CandidateNotePart> = Vec::new();
    let mut i: usize = 0;
    while i < ws.len()
        invariant
            i <= ws@.len(),
            notes_view(r@) == warning_notes(ws@.take(i as int)),
        decreases ws@.len() - i,
    {
        let ghost before = r@;
        r.push(note(CandidateNoteKind::PolicyWarning { warning: ws[i] }, CandidateNoteTone::Info));
        assert(notes_view(r@) =~= notes_view(before).push(r@[i as int]@));
        i = i + 1;
        assert(warning_notes(ws@.take(i as int)) =~= warning_notes(ws@.take(i - 1)).push(NoteView { kind: NoteKindView::PolicyWarning(ws@[i - 1]), tone: CandidateNoteTone::Info }));
    }
    assert(ws@.take(ws@.len() as int) =~= ws@);
    r
}

fn append_notes(a: &mut Vec<CandidateNotePart>, b: Vec<CandidateNotePart>)
    ensures
        notes_view(final(a)@) == notes_view(old(a)@) + notes_view(b@),
{
    let mut b = b;
    let ghost a0 = a@;
    let ghost b0 = b@;
    a.append(&mut b);
    assert(notes_view(a@) =~= notes_view(a0) + notes_view(b0));
}

fn append_options(a: &mut Vec<TargetOption>, b: Vec<TargetOption>)
    ensures
        options_view(final(a)@) == options_view(old(a)@) + options_view(b@),
{
    let mut b = b;
    let ghost a0 = a@;
    let ghost b0 = b@;
    a.append(&mut b);
    assert(options_view(a@) =~= options_view(a0) + options_view(b0));
}

fn block_notes_of(reason: BlockReason, audit: &Option<CandidateAuditFact>) -> (r: Vec<CandidateNotePart>)
    ensures
        notes_view(r@) == block_notes(reason, crate::plan::opt_audit_view(*audit)),
{
    let kind = match reason {
        BlockReason::VersionPolicy(r) => CandidateNoteKind::PolicyBlocked { reason: r },
        BlockReason::MissingReleaseMetadata => CandidateNoteKind::Detail { text: "release metadata missing".to_owned() },
        BlockReason::ReleaseLookupFailed => CandidateNoteKind::Detail { text: "release lookup failed".to_owned() },
        BlockReason::AuditVulnerable => match audit {
            Some(CandidateAuditFact::Vulnerable { findings }) => CandidateNoteKind::AuditVulnerable { findings: clone_findings(findings) },
            _ => CandidateNoteKind::Detail { text: "vulnerable".to_owned() },
        },
        BlockReason::AuditLookupFailed => match audit {
            Some(CandidateAuditFact::LookupFailed { detail }) => CandidateNoteKind::AuditLookupFailed { detail: detail.clone() },
            _ => CandidateNoteKind::Detail { text: "audit unavailable".to_owned() },
        },
    };
    let mut r: Vec<CandidateNotePart> = Vec::new();
    r.push(note(kind, CandidateNoteTone::Violation));
    assert(notes_view(r@) =~= block_notes(reason, crate::plan::opt_audit_view(*audit)));
    r
}

fn update_row(id: &PlanItemId, c: &UpdateCandidate, policy: &UpdateSelectionPolicy) -> (r: SelectionRow)
    ensures
        r@ == update_row_view(*id, *c, *policy),
{
    let mut notes: Vec<CandidateNotePart> = Vec::new();
    if let Some(f) = &c.diagnostics.selected_target {
        notes.push(note(CandidateNoteKind::Released { age: f.age }, CandidateNoteTone::Info));
    }
    proof {
        let d = c.diagnostics@;
        let first = match d.selected_target {
            Some(f) => one_note(NoteKindView::Released(f.age), CandidateNoteTone::Info),
            None => Seq::empty(),
        };
        assert(notes_view(notes@) =~= first);
    }
    append_notes(&mut notes, warning_notes_of(&c.policy_warnings));
    let mut options: Vec<TargetOption> = Vec::new();
    match c.target_version() {
        Some(v) => options.push(TargetOption::Recommended { target_version: v.clone(), note_parts: clone_notes(&notes) }),
        None => options.push(TargetOption::ManagerResolved { note_parts: clone_notes(&notes) }),
    }
    let ghost d = c.diagnostics@;
    let ghost primary = if c.target is Known {
        option_of(OptionKind::Recommended, Some(c.target->Known_0@), notes_view(notes@))
    } else {
        option_of(OptionKind::ManagerResolved, None, notes_view(notes@))
    };
    assert(options_view(options@) =~= seq![primary]);
    if c.execution_support.supports_exact_target() {
        append_options(&mut options, alternates_of(&c.diagnostics.candidates, c.target_version(), c.diagnostics.required_age));
    } else {
        assert(options_view(options@) =~= seq![primary] + Seq::<OptionView>::empty());
    }
    let target_version = match c.target_version() {
        Some(v) => Some(v.clone()),
        None => None,
    };
    let initially_selected = policy.includes(&c.package_name);
    SelectionRow {
        plan_item_id: id.clone(),
        package_name: c.package_name.clone(),
        installed_version: c.installed_version.clone(),
        target_version,
        status: SelectionRowStatus::Update,
        default_visibility: SelectionRowVisibility::Visible,
        notes,
        initially_selected,
        target_options: options,
    }
}

fn delayed_row(id: &PlanItemId, c: &UpdateCandidate) -> (r: SelectionRow)
    ensures
        r@ == delayed_row_view(*id, *c),
{
    let age = match &c.diagnostics.selected_target {
        Some(f) => Some(f.age),
        None => None,
    };
    let mut notes: Vec<CandidateNotePart> = Vec::new();
    notes.push(note(CandidateNoteKind::TooFresh { age, required_age: c.diagnostics.required_age }, CandidateNoteTone::Violation));
    let ghost nv = notes_view(notes@);
    assert(nv =~= one_note(NoteKindView::TooFresh(age, c.diagnostics.required_age), CandidateNoteTone::Violation));
    let mut options: Vec<TargetOption> = Vec::new();
    if let Some(v) = c.target_version() {
        if c.execution_support.supports_age_bypass() {
            options.push(TargetOption::ForcedCandidate { target_version: v.clone(), note_parts: clone_notes(&notes) });
        }
    }
    let ghost forced = options_view(options@);
    proof {
        let spec_forced = if c.target is Known && c.execution_support.spec_supports_age_bypass() {
            seq![option_of(OptionKind::ForcedCandidate, Some(c.target->Known_0@), nv)]
        } else {
            Seq::<OptionView>::empty()
        };
        assert(forced =~= spec_forced);
    }
    if c.execution_support.supports_exact_target() {
        append_options(&mut options, alternates_of(&c.diagnostics.candidates, c.target_version(), c.diagnostics.required_age));
    } else {
        assert(options_view(options@) =~= forced + Seq::<OptionView>::empty());
    }
    SelectionRow {
        plan_item_id: id.clone(),
        package_name: c.package_name.clone(),
        installed_version: c.installed_version.clone(),
        target_version: match c.target_version() {
            Some(v) => Some(v.clone()),
            None => None,
        },
        status: SelectionRowStatus::Delayed,
        default_visibility: SelectionRowVisibility::Visible,
        notes,
        initially_selected: false,
        target_options: options,
    }
}

fn blocked_row(
    id: &PlanItemId,
    seed: &UpdateSeed,
    reason: BlockReason,
    policy_warnings: &Vec<PolicyWarning>,
    d: &PlanDiagnostics,
) -> (r: SelectionRow)
    ensures
        r@ == blocked_row_view(*id, *seed, reason, policy_warnings@, d@),
{
    let mut notes = block_notes_of(reason, &d.audit_blocking_target);
    append_notes(&mut notes, warning_notes_of(policy_warnings));
    let exact = seed.execution_support.supports_exact_target();
    let forced: Option<&CandidateEvaluationFact> = match reason {
        BlockReason::AuditVulnerable | BlockReason::AuditLookupFailed => match &d.audit_blocking_candidate {
            Some(e) => Some(e),
            None => None,
        },
        BlockReason::VersionPolicy(_) => if d.candidates.len() > 0 && !d.candidates[0].policy_allowed {
            Some(&d.candidates[0])
        } else {
            None
        },
        _ => None,
    };
    let ghost chosen = forced_candidate(reason, d@.candidates, d@.audit_blocking_candidate);
    proof {
        match forced {
            Some(e) => assert(chosen == Some(e@)),
            None => assert(chosen is None),
        }
    }
    let mut options: Vec<TargetOption> = Vec::new();
    if exact {
        if let Some(e) = forced {
            options.push(TargetOption::ForcedCandidate { target_version: e.version.clone(), note_parts: eval_notes_of(e, d.required_age) });
        }
        let ghost first = options_view(options@);
        proof {
            match forced {
                Some(e) => assert(first =~= seq![option_of(OptionKind::ForcedCandidate, Some(e@.version@), eval_notes(e@, d.required_age))]),
                None => assert(first =~= Seq::<OptionView>::empty()),
            }
        }
        let excluded = match forced {
            Some(e) => Some(&e.version),
            None => None,
        };
        append_options(&mut options, alternates_of(&d.candidates, excluded, d.required_age));
    } else {
        assert(options_view(options@) =~= Seq::<OptionView>::empty() + Seq::<OptionView>::empty());
    }
    SelectionRow {
        plan_item_id: id.clone(),
        package_name: seed.installed.package_name.clone(),
        installed_version: seed.installed.installed_version.clone(),
        target_version: None,
        status: SelectionRowStatus::Blocked,
        default_visibility: SelectionRowVisibility::Visible,
        notes,
        initially_selected: false,
        target_options: options,
    }
}

fn plain_row(
    id: &PlanItemId,
    installed: &InstalledTool,
    status: SelectionRowStatus,
    visibility: SelectionRowVisibility,
    notes: Vec<CandidateNotePart>,
) -> (r: SelectionRow)
    ensures
        r@ == plain_row_view(*id, *installed, status, visibility, notes_view(notes@)),
{
    let r = SelectionRow {
        plan_item_id: id.clone(),
        package_name: installed.package_name.clone(),
        installed_version: installed.installed_version.clone(),
        target_version: None,
        status,
        default_visibility: visibility,
        notes,
        initially_selected: false,
        target_options: Vec::new(),
    };
    assert(r@.options =~= Seq::<OptionView>::empty());
    r
}

fn row_of(item: &PlanItem, policy: &UpdateSelectionPolicy) -> (r: SelectionRow)
    ensures
        r@ == row_view_of(*item, *policy),
{
    match item {
        PlanItem::Update { id, candidate } => update_row(id, candidate, policy),
        PlanItem::Delayed { id, candidate, .. } => delayed_row(id, candidate),
        PlanItem::Blocked { id, seed, reason, policy_warnings, diagnostics } => blocked_row(
            id,
            seed,
            *reason,
            policy_warnings,
            diagnostics,
        ),
        PlanItem::Current { id, installed } => {
            let notes: Vec<CandidateNotePart> = Vec::new();
            assert(notes_view(notes@) =~= Seq::<NoteView>::empty());
            plain_row(id, installed, SelectionRowStatus::Current, SelectionRowVisibility::Hidden, notes)
        },
        PlanItem::Skipped { id, installed, reason } => {
            let mut notes: Vec<CandidateNotePart> = Vec::new();
            notes.push(note(CandidateNoteKind::Detail { text: skip_reason(reason) }, CandidateNoteTone::Info));
            assert(notes_view(notes@) =~= one_note(NoteKindView::Detail(skip_reason_text(*reason)), CandidateNoteTone::Info));
            plain_row(id, installed, SelectionRowStatus::Skipped, SelectionRowVisibility::Hidden, notes)
        },
        PlanItem::ResolverError { id, installed, message } => {
            let mut notes: Vec<CandidateNotePart> = Vec::new();
            notes.push(note(CandidateNoteKind::Detail { text: message.clone() }, CandidateNoteTone::Violation));
            assert(notes_view(notes@) =~= one_note(NoteKindView::Detail(message@), CandidateNoteTone::Violation));
            plain_row(id, installed, SelectionRowStatus::Error, SelectionRowVisibility::Visible, notes)
        },
    }
}

/// The picker view of a plan: one row per plan row, in plan order.
pub fn selection_view(plan: &UpdatePlan, selection_policy: &UpdateSelectionPolicy) -> (r: SelectionView)
    ensures
        r.manager_id == plan.manager_id,
        r.rows@.len() == plan.items@.len(),
        forall|i: int| 0 <= i < plan.items@.len() ==> #[trigger] r.rows@[i]@ == row_view_of(plan.items@[i], *selection_policy),
{
    let mut rows: Vec<SelectionRow> = Vec::new();
    let mut i: usize = 0;
    while i < plan.items.len()
        invariant
            i <= plan.items@.len(),
            rows@.len() == i,
            forall|k: int| 0 <= k < i ==> #[trigger] rows@[k]@ == row_view_of(plan.items@[k], *selection_policy),
        decreases plan.items@.len() - i,
    {
        rows.push(row_of(&plan.items[i], selection_policy));
        i = i + 1;
    }
    SelectionView { manager_id: plan.manager_id.clone(), rows }
}

} // verus!
