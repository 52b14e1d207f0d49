//! Update seeds that managers discover and the plan rows that planning
//! turns them into.
use vstd::prelude::*;

use crate::domain::{
    AuditView, CandidateAuditFact, DomainError, InstalledTool, ManagerId, PackageName, PlanItemId,
    PolicyWarning, ToolId, VersionScheme, VersionText,
};
use crate::release::{ReleaseLookupError, ReleaseLookupResult, TargetAgeLookupResult};

verus! {

/// Manager-discovered input before shared planning applies policy and age
/// gates.
#[derive(Debug)]
pub struct UpdateSeed {
    pub installed: InstalledTool,
    pub version_scheme: VersionScheme,
    pub target_selection: TargetSelection,
    pub execution_support: ExecutionSupport,
    pub execution_target_kind: ExecutionTargetKind,
}

impl UpdateSeed {
    /// A seed whose target planning may choose from the release timeline.
    pub fn new(
        installed: InstalledTool,
        discovered_target: VersionText,
        version_scheme: VersionScheme,
        release_lookup: ReleaseLookupResult,
        execution_support: ExecutionSupport,
    ) -> (r: Self)
        ensures
            r == (UpdateSeed {
                installed,
                version_scheme,
                target_selection: TargetSelection::PlannerSelectable {
                    discovered_target,
                    release_lookup,
                },
                execution_support,
                execution_target_kind: ExecutionTargetKind::Standard,
            }),
    {
        UpdateSeed {
            installed,
            version_scheme,
            target_selection: TargetSelection::PlannerSelectable { discovered_target, release_lookup },
            execution_support,
            execution_target_kind: ExecutionTargetKind::Standard,
        }
    }

    /// A seed whose target the manager's own resolver already chose.
    pub fn manager_selected(
        installed: InstalledTool,
        selected_target: ManagerSelectedTarget,
        version_scheme: VersionScheme,
        execution_support: ExecutionSupport,
    ) -> (r: Self)
        ensures
            r == (UpdateSeed {
                installed,
                version_scheme,
                target_selection: TargetSelection::ManagerSelected(selected_target),
                execution_support,
                execution_target_kind: ExecutionTargetKind::Standard,
            }),
    {
        UpdateSeed {
            installed,
            version_scheme,
            target_selection: TargetSelection::ManagerSelected(selected_target),
            execution_support,
            execution_target_kind: ExecutionTargetKind::Standard,
        }
    }

    pub fn with_execution_target_kind(self, execution_target_kind: ExecutionTargetKind) -> (r: Self)
        ensures
            r == (UpdateSeed { execution_target_kind, ..self }),
    {
        UpdateSeed { execution_target_kind, ..self }
    }
}

/// Describes who chose the target that planning evaluates.
#[derive(Debug)]
pub enum TargetSelection {
    /// Planning may select from release metadata; `discovered_target` is the
    /// manager-discovered newest target.
    PlannerSelectable { discovered_target: VersionText, release_lookup: ReleaseLookupResult },
    /// The manager resolver already chose the target; planning may accept,
    /// delay or block it, but never replaces it.
    ManagerSelected(ManagerSelectedTarget),
}

impl TargetSelection {
    pub open spec fn spec_target_version(&self) -> Option<VersionText> {
        match self {
            TargetSelection::PlannerSelectable { discovered_target, .. } => Some(*discovered_target),
            TargetSelection::ManagerSelected(t) => t.target.spec_version(),
        }
    }

    pub fn target(&self) -> (r: PlannedTargetRef<'_>)
        ensures
            match r {
                PlannedTargetRef::Known(v) => self.spec_target_version() == Some(*v),
                PlannedTargetRef::ManagerResolved => self.spec_target_version() is None,
            },
    {
        match self {
            TargetSelection::PlannerSelectable { discovered_target, .. } => PlannedTargetRef::Known(
                discovered_target,
            ),
            TargetSelection::ManagerSelected(target) => target.target.as_ref(),
        }
    }

    pub fn target_version(&self) -> (r: Option<&VersionText>)
        ensures
            match r {
                Some(v) => self.spec_target_version() == Some(*v),
                None => self.spec_target_version() is None,
            },
    {
        match self.target() {
            PlannedTargetRef::Known(version) => Some(version),
            PlannedTargetRef::ManagerResolved => None,
        }
    }
}

/// Target chosen by a manager-native resolver or outdated snapshot.
#[derive(Debug)]
pub struct ManagerSelectedTarget {
    pub target: PlannedTarget,
    pub target_age: TargetAgeLookupResult,
    pub advisory_release_lookup: Option<AdvisoryReleaseLookup>,
    pub advisory_lookup_failure: Option<ReleaseLookupError>,
}

impl ManagerSelectedTarget {
    pub fn new(target_version: VersionText, target_age: TargetAgeLookupResult) -> (r: Self)
        ensures
            r == (ManagerSelectedTarget {
                target: PlannedTarget::Known(target_version),
                target_age,
                advisory_release_lookup: None,
                advisory_lookup_failure: None,
            }),
    {
        ManagerSelectedTarget {
            target: PlannedTarget::Known(target_version),
            target_age,
            advisory_release_lookup: None,
            advisory_lookup_failure: None,
        }
    }

    pub fn target_version(&self) -> (r: Option<&VersionText>)
        ensures
            match r {
                Some(v) => self.target.spec_version() == Some(*v),
                None => self.target.spec_version() is None,
            },
    {
        match self.target.as_ref() {
            PlannedTargetRef::Known(version) => Some(version),
            PlannedTargetRef::ManagerResolved => None,
        }
    }

    pub fn with_advisory_release_lookup(
        self,
        latest_version: VersionText,
        advisory_release_lookup: ReleaseLookupResult,
    ) -> (r: Self)
        ensures
            r == (ManagerSelectedTarget {
                advisory_release_lookup: Some(
                    AdvisoryReleaseLookup { latest_version, release_lookup: advisory_release_lookup },
                ),
                ..self
            }),
    {
        ManagerSelectedTarget {
            advisory_release_lookup: Some(
                AdvisoryReleaseLookup { latest_version, release_lookup: advisory_release_lookup },
            ),
            ..self
        }
    }

    pub fn with_advisory_lookup_failure(self, failure: ReleaseLookupError) -> (r: Self)
        ensures
            r == (ManagerSelectedTarget { advisory_lookup_failure: Some(failure), ..self }),
    {
        ManagerSelectedTarget { advisory_lookup_failure: Some(failure), ..self }
    }
}

#[derive(Debug)]
pub struct AdvisoryReleaseLookup {
    pub latest_version: VersionText,
    pub release_lookup: ReleaseLookupResult,
}

/// What a manager hands to planning for one installed tool.
#[derive(Debug)]
pub enum ManagerUpdateInput {
    Seed(UpdateSeed),
    Skipped { installed: InstalledTool, reason: SkipReason },
    ResolverError { installed: InstalledTool, message: String },
}

/// Candidate facts after a seed has been evaluated into a concrete plan row.
#[derive(Debug)]
pub struct UpdateCandidate {
    pub tool_id: ToolId,
    pub package_name: PackageName,
    pub installed_version: VersionText,
    pub target: PlannedTarget,
    pub version_scheme: VersionScheme,
    pub execution_support: ExecutionSupport,
    pub execution_target_kind: ExecutionTargetKind,
    pub policy_warnings: Vec<PolicyWarning>,
    pub diagnostics: PlanDiagnostics,
}

impl UpdateCandidate {
    pub fn new(
        tool_id: ToolId,
        package_name: PackageName,
        installed_version: VersionText,
        target_version: VersionText,
        version_scheme: VersionScheme,
        execution_support: ExecutionSupport,
    ) -> (r: Self)
        ensures
            r.tool_id == tool_id,
            r.package_name == package_name,
            r.installed_version == installed_version,
            r.target == PlannedTarget::Known(target_version),
            r.version_scheme == version_scheme,
            r.execution_support == execution_support,
            r.execution_target_kind == ExecutionTargetKind::Standard,
            r.policy_warnings@.len() == 0,
            r.diagnostics.is_empty_for(0),
    {
        UpdateCandidate {
            tool_id,
            package_name,
            installed_version,
            target: PlannedTarget::Known(target_version),
            version_scheme,
            execution_support,
            execution_target_kind: ExecutionTargetKind::Standard,
            policy_warnings: Vec::new(),
            diagnostics: PlanDiagnostics::new(0),
        }
    }

    pub fn with_execution_target_kind(self, execution_target_kind: ExecutionTargetKind) -> (r: Self)
        ensures
            r == (UpdateCandidate { execution_target_kind, ..self }),
    {
        UpdateCandidate { execution_target_kind, ..self }
    }

    pub fn with_policy_warnings(self, policy_warnings: Vec<PolicyWarning>) -> (r: Self)
        ensures
            r == (UpdateCandidate { policy_warnings, ..self }),
    {
        UpdateCandidate { policy_warnings, ..self }
    }

    pub fn with_diagnostics(self, diagnostics: PlanDiagnostics) -> (r: Self)
        ensures
            r == (UpdateCandidate { diagnostics, ..self }),
    {
        UpdateCandidate { diagnostics, ..self }
    }

    pub fn target(&self) -> (r: PlannedTargetRef<'_>)
        ensures
            match r {
                PlannedTargetRef::Known(v) => self.target == PlannedTarget::Known(*v),
                PlannedTargetRef::ManagerResolved => self.target == PlannedTarget::ManagerResolved,
            },
    {
        self.target.as_ref()
    }

    pub fn target_version(&self) -> (r: Option<&VersionText>)
        ensures
            match r {
                Some(v) => self.target == PlannedTarget::Known(*v),
                None => self.target == PlannedTarget::ManagerResolved,
            },
    {
        match self.target.as_ref() {
            PlannedTargetRef::Known(version) => Some(version),
            PlannedTargetRef::ManagerResolved => None,
        }
    }
}

#[derive(Debug)]
pub enum PlannedTarget {
    Known(VersionText),
    ManagerResolved,
}

impl PlannedTarget {
    pub open spec fn spec_version(self) -> Option<VersionText> {
        match self {
            PlannedTarget::Known(v) => Some(v),
            PlannedTarget::ManagerResolved => None,
        }
    }

    pub fn as_ref(&self) -> (r: PlannedTargetRef<'_>)
        ensures
            match r {
                PlannedTargetRef::Known(v) => *self == PlannedTarget::Known(*v),
                PlannedTargetRef::ManagerResolved => *self == PlannedTarget::ManagerResolved,
            },
    {
        match self {
            PlannedTarget::Known(version) => PlannedTargetRef::Known(version),
            PlannedTarget::ManagerResolved => PlannedTargetRef::ManagerResolved,
        }
    }
}

#[derive(Debug, Clone, Copy)]
pub enum PlannedTargetRef<'a> {
    Known(&'a VersionText),
    ManagerResolved,
}

/// Which command shapes can update one item.
#[derive(Debug, Clone, Copy, PartialEq, Eq, Structural)]
pub struct ExecutionSupport {
    pub exact: bool,
    pub native_selected: bool,
    pub native_global: bool,
    pub grouped_native: bool,
    pub resolver_native_selected: ResolverNativeSupport,
    pub resolver_native_global: bool,
}

#[derive(Debug, Clone, Copy, PartialEq, Eq, Structural)]
pub struct ResolverNativeSupport {
    pub selected: bool,
    pub min_age_constraint: MinAgeConstraintSupport,
    pub manager_resolved_target: bool,
}

#[derive(Debug, Clone, Copy, PartialEq, Eq, Structural)]
pub enum MinAgeConstraintSupport {
    NotApplicable,
    Required,
    Optional,
}

impl ResolverNativeSupport {
    pub fn none() -> (r: Self)
        ensures
            r == (ResolverNativeSupport {
                selected: false,
                min_age_constraint: MinAgeConstraintSupport::NotApplicable,
                manager_resolved_target: false,
            }),
    {
        ResolverNativeSupport {
            selected: false,
            min_age_constraint: MinAgeConstraintSupport::NotApplicable,
            manager_resolved_target: false,
        }
    }

    pub fn selected(min_age_constraint: MinAgeConstraintSupport, manager_resolved_target: bool) -> (r:
        Self)
        ensures
            r == (ResolverNativeSupport { selected: true, min_age_constraint, manager_resolved_target }),
    {
        ResolverNativeSupport { selected: true, min_age_constraint, manager_resolved_target }
    }
}

impl ExecutionSupport {
    pub open spec fn flags(
        exact: bool,
        native_selected: bool,
        native_global: bool,
        grouped_native: bool,
    ) -> ExecutionSupport {
        ExecutionSupport {
            exact,
            native_selected,
            native_global,
            grouped_native,
            resolver_native_selected: ResolverNativeSupport {
                selected: false,
                min_age_constraint: MinAgeConstraintSupport::NotApplicable,
                manager_resolved_target: false,
            },
            resolver_native_global: false,
        }
    }

    fn with_flags(exact: bool, native_selected: bool, native_global: bool, grouped_native: bool) -> (r:
        Self)
        ensures
            r == Self::flags(exact, native_selected, native_global, grouped_native),
    {
        ExecutionSupport {
            exact,
            native_selected,
            native_global,
            grouped_native,
            resolver_native_selected: ResolverNativeSupport::none(),
            resolver_native_global: false,
        }
    }

    pub fn exact_only() -> (r: Self)
        ensures
            r == Self::flags(true, false, false, false),
    {
        Self::with_flags(true, false, false, false)
    }

    pub fn native_or_exact() -> (r: Self)
        ensures
            r == Self::flags(true, true, true, false),
    {
        Self::with_flags(true, true, true, false)
    }

    pub fn exact_or_native_global() -> (r: Self)
        ensures
            r == Self::flags(true, false, true, false),
    {
        Self::with_flags(true, false, true, false)
    }

    pub fn native_only() -> (r: Self)
        ensures
            r == Self::flags(false, true, true, false),
    {
        Self::with_flags(false, true, true, false)
    }

    pub fn grouped_native_only() -> (r: Self)
        ensures
            r == Self::flags(false, true, false, true),
    {
        Self::with_flags(false, true, false, true)
    }

    pub fn resolver_native(
        min_age_constraint: MinAgeConstraintSupport,
        manager_resolved_target: bool,
        resolver_native_global: bool,
    ) -> (r: Self)
        ensures
            r == (ExecutionSupport {
                exact: false,
                native_selected: false,
                native_global: false,
                grouped_native: false,
                resolver_native_selected: ResolverNativeSupport {
                    selected: true,
                    min_age_constraint,
                    manager_resolved_target,
                },
                resolver_native_global,
            }),
    {
        ExecutionSupport {
            exact: false,
            native_selected: false,
            native_global: false,
            grouped_native: false,
            resolver_native_selected: ResolverNativeSupport::selected(
                min_age_constraint,
                manager_resolved_target,
            ),
            resolver_native_global,
        }
    }

    pub fn supports_exact_target(self) -> (r: bool)
        ensures
            r == self.exact,
    {
        self.exact
    }

    pub fn supports_native_target(self) -> (r: bool)
        ensures
            r == self.native_selected,
    {
        self.native_selected
    }

    pub fn supports_manager_resolved_target(self) -> (r: bool)
        ensures
            r == (self.native_selected || self.resolver_native_selected.manager_resolved_target),
    {
        self.native_selected || self.resolver_native_selected.manager_resolved_target
    }

    pub open spec fn spec_supports_age_bypass(self) -> bool {
        ||| self.exact
        ||| self.grouped_native
        ||| (self.resolver_native_selected.selected && (self.resolver_native_selected.min_age_constraint
            == MinAgeConstraintSupport::Optional
            || self.resolver_native_selected.min_age_constraint
            == MinAgeConstraintSupport::NotApplicable))
    }

    /// Whether an item can be updated to a target younger than the age gate.
    pub fn supports_age_bypass(self) -> (r: bool)
        ensures
            r == self.spec_supports_age_bypass(),
    {
        self.exact || self.grouped_native || (self.resolver_native_selected.selected && (
        self.resolver_native_selected.min_age_constraint == MinAgeConstraintSupport::Optional
            || self.resolver_native_selected.min_age_constraint
            == MinAgeConstraintSupport::NotApplicable))
    }
}

/// Extra command-shape discriminator for managers whose selected updates need
/// different native command forms.
#[derive(Debug, Clone, Copy, PartialEq, Eq, Structural)]
pub enum ExecutionTargetKind {
    Standard,
    BrewFormula,
    BrewCask,
}

/// One row of an update plan.
#[derive(Debug)]
pub enum PlanItem {
    Update { id: PlanItemId, candidate: UpdateCandidate },
    Current { id: PlanItemId, installed: InstalledTool },
    Delayed { id: PlanItemId, candidate: UpdateCandidate, reason: DelayReason },
    Blocked {
        id: PlanItemId,
        seed: UpdateSeed,
        reason: BlockReason,
        policy_warnings: Vec<PolicyWarning>,
        diagnostics: PlanDiagnostics,
    },
    Skipped { id: PlanItemId, installed: InstalledTool, reason: SkipReason },
    ResolverError { id: PlanItemId, installed: InstalledTool, message: String },
}

impl PlanItem {
    pub open spec fn spec_id(self) -> PlanItemId {
        match self {
            PlanItem::Update { id, .. } => id,
            PlanItem::Current { id, .. } => id,
            PlanItem::Delayed { id, .. } => id,
            PlanItem::Blocked { id, .. } => id,
            PlanItem::Skipped { id, .. } => id,
            PlanItem::ResolverError { id, .. } => id,
        }
    }

    pub open spec fn spec_package_name(self) -> PackageName {
        match self {
            PlanItem::Update { candidate, .. } => candidate.package_name,
            PlanItem::Delayed { candidate, .. } => candidate.package_name,
            PlanItem::Current { installed, .. } => installed.package_name,
            PlanItem::Skipped { installed, .. } => installed.package_name,
            PlanItem::ResolverError { installed, .. } => installed.package_name,
            PlanItem::Blocked { seed, .. } => seed.installed.package_name,
        }
    }

    pub fn id(&self) -> (r: &PlanItemId)
        ensures
            *r == self.spec_id(),
    {
        match self {
            PlanItem::Update { id, .. } => id,
            PlanItem::Current { id, .. } => id,
            PlanItem::Delayed { id, .. } => id,
            PlanItem::Blocked { id, .. } => id,
            PlanItem::Skipped { id, .. } => id,
            PlanItem::ResolverError { id, .. } => id,
        }
    }

    pub fn package_name(&self) -> (r: &PackageName)
        ensures
            *r == self.spec_package_name(),
    {
        match self {
            PlanItem::Update { candidate, .. } => &candidate.package_name,
            PlanItem::Delayed { candidate, .. } => &candidate.package_name,
            PlanItem::Current { installed, .. } => &installed.package_name,
            PlanItem::Skipped { installed, .. } => &installed.package_name,
            PlanItem::ResolverError { installed, .. } => &installed.package_name,
            PlanItem::Blocked { seed, .. } => &seed.installed.package_name,
        }
    }
}

/// No two of the first `n` items share an id.
pub open spec fn ids_distinct_upto(items: Seq<PlanItem>, n: int) -> bool {
    forall|i: int, j: int|
        0 <= i < j < n ==> #[trigger] items[i].spec_id()@ != #[trigger] items[j].spec_id()@
}

pub open spec fn ids_distinct(items: Seq<PlanItem>) -> bool {
    ids_distinct_upto(items, items.len() as int)
}

/// Index of the first item whose id repeats an earlier one.
pub open spec fn is_first_repeat(items: Seq<PlanItem>, j: int) -> bool {
    0 <= j < items.len() && ids_distinct_upto(items, j) && !ids_distinct_upto(items, j + 1)
}

/// Index of the first item with the given id.
pub open spec fn first_item_with(items: Seq<PlanItem>, id: Seq<char>) -> Option<int>
    decreases items.len(),
{
    if items.len() == 0 {
        None
    } else if items[0].spec_id()@ == id {
        Some(0)
    } else {
        match first_item_with(items.drop_first(), id) {
            Some(i) => Some(i + 1),
            None => None,
        }
    }
}

proof fn lemma_first_item_with(items: Seq<PlanItem>, id: Seq<char>, i: int)
    requires
        0 <= i <= items.len(),
        forall|j: int| 0 <= j < i ==> items[j].spec_id()@ != id,
        i == items.len() || items[i].spec_id()@ == id,
    ensures
        first_item_with(items, id) == (if i == items.len() { None } else { Some(i) }),
    decreases items.len(),
{
    if items.len() > 0 && i > 0 {
        assert forall|j: int| 0 <= j < i - 1 implies items.drop_first()[j].spec_id()@ != id by {
            assert(items.drop_first()[j] == items[j + 1]);
        }
        lemma_first_item_with(items.drop_first(), id, i - 1);
    }
}

/// The plan rows of one manager, with pairwise distinct ids.
#[derive(Debug)]
pub struct UpdatePlan {
    pub manager_id: ManagerId,
    pub items: Vec<PlanItem>,
}

impl UpdatePlan {
    /// Creates an update plan for a manager; two items with one id are refused.
    pub fn new(manager_id: ManagerId, items: Vec<PlanItem>) -> (r: Result<Self, DomainError>)
        ensures
            r is Ok <==> ids_distinct(items@),
            r matches Ok(p) ==> p.manager_id == manager_id && p.items == items,
            r matches Err(e) ==> exists|j: int|
                is_first_repeat(items@, j) && (e matches DomainError::DuplicatePlanItemId(s) && s@
                    == items@[j].spec_id()@),
    {
        let mut j: usize = 0;
        while j < items.len()
            invariant
                j <= items@.len(),
                ids_distinct_upto(items@, j as int),
            decreases items@.len() - j,
        {
            let mut i: usize = 0;
            while i < j
                invariant
                    i <= j < items@.len(),
                    ids_distinct_upto(items@, j as int),
                    forall|k: int| 0 <= k < i ==> items@[k].spec_id()@ != items@[j as int].spec_id()@,
                decreases j - i,
            {
                if items[i].id().same(items[j].id()) {
                    let dup = items[j].id().as_str().to_owned();
                    assert(is_first_repeat(items@, j as int));
                    return Err(DomainError::DuplicatePlanItemId(dup));
                }
                i = i + 1;
            }
            j = j + 1;
        }
        Ok(UpdatePlan { manager_id, items })
    }

    pub fn contains_item(&self, id: &PlanItemId) -> (r: bool)
        ensures
            r == first_item_with(self.items@, id@) is Some,
    {
        match self.item(id) {
            Some(_) => true,
            None => false,
        }
    }

    /// The first item with the given id.
    pub fn item(&self, id: &PlanItemId) -> (r: Option<&PlanItem>)
        ensures
            match first_item_with(self.items@, id@) {
                Some(i) => r == Some(&self.items@[i]),
                None => r is None,
            },
    {
        let mut i: usize = 0;
        while i < self.items.len()
            invariant
                i <= self.items@.len(),
                forall|j: int| 0 <= j < i ==> self.items@[j].spec_id()@ != id@,
            decreases self.items@.len() - i,
        {
            if self.items[i].id().same(id) {
                proof {
                    lemma_first_item_with(self.items@, id@, i as int);
                }
                return Some(&self.items[i]);
            }
            i = i + 1;
        }
        proof {
            lemma_first_item_with(self.items@, id@, i as int);
        }
        None
    }
}

#[derive(Debug, Clone, Copy, PartialEq, Eq, Structural)]
pub enum DelayReason {
    ReleaseTooFresh,
}

#[derive(Debug, Clone, Copy, PartialEq, Eq, Structural)]
pub enum BlockReason {
    MissingReleaseMetadata,
    ReleaseLookupFailed,
    VersionPolicy(PolicyBlockReason),
    AuditVulnerable,
    AuditLookupFailed,
}

/// Explanation facts produced during planning.
#[derive(Debug)]
pub struct PlanDiagnostics {
    pub required_age: u64,
    pub candidates: Vec<CandidateEvaluationFact>,
    pub selected_target: Option<CandidateAgeFact>,
    pub latest_overall: Option<CandidateAgeFact>,
    pub latest_age_eligible: Option<CandidateAgeFact>,
    pub missing_metadata: Option<MissingMetadataKind>,
    pub lookup_failure: Option<ReleaseLookupError>,
    pub advisory_latest: Option<AdvisoryLatestFact>,
    pub advisory_lookup_failure: Option<ReleaseLookupError>,
    pub audit_blocking_target: Option<CandidateAuditFact>,
    pub audit_blocking_candidate: Option<CandidateEvaluationFact>,
}

/// Diagnostics with their facts read as views.
pub struct DiagnosticsView {
    pub required_age: u64,
    pub candidates: Seq<EvaluationView>,
    pub selected_target: Option<CandidateAgeFact>,
    pub latest_overall: Option<CandidateAgeFact>,
    pub latest_age_eligible: Option<CandidateAgeFact>,
    pub missing_metadata: Option<MissingMetadataKind>,
    pub lookup_failure: Option<ReleaseLookupError>,
    pub advisory_latest: Option<AdvisoryView>,
    pub advisory_lookup_failure: Option<ReleaseLookupError>,
    pub audit_blocking_target: Option<AuditView>,
    pub audit_blocking_candidate: Option<EvaluationView>,
}

pub open spec fn opt_audit_view(a: Option<CandidateAuditFact>) -> Option<AuditView> {
    match a {
        Some(f) => Some(f@),
        None => None,
    }
}

pub open spec fn opt_eval_view(a: Option<CandidateEvaluationFact>) -> Option<EvaluationView> {
    match a {
        Some(f) => Some(f@),
        None => None,
    }
}

pub open spec fn opt_advisory_view(a: Option<AdvisoryLatestFact>) -> Option<AdvisoryView> {
    match a {
        Some(f) => Some(f@),
        None => None,
    }
}

pub open spec fn evals_view(v: Seq<CandidateEvaluationFact>) -> Seq<EvaluationView> {
    v.map_values(|f: CandidateEvaluationFact| f@)
}

impl View for PlanDiagnostics {
    type V = DiagnosticsView;

    open spec fn view(&self) -> DiagnosticsView {
        DiagnosticsView {
            required_age: self.required_age,
            candidates: evals_view(self.candidates@),
            selected_target: self.selected_target,
            latest_overall: self.latest_overall,
            latest_age_eligible: self.latest_age_eligible,
            missing_metadata: self.missing_metadata,
            lookup_failure: self.lookup_failure,
            advisory_latest: opt_advisory_view(self.advisory_latest),
            advisory_lookup_failure: self.advisory_lookup_failure,
            audit_blocking_target: opt_audit_view(self.audit_blocking_target),
            audit_blocking_candidate: opt_eval_view(self.audit_blocking_candidate),
        }
    }
}

/// Diagnostics that record nothing but the required age.
pub open spec fn empty_diagnostics(required_age: u64) -> DiagnosticsView {
    DiagnosticsView {
        required_age,
        candidates: Seq::empty(),
        selected_target: None,
        latest_overall: None,
        latest_age_eligible: None,
        missing_metadata: None,
        lookup_failure: None,
        advisory_latest: None,
        advisory_lookup_failure: None,
        audit_blocking_target: None,
        audit_blocking_candidate: None,
    }
}

impl PlanDiagnostics {
    /// Diagnostics that record nothing but the required age.
    pub open spec fn is_empty_for(self, required_age: u64) -> bool {
        &&& self.required_age == required_age
        &&& self.candidates@.len() == 0
        &&& self.selected_target is None
        &&& self.latest_overall is None
        &&& self.latest_age_eligible is None
        &&& self.missing_metadata is None
        &&& self.lookup_failure is None
        &&& self.advisory_latest is None
        &&& self.advisory_lookup_failure is None
        &&& self.audit_blocking_target is None
        &&& self.audit_blocking_candidate is None
        &&& self@ == empty_diagnostics(required_age)
    }

    pub fn new(required_age: u64) -> (r: Self)
        ensures
            r.is_empty_for(required_age),
    {
        let r = PlanDiagnostics {
            required_age,
            candidates: Vec::new(),
            selected_target: None,
            latest_overall: None,
            latest_age_eligible: None,
            missing_metadata: None,
            lookup_failure: None,
            advisory_latest: None,
            advisory_lookup_failure: None,
            audit_blocking_target: None,
            audit_blocking_candidate: None,
        };
        assert(r@.candidates =~= Seq::<EvaluationView>::empty());
        r
    }

    pub fn with_missing_metadata(self, missing_metadata: MissingMetadataKind) -> (r: Self)
        ensures
            r == (PlanDiagnostics { missing_metadata: Some(missing_metadata), ..self }),
            r@ == (DiagnosticsView { missing_metadata: Some(missing_metadata), ..self@ }),
    {
        PlanDiagnostics { missing_metadata: Some(missing_metadata), ..self }
    }

    pub fn with_lookup_failure(self, lookup_failure: ReleaseLookupError) -> (r: Self)
        ensures
            r == (PlanDiagnostics { lookup_failure: Some(lookup_failure), ..self }),
            r@ == (DiagnosticsView { lookup_failure: Some(lookup_failure), ..self@ }),
    {
        PlanDiagnostics { lookup_failure: Some(lookup_failure), ..self }
    }
}

/// A version and how long ago it was published.
#[derive(Debug)]
pub struct CandidateAgeFact {
    pub version: VersionText,
    pub age: u64,
}

impl CandidateAgeFact {
    pub fn new(version: VersionText, age: u64) -> (r: Self)
        ensures
            r.version == version,
            r.age == age,
    {
        CandidateAgeFact { version, age }
    }
}

impl Clone for CandidateAgeFact {
    fn clone(&self) -> (r: Self)
        ensures
            r == *self,
    {
        CandidateAgeFact { version: self.version.clone(), age: self.age }
    }
}

/// Per-version evaluation fact retained for details and exact or forced selection.
#[derive(Debug)]
pub struct CandidateEvaluationFact {
    pub version: VersionText,
    pub age: Option<u64>,
    pub policy_allowed: bool,
    pub age_allowed: bool,
    pub policy_block_reason: Option<PolicyBlockReason>,
    pub policy_warning: Option<PolicyWarning>,
    pub audit: Option<CandidateAuditFact>,
}

/// An evaluation fact with its audit answer read as a view.
pub struct EvaluationView {
    pub version: VersionText,
    pub age: Option<u64>,
    pub policy_allowed: bool,
    pub age_allowed: bool,
    pub policy_block_reason: Option<PolicyBlockReason>,
    pub policy_warning: Option<PolicyWarning>,
    pub audit: Option<AuditView>,
}

impl View for CandidateEvaluationFact {
    type V = EvaluationView;

    open spec fn view(&self) -> EvaluationView {
        EvaluationView {
            version: self.version,
            age: self.age,
            policy_allowed: self.policy_allowed,
            age_allowed: self.age_allowed,
            policy_block_reason: self.policy_block_reason,
            policy_warning: self.policy_warning,
            audit: opt_audit_view(self.audit),
        }
    }
}

impl Clone for CandidateEvaluationFact {
    fn clone(&self) -> (r: Self)
        ensures
            r@ == self@,
    {
        let audit = match &self.audit {
            Some(a) => Some(a.clone()),
            None => None,
        };
        CandidateEvaluationFact {
            version: self.version.clone(),
            age: self.age,
            policy_allowed: self.policy_allowed,
            age_allowed: self.age_allowed,
            policy_block_reason: self.policy_block_reason,
            policy_warning: self.policy_warning,
            audit,
        }
    }
}

#[derive(Debug, Clone, Copy, PartialEq, Eq, Structural)]
pub enum MissingMetadataKind {
    ReleaseTimeline,
    DiscoveredTarget,
    SelectedUpdate,
}

#[derive(Debug)]
pub enum AdvisoryLatestFact {
    Known { latest_version: VersionText, candidates: Vec<CandidateAgeFact> },
    MissingMetadata { latest_version: VersionText },
    LookupFailed { latest_version: VersionText, error: ReleaseLookupError },
}

/// An advisory fact with its candidate list read as a sequence.
pub enum AdvisoryView {
    Known { latest_version: VersionText, candidates: Seq<CandidateAgeFact> },
    MissingMetadata { latest_version: VersionText },
    LookupFailed { latest_version: VersionText, error: ReleaseLookupError },
}

impl View for AdvisoryLatestFact {
    type V = AdvisoryView;

    open spec fn view(&self) -> AdvisoryView {
        match self {
            AdvisoryLatestFact::Known { latest_version, candidates } => AdvisoryView::Known {
                latest_version: *latest_version,
                candidates: candidates@,
            },
            AdvisoryLatestFact::MissingMetadata { latest_version } => AdvisoryView::MissingMetadata {
                latest_version: *latest_version,
            },
            AdvisoryLatestFact::LookupFailed { latest_version, error } => AdvisoryView::LookupFailed {
                latest_version: *latest_version,
                error: *error,
            },
        }
    }
}

#[derive(Debug, Clone, Copy, PartialEq, Eq, Structural)]
pub enum PolicyBlockReason {
    PreReleaseBlocked,
    TrackRegression,
    UnknownStability,
}

#[derive(Debug)]
pub enum SkipReason {
    Pinned,
    ManagerRule(String),
}

/// A problem found while planning one manager.
#[derive(Debug)]
pub enum PlanIssue {
    DiscoveryFailed { detail: String },
}

} // verus!
