//! Evaluation of one update seed into a plan row: release-age gate, version
//! policy and audit evidence.
use vstd::prelude::*;

use crate::classify::{
    classify_manager_native_release, classify_pep440_release, classify_semver_release,
    manager_native_class, pep440_class, semver_class, semver_text, semver_text_of, ReleaseClass,
};
use crate::domain::{
    AuditLookupResult, AuditQuery, AuditSubject, AuditView, CandidateAuditFact, InstalledTool,
    PlanItemId, PolicyWarning, VersionPolicy, VersionScheme, VersionText,
};
use crate::plan::{
    AdvisoryLatestFact, AdvisoryReleaseLookup, AdvisoryView, BlockReason, CandidateAgeFact,
    CandidateEvaluationFact, DelayReason, DiagnosticsView, EvaluationView, ManagerSelectedTarget,
    MissingMetadataKind, PlanDiagnostics, PlanItem, PlannedTarget, PolicyBlockReason,
    TargetSelection, UpdateCandidate, UpdateSeed, empty_diagnostics, evals_view,
};
use crate::release::{
    age_at, age_since, ReleaseEntry, ReleaseLookupError, ReleaseLookupResult, ReleaseTimeline,
    ReleaseTimestamp, TargetAgeLookupResult,
};
use crate::versions::{
    pep440_compare, pep440_facts, pep440_order, pep440_parse, semver_compare,
    semver_parse_prerelease, semver_order, semver_prerelease, VersionOrder,
};

verus! {

// ---------------------------------------------------------------------------
// Versions under a scheme
// ---------------------------------------------------------------------------

/// Whether `raw` parses under the scheme; manager-native versions never do.
pub open spec fn scheme_parses(scheme: VersionScheme, raw: Seq<char>) -> bool {
    match scheme {
        VersionScheme::SemVer => semver_prerelease(semver_text(raw)) is Some,
        VersionScheme::Pep440 => pep440_facts(raw) is Some,
        VersionScheme::ManagerNative => false,
    }
}

/// The order of two versions under the scheme, when both parse.
pub open spec fn scheme_order(scheme: VersionScheme, a: Seq<char>, b: Seq<char>) -> Option<
    VersionOrder,
> {
    match scheme {
        VersionScheme::SemVer => semver_order(semver_text(a), semver_text(b)),
        VersionScheme::Pep440 => pep440_order(a, b),
        VersionScheme::ManagerNative => None,
    }
}

pub open spec fn class_of(scheme: VersionScheme, raw: Seq<char>) -> ReleaseClass {
    match scheme {
        VersionScheme::SemVer => semver_class(raw),
        VersionScheme::Pep440 => pep440_class(raw),
        VersionScheme::ManagerNative => manager_native_class(raw),
    }
}

pub(crate) fn version_parses(scheme: VersionScheme, raw: &VersionText) -> (r: bool)
    ensures
        r == scheme_parses(scheme, raw@),
{
    match scheme {
        VersionScheme::SemVer => {
            let text = semver_text_of(raw.as_str());
            semver_parse_prerelease(text.as_str()).is_some()
        },
        VersionScheme::Pep440 => pep440_parse(raw.as_str()).is_some(),
        VersionScheme::ManagerNative => false,
    }
}

pub(crate) fn compare_versions(scheme: VersionScheme, a: &VersionText, b: &VersionText) -> (r: Option<
    VersionOrder,
>)
    ensures
        r == scheme_order(scheme, a@, b@),
        r is Some <==> (scheme_parses(scheme, a@) && scheme_parses(scheme, b@)),
{
    match scheme {
        VersionScheme::SemVer => {
            let ta = semver_text_of(a.as_str());
            let tb = semver_text_of(b.as_str());
            semver_compare(ta.as_str(), tb.as_str())
        },
        VersionScheme::Pep440 => pep440_compare(a.as_str(), b.as_str()),
        VersionScheme::ManagerNative => None,
    }
}

fn classify_release(scheme: VersionScheme, raw: &VersionText) -> (r: ReleaseClass)
    ensures
        r == class_of(scheme, raw@),
{
    match scheme {
        VersionScheme::SemVer => classify_semver_release(raw.as_str()),
        VersionScheme::Pep440 => classify_pep440_release(raw.as_str()),
        VersionScheme::ManagerNative => classify_manager_native_release(raw.as_str()),
    }
}

// ---------------------------------------------------------------------------
// Version policy
// ---------------------------------------------------------------------------

/// Whether a version policy lets a candidate through, and what it warns about.
#[derive(Debug, Clone, Copy, PartialEq, Eq, Structural)]
pub enum PolicyDecision {
    Allowed { warning: Option<PolicyWarning> },
    Blocked { reason: PolicyBlockReason, warning: Option<PolicyWarning> },
}

impl PolicyDecision {
    pub open spec fn spec_warning(self) -> Option<PolicyWarning> {
        match self {
            PolicyDecision::Allowed { warning } => warning,
            PolicyDecision::Blocked { warning, .. } => warning,
        }
    }

    pub open spec fn spec_block_reason(self) -> Option<PolicyBlockReason> {
        match self {
            PolicyDecision::Allowed { .. } => None,
            PolicyDecision::Blocked { reason, .. } => Some(reason),
        }
    }

    fn warning(self) -> (r: Option<PolicyWarning>)
        ensures
            r == self.spec_warning(),
    {
        match self {
            PolicyDecision::Allowed { warning } => warning,
            PolicyDecision::Blocked { warning, .. } => warning,
        }
    }

    fn block_reason(self) -> (r: Option<PolicyBlockReason>)
        ensures
            r == self.spec_block_reason(),
    {
        match self {
            PolicyDecision::Allowed { .. } => None,
            PolicyDecision::Blocked { reason, .. } => Some(reason),
        }
    }
}

/// The stable policy: final releases only.
pub open spec fn stable_decision(candidate: ReleaseClass, warning: Option<PolicyWarning>) -> PolicyDecision {
    if candidate == ReleaseClass::Final {
        PolicyDecision::Allowed { warning }
    } else {
        PolicyDecision::Blocked { reason: PolicyBlockReason::PreReleaseBlocked, warning }
    }
}

/// The same-track policy: final releases, or prereleases at least as stable as
/// the installed one; with an unranked installed version it falls back to the
/// stable policy and warns.
pub open spec fn same_track_decision(installed: ReleaseClass, candidate: ReleaseClass) -> PolicyDecision {
    match installed.rank() {
        None => stable_decision(
            candidate,
            Some(PolicyWarning::InstalledTrackUnknownFallbackStable),
        ),
        Some(ir) => if candidate == ReleaseClass::Final {
            PolicyDecision::Allowed { warning: None }
        } else {
            match candidate.rank() {
                None => PolicyDecision::Blocked {
                    reason: PolicyBlockReason::UnknownStability,
                    warning: None,
                },
                Some(cr) => if cr >= ir {
                    PolicyDecision::Allowed { warning: None }
                } else {
                    PolicyDecision::Blocked {
                        reason: PolicyBlockReason::TrackRegression,
                        warning: None,
                    }
                },
            }
        },
    }
}

pub open spec fn policy_decision(
    policy: VersionPolicy,
    installed: ReleaseClass,
    candidate: ReleaseClass,
) -> PolicyDecision {
    match policy {
        VersionPolicy::Unfiltered => PolicyDecision::Allowed { warning: None },
        VersionPolicy::Stable => stable_decision(candidate, None),
        VersionPolicy::SameTrack => same_track_decision(installed, candidate),
    }
}

fn evaluate_stable_policy(candidate: ReleaseClass, warning: Option<PolicyWarning>) -> (r:
    PolicyDecision)
    ensures
        r == stable_decision(candidate, warning),
{
    if candidate.is_final() {
        PolicyDecision::Allowed { warning }
    } else {
        PolicyDecision::Blocked { reason: PolicyBlockReason::PreReleaseBlocked, warning }
    }
}

fn evaluate_same_track_policy(installed: ReleaseClass, candidate: ReleaseClass) -> (r:
    PolicyDecision)
    ensures
        r == same_track_decision(installed, candidate),
{
    let Some(installed_rank) = installed.stability_rank() else {
        return evaluate_stable_policy(
            candidate,
            Some(PolicyWarning::InstalledTrackUnknownFallbackStable),
        );
    };
    if candidate.is_final() {
        return PolicyDecision::Allowed { warning: None };
    }
    let Some(candidate_rank) = candidate.stability_rank() else {
        return PolicyDecision::Blocked { reason: PolicyBlockReason::UnknownStability, warning: None };
    };
    if candidate_rank >= installed_rank {
        PolicyDecision::Allowed { warning: None }
    } else {
        PolicyDecision::Blocked { reason: PolicyBlockReason::TrackRegression, warning: None }
    }
}

/// Applies a version policy to one candidate.
pub fn evaluate_policy(policy: VersionPolicy, installed: ReleaseClass, candidate: ReleaseClass) -> (r:
    PolicyDecision)
    ensures
        r == policy_decision(policy, installed, candidate),
{
    match policy {
        VersionPolicy::Unfiltered => PolicyDecision::Allowed { warning: None },
        VersionPolicy::Stable => evaluate_stable_policy(candidate, None),
        VersionPolicy::SameTrack => evaluate_same_track_policy(installed, candidate),
    }
}

// ---------------------------------------------------------------------------
// Audit evidence
// ---------------------------------------------------------------------------

/// Audit answers looked up before planning.
#[derive(Debug)]
pub struct AuditResults {
    pub entries: Vec<(AuditQuery, AuditLookupResult)>,
}

/// The answer recorded for `q`; a later entry for the same query replaces an
/// earlier one.
pub open spec fn lookup_audit(entries: Seq<(AuditQuery, AuditLookupResult)>, q: AuditQuery) -> Option<
    AuditView,
>
    decreases entries.len(),
{
    if entries.len() == 0 {
        None
    } else if entries.last().0.same_as(q) {
        Some(entries.last().1@)
    } else {
        lookup_audit(entries.drop_last(), q)
    }
}

pub open spec fn opt_lookup_view(o: Option<AuditLookupResult>) -> Option<AuditView> {
    match o {
        Some(r) => Some(r@),
        None => None,
    }
}

impl AuditResults {
    pub fn new() -> (r: Self)
        ensures
            r.entries@.len() == 0,
    {
        AuditResults { entries: Vec::new() }
    }

    pub fn from_pairs(entries: Vec<(AuditQuery, AuditLookupResult)>) -> (r: Self)
        ensures
            r.entries == entries,
    {
        AuditResults { entries }
    }

    /// Records an answer; it replaces any earlier answer for the same query.
    pub fn insert(&mut self, query: AuditQuery, result: AuditLookupResult)
        ensures
            final(self).entries@ == old(self).entries@.push((query, result)),
    {
        self.entries.push((query, result));
    }

    pub fn get(&self, query: &AuditQuery) -> (r: Option<AuditLookupResult>)
        ensures
            opt_lookup_view(r) == lookup_audit(self.entries@, *query),
    {
        let mut i: usize = self.entries.len();
        assert(self.entries@.take(i as int) =~= self.entries@);
        while i > 0
            invariant
                i <= self.entries@.len(),
                lookup_audit(self.entries@, *query) == lookup_audit(self.entries@.take(i as int), *query),
            decreases i,
        {
            let ghost t = self.entries@.take(i as int);
            assert(t.drop_last() =~= self.entries@.take(i - 1));
            if self.entries[i - 1].0.same(query) {
                return Some(self.entries[i - 1].1.clone());
            }
            i = i - 1;
        }
        None
    }
}

pub open spec fn missing_audit_detail() -> Seq<char> {
    "audit lookup result missing"@
}

/// The audit fact of one version: none without an audit subject, and a
/// lookup failure when no answer was recorded.
pub open spec fn audit_fact_spec(
    subject: Option<AuditSubject>,
    version: VersionText,
    audits: Seq<(AuditQuery, AuditLookupResult)>,
) -> Option<AuditView> {
    match subject {
        None => None,
        Some(s) => Some(
            match lookup_audit(audits, AuditQuery { subject: s, version }) {
                Some(a) => a,
                None => AuditView::LookupFailed(missing_audit_detail()),
            },
        ),
    }
}

pub(crate) fn audit_fact_for(subject: &Option<AuditSubject>, version: &VersionText, results: &AuditResults) -> (r:
    Option<AuditLookupResult>)
    ensures
        opt_lookup_view(r) == audit_fact_spec(*subject, *version, results.entries@),
{
    let Some(subject) = subject else {
        return None;
    };
    let query = AuditQuery::new(subject.clone(), version.clone());
    match results.get(&query) {
        Some(found) => Some(found),
        None => Some(AuditLookupResult::LookupFailed { detail: "audit lookup result missing".to_owned() }),
    }
}

pub open spec fn audit_allows_optional(a: Option<AuditView>) -> bool {
    match a {
        None => true,
        Some(AuditView::Clean) => true,
        _ => false,
    }
}

/// Vulnerable answers block as vulnerable; every other blocking answer as a
/// failed lookup.
pub open spec fn audit_block_reason(a: AuditView) -> BlockReason {
    match a {
        AuditView::Vulnerable(_) => BlockReason::AuditVulnerable,
        _ => BlockReason::AuditLookupFailed,
    }
}

fn audit_block_reason_of(a: &AuditLookupResult) -> (r: BlockReason)
    ensures
        r == audit_block_reason(a@),
{
    match a {
        AuditLookupResult::Vulnerable { .. } => BlockReason::AuditVulnerable,
        _ => BlockReason::AuditLookupFailed,
    }
}

pub open spec fn candidate_audit_view(o: Option<CandidateAuditFact>) -> Option<AuditView> {
    match o {
        Some(f) => Some(f@),
        None => None,
    }
}

fn to_candidate_fact(o: &Option<AuditLookupResult>) -> (r: Option<CandidateAuditFact>)
    ensures
        candidate_audit_view(r) == opt_lookup_view(*o),
{
    match o {
        Some(a) => Some(CandidateAuditFact::from_lookup(a)),
        None => None,
    }
}

// ---------------------------------------------------------------------------
// Timeline candidates
// ---------------------------------------------------------------------------

/// Everything about the seed that evaluating one timeline entry needs.
pub struct EvalContext {
    pub scheme: VersionScheme,
    pub policy: VersionPolicy,
    pub installed_class: ReleaseClass,
    pub now: u64,
    pub min_age: u64,
    pub subject: Option<AuditSubject>,
    pub audits: Seq<(AuditQuery, AuditLookupResult)>,
}

/// One release newer than the installed version, with its gate results.
pub struct CandidateView {
    pub version: VersionText,
    pub published_at: ReleaseTimestamp,
    pub age: u64,
    pub age_allowed: bool,
    pub block: Option<PolicyBlockReason>,
    pub warning: Option<PolicyWarning>,
    pub audit: Option<AuditView>,
}

pub open spec fn candidate_of(entry: ReleaseEntry, ctx: EvalContext) -> CandidateView {
    let decision = policy_decision(ctx.policy, ctx.installed_class, class_of(ctx.scheme, entry.version@));
    let age = age_at(entry.published_at, ctx.now);
    CandidateView {
        version: entry.version,
        published_at: entry.published_at,
        age,
        age_allowed: age >= ctx.min_age,
        block: decision.spec_block_reason(),
        warning: decision.spec_warning(),
        audit: audit_fact_spec(ctx.subject, entry.version, ctx.audits),
    }
}

/// The entries newer than `installed`, in timeline order; entries that do
/// not parse are skipped.
pub open spec fn timeline_candidates(
    entries: Seq<ReleaseEntry>,
    installed: Seq<char>,
    ctx: EvalContext,
) -> Seq<CandidateView>
    decreases entries.len(),
{
    if entries.len() == 0 {
        Seq::empty()
    } else {
        let head = timeline_candidates(entries.drop_last(), installed, ctx);
        if scheme_order(ctx.scheme, entries.last().version@, installed) == Some(VersionOrder::Greater) {
            head.push(candidate_of(entries.last(), ctx))
        } else {
            head
        }
    }
}

/// Later publication wins; on the same instant the higher version wins.
pub open spec fn newer(c: CandidateView, cur: CandidateView, scheme: VersionScheme) -> bool {
    ||| c.published_at.unix_secs > cur.published_at.unix_secs
    ||| (c.published_at.unix_secs == cur.published_at.unix_secs && scheme_order(
        scheme,
        c.version@,
        cur.version@,
    ) == Some(VersionOrder::Greater))
}

/// Which candidates a selection considers.
#[derive(Debug, Clone, Copy, PartialEq, Eq, Structural)]
pub enum Eligibility {
    Any,
    PolicyAllowed,
    AgeAllowed,
    AuditAllowed,
}

pub open spec fn eligible(kind: Eligibility, c: CandidateView) -> bool {
    match kind {
        Eligibility::Any => true,
        Eligibility::PolicyAllowed => c.block is None,
        Eligibility::AgeAllowed => c.block is None && c.age_allowed,
        Eligibility::AuditAllowed => c.block is None && c.age_allowed && audit_allows_optional(c.audit),
    }
}

/// The newest eligible candidate, scanning in timeline order and keeping the
/// current one unless a later one is strictly newer.
pub open spec fn newest_where(cs: Seq<CandidateView>, kind: Eligibility, scheme: VersionScheme) -> Option<
    CandidateView,
>
    decreases cs.len(),
{
    if cs.len() == 0 {
        None
    } else {
        let head = newest_where(cs.drop_last(), kind, scheme);
        let c = cs.last();
        if !eligible(kind, c) {
            head
        } else {
            match head {
                None => Some(c),
                Some(cur) => if newer(c, cur, scheme) {
                    Some(c)
                } else {
                    Some(cur)
                },
            }
        }
    }
}

pub proof fn lemma_newest_where(cs: Seq<CandidateView>, kind: Eligibility, scheme: VersionScheme)
    ensures
        newest_where(cs, kind, scheme) is None <==> (forall|i: int|
            0 <= i < cs.len() ==> !eligible(kind, #[trigger] cs[i])),
        newest_where(cs, kind, scheme) matches Some(c) ==> eligible(kind, c) && exists|i: int|
            0 <= i < cs.len() && cs[i] == c,
    decreases cs.len(),
{
    if cs.len() > 0 {
        lemma_newest_where(cs.drop_last(), kind, scheme);
        let head = newest_where(cs.drop_last(), kind, scheme);
        if let Some(c) = head {
            let i = choose|i: int| 0 <= i < cs.drop_last().len() && cs.drop_last()[i] == c;
            assert(cs[i] == c);
        }
        if newest_where(cs, kind, scheme) is None {
            assert forall|i: int| 0 <= i < cs.len() implies !eligible(kind, #[trigger] cs[i]) by {
                if i < cs.len() - 1 {
                    assert(cs[i] == cs.drop_last()[i]);
                }
            }
        }
        if forall|i: int| 0 <= i < cs.len() ==> !eligible(kind, #[trigger] cs[i]) {
            assert forall|i: int| 0 <= i < cs.drop_last().len() implies !eligible(
                kind,
                #[trigger] cs.drop_last()[i],
            ) by {
                assert(cs.drop_last()[i] == cs[i]);
            }
            assert(!eligible(kind, cs[cs.len() - 1]));
        }
    }
}

pub open spec fn eval_view_of(c: CandidateView) -> EvaluationView {
    EvaluationView {
        version: c.version,
        age: Some(c.age),
        policy_allowed: c.block is None,
        age_allowed: c.age_allowed,
        policy_block_reason: c.block,
        policy_warning: c.warning,
        audit: c.audit,
    }
}

pub open spec fn age_fact_of(c: CandidateView) -> CandidateAgeFact {
    CandidateAgeFact { version: c.version, age: c.age }
}

pub open spec fn opt_age_fact(c: Option<CandidateView>) -> Option<CandidateAgeFact> {
    match c {
        Some(c) => Some(age_fact_of(c)),
        None => None,
    }
}

/// Position of the first fact whose version is lower than `x`.
pub open spec fn first_lower(s: Seq<EvaluationView>, x: EvaluationView, scheme: VersionScheme) -> int
    decreases s.len(),
{
    if s.len() == 0 {
        0
    } else if scheme_order(scheme, s[0].version@, x.version@) == Some(VersionOrder::Less) {
        0
    } else {
        1 + first_lower(s.drop_first(), x, scheme)
    }
}

/// Inserts `x` before the first lower version, after every other one.
pub open spec fn insert_desc(s: Seq<EvaluationView>, x: EvaluationView, scheme: VersionScheme) -> Seq<
    EvaluationView,
> {
    let k = first_lower(s, x, scheme);
    s.take(k).push(x) + s.skip(k)
}

/// Facts ordered from the highest version down; equal versions keep their
/// order.
pub open spec fn sort_desc(s: Seq<EvaluationView>, scheme: VersionScheme) -> Seq<EvaluationView>
    decreases s.len(),
{
    if s.len() == 0 {
        Seq::empty()
    } else {
        insert_desc(sort_desc(s.drop_last(), scheme), s.last(), scheme)
    }
}

proof fn lemma_first_lower(s: Seq<EvaluationView>, x: EvaluationView, scheme: VersionScheme, k: int)
    requires
        0 <= k <= s.len(),
        forall|j: int|
            0 <= j < k ==> scheme_order(scheme, #[trigger] s[j].version@, x.version@) != Some(
                VersionOrder::Less,
            ),
        k == s.len() || scheme_order(scheme, s[k].version@, x.version@) == Some(VersionOrder::Less),
    ensures
        first_lower(s, x, scheme) == k,
    decreases s.len(),
{
    if s.len() > 0 && k > 0 {
        assert forall|j: int| 0 <= j < k - 1 implies scheme_order(
            scheme,
            #[trigger] s.drop_first()[j].version@,
            x.version@,
        ) != Some(VersionOrder::Less) by {
            assert(s.drop_first()[j] == s[j + 1]);
        }
        if k < s.len() {
            assert(s.drop_first()[k - 1] == s[k]);
        }
        lemma_first_lower(s.drop_first(), x, scheme, k - 1);
    }
}

/// The diagnostics shared by every outcome that got past the metadata checks.
pub open spec fn base_diagnostics(cands: Seq<CandidateView>, ctx: EvalContext) -> DiagnosticsView {
    DiagnosticsView {
        required_age: ctx.min_age,
        candidates: sort_desc(cands.map_values(|c: CandidateView| eval_view_of(c)), ctx.scheme),
        selected_target: None,
        latest_overall: opt_age_fact(newest_where(cands, Eligibility::Any, ctx.scheme)),
        latest_age_eligible: opt_age_fact(newest_where(cands, Eligibility::AgeAllowed, ctx.scheme)),
        missing_metadata: None,
        lookup_failure: None,
        advisory_latest: None,
        advisory_lookup_failure: None,
        audit_blocking_target: None,
        audit_blocking_candidate: None,
    }
}

/// Whether some timeline entry is the discovered target.
pub open spec fn target_listed(entries: Seq<ReleaseEntry>, target: Seq<char>, scheme: VersionScheme) -> bool {
    exists|i: int|
        0 <= i < entries.len() && scheme_order(scheme, #[trigger] entries[i].version@, target)
            == Some(VersionOrder::Equal)
}

pub open spec fn warnings_of(w: Option<PolicyWarning>) -> Seq<PolicyWarning> {
    match w {
        Some(w) => seq![w],
        None => Seq::empty(),
    }
}

/// The update candidate that a seed yields for a chosen target.
pub open spec fn candidate_from(
    c: UpdateCandidate,
    seed: UpdateSeed,
    version: VersionText,
    warnings: Seq<PolicyWarning>,
    diagnostics: DiagnosticsView,
) -> bool {
    &&& c.tool_id == seed.installed.tool_id
    &&& c.package_name == seed.installed.package_name
    &&& c.installed_version == seed.installed.installed_version
    &&& c.target == PlannedTarget::Known(version)
    &&& c.version_scheme == seed.version_scheme
    &&& c.execution_support == seed.execution_support
    &&& c.execution_target_kind == seed.execution_target_kind
    &&& c.policy_warnings@ == warnings
    &&& c.diagnostics@ == diagnostics
}

pub open spec fn resolver_error_with(r: PlanItem, id: PlanItemId, installed: InstalledTool, message: Seq<char>) -> bool {
    r matches PlanItem::ResolverError { id: i, installed: inst, message: m } && i == id && inst
        == installed && m@ == message
}

pub open spec fn blocked_with(
    r: PlanItem,
    id: PlanItemId,
    seed: UpdateSeed,
    reason: BlockReason,
    warnings: Seq<PolicyWarning>,
    diagnostics: DiagnosticsView,
) -> bool {
    r matches PlanItem::Blocked { id: i, seed: s, reason: rs, policy_warnings: w, diagnostics: d }
        && i == id && s == seed && rs == reason && w@ == warnings && d@ == diagnostics
}

/// The plan row of a seed whose target planning chooses from its timeline.
pub open spec fn timeline_item(
    r: PlanItem,
    id: PlanItemId,
    seed: UpdateSeed,
    discovered: VersionText,
    entries: Seq<ReleaseEntry>,
    ctx: EvalContext,
) -> bool {
    let installed = seed.installed.installed_version;
    let cands = timeline_candidates(entries, installed@, ctx);
    let base = base_diagnostics(cands, ctx);
    let overall = newest_where(cands, Eligibility::Any, ctx.scheme);
    let by_policy = newest_where(cands, Eligibility::PolicyAllowed, ctx.scheme);
    let by_age = newest_where(cands, Eligibility::AgeAllowed, ctx.scheme);
    let by_audit = newest_where(cands, Eligibility::AuditAllowed, ctx.scheme);
    if !scheme_parses(ctx.scheme, installed@) {
        resolver_error_with(r, id, seed.installed, "failed to parse installed version"@)
    } else if !scheme_parses(ctx.scheme, discovered@) {
        resolver_error_with(r, id, seed.installed, "failed to parse discovered target version"@)
    } else if !target_listed(entries, discovered@, ctx.scheme) {
        blocked_with(
            r,
            id,
            seed,
            BlockReason::MissingReleaseMetadata,
            Seq::empty(),
            DiagnosticsView {
                missing_metadata: Some(MissingMetadataKind::DiscoveredTarget),
                ..empty_diagnostics(ctx.min_age)
            },
        )
    } else if overall is None {
        r matches PlanItem::Current { id: i, installed: inst } && i == id && inst == seed.installed
    } else if by_policy is None {
        blocked_with(
            r,
            id,
            seed,
            BlockReason::VersionPolicy(overall->0.block->0),
            warnings_of(overall->0.warning),
            base,
        )
    } else if by_age is None {
        let p = by_policy->0;
        r matches PlanItem::Delayed { id: i, candidate: c, reason } && i == id && reason
            == DelayReason::ReleaseTooFresh && candidate_from(
            c,
            seed,
            p.version,
            warnings_of(p.warning),
            DiagnosticsView { selected_target: Some(age_fact_of(p)), ..base },
        )
    } else if by_audit is None {
        let p = by_policy->0;
        let a = by_age->0;
        let audit = match a.audit {
            Some(v) => v,
            None => AuditView::LookupFailed(missing_audit_detail()),
        };
        blocked_with(
            r,
            id,
            seed,
            audit_block_reason(audit),
            Seq::empty(),
            DiagnosticsView {
                selected_target: Some(age_fact_of(p)),
                audit_blocking_target: Some(audit),
                audit_blocking_candidate: Some(eval_view_of(a)),
                ..base
            },
        )
    } else {
        let u = by_audit->0;
        r matches PlanItem::Update { id: i, candidate: c } && i == id && candidate_from(
            c,
            seed,
            u.version,
            warnings_of(u.warning),
            DiagnosticsView { selected_target: Some(age_fact_of(u)), ..base },
        )
    }
}

/// Exec copy of a `CandidateView`.
struct CandidateFact {
    version: VersionText,
    published_at: ReleaseTimestamp,
    age: u64,
    age_allowed: bool,
    block: Option<PolicyBlockReason>,
    warning: Option<PolicyWarning>,
    audit: Option<AuditLookupResult>,
}

impl View for CandidateFact {
    type V = CandidateView;

    closed spec fn view(&self) -> CandidateView {
        CandidateView {
            version: self.version,
            published_at: self.published_at,
            age: self.age,
            age_allowed: self.age_allowed,
            block: self.block,
            warning: self.warning,
            audit: opt_lookup_view(self.audit),
        }
    }
}

impl CandidateFact {
    fn age_fact(&self) -> (r: CandidateAgeFact)
        ensures
            r == age_fact_of(self@),
    {
        CandidateAgeFact::new(self.version.clone(), self.age)
    }

    fn evaluation(&self) -> (r: CandidateEvaluationFact)
        ensures
            r@ == eval_view_of(self@),
    {
        CandidateEvaluationFact {
            version: self.version.clone(),
            age: Some(self.age),
            policy_allowed: self.block.is_none(),
            age_allowed: self.age_allowed,
            policy_block_reason: self.block,
            policy_warning: self.warning,
            audit: to_candidate_fact(&self.audit),
        }
    }

    fn warnings(&self) -> (r: Vec<PolicyWarning>)
        ensures
            r@ == warnings_of(self@.warning),
    {
        let mut r: Vec<PolicyWarning> = Vec::new();
        if let Some(w) = self.warning {
            r.push(w);
        }
        assert(r@ =~= warnings_of(self@.warning));
        r
    }
}

spec fn views_of(v: Seq<CandidateFact>) -> Seq<CandidateView> {
    v.map_values(|c: CandidateFact| c@)
}

fn is_eligible(kind: Eligibility, c: &CandidateFact) -> (r: bool)
    ensures
        r == eligible(kind, c@),
{
    match kind {
        Eligibility::Any => true,
        Eligibility::PolicyAllowed => c.block.is_none(),
        Eligibility::AgeAllowed => c.block.is_none() && c.age_allowed,
        Eligibility::AuditAllowed => c.block.is_none() && c.age_allowed && match &c.audit {
            None => true,
            Some(AuditLookupResult::Clean) => true,
            _ => false,
        },
    }
}

fn is_newer(c: &CandidateFact, cur: &CandidateFact, scheme: VersionScheme) -> (r: bool)
    ensures
        r == newer(c@, cur@, scheme),
{
    if c.published_at.unix_secs != cur.published_at.unix_secs {
        c.published_at.unix_secs > cur.published_at.unix_secs
    } else {
        match compare_versions(scheme, &c.version, &cur.version) {
            Some(VersionOrder::Greater) => true,
            _ => false,
        }
    }
}

/// The pick of the newest eligible release among the first `n` releases,
/// from when each was published, whether it is eligible, and how the
/// versions compare (`order[i][j]`, the order of release `i` to release
/// `j`): scanning in order, a later eligible release replaces the current
/// pick when it was published later, or in the same second with a higher
/// version.
pub open spec fn pick_newest(
    published: Seq<i64>,
    eligible_at: Seq<bool>,
    order: Seq<Seq<Option<VersionOrder>>>,
    n: int,
) -> Option<int>
    decreases n,
{
    if n <= 0 {
        None
    } else {
        let head = pick_newest(published, eligible_at, order, n - 1);
        let c = n - 1;
        if !eligible_at[c] {
            head
        } else {
            match head {
                None => Some(c),
                Some(k) => if published[c] > published[k] || (published[c] == published[k] && order[c][k]
                    == Some(VersionOrder::Greater)) {
                    Some(c)
                } else {
                    Some(k)
                },
            }
        }
    }
}

proof fn lemma_pick_newest_bounds(
    published: Seq<i64>,
    eligible_at: Seq<bool>,
    order: Seq<Seq<Option<VersionOrder>>>,
    n: int,
)
    ensures
        pick_newest(published, eligible_at, order, n) matches Some(k) ==> 0 <= k < n,
    decreases n,
{
    if n > 0 {
        lemma_pick_newest_bounds(published, eligible_at, order, n - 1);
    }
}

/// Picks the newest eligible release from the releases' publication
/// seconds, their eligibility and the comparisons of their versions.
pub fn newest_eligible_index(
    published: &Vec<i64>,
    eligible_at: &Vec<bool>,
    order: &Vec<Vec<Option<VersionOrder>>>,
) -> (r: Option<usize>)
    requires
        eligible_at@.len() == published@.len(),
        order@.len() == published@.len(),
        forall|i: int| 0 <= i < order@.len() ==> (#[trigger] order@[i])@.len() == published@.len(),
    ensures
        match pick_newest(published@, eligible_at@, order@.map_values(|v: Vec<Option<VersionOrder>>| v@), published@.len() as int) {
            Some(k) => r == Some(k as usize),
            None => r is None,
        },
{
    let ghost ov = order@.map_values(|v: Vec<Option<VersionOrder>>| v@);
    let mut cur: Option<usize> = None;
    let mut i: usize = 0;
    while i < published.len()
        invariant
            i <= published@.len(),
            eligible_at@.len() == published@.len(),
            order@.len() == published@.len(),
            forall|j: int| 0 <= j < order@.len() ==> (#[trigger] order@[j])@.len() == published@.len(),
            ov == order@.map_values(|v: Vec<Option<VersionOrder>>| v@),
            match pick_newest(published@, eligible_at@, ov, i as int) {
                Some(k) => cur == Some(k as usize),
                None => cur is None,
            },
        decreases published@.len() - i,
    {
        proof {
            lemma_pick_newest_bounds(published@, eligible_at@, ov, i as int);
        }
        if eligible_at[i] {
            match cur {
                None => {
                    cur = Some(i);
                },
                Some(k) => {
                    assert(ov[i as int] == order@[i as int]@);
                    let later = published[i] > published[k] || (published[i] == published[k] && match order[i][k] {
                        Some(VersionOrder::Greater) => true,
                        _ => false,
                    });
                    if later {
                        cur = Some(i);
                    }
                },
            }
        }
        i = i + 1;
    }
    cur
}

/// The newest eligible candidate is the pick from the candidates'
/// publication seconds, eligibility and version comparisons.
pub proof fn lemma_newest_where_is_pick(
    cs: Seq<CandidateView>,
    kind: Eligibility,
    scheme: VersionScheme,
    published: Seq<i64>,
    eligible_at: Seq<bool>,
    order: Seq<Seq<Option<VersionOrder>>>,
    n: int,
)
    requires
        0 <= n <= cs.len(),
        published.len() == cs.len(),
        eligible_at.len() == cs.len(),
        order.len() == cs.len(),
        forall|i: int| 0 <= i < cs.len() ==> #[trigger] published[i] == cs[i].published_at.unix_secs,
        forall|i: int| 0 <= i < cs.len() ==> #[trigger] eligible_at[i] == eligible(kind, cs[i]),
        forall|i: int, j: int|
            0 <= i < cs.len() && 0 <= j < cs.len() ==> #[trigger] order[i][j] == scheme_order(
                scheme,
                cs[i].version@,
                cs[j].version@,
            ),
    ensures
        match newest_where(cs.take(n), kind, scheme) {
            Some(c) => pick_newest(published, eligible_at, order, n) matches Some(k) && 0 <= k < n && cs[k] == c,
            None => pick_newest(published, eligible_at, order, n) is None,
        },
    decreases n,
{
    if n > 0 {
        lemma_newest_where_is_pick(cs, kind, scheme, published, eligible_at, order, n - 1);
        assert(cs.take(n).drop_last() =~= cs.take(n - 1));
        assert(cs.take(n).last() == cs[n - 1]);
        assert(published[n - 1] == cs[n - 1].published_at.unix_secs);
        assert(eligible_at[n - 1] == eligible(kind, cs[n - 1]));
        if let Some(k) = pick_newest(published, eligible_at, order, n - 1) {
            assert(published[k] == cs[k].published_at.unix_secs);
            assert(order[n - 1][k] == scheme_order(scheme, cs[n - 1].version@, cs[k].version@));
        }
    }
}

/// Index of the newest eligible candidate.
fn newest_index(cands: &Vec<CandidateFact>, kind: Eligibility, scheme: VersionScheme) -> (r: Option<
    usize,
>)
    ensures
        match newest_where(views_of(cands@), kind, scheme) {
            Some(c) => r matches Some(i) && i < cands@.len() && cands@[i as int]@ == c,
            None => r is None,
        },
{
    let ghost vs = views_of(cands@);
    let mut cur: Option<usize> = None;
    let mut i: usize = 0;
    while i < cands.len()
        invariant
            i <= cands@.len(),
            vs == views_of(cands@),
            match newest_where(vs.take(i as int), kind, scheme) {
                Some(c) => cur matches Some(k) && k < i && cands@[k as int]@ == c,
                None => cur is None,
            },
        decreases cands@.len() - i,
    {
        let ghost t = vs.take(i + 1);
        assert(t.drop_last() =~= vs.take(i as int));
        assert(t.last() == cands@[i as int]@);
        if is_eligible(kind, &cands[i]) {
            match cur {
                None => {
                    cur = Some(i);
                },
                Some(k) => {
                    if is_newer(&cands[i], &cands[k], scheme) {
                        cur = Some(i);
                    }
                },
            }
        }
        i = i + 1;
    }
    assert(vs.take(cands@.len() as int) =~= vs);
    cur
}

/// The candidates of a timeline and whether the discovered target is listed.
fn collect_candidates(
    installed: &InstalledTool,
    discovered: &VersionText,
    entries: &Vec<ReleaseEntry>,
    scheme: VersionScheme,
    policy: VersionPolicy,
    now: u64,
    min_age: u64,
    results: &AuditResults,
    Ghost(ctx): Ghost<EvalContext>,
) -> (r: (Vec<CandidateFact>, bool))
    requires
        ctx.scheme == scheme,
        ctx.policy == policy,
        ctx.installed_class == class_of(scheme, installed.installed_version@),
        ctx.now == now,
        ctx.min_age == min_age,
        ctx.subject == installed.audit_subject,
        ctx.audits == results.entries@,
    ensures
        views_of(r.0@) == timeline_candidates(entries@, installed.installed_version@, ctx),
        r.1 == target_listed(entries@, discovered@, scheme),
{
    let installed_class = classify_release(scheme, &installed.installed_version);
    let mut cands: Vec<CandidateFact> = Vec::new();
    let mut found = false;
    let mut i: usize = 0;
    while i < entries.len()
        invariant
            i <= entries@.len(),
            installed_class == ctx.installed_class,
            ctx.scheme == scheme,
            ctx.policy == policy,
            ctx.now == now,
            ctx.min_age == min_age,
            ctx.subject == installed.audit_subject,
            ctx.audits == results.entries@,
            views_of(cands@) == timeline_candidates(entries@.take(i as int), installed.installed_version@, ctx),
            found == exists|j: int|
                0 <= j < i && scheme_order(scheme, #[trigger] entries@[j].version@, discovered@)
                    == Some(VersionOrder::Equal),
        decreases entries@.len() - i,
    {
        let entry = &entries[i];
        let ghost t = entries@.take(i + 1);
        assert(t.drop_last() =~= entries@.take(i as int));
        assert(t.last() == entries@[i as int]);
        match compare_versions(scheme, &entry.version, discovered) {
            Some(VersionOrder::Equal) => {
                found = true;
            },
            _ => {},
        }
        match compare_versions(scheme, &entry.version, &installed.installed_version) {
            Some(VersionOrder::Greater) => {
                let class = classify_release(scheme, &entry.version);
                let decision = evaluate_policy(policy, installed_class, class);
                let age = age_since(entry.published_at, now);
                let fact = CandidateFact {
                    version: entry.version.clone(),
                    published_at: entry.published_at,
                    age,
                    age_allowed: age >= min_age,
                    block: decision.block_reason(),
                    warning: decision.warning(),
                    audit: audit_fact_for(&installed.audit_subject, &entry.version, results),
                };
                let ghost before = cands@;
                cands.push(fact);
                assert(views_of(cands@) =~= views_of(before).push(candidate_of(entries@[i as int], ctx)));
            },
            _ => {},
        }
        i = i + 1;
    }
    assert(entries@.take(entries@.len() as int) =~= entries@);
    (cands, found)
}

fn first_lower_index(sorted: &Vec<CandidateEvaluationFact>, x: &CandidateEvaluationFact, scheme: VersionScheme) -> (k: usize)
    ensures
        k <= sorted@.len(),
        k == first_lower(evals_view(sorted@), x@, scheme),
{
    let ghost s = evals_view(sorted@);
    let mut k: usize = 0;
    while k < sorted.len()
        invariant
            k <= sorted@.len(),
            s == evals_view(sorted@),
            forall|j: int|
                0 <= j < k ==> scheme_order(scheme, #[trigger] s[j].version@, x@.version@)
                    != Some(VersionOrder::Less),
        decreases sorted@.len() - k,
    {
        match compare_versions(scheme, &sorted[k].version, &x.version) {
            Some(VersionOrder::Less) => {
                proof {
                    lemma_first_lower(s, x@, scheme, k as int);
                }
                return k;
            },
            _ => {},
        }
        k = k + 1;
    }
    proof {
        lemma_first_lower(s, x@, scheme, k as int);
    }
    k
}

/// The evaluation facts of `cands`, highest version first.
fn sorted_evaluations(cands: &Vec<CandidateFact>, scheme: VersionScheme) -> (r: Vec<CandidateEvaluationFact>)
    ensures
        evals_view(r@) == sort_desc(views_of(cands@).map_values(|c: CandidateView| eval_view_of(c)), scheme),
{
    let ghost all = views_of(cands@).map_values(|c: CandidateView| eval_view_of(c));
    let mut sorted: Vec<CandidateEvaluationFact> = Vec::new();
    let mut i: usize = 0;
    while i < cands.len()
        invariant
            i <= cands@.len(),
            all == views_of(cands@).map_values(|c: CandidateView| eval_view_of(c)),
            evals_view(sorted@) == sort_desc(all.take(i as int), scheme),
        decreases cands@.len() - i,
    {
        let x = cands[i].evaluation();
        let ghost s = evals_view(sorted@);
        let k = first_lower_index(&sorted, &x, scheme);
        let ghost xv = x@;
        sorted.insert(k, x);
        proof {
            let t = all.take(i + 1);
            assert(t.drop_last() =~= all.take(i as int));
            assert(t.last() == xv);
            assert(evals_view(sorted@) =~= s.take(k as int).push(xv) + s.skip(k as int));
        }
        i = i + 1;
    }
    assert(all.take(cands@.len() as int) =~= all);
    sorted
}

fn candidate_from_seed(
    seed: &UpdateSeed,
    target_version: VersionText,
    policy_warnings: Vec<PolicyWarning>,
    diagnostics: PlanDiagnostics,
) -> (r: UpdateCandidate)
    ensures
        candidate_from(r, *seed, target_version, policy_warnings@, diagnostics@),
{
    UpdateCandidate::new(
        seed.installed.tool_id.clone(),
        seed.installed.package_name.clone(),
        seed.installed.installed_version.clone(),
        target_version,
        seed.version_scheme,
        seed.execution_support,
    ).with_execution_target_kind(seed.execution_target_kind).with_policy_warnings(
        policy_warnings,
    ).with_diagnostics(diagnostics)
}

fn evaluate_timeline_seed(
    id: PlanItemId,
    seed: UpdateSeed,
    discovered: &VersionText,
    entries: &Vec<ReleaseEntry>,
    policy: VersionPolicy,
    now: u64,
    min_age: u64,
    results: &AuditResults,
    Ghost(ctx): Ghost<EvalContext>,
) -> (r: PlanItem)
    requires
        seed.version_scheme != VersionScheme::ManagerNative,
        ctx.scheme == seed.version_scheme,
        ctx.policy == policy,
        ctx.installed_class == class_of(seed.version_scheme, seed.installed.installed_version@),
        ctx.now == now,
        ctx.min_age == min_age,
        ctx.subject == seed.installed.audit_subject,
        ctx.audits == results.entries@,
    ensures
        timeline_item(r, id, seed, *discovered, entries@, ctx),
{
    let scheme = seed.version_scheme;
    if !version_parses(scheme, &seed.installed.installed_version) {
        return PlanItem::ResolverError {
            id,
            installed: seed.installed,
            message: "failed to parse installed version".to_owned(),
        };
    }
    if !version_parses(scheme, discovered) {
        return PlanItem::ResolverError {
            id,
            installed: seed.installed,
            message: "failed to parse discovered target version".to_owned(),
        };
    }
    let (cands, found) = collect_candidates(
        &seed.installed,
        discovered,
        entries,
        scheme,
        policy,
        now,
        min_age,
        results,
        Ghost(ctx),
    );
    if !found {
        return PlanItem::Blocked {
            id,
            seed,
            reason: BlockReason::MissingReleaseMetadata,
            policy_warnings: Vec::new(),
            diagnostics: PlanDiagnostics::new(min_age).with_missing_metadata(
                MissingMetadataKind::DiscoveredTarget,
            ),
        };
    }
    let ghost cs = views_of(cands@);
    let overall = newest_index(&cands, Eligibility::Any, scheme);
    let by_policy = newest_index(&cands, Eligibility::PolicyAllowed, scheme);
    let by_age = newest_index(&cands, Eligibility::AgeAllowed, scheme);
    let by_audit = newest_index(&cands, Eligibility::AuditAllowed, scheme);
    let mut diagnostics = PlanDiagnostics::new(min_age);
    diagnostics.candidates = sorted_evaluations(&cands, scheme);
    diagnostics.latest_overall = match overall {
        Some(k) => Some(cands[k].age_fact()),
        None => None,
    };
    diagnostics.latest_age_eligible = match by_age {
        Some(k) => Some(cands[k].age_fact()),
        None => None,
    };
    let ghost base = diagnostics@;
    assert(base == base_diagnostics(cs, ctx));
    let Some(overall) = overall else {
        return PlanItem::Current { id, installed: seed.installed };
    };
    let Some(by_policy) = by_policy else {
        proof {
            lemma_newest_where(cs, Eligibility::PolicyAllowed, scheme);
            assert(!eligible(Eligibility::PolicyAllowed, cs[overall as int]));
        }
        let reason = match cands[overall].block {
            Some(reason) => reason,
            None => PolicyBlockReason::UnknownStability,
        };
        let warnings = cands[overall].warnings();
        return PlanItem::Blocked {
            id,
            seed,
            reason: BlockReason::VersionPolicy(reason),
            policy_warnings: warnings,
            diagnostics,
        };
    };
    diagnostics.selected_target = Some(cands[by_policy].age_fact());
    let Some(by_age) = by_age else {
        let candidate = candidate_from_seed(
            &seed,
            cands[by_policy].version.clone(),
            cands[by_policy].warnings(),
            diagnostics,
        );
        return PlanItem::Delayed { id, candidate, reason: DelayReason::ReleaseTooFresh };
    };
    let Some(by_audit) = by_audit else {
        let audit = match &cands[by_age].audit {
            Some(a) => a.clone(),
            None => AuditLookupResult::LookupFailed { detail: "audit lookup result missing".to_owned() },
        };
        let reason = audit_block_reason_of(&audit);
        diagnostics.audit_blocking_target = Some(CandidateAuditFact::from_lookup(&audit));
        diagnostics.audit_blocking_candidate = Some(cands[by_age].evaluation());
        return PlanItem::Blocked {
            id,
            seed,
            reason,
            policy_warnings: Vec::new(),
            diagnostics,
        };
    };
    diagnostics.selected_target = Some(cands[by_audit].age_fact());
    let candidate = candidate_from_seed(
        &seed,
        cands[by_audit].version.clone(),
        cands[by_audit].warnings(),
        diagnostics,
    );
    PlanItem::Update { id, candidate }
}

// ---------------------------------------------------------------------------
// Manager-selected targets
// ---------------------------------------------------------------------------

/// Whether a manager-selected target moves past the installed version, or
/// why that cannot be told.
pub open spec fn selected_is_update(seed: UpdateSeed, target: VersionText) -> Result<bool, Seq<char>> {
    let installed = seed.installed.installed_version@;
    if target@ == installed {
        Ok(false)
    } else {
        match seed.version_scheme {
            VersionScheme::ManagerNative => Ok(true),
            scheme => if !scheme_parses(scheme, installed) {
                Err("failed to parse installed version"@)
            } else if !scheme_parses(scheme, target@) {
                Err("failed to parse selected target version"@)
            } else {
                Ok(scheme_order(scheme, target@, installed) == Some(VersionOrder::Greater))
            },
        }
    }
}

fn selected_target_is_update(seed: &UpdateSeed, target: &VersionText) -> (r: Result<bool, String>)
    ensures
        match (r, selected_is_update(*seed, *target)) {
            (Ok(a), Ok(b)) => a == b,
            (Err(m), Err(n)) => m@ == n,
            _ => false,
        },
{
    if target.same(&seed.installed.installed_version) {
        return Ok(false);
    }
    let scheme = seed.version_scheme;
    match scheme {
        VersionScheme::ManagerNative => Ok(true),
        _ => {
            if !version_parses(scheme, &seed.installed.installed_version) {
                return Err("failed to parse installed version".to_owned());
            }
            if !version_parses(scheme, target) {
                return Err("failed to parse selected target version".to_owned());
            }
            match compare_versions(scheme, target, &seed.installed.installed_version) {
                Some(VersionOrder::Greater) => Ok(true),
                _ => Ok(false),
            }
        },
    }
}

/// The advisory timeline of a manager-selected target, with each entry's age.
pub open spec fn advisory_view_of(a: Option<AdvisoryReleaseLookup>, now: u64) -> Option<AdvisoryView> {
    match a {
        None => None,
        Some(a) => Some(
            match a.release_lookup {
                ReleaseLookupResult::Known(t) => AdvisoryView::Known {
                    latest_version: a.latest_version,
                    candidates: t.versions@.map_values(
                        |e: ReleaseEntry|
                            CandidateAgeFact { version: e.version, age: age_at(e.published_at, now) },
                    ),
                },
                ReleaseLookupResult::MissingMetadata => AdvisoryView::MissingMetadata {
                    latest_version: a.latest_version,
                },
                ReleaseLookupResult::LookupFailed(e) => AdvisoryView::LookupFailed {
                    latest_version: a.latest_version,
                    error: e,
                },
            },
        ),
    }
}

fn advisory_latest_diagnostics(advisory: &Option<AdvisoryReleaseLookup>, now: u64) -> (r: Option<
    AdvisoryLatestFact,
>)
    ensures
        crate::plan::opt_advisory_view(r) == advisory_view_of(*advisory, now),
{
    let Some(advisory) = advisory else {
        return None;
    };
    match &advisory.release_lookup {
        ReleaseLookupResult::Known(timeline) => {
            let mut candidates: Vec<CandidateAgeFact> = Vec::new();
            let mut i: usize = 0;
            while i < timeline.versions.len()
                invariant
                    i <= timeline.versions@.len(),
                    candidates@ == timeline.versions@.take(i as int).map_values(
                        |e: ReleaseEntry|
                            CandidateAgeFact { version: e.version, age: age_at(e.published_at, now) },
                    ),
                decreases timeline.versions@.len() - i,
            {
                let entry = &timeline.versions[i];
                candidates.push(
                    CandidateAgeFact::new(entry.version.clone(), age_since(entry.published_at, now)),
                );
                i = i + 1;
                assert(candidates@ =~= timeline.versions@.take(i as int).map_values(
                    |e: ReleaseEntry|
                        CandidateAgeFact { version: e.version, age: age_at(e.published_at, now) },
                ));
            }
            assert(timeline.versions@.take(timeline.versions@.len() as int) =~= timeline.versions@);
            Some(
                AdvisoryLatestFact::Known {
                    latest_version: advisory.latest_version.clone(),
                    candidates,
                },
            )
        },
        ReleaseLookupResult::MissingMetadata => Some(
            AdvisoryLatestFact::MissingMetadata { latest_version: advisory.latest_version.clone() },
        ),
        ReleaseLookupResult::LookupFailed(error) => Some(
            AdvisoryLatestFact::LookupFailed {
                latest_version: advisory.latest_version.clone(),
                error: error.clone(),
            },
        ),
    }
}

pub open spec fn target_age_of(ta: TargetAgeLookupResult, now: u64) -> Option<u64> {
    match ta {
        TargetAgeLookupResult::Known(e) => Some(age_at(e.spec_timestamp(), now)),
        _ => None,
    }
}

pub open spec fn target_age_allowed(ta: TargetAgeLookupResult, now: u64, min_age: u64) -> bool {
    match ta {
        TargetAgeLookupResult::Known(e) => age_at(e.spec_timestamp(), now) >= min_age,
        _ => false,
    }
}

/// The plan row of a seed whose target the manager's resolver chose.
pub open spec fn manager_selected_item(
    r: PlanItem,
    id: PlanItemId,
    seed: UpdateSeed,
    target: ManagerSelectedTarget,
    policy: VersionPolicy,
    now: u64,
    min_age: u64,
    audits: Seq<(AuditQuery, AuditLookupResult)>,
) -> bool {
    let scheme = seed.version_scheme;
    let diag0 = DiagnosticsView {
        advisory_latest: advisory_view_of(target.advisory_release_lookup, now),
        advisory_lookup_failure: target.advisory_lookup_failure,
        ..empty_diagnostics(min_age)
    };
    let missing = DiagnosticsView { missing_metadata: Some(MissingMetadataKind::SelectedUpdate), ..diag0 };
    match target.target {
        PlannedTarget::ManagerResolved => blocked_with(
            r,
            id,
            seed,
            BlockReason::MissingReleaseMetadata,
            Seq::empty(),
            missing,
        ),
        PlannedTarget::Known(sel) => match selected_is_update(seed, sel) {
            Ok(false) => r matches PlanItem::Current { id: i, installed } && i == id && installed
                == seed.installed,
            Err(m) => resolver_error_with(r, id, seed.installed, m),
            Ok(true) => {
                let decision = policy_decision(
                    policy,
                    class_of(scheme, seed.installed.installed_version@),
                    class_of(scheme, sel@),
                );
                let fact = EvaluationView {
                    version: sel,
                    age: target_age_of(target.target_age, now),
                    policy_allowed: decision.spec_block_reason() is None,
                    age_allowed: target_age_allowed(target.target_age, now, min_age),
                    policy_block_reason: decision.spec_block_reason(),
                    policy_warning: decision.spec_warning(),
                    audit: audit_fact_spec(seed.installed.audit_subject, sel, audits),
                };
                let with_fact = DiagnosticsView { candidates: seq![fact], ..diag0 };
                let warnings = warnings_of(decision.spec_warning());
                match decision {
                    PolicyDecision::Blocked { reason, .. } => blocked_with(
                        r,
                        id,
                        seed,
                        BlockReason::VersionPolicy(reason),
                        warnings,
                        with_fact,
                    ),
                    PolicyDecision::Allowed { .. } => match target.target_age {
                        TargetAgeLookupResult::MissingMetadata => blocked_with(
                            r,
                            id,
                            seed,
                            BlockReason::MissingReleaseMetadata,
                            Seq::empty(),
                            missing,
                        ),
                        TargetAgeLookupResult::LookupFailed(e) => blocked_with(
                            r,
                            id,
                            seed,
                            BlockReason::ReleaseLookupFailed,
                            Seq::empty(),
                            DiagnosticsView { lookup_failure: Some(e), ..diag0 },
                        ),
                        TargetAgeLookupResult::Known(ev) => {
                            let d = DiagnosticsView {
                                selected_target: Some(
                                    CandidateAgeFact {
                                        version: sel,
                                        age: age_at(ev.spec_timestamp(), now),
                                    },
                                ),
                                ..with_fact
                            };
                            if age_at(ev.spec_timestamp(), now) >= min_age {
                                match fact.audit {
                                    Some(AuditView::Clean) => r matches PlanItem::Update {
                                        id: i,
                                        candidate: c,
                                    } && i == id && candidate_from(c, seed, sel, warnings, d),
                                    None => r matches PlanItem::Update { id: i, candidate: c } && i
                                        == id && candidate_from(c, seed, sel, warnings, d),
                                    Some(a) => blocked_with(
                                        r,
                                        id,
                                        seed,
                                        audit_block_reason(a),
                                        warnings,
                                        DiagnosticsView {
                                            audit_blocking_target: Some(a),
                                            audit_blocking_candidate: Some(fact),
                                            ..d
                                        },
                                    ),
                                }
                            } else {
                                r matches PlanItem::Delayed { id: i, candidate: c, reason } && i
                                    == id && reason == DelayReason::ReleaseTooFresh
                                    && candidate_from(c, seed, sel, warnings, d)
                            }
                        },
                    },
                }
            },
        },
    }
}

fn clone_target_age(ta: &TargetAgeLookupResult) -> (r: TargetAgeLookupResult)
    ensures
        r == *ta,
{
    ta.clone()
}

fn evaluate_manager_selected_seed(
    id: PlanItemId,
    seed: UpdateSeed,
    policy: VersionPolicy,
    now: u64,
    min_age: u64,
    results: &AuditResults,
) -> (r: PlanItem)
    requires
        seed.target_selection is ManagerSelected,
    ensures
        manager_selected_item(
            r,
            id,
            seed,
            seed.target_selection->ManagerSelected_0,
            policy,
            now,
            min_age,
            results.entries@,
        ),
{
    let scheme = seed.version_scheme;
    let (planned, target_age, advisory, advisory_failure) = match &seed.target_selection {
        TargetSelection::ManagerSelected(t) => {
            let planned = match &t.target {
                PlannedTarget::Known(v) => Some(v.clone()),
                PlannedTarget::ManagerResolved => None,
            };
            let failure = match &t.advisory_lookup_failure {
                Some(e) => Some(e.clone()),
                None => None,
            };
            (planned, clone_target_age(&t.target_age), advisory_latest_diagnostics(&t.advisory_release_lookup, now), failure)
        },
        TargetSelection::PlannerSelectable { .. } => {
            return PlanItem::Current { id, installed: seed.installed };
        },
    };
    let mut diagnostics = PlanDiagnostics::new(min_age);
    diagnostics.advisory_latest = advisory;
    diagnostics.advisory_lookup_failure = advisory_failure;
    let Some(selected) = planned else {
        return PlanItem::Blocked {
            id,
            seed,
            reason: BlockReason::MissingReleaseMetadata,
            policy_warnings: Vec::new(),
            diagnostics: diagnostics.with_missing_metadata(MissingMetadataKind::SelectedUpdate),
        };
    };
    match selected_target_is_update(&seed, &selected) {
        Ok(false) => {
            return PlanItem::Current { id, installed: seed.installed };
        },
        Ok(true) => {},
        Err(message) => {
            return PlanItem::ResolverError { id, installed: seed.installed, message };
        },
    }
    let installed_class = classify_release(scheme, &seed.installed.installed_version);
    let target_class = classify_release(scheme, &selected);
    let decision = evaluate_policy(policy, installed_class, target_class);
    let audit = audit_fact_for(&seed.installed.audit_subject, &selected, results);
    let (age, age_allowed) = match &target_age {
        TargetAgeLookupResult::Known(evidence) => {
            let age = age_since(evidence.timestamp(), now);
            (Some(age), age >= min_age)
        },
        _ => (None, false),
    };
    let fact = CandidateEvaluationFact {
        version: selected.clone(),
        age,
        policy_allowed: decision.block_reason().is_none(),
        age_allowed,
        policy_block_reason: decision.block_reason(),
        policy_warning: decision.warning(),
        audit: to_candidate_fact(&audit),
    };
    let ghost fv = fact@;
    assert(diagnostics.candidates@.len() == 0);
    let mut warnings: Vec<PolicyWarning> = Vec::new();
    if let Some(w) = decision.warning() {
        warnings.push(w);
    }
    assert(warnings@ =~= warnings_of(decision.spec_warning()));
    if let PolicyDecision::Blocked { reason, .. } = decision {
        diagnostics.candidates.push(fact);
        assert(evals_view(diagnostics.candidates@) =~= seq![fv]);
        return PlanItem::Blocked {
            id,
            seed,
            reason: BlockReason::VersionPolicy(reason),
            policy_warnings: warnings,
            diagnostics,
        };
    }
    let evidence = match target_age {
        TargetAgeLookupResult::Known(evidence) => evidence,
        TargetAgeLookupResult::MissingMetadata => {
            return PlanItem::Blocked {
                id,
                seed,
                reason: BlockReason::MissingReleaseMetadata,
                policy_warnings: Vec::new(),
                diagnostics: diagnostics.with_missing_metadata(MissingMetadataKind::SelectedUpdate),
            };
        },
        TargetAgeLookupResult::LookupFailed(error) => {
            return PlanItem::Blocked {
                id,
                seed,
                reason: BlockReason::ReleaseLookupFailed,
                policy_warnings: Vec::new(),
                diagnostics: diagnostics.with_lookup_failure(error),
            };
        },
    };
    let evidence_age = age_since(evidence.timestamp(), now);
    diagnostics.selected_target = Some(CandidateAgeFact::new(selected.clone(), evidence_age));
    if evidence_age >= min_age {
        let blocking = match &audit {
            Some(AuditLookupResult::Clean) => None,
            Some(a) => Some(a.clone()),
            None => None,
        };
        if let Some(a) = blocking {
            diagnostics.audit_blocking_target = Some(CandidateAuditFact::from_lookup(&a));
            diagnostics.audit_blocking_candidate = Some(fact.clone());
            diagnostics.candidates.push(fact);
            assert(evals_view(diagnostics.candidates@) =~= seq![fv]);
            return PlanItem::Blocked {
                id,
                seed,
                reason: audit_block_reason_of(&a),
                policy_warnings: warnings,
                diagnostics,
            };
        }
        diagnostics.candidates.push(fact);
        assert(evals_view(diagnostics.candidates@) =~= seq![fv]);
        let candidate = candidate_from_seed(&seed, selected, warnings, diagnostics);
        PlanItem::Update { id, candidate }
    } else {
        diagnostics.candidates.push(fact);
        assert(evals_view(diagnostics.candidates@) =~= seq![fv]);
        let candidate = candidate_from_seed(&seed, selected, warnings, diagnostics);
        PlanItem::Delayed { id, candidate, reason: DelayReason::ReleaseTooFresh }
    }
}

// ---------------------------------------------------------------------------
// One seed
// ---------------------------------------------------------------------------

pub open spec fn context_of(
    seed: UpdateSeed,
    policy: VersionPolicy,
    now: u64,
    min_age: u64,
    audits: Seq<(AuditQuery, AuditLookupResult)>,
) -> EvalContext {
    EvalContext {
        scheme: seed.version_scheme,
        policy,
        installed_class: class_of(seed.version_scheme, seed.installed.installed_version@),
        now,
        min_age,
        subject: seed.installed.audit_subject,
        audits,
    }
}

/// The plan row that evaluating `seed` yields.
pub open spec fn seed_item(
    r: PlanItem,
    id: PlanItemId,
    seed: UpdateSeed,
    policy: VersionPolicy,
    now: u64,
    min_age: u64,
    audits: Seq<(AuditQuery, AuditLookupResult)>,
) -> bool {
    match seed.target_selection {
        TargetSelection::PlannerSelectable { discovered_target, release_lookup } => match release_lookup {
            ReleaseLookupResult::MissingMetadata => blocked_with(
                r,
                id,
                seed,
                BlockReason::MissingReleaseMetadata,
                Seq::empty(),
                DiagnosticsView {
                    missing_metadata: Some(MissingMetadataKind::ReleaseTimeline),
                    ..empty_diagnostics(min_age)
                },
            ),
            ReleaseLookupResult::LookupFailed(e) => blocked_with(
                r,
                id,
                seed,
                BlockReason::ReleaseLookupFailed,
                Seq::empty(),
                DiagnosticsView { lookup_failure: Some(e), ..empty_diagnostics(min_age) },
            ),
            ReleaseLookupResult::Known(t) => if seed.version_scheme == VersionScheme::ManagerNative {
                resolver_error_with(
                    r,
                    id,
                    seed.installed,
                    "manager-native evaluation requires manager-specific planner"@,
                )
            } else {
                timeline_item(
                    r,
                    id,
                    seed,
                    discovered_target,
                    t.versions@,
                    context_of(seed, policy, now, min_age, audits),
                )
            },
        },
        TargetSelection::ManagerSelected(t) => manager_selected_item(
            r,
            id,
            seed,
            t,
            policy,
            now,
            min_age,
            audits,
        ),
    }
}

/// Evaluates one manager-discovered update seed into a plan row, using audit
/// answers looked up beforehand.
pub fn evaluate_seed_with_audit(
    id: PlanItemId,
    seed: UpdateSeed,
    policy: VersionPolicy,
    now: u64,
    min_release_age: u64,
    audit_results: &AuditResults,
) -> (r: PlanItem)
    ensures
        seed_item(r, id, seed, policy, now, min_release_age, audit_results.entries@),
{
    let ghost ctx = context_of(seed, policy, now, min_release_age, audit_results.entries@);
    let planner = match &seed.target_selection {
        TargetSelection::PlannerSelectable { discovered_target, release_lookup } => Some(
            (discovered_target.clone(), release_lookup.clone()),
        ),
        TargetSelection::ManagerSelected(_) => None,
    };
    let Some((discovered, lookup)) = planner else {
        return evaluate_manager_selected_seed(id, seed, policy, now, min_release_age, audit_results);
    };
    match lookup {
        ReleaseLookupResult::MissingMetadata => PlanItem::Blocked {
            id,
            seed,
            reason: BlockReason::MissingReleaseMetadata,
            policy_warnings: Vec::new(),
            diagnostics: PlanDiagnostics::new(min_release_age).with_missing_metadata(
                MissingMetadataKind::ReleaseTimeline,
            ),
        },
        ReleaseLookupResult::LookupFailed(error) => PlanItem::Blocked {
            id,
            seed,
            reason: BlockReason::ReleaseLookupFailed,
            policy_warnings: Vec::new(),
            diagnostics: PlanDiagnostics::new(min_release_age).with_lookup_failure(error),
        },
        ReleaseLookupResult::Known(timeline) => match seed.version_scheme {
            VersionScheme::ManagerNative => PlanItem::ResolverError {
                id,
                installed: seed.installed,
                message: "manager-native evaluation requires manager-specific planner".to_owned(),
            },
            _ => evaluate_timeline_seed(
                id,
                seed,
                &discovered,
                &timeline.versions,
                policy,
                now,
                min_release_age,
                audit_results,
                Ghost(ctx),
            ),
        },
    }
}

/// Evaluates a seed without audit answers.
pub fn evaluate_seed(
    id: PlanItemId,
    seed: UpdateSeed,
    policy: VersionPolicy,
    now: u64,
    min_release_age: u64,
) -> (r: PlanItem)
    ensures
        seed_item(r, id, seed, policy, now, min_release_age, Seq::empty()),
{
    let results = AuditResults::new();
    assert(results.entries@ =~= Seq::<(AuditQuery, AuditLookupResult)>::empty());
    evaluate_seed_with_audit(id, seed, policy, now, min_release_age, &results)
}

// ---------------------------------------------------------------------------
// Audit queries
// ---------------------------------------------------------------------------

/// Queries for the timeline entries newer than `installed`, in timeline order.
pub open spec fn timeline_queries(
    entries: Seq<ReleaseEntry>,
    installed: Seq<char>,
    subject: AuditSubject,
    scheme: VersionScheme,
) -> Seq<AuditQuery>
    decreases entries.len(),
{
    if entries.len() == 0 {
        Seq::empty()
    } else {
        let head = timeline_queries(entries.drop_last(), installed, subject, scheme);
        if scheme_order(scheme, entries.last().version@, installed) == Some(VersionOrder::Greater) {
            head.push(AuditQuery { subject, version: entries.last().version })
        } else {
            head
        }
    }
}

/// The versions that planning may consider for `seed`, as audit queries:
/// every newer timeline entry a picker could offer, or the manager-selected
/// target.
pub open spec fn seed_audit_queries(seed: UpdateSeed) -> Seq<AuditQuery> {
    let installed = seed.installed.installed_version@;
    let scheme = seed.version_scheme;
    match seed.installed.audit_subject {
        None => Seq::empty(),
        Some(subject) => match seed.target_selection {
            TargetSelection::PlannerSelectable { discovered_target, release_lookup } => match release_lookup {
                ReleaseLookupResult::Known(t) => if scheme != VersionScheme::ManagerNative
                    && scheme_parses(scheme, installed) && scheme_parses(scheme, discovered_target@)
                    && target_listed(t.versions@, discovered_target@, scheme) {
                    timeline_queries(t.versions@, installed, subject, scheme)
                } else {
                    Seq::empty()
                },
                _ => Seq::empty(),
            },
            TargetSelection::ManagerSelected(t) => match t.target {
                PlannedTarget::Known(sel) => if selected_is_update(seed, sel) == Ok::<bool, Seq<char>>(true) {
                    seq![AuditQuery { subject, version: sel }]
                } else {
                    Seq::empty()
                },
                PlannedTarget::ManagerResolved => Seq::empty(),
            },
        },
    }
}

fn timeline_audit_queries(
    installed: &VersionText,
    subject: &AuditSubject,
    discovered: &VersionText,
    entries: &Vec<ReleaseEntry>,
    scheme: VersionScheme,
) -> (r: Vec<AuditQuery>)
    ensures
        r@ == (if scheme != VersionScheme::ManagerNative && scheme_parses(scheme, installed@)
            && scheme_parses(scheme, discovered@) && target_listed(entries@, discovered@, scheme) {
            timeline_queries(entries@, installed@, *subject, scheme)
        } else {
            Seq::empty()
        }),
{
    let mut queries: Vec<AuditQuery> = Vec::new();
    match scheme {
        VersionScheme::ManagerNative => {
            return queries;
        },
        _ => {},
    }
    if !version_parses(scheme, installed) || !version_parses(scheme, discovered) {
        return queries;
    }
    let mut found = false;
    let mut i: usize = 0;
    while i < entries.len()
        invariant
            i <= entries@.len(),
            queries@ == timeline_queries(entries@.take(i as int), installed@, *subject, scheme),
            found == exists|j: int|
                0 <= j < i && scheme_order(scheme, #[trigger] entries@[j].version@, discovered@)
                    == Some(VersionOrder::Equal),
        decreases entries@.len() - i,
    {
        let entry = &entries[i];
        let ghost t = entries@.take(i + 1);
        assert(t.drop_last() =~= entries@.take(i as int));
        assert(t.last() == entries@[i as int]);
        match compare_versions(scheme, &entry.version, discovered) {
            Some(VersionOrder::Equal) => {
                found = true;
            },
            _ => {},
        }
        match compare_versions(scheme, &entry.version, installed) {
            Some(VersionOrder::Greater) => {
                queries.push(AuditQuery::new(subject.clone(), entry.version.clone()));
            },
            _ => {},
        }
        i = i + 1;
    }
    assert(entries@.take(entries@.len() as int) =~= entries@);
    if !found {
        return Vec::new();
    }
    queries
}

/// The audit queries of one seed, as `seed_audit_queries` describes them.
pub fn audit_queries_for_seed(seed: &UpdateSeed) -> (r: Vec<AuditQuery>)
    ensures
        r@ == seed_audit_queries(*seed),
{
    let Some(subject) = &seed.installed.audit_subject else {
        return Vec::new();
    };
    match &seed.target_selection {
        TargetSelection::PlannerSelectable { discovered_target, release_lookup } => match release_lookup {
            ReleaseLookupResult::Known(timeline) => timeline_audit_queries(
                &seed.installed.installed_version,
                subject,
                discovered_target,
                &timeline.versions,
                seed.version_scheme,
            ),
            _ => Vec::new(),
        },
        TargetSelection::ManagerSelected(target) => match &target.target {
            PlannedTarget::Known(selected) => match selected_target_is_update(seed, selected) {
                Ok(true) => {
                    let mut r: Vec<AuditQuery> = Vec::new();
                    r.push(AuditQuery::new(subject.clone(), selected.clone()));
                    assert(r@ =~= seq![AuditQuery { subject: *subject, version: *selected }]);
                    r
                },
                _ => Vec::new(),
            },
            PlannedTarget::ManagerResolved => Vec::new(),
        },
    }
}

} // verus!
