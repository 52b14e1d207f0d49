//! What planning guarantees of every plan row, whatever the inputs.
use vstd::prelude::*;

use crate::classify::ReleaseClass;
use crate::domain::{
    AuditLookupResult, AuditQuery, DomainError, ManagerId, PlanItemId, VersionPolicy, VersionScheme, VersionText,
};
use crate::evaluate::{
    audit_allows_optional, audit_fact_spec, candidate_of, class_of, context_of, eligible,
    lemma_newest_where, lookup_audit, newest_where, policy_decision, scheme_order,
    selected_is_update, seed_item, timeline_candidates, CandidateView, Eligibility, EvalContext,
    PolicyDecision,
};
use crate::plan::{
    BlockReason, ManagerSelectedTarget, ManagerUpdateInput, PlanItem, PlannedTarget, TargetSelection,
    UpdateCandidate, UpdatePlan, UpdateSeed,
};
use crate::planner::{input_item, input_tool, plan_id_text, plan_outcome, tool_ids_distinct_upto, PlanningSettings};
use crate::evaluate::AuditResults;
use crate::release::{age_at, ReleaseEntry, ReleaseLookupResult, TargetAgeLookupResult};
use crate::selection::{names_contain, UpdateSelectionMode, UpdateSelectionPolicy};
use crate::versions::VersionOrder;

verus! {

/// `v` is a move forward from the installed version: newer in the seed's
/// version order, or, for a manager-chosen target, what the manager's
/// comparison counts as an update.
pub open spec fn target_is_update(seed: UpdateSeed, v: VersionText) -> bool {
    match seed.target_selection {
        TargetSelection::PlannerSelectable { .. } => scheme_order(
            seed.version_scheme,
            v@,
            seed.installed.installed_version@,
        ) == Some(VersionOrder::Greater),
        TargetSelection::ManagerSelected(_) => selected_is_update(seed, v) == Ok::<bool, Seq<char>>(
            true,
        ),
    }
}

/// The version policy lets `v` through for this seed.
pub open spec fn policy_allows(seed: UpdateSeed, policy: VersionPolicy, v: VersionText) -> bool {
    policy_decision(
        policy,
        class_of(seed.version_scheme, seed.installed.installed_version@),
        class_of(seed.version_scheme, v@),
    ).spec_block_reason() is None
}

/// The candidate targets a recorded version whose age planning measured.
pub open spec fn targets_measured_version(c: UpdateCandidate) -> bool {
    c.diagnostics@.selected_target matches Some(f) && c.target == PlannedTarget::Known(f.version)
}

/// The facts that every timeline candidate carries.
pub open spec fn candidate_facts_hold(c: CandidateView, installed: Seq<char>, ctx: EvalContext) -> bool {
    &&& scheme_order(ctx.scheme, c.version@, installed) == Some(VersionOrder::Greater)
    &&& c.block == policy_decision(
        ctx.policy,
        ctx.installed_class,
        class_of(ctx.scheme, c.version@),
    ).spec_block_reason()
    &&& c.age_allowed == (c.age >= ctx.min_age)
    &&& c.audit == audit_fact_spec(ctx.subject, c.version, ctx.audits)
}

proof fn lemma_timeline_candidate_facts(entries: Seq<ReleaseEntry>, installed: Seq<char>, ctx: EvalContext)
    ensures
        forall|i: int|
            0 <= i < timeline_candidates(entries, installed, ctx).len() ==> candidate_facts_hold(
                #[trigger] timeline_candidates(entries, installed, ctx)[i],
                installed,
                ctx,
            ),
    decreases entries.len(),
{
    if entries.len() > 0 {
        lemma_timeline_candidate_facts(entries.drop_last(), installed, ctx);
        let head = timeline_candidates(entries.drop_last(), installed, ctx);
        let cs = timeline_candidates(entries, installed, ctx);
        assert forall|i: int| 0 <= i < cs.len() implies candidate_facts_hold(
            #[trigger] cs[i],
            installed,
            ctx,
        ) by {
            if i < head.len() {
                assert(cs[i] == head[i]);
            } else {
                assert(cs[i] == candidate_of(entries.last(), ctx));
            }
        }
    }
}

/// The newest candidate under a filter is an eligible timeline candidate.
proof fn lemma_chosen_candidate(
    entries: Seq<ReleaseEntry>,
    installed: Seq<char>,
    ctx: EvalContext,
    kind: Eligibility,
)
    ensures
        newest_where(timeline_candidates(entries, installed, ctx), kind, ctx.scheme) matches Some(c)
            ==> eligible(kind, c) && candidate_facts_hold(c, installed, ctx),
{
    let cs = timeline_candidates(entries, installed, ctx);
    lemma_timeline_candidate_facts(entries, installed, ctx);
    lemma_newest_where(cs, kind, ctx.scheme);
    if let Some(c) = newest_where(cs, kind, ctx.scheme) {
        let i = choose|i: int| 0 <= i < cs.len() && cs[i] == c;
        assert(candidate_facts_hold(cs[i], installed, ctx));
    }
}

/// Without audit facts the audit filter keeps what the age filter keeps.
proof fn lemma_unaudited_same_choice(cs: Seq<CandidateView>, scheme: VersionScheme)
    requires
        forall|i: int| 0 <= i < cs.len() ==> (#[trigger] cs[i]).audit is None,
    ensures
        newest_where(cs, Eligibility::AuditAllowed, scheme) == newest_where(
            cs,
            Eligibility::AgeAllowed,
            scheme,
        ),
    decreases cs.len(),
{
    if cs.len() > 0 {
        assert forall|i: int| 0 <= i < cs.drop_last().len() implies (#[trigger] cs.drop_last()[i]).audit is None by {
            assert(cs.drop_last()[i] == cs[i]);
        }
        lemma_unaudited_same_choice(cs.drop_last(), scheme);
        assert(cs.last().audit is None);
    }
}

/// Release age, version policy and audit gates: a row planned as an update
/// moves to a version newer than the installed one, that the version policy
/// allows, that is at least the minimum release age old, and whose audit
/// answer is clean (or that has no audit identity).
pub proof fn law_update_passes_every_gate(
    r: PlanItem,
    id: PlanItemId,
    seed: UpdateSeed,
    policy: VersionPolicy,
    now: u64,
    min_age: u64,
    audits: Seq<(AuditQuery, AuditLookupResult)>,
)
    requires
        seed_item(r, id, seed, policy, now, min_age, audits),
    ensures
        r matches PlanItem::Update { candidate: c, .. } ==> {
            &&& targets_measured_version(c)
            &&& c.diagnostics@.selected_target->0.age >= min_age
            &&& target_is_update(seed, c.diagnostics@.selected_target->0.version)
            &&& policy_allows(seed, policy, c.diagnostics@.selected_target->0.version)
            &&& audit_allows_optional(
                audit_fact_spec(
                    seed.installed.audit_subject,
                    c.diagnostics@.selected_target->0.version,
                    audits,
                ),
            )
        },
{
    match seed.target_selection {
        TargetSelection::PlannerSelectable { discovered_target, release_lookup } => {
            if let ReleaseLookupResult::Known(t) = release_lookup {
                let ctx = context_of(seed, policy, now, min_age, audits);
                lemma_chosen_candidate(
                    t.versions@,
                    seed.installed.installed_version@,
                    ctx,
                    Eligibility::AuditAllowed,
                );
            }
        },
        TargetSelection::ManagerSelected(_) => {},
    }
}

/// A delayed row waits on a version that every other gate already lets
/// through but that is younger than the minimum release age.
pub proof fn law_delayed_target_is_too_young(
    r: PlanItem,
    id: PlanItemId,
    seed: UpdateSeed,
    policy: VersionPolicy,
    now: u64,
    min_age: u64,
    audits: Seq<(AuditQuery, AuditLookupResult)>,
)
    requires
        seed_item(r, id, seed, policy, now, min_age, audits),
    ensures
        r matches PlanItem::Delayed { candidate: c, .. } ==> {
            &&& targets_measured_version(c)
            &&& c.diagnostics@.selected_target->0.age < min_age
            &&& target_is_update(seed, c.diagnostics@.selected_target->0.version)
            &&& policy_allows(seed, policy, c.diagnostics@.selected_target->0.version)
        },
{
    match seed.target_selection {
        TargetSelection::PlannerSelectable { discovered_target, release_lookup } => {
            if let ReleaseLookupResult::Known(t) = release_lookup {
                let ctx = context_of(seed, policy, now, min_age, audits);
                let cs = timeline_candidates(t.versions@, seed.installed.installed_version@, ctx);
                lemma_chosen_candidate(
                    t.versions@,
                    seed.installed.installed_version@,
                    ctx,
                    Eligibility::PolicyAllowed,
                );
                lemma_newest_where(cs, Eligibility::AgeAllowed, ctx.scheme);
                lemma_newest_where(cs, Eligibility::PolicyAllowed, ctx.scheme);
                if let Some(p) = newest_where(cs, Eligibility::PolicyAllowed, ctx.scheme) {
                    if newest_where(cs, Eligibility::AgeAllowed, ctx.scheme) is None {
                        let i = choose|i: int| 0 <= i < cs.len() && cs[i] == p;
                        assert(!eligible(Eligibility::AgeAllowed, cs[i]));
                    }
                }
            }
        },
        TargetSelection::ManagerSelected(_) => {},
    }
}

/// Two plan rows carry the same decision: the same kind of row for the same
/// id, with the same reason, and an update or delay moving to the same
/// target.
pub open spec fn same_decision(a: PlanItem, b: PlanItem) -> bool {
    match (a, b) {
        (PlanItem::Update { id: i, candidate: c }, PlanItem::Update { id: j, candidate: d }) => i@ == j@
            && c.target == d.target,
        (
            PlanItem::Delayed { id: i, candidate: c, reason: x },
            PlanItem::Delayed { id: j, candidate: d, reason: y },
        ) => i@ == j@ && c.target == d.target && x == y,
        (PlanItem::Blocked { id: i, reason: x, .. }, PlanItem::Blocked { id: j, reason: y, .. }) => i@
            == j@ && x == y,
        (PlanItem::Current { id: i, .. }, PlanItem::Current { id: j, .. }) => i@ == j@,
        (PlanItem::Skipped { id: i, reason: x, .. }, PlanItem::Skipped { id: j, reason: y, .. }) => i@
            == j@ && x == y,
        (
            PlanItem::ResolverError { id: i, message: m, .. },
            PlanItem::ResolverError { id: j, message: n, .. },
        ) => i@ == j@ && m@ == n@,
        _ => false,
    }
}

/// Two candidates hold the same values: every field equal, the warnings and
/// diagnostics with the same contents.
pub open spec fn same_candidate(c: UpdateCandidate, d: UpdateCandidate) -> bool {
    &&& c.tool_id == d.tool_id
    &&& c.package_name == d.package_name
    &&& c.installed_version == d.installed_version
    &&& c.target == d.target
    &&& c.version_scheme == d.version_scheme
    &&& c.execution_support == d.execution_support
    &&& c.execution_target_kind == d.execution_target_kind
    &&& c.policy_warnings@ == d.policy_warnings@
    &&& c.diagnostics@ == d.diagnostics@
}

/// Two plan rows hold the same values: the same kind of row, every field
/// equal, and the texts, lists and diagnostics in it with the same contents.
pub open spec fn same_row(a: PlanItem, b: PlanItem) -> bool {
    match (a, b) {
        (PlanItem::Update { id: i, candidate: c }, PlanItem::Update { id: j, candidate: d }) => i@ == j@
            && same_candidate(c, d),
        (
            PlanItem::Delayed { id: i, candidate: c, reason: x },
            PlanItem::Delayed { id: j, candidate: d, reason: y },
        ) => i@ == j@ && same_candidate(c, d) && x == y,
        (
            PlanItem::Blocked { id: i, seed: s, reason: x, policy_warnings: w, diagnostics: g },
            PlanItem::Blocked { id: j, seed: t, reason: y, policy_warnings: v, diagnostics: h },
        ) => i@ == j@ && s == t && x == y && w@ == v@ && g@ == h@,
        (PlanItem::Current { id: i, installed: s }, PlanItem::Current { id: j, installed: t }) => i@ == j@ && s
            == t,
        (
            PlanItem::Skipped { id: i, installed: s, reason: x },
            PlanItem::Skipped { id: j, installed: t, reason: y },
        ) => i@ == j@ && s == t && x == y,
        (
            PlanItem::ResolverError { id: i, installed: s, message: m },
            PlanItem::ResolverError { id: j, installed: t, message: n },
        ) => i@ == j@ && s == t && m@ == n@,
        _ => false,
    }
}

/// The seed with its target chosen by the manager.
pub open spec fn with_manager_target(seed: UpdateSeed, target: ManagerSelectedTarget) -> UpdateSeed {
    UpdateSeed { target_selection: TargetSelection::ManagerSelected(target), ..seed }
}

/// A target the manager chose: the advisory release lookup, and the failure
/// of that lookup, are reported and never decide. Two seeds that differ only
/// there get the same decision, and an update or a delay moves to the
/// manager's own target, never to another version.
pub proof fn law_advisory_lookup_never_decides(
    r1: PlanItem,
    r2: PlanItem,
    id: PlanItemId,
    seed: UpdateSeed,
    t1: ManagerSelectedTarget,
    t2: ManagerSelectedTarget,
    policy: VersionPolicy,
    now: u64,
    min_age: u64,
    audits: Seq<(AuditQuery, AuditLookupResult)>,
)
    requires
        t1.target == t2.target,
        t1.target_age == t2.target_age,
        seed_item(r1, id, with_manager_target(seed, t1), policy, now, min_age, audits),
        seed_item(r2, id, with_manager_target(seed, t2), policy, now, min_age, audits),
    ensures
        same_decision(r1, r2),
        r1 matches PlanItem::Update { candidate: c, .. } ==> c.target == t1.target,
        r1 matches PlanItem::Delayed { candidate: c, .. } ==> c.target == t1.target,
{
}

/// Planning a seed is a function of its inputs: two rows planned for the
/// same seed, settings and audit answers, under ids that read the same,
/// are the same row, with the same decision.
pub proof fn law_seed_decision_is_determined(
    r1: PlanItem,
    r2: PlanItem,
    id1: PlanItemId,
    id2: PlanItemId,
    seed: UpdateSeed,
    policy: VersionPolicy,
    now: u64,
    min_age: u64,
    audits: Seq<(AuditQuery, AuditLookupResult)>,
)
    requires
        id1@ == id2@,
        seed_item(r1, id1, seed, policy, now, min_age, audits),
        seed_item(r2, id2, seed, policy, now, min_age, audits),
    ensures
        same_decision(r1, r2),
        same_row(r1, r2),
{
}

proof fn lemma_first_repeat_unique(inputs: Seq<ManagerUpdateInput>, j1: int, j2: int)
    requires
        0 <= j1 < inputs.len(),
        0 <= j2 < inputs.len(),
        tool_ids_distinct_upto(inputs, j1),
        !tool_ids_distinct_upto(inputs, j1 + 1),
        tool_ids_distinct_upto(inputs, j2),
        !tool_ids_distinct_upto(inputs, j2 + 1),
    ensures
        j1 == j2,
{
    if j1 < j2 {
        assert(tool_ids_distinct_upto(inputs, j1 + 1));
    } else if j2 < j1 {
        assert(tool_ids_distinct_upto(inputs, j2 + 1));
    }
}

/// Planning is a function of its inputs: two plans of one manager for the
/// same inputs, settings and audit answers are refused alike, with the same
/// error, or both made, row for row with the same values.
pub proof fn law_plan_decisions_are_determined(
    r1: Result<UpdatePlan, DomainError>,
    r2: Result<UpdatePlan, DomainError>,
    manager_id: ManagerId,
    inputs: Seq<ManagerUpdateInput>,
    settings: PlanningSettings,
    audits: Seq<(AuditQuery, AuditLookupResult)>,
)
    requires
        plan_outcome(r1, manager_id, inputs, settings, audits),
        plan_outcome(r2, manager_id, inputs, settings, audits),
    ensures
        r1 is Ok <==> r2 is Ok,
        r1 matches Ok(p1) ==> r2 matches Ok(p2) && p1.manager_id == p2.manager_id && p1.items@.len()
            == p2.items@.len() && forall|i: int|
            0 <= i < p1.items@.len() ==> same_decision(#[trigger] p1.items@[i], p2.items@[i]) && same_row(
                p1.items@[i],
                p2.items@[i],
            ),
        r1 matches Err(e1) ==> r2 matches Err(e2) && e1 matches DomainError::DuplicatePlanItemId(s1)
            && e2 matches DomainError::DuplicatePlanItemId(s2) && s1@ == s2@,
{
    match (r1, r2) {
        (Ok(p1), Ok(p2)) => {
            assert forall|i: int| 0 <= i < p1.items@.len() implies same_decision(#[trigger] p1.items@[i], p2.items@[i])
                && same_row(p1.items@[i], p2.items@[i]) by {
                let a = p1.items@[i];
                let b = p2.items@[i];
                assert(input_item(a, inputs[i], manager_id@, settings, audits));
                assert(input_item(b, inputs[i], manager_id@, settings, audits));
                if let ManagerUpdateInput::Seed(seed) = inputs[i] {
                    law_seed_decision_is_determined(
                        a,
                        b,
                        a.spec_id(),
                        b.spec_id(),
                        seed,
                        settings.policy,
                        settings.now,
                        settings.min_release_age,
                        audits,
                    );
                }
            }
        },
        (Err(e1), Err(e2)) => {
            let j1 = choose|j: int|
                0 <= j < inputs.len() && #[trigger] tool_ids_distinct_upto(inputs, j) && !tool_ids_distinct_upto(
                    inputs,
                    j + 1,
                ) && (e1 matches DomainError::DuplicatePlanItemId(s) && s@ == plan_id_text(
                    manager_id@,
                    input_tool(inputs[j]).tool_id@,
                ));
            let j2 = choose|j: int|
                0 <= j < inputs.len() && #[trigger] tool_ids_distinct_upto(inputs, j) && !tool_ids_distinct_upto(
                    inputs,
                    j + 1,
                ) && (e2 matches DomainError::DuplicatePlanItemId(s) && s@ == plan_id_text(
                    manager_id@,
                    input_tool(inputs[j]).tool_id@,
                ));
            lemma_first_repeat_unique(inputs, j1, j2);
        },
        _ => {},
    }
}

/// Planning without audit answers is finalizing with an empty audit table:
/// both refuse the same inputs with the same error, or both make the same
/// plan, row for row with the same values.
pub proof fn law_planning_without_audits_is_finalizing_with_empty_table(
    r1: Result<UpdatePlan, DomainError>,
    r2: Result<UpdatePlan, DomainError>,
    manager_id: ManagerId,
    inputs: Seq<ManagerUpdateInput>,
    settings: PlanningSettings,
    table: AuditResults,
)
    requires
        table.entries@.len() == 0,
        plan_outcome(r1, manager_id, inputs, settings, Seq::empty()),
        plan_outcome(r2, manager_id, inputs, settings, table.entries@),
    ensures
        r1 is Ok <==> r2 is Ok,
        r1 matches Ok(p1) ==> r2 matches Ok(p2) && p1.manager_id == p2.manager_id && p1.items@.len()
            == p2.items@.len() && forall|i: int|
            0 <= i < p1.items@.len() ==> same_decision(#[trigger] p1.items@[i], p2.items@[i]) && same_row(
                p1.items@[i],
                p2.items@[i],
            ),
        r1 matches Err(e1) ==> r2 matches Err(e2) && e1 matches DomainError::DuplicatePlanItemId(s1)
            && e2 matches DomainError::DuplicatePlanItemId(s2) && s1@ == s2@,
{
    assert(table.entries@ =~= Seq::<(AuditQuery, AuditLookupResult)>::empty());
    law_plan_decisions_are_determined(r1, r2, manager_id, inputs, settings, Seq::empty());
}

/// A target the manager chose under its own version scheme: the row is
/// `Current` exactly when the target's text is the installed version's;
/// any other target is treated as an update (and then gated as usual).
pub proof fn law_manager_native_target_is_update_when_different(
    r: PlanItem,
    id: PlanItemId,
    seed: UpdateSeed,
    t: ManagerSelectedTarget,
    v: VersionText,
    policy: VersionPolicy,
    now: u64,
    min_age: u64,
    audits: Seq<(AuditQuery, AuditLookupResult)>,
)
    requires
        seed.version_scheme == VersionScheme::ManagerNative,
        seed.target_selection == TargetSelection::ManagerSelected(t),
        t.target == PlannedTarget::Known(v),
        seed_item(r, id, seed, policy, now, min_age, audits),
    ensures
        r is Current <==> v@ == seed.installed.installed_version@,
        v@ != seed.installed.installed_version@ ==> !(r is ResolverError),
        v@ != seed.installed.installed_version@ && policy == VersionPolicy::Unfiltered
            && seed.installed.audit_subject is None && (t.target_age matches TargetAgeLookupResult::Known(e)
            && age_at(e.spec_timestamp(), now) >= min_age) ==> (r matches PlanItem::Update { candidate: c, .. }
            && c.target == PlannedTarget::Known(v)),
{
}

/// A tool without an audit identity is never blocked by the audit: OSV is
/// consulted only for packages it can name exactly.
pub proof fn law_unaudited_never_audit_blocked(
    r: PlanItem,
    id: PlanItemId,
    seed: UpdateSeed,
    policy: VersionPolicy,
    now: u64,
    min_age: u64,
    audits: Seq<(AuditQuery, AuditLookupResult)>,
)
    requires
        seed_item(r, id, seed, policy, now, min_age, audits),
        seed.installed.audit_subject is None,
    ensures
        !(r matches PlanItem::Blocked { reason: BlockReason::AuditVulnerable, .. }),
        !(r matches PlanItem::Blocked { reason: BlockReason::AuditLookupFailed, .. }),
{
    match seed.target_selection {
        TargetSelection::PlannerSelectable { discovered_target, release_lookup } => {
            if let ReleaseLookupResult::Known(t) = release_lookup {
                let ctx = context_of(seed, policy, now, min_age, audits);
                let cs = timeline_candidates(t.versions@, seed.installed.installed_version@, ctx);
                lemma_timeline_candidate_facts(t.versions@, seed.installed.installed_version@, ctx);
                assert forall|i: int| 0 <= i < cs.len() implies (#[trigger] cs[i]).audit is None by {
                    assert(candidate_facts_hold(cs[i], seed.installed.installed_version@, ctx));
                }
                lemma_unaudited_same_choice(cs, ctx.scheme);
            }
        },
        TargetSelection::ManagerSelected(_) => {},
    }
}

/// `none`: every candidate passes, without a warning.
pub proof fn law_unfiltered_policy_allows_all(installed: ReleaseClass, candidate: ReleaseClass)
    ensures
        policy_decision(VersionPolicy::Unfiltered, installed, candidate) == (PolicyDecision::Allowed {
            warning: None,
        }),
{
}

/// `stable`: a candidate passes exactly when it is a final release.
pub proof fn law_stable_policy_final_only(installed: ReleaseClass, candidate: ReleaseClass)
    ensures
        (policy_decision(VersionPolicy::Stable, installed, candidate) is Allowed) == (candidate
            == ReleaseClass::Final),
{
}

/// `same-track`: a candidate passes exactly when it is final, or when both
/// it and the installed version have a known stability and the candidate is
/// at least as stable.
pub proof fn law_same_track_never_less_stable(installed: ReleaseClass, candidate: ReleaseClass)
    ensures
        (policy_decision(VersionPolicy::SameTrack, installed, candidate) is Allowed) == (candidate
            == ReleaseClass::Final || (installed.rank() is Some && candidate.rank() is Some
            && candidate.rank()->0 >= installed.rank()->0)),
{
}

/// A recorded audit answer is what a later read of the same package version
/// gives back; answers for other versions are untouched.
pub proof fn law_audit_answer_read_back(
    entries: Seq<(AuditQuery, AuditLookupResult)>,
    query: AuditQuery,
    result: AuditLookupResult,
    other: AuditQuery,
)
    ensures
        lookup_audit(entries.push((query, result)), query) == Some(result@),
        !other.same_as(query) ==> lookup_audit(entries.push((query, result)), other)
            == lookup_audit(entries, other),
{
    assert(entries.push((query, result)).drop_last() =~= entries);
}

/// A selection rule's `except` list always means the opposite of its mode.
pub proof fn law_except_inverts_mode(policy: UpdateSelectionPolicy, name: Seq<char>)
    ensures
        names_contain(policy.except@, name) ==> policy.spec_includes(name) == (policy.mode
            == UpdateSelectionMode::Skip),
        !names_contain(policy.except@, name) ==> policy.spec_includes(name) == (policy.mode
            == UpdateSelectionMode::Include),
{
}

} // verus!
