//! Whole-manager planning: the plan rows of one manager's inputs, the audit
//! queries those rows need, and the default batch selection.
use vstd::prelude::*;

use crate::domain::{
    AuditLookupResult, AuditQuery, DomainError, InstalledTool, ManagerId, OsvEcosystem, PlanItemId,
    ToolId, VersionPolicy,
};
use crate::evaluate::{
    audit_queries_for_seed, evaluate_seed_with_audit, seed_audit_queries, seed_item, AuditResults,
};
use crate::plan::{
    first_item_with, ids_distinct, ids_distinct_upto, is_first_repeat, ManagerUpdateInput, PlanItem,
    UpdatePlan,
};
use crate::selection::{
    all_in_plan, names_contain, selected_distinct_upto, PlanSelection, SelectedItem, SelectedUpdate,
    UpdateSelectionMode, UpdateSelectionPolicy,
};
use crate::text::{
    concat, is_blank, is_ws, lemma_seq_less_irreflexive, lemma_seq_less_total,
    lemma_seq_less_transitive, seq_less, text_less,
};

verus! {

/// What every row of one planning run shares; times are whole seconds.
#[derive(Debug, Clone, Copy, PartialEq, Eq, Structural)]
pub struct PlanningSettings {
    pub policy: VersionPolicy,
    pub now: u64,
    pub min_release_age: u64,
}

// ---------------------------------------------------------------------------
// Plan rows
// ---------------------------------------------------------------------------

/// The installed tool that a manager input is about.
pub open spec fn input_tool(input: ManagerUpdateInput) -> InstalledTool {
    match input {
        ManagerUpdateInput::Seed(seed) => seed.installed,
        ManagerUpdateInput::Skipped { installed, .. } => installed,
        ManagerUpdateInput::ResolverError { installed, .. } => installed,
    }
}

/// The id of the row for tool `tool` of manager `manager`: `manager:tool`.
pub open spec fn plan_id_text(manager: Seq<char>, tool: Seq<char>) -> Seq<char> {
    manager + ":"@ + tool
}

/// No two of the first `n` inputs name the same tool id.
pub open spec fn tool_ids_distinct_upto(inputs: Seq<ManagerUpdateInput>, n: int) -> bool {
    forall|i: int, j: int|
        0 <= i < j < n ==> #[trigger] input_tool(inputs[i]).tool_id@ != #[trigger] input_tool(
            inputs[j],
        ).tool_id@
}

/// The plan row that one manager input becomes.
pub open spec fn input_item(
    r: PlanItem,
    input: ManagerUpdateInput,
    manager: Seq<char>,
    settings: PlanningSettings,
    audits: Seq<(AuditQuery, AuditLookupResult)>,
) -> bool {
    &&& r.spec_id()@ == plan_id_text(manager, input_tool(input).tool_id@)
    &&& match input {
        ManagerUpdateInput::Seed(seed) => seed_item(
            r,
            r.spec_id(),
            seed,
            settings.policy,
            settings.now,
            settings.min_release_age,
            audits,
        ),
        ManagerUpdateInput::Skipped { installed, reason } => r matches PlanItem::Skipped {
            installed: i,
            reason: rs,
            ..
        } && i == installed && rs == reason,
        ManagerUpdateInput::ResolverError { installed, message } => r matches PlanItem::ResolverError {
            installed: i,
            message: m,
            ..
        } && i == installed && m@ == message@,
    }
}

proof fn lemma_plan_id_injective(m: Seq<char>, a: Seq<char>, b: Seq<char>)
    ensures
        (plan_id_text(m, a) == plan_id_text(m, b)) == (a == b),
{
    reveal_strlit(":");
    if plan_id_text(m, a) == plan_id_text(m, b) {
        let s = plan_id_text(m, a);
        assert(a =~= s.subrange(m.len() as int + 1, s.len() as int));
        assert(b =~= s.subrange(m.len() as int + 1, s.len() as int));
    }
}

proof fn lemma_seed_item_id(
    r: PlanItem,
    id: PlanItemId,
    seed: crate::plan::UpdateSeed,
    settings: PlanningSettings,
    audits: Seq<(AuditQuery, AuditLookupResult)>,
)
    requires
        seed_item(r, id, seed, settings.policy, settings.now, settings.min_release_age, audits),
    ensures
        r.spec_id() == id,
{
}

/// The row id `manager:tool`; never blank, since the manager id is not.
fn plan_item_id(manager_id: &ManagerId, tool_id: &ToolId) -> (r: PlanItemId)
    ensures
        r@ == plan_id_text(manager_id@, tool_id@),
{
    let manager = manager_id.as_str();
    let prefix = concat(manager, ":");
    let text = concat(prefix.as_str(), tool_id.as_str());
    proof {
        let m = manager_id@;
        let i = choose|i: int| 0 <= i < m.len() && !is_ws(#[trigger] m[i]);
        assert(text@[i] == m[i]);
    }
    PlanItemId::new(text.as_str()).unwrap()
}

/// A manager's plan from its inputs and audit answers: one row per input, in
/// input order, with id `manager:tool`; it is refused, naming the first
/// repeated plan id, exactly when two inputs share a tool id.
pub open spec fn plan_outcome(
    r: Result<UpdatePlan, DomainError>,
    manager_id: ManagerId,
    inputs: Seq<ManagerUpdateInput>,
    settings: PlanningSettings,
    audits: Seq<(AuditQuery, AuditLookupResult)>,
) -> bool {
    &&& r is Ok <==> tool_ids_distinct_upto(inputs, inputs.len() as int)
    &&& r matches Ok(p) ==> {
        &&& p.manager_id == manager_id
        &&& p.items@.len() == inputs.len()
        &&& forall|i: int|
            0 <= i < inputs.len() ==> #[trigger] input_item(p.items@[i], inputs[i], manager_id@, settings, audits)
    }
    &&& r matches Err(e) ==> exists|j: int|
        0 <= j < inputs.len() && #[trigger] tool_ids_distinct_upto(inputs, j) && !tool_ids_distinct_upto(
            inputs,
            j + 1,
        ) && (e matches DomainError::DuplicatePlanItemId(s) && s@ == plan_id_text(
            manager_id@,
            input_tool(inputs[j]).tool_id@,
        ))
}

/// Builds a manager's plan from its inputs and audit answers looked up
/// beforehand: one row per input, in input order, with id `manager:tool`.
/// Two inputs for one tool id are refused.
pub fn finalize_plan_from_inputs(
    manager_id: ManagerId,
    inputs: Vec<ManagerUpdateInput>,
    settings: PlanningSettings,
    audit_results: &AuditResults,
) -> (r: Result<UpdatePlan, DomainError>)
    ensures
        plan_outcome(r, manager_id, inputs@, settings, audit_results.entries@),
{
    let ghost orig = inputs@;
    let ghost audits = audit_results.entries@;
    let mut rest = inputs;
    let mut items: Vec<PlanItem> = Vec::new();
    while rest.len() > 0
        invariant
            items@.len() + rest@.len() == orig.len(),
            rest@ == orig.subrange(items@.len() as int, orig.len() as int),
            audits == audit_results.entries@,
            forall|i: int|
                0 <= i < items@.len() ==> #[trigger] input_item(
                    items@[i],
                    orig[i],
                    manager_id@,
                    settings,
                    audits,
                ),
        decreases rest@.len(),
    {
        let ghost k = items@.len() as int;
        let input = rest.remove(0);
        assert(input == orig[k]);
        let item = match input {
            ManagerUpdateInput::Seed(seed) => {
                let id = plan_item_id(&manager_id, &seed.installed.tool_id);
                let ghost gid = id;
                let ghost gseed = seed;
                let r = evaluate_seed_with_audit(
                    id,
                    seed,
                    settings.policy,
                    settings.now,
                    settings.min_release_age,
                    audit_results,
                );
                proof {
                    lemma_seed_item_id(r, gid, gseed, settings, audits);
                }
                r
            },
            ManagerUpdateInput::Skipped { installed, reason } => {
                let id = plan_item_id(&manager_id, &installed.tool_id);
                PlanItem::Skipped { id, installed, reason }
            },
            ManagerUpdateInput::ResolverError { installed, message } => {
                let id = plan_item_id(&manager_id, &installed.tool_id);
                PlanItem::ResolverError { id, installed, message }
            },
        };
        assert(input_item(item, orig[k], manager_id@, settings, audits));
        items.push(item);
        assert(rest@ =~= orig.subrange(items@.len() as int, orig.len() as int));
    }
    proof {
        assert forall|i: int, j: int| 0 <= i < j < orig.len() implies (items@[i].spec_id()@
            == items@[j].spec_id()@) == (input_tool(orig[i]).tool_id@ == input_tool(
            orig[j],
        ).tool_id@) by {
            assert(input_item(items@[i], orig[i], manager_id@, settings, audits));
            assert(input_item(items@[j], orig[j], manager_id@, settings, audits));
            lemma_plan_id_injective(
                manager_id@,
                input_tool(orig[i]).tool_id@,
                input_tool(orig[j]).tool_id@,
            );
        }
        assert forall|n: int| 0 <= n <= orig.len() implies ids_distinct_upto(items@, n)
            == tool_ids_distinct_upto(orig, n) by {
            if ids_distinct_upto(items@, n) {
                assert forall|i: int, j: int| 0 <= i < j < n implies #[trigger] input_tool(
                    orig[i],
                ).tool_id@ != #[trigger] input_tool(orig[j]).tool_id@ by {
                    assert(items@[i].spec_id()@ != items@[j].spec_id()@);
                }
            }
            if tool_ids_distinct_upto(orig, n) {
                assert forall|i: int, j: int| 0 <= i < j < n implies #[trigger] items@[i].spec_id()@
                    != #[trigger] items@[j].spec_id()@ by {
                    assert(input_tool(orig[i]).tool_id@ != input_tool(orig[j]).tool_id@);
                }
            }
        }
    }
    let ghost gitems = items@;
    let r = UpdatePlan::new(manager_id, items);
    proof {
        if r is Err {
            let e = r->Err_0;
            let j = choose|j: int|
                is_first_repeat(gitems, j) && (e matches DomainError::DuplicatePlanItemId(s) && s@
                    == gitems[j].spec_id()@);
            assert(input_item(gitems[j], orig[j], manager_id@, settings, audits));
            assert(tool_ids_distinct_upto(orig, j));
            assert(!tool_ids_distinct_upto(orig, j + 1));
        }
    }
    r
}

/// Builds a manager's plan from its inputs without audit answers.
pub fn update_plan_from_inputs(
    manager_id: ManagerId,
    inputs: Vec<ManagerUpdateInput>,
    settings: PlanningSettings,
) -> (r: Result<UpdatePlan, DomainError>)
    ensures
        plan_outcome(r, manager_id, inputs@, settings, Seq::empty()),
{
    let results = AuditResults::new();
    assert(results.entries@ =~= Seq::<(AuditQuery, AuditLookupResult)>::empty());
    finalize_plan_from_inputs(manager_id, inputs, settings, &results)
}

// ---------------------------------------------------------------------------
// Audit queries
// ---------------------------------------------------------------------------

/// The place of an ecosystem in declaration order.
pub open spec fn ecosystem_rank(e: OsvEcosystem) -> int {
    match e {
        OsvEcosystem::Npm => 0,
        OsvEcosystem::CratesIo => 1,
        OsvEcosystem::Pypi => 2,
        OsvEcosystem::RubyGems => 3,
        OsvEcosystem::Go => 4,
        OsvEcosystem::NuGet => 5,
        OsvEcosystem::Git => 6,
    }
}

/// The order of audit queries: by ecosystem, then package name, then version
/// text.
pub open spec fn query_less(a: AuditQuery, b: AuditQuery) -> bool {
    let ra = ecosystem_rank(a.subject.ecosystem);
    let rb = ecosystem_rank(b.subject.ecosystem);
    ||| ra < rb
    ||| ra == rb && seq_less(a.subject.package_name@, b.subject.package_name@)
    ||| ra == rb && a.subject.package_name@ == b.subject.package_name@ && seq_less(
        a.version@,
        b.version@,
    )
}

/// Strictly ascending, so without two queries for one package version.
pub open spec fn queries_sorted(s: Seq<AuditQuery>) -> bool {
    forall|i: int, j: int| 0 <= i < j < s.len() ==> query_less(#[trigger] s[i], #[trigger] s[j])
}

/// Some query of `s` asks for the same package version as `q`.
pub open spec fn has_query(s: Seq<AuditQuery>, q: AuditQuery) -> bool {
    exists|i: int| 0 <= i < s.len() && #[trigger] s[i].same_as(q)
}

/// The audit queries of every seed among `inputs`, in input order.
pub open spec fn inputs_audit_queries(inputs: Seq<ManagerUpdateInput>) -> Seq<AuditQuery>
    decreases inputs.len(),
{
    if inputs.len() == 0 {
        Seq::empty()
    } else {
        let head = inputs_audit_queries(inputs.drop_last());
        match inputs.last() {
            ManagerUpdateInput::Seed(seed) => head + seed_audit_queries(seed),
            _ => head,
        }
    }
}

proof fn lemma_query_order(a: AuditQuery, b: AuditQuery, c: AuditQuery)
    ensures
        !query_less(a, a),
        query_less(a, b) && query_less(b, c) ==> query_less(a, c),
        a.same_as(b) || query_less(a, b) || query_less(b, a),
        query_less(a, b) ==> !a.same_as(b) && !query_less(b, a),
{
    let (na, nb, nc) = (a.subject.package_name@, b.subject.package_name@, c.subject.package_name@);
    let (va, vb, vc) = (a.version@, b.version@, c.version@);
    lemma_seq_less_irreflexive(na);
    lemma_seq_less_irreflexive(va);
    lemma_seq_less_total(na, nb);
    lemma_seq_less_total(va, vb);
    if seq_less(na, nb) && seq_less(nb, nc) {
        lemma_seq_less_transitive(na, nb, nc);
    }
    if seq_less(va, vb) && seq_less(vb, vc) {
        lemma_seq_less_transitive(va, vb, vc);
    }
    if seq_less(na, nb) && seq_less(nb, na) {
        lemma_seq_less_transitive(na, nb, na);
    }
    if seq_less(va, vb) && seq_less(vb, va) {
        lemma_seq_less_transitive(va, vb, va);
    }
}

proof fn lemma_has_query_concat(a: Seq<AuditQuery>, b: Seq<AuditQuery>, q: AuditQuery)
    ensures
        has_query(a + b, q) == (has_query(a, q) || has_query(b, q)),
{
    if has_query(a + b, q) {
        let i = choose|i: int| 0 <= i < (a + b).len() && #[trigger] (a + b)[i].same_as(q);
        if i < a.len() {
            assert(a[i].same_as(q));
        } else {
            assert(b[i - a.len()].same_as(q));
        }
    }
    if has_query(a, q) {
        let i = choose|i: int| 0 <= i < a.len() && #[trigger] a[i].same_as(q);
        assert((a + b)[i].same_as(q));
    }
    if has_query(b, q) {
        let i = choose|i: int| 0 <= i < b.len() && #[trigger] b[i].same_as(q);
        assert((a + b)[a.len() + i].same_as(q));
    }
}

fn ecosystem_rank_of(e: OsvEcosystem) -> (r: u8)
    ensures
        r as int == ecosystem_rank(e),
{
    match e {
        OsvEcosystem::Npm => 0,
        OsvEcosystem::CratesIo => 1,
        OsvEcosystem::Pypi => 2,
        OsvEcosystem::RubyGems => 3,
        OsvEcosystem::Go => 4,
        OsvEcosystem::NuGet => 5,
        OsvEcosystem::Git => 6,
    }
}

fn query_precedes(a: &AuditQuery, b: &AuditQuery) -> (r: bool)
    ensures
        r == query_less(*a, *b),
{
    let ra = ecosystem_rank_of(a.subject.ecosystem);
    let rb = ecosystem_rank_of(b.subject.ecosystem);
    if ra != rb {
        return ra < rb;
    }
    if !a.subject.package_name.same(&b.subject.package_name) {
        proof {
            lemma_seq_less_irreflexive(a.subject.package_name@);
        }
        return text_less(a.subject.package_name.as_str(), b.subject.package_name.as_str());
    }
    proof {
        lemma_seq_less_irreflexive(a.subject.package_name@);
    }
    text_less(a.version.as_str(), b.version.as_str())
}

/// Adds `q` to a sorted list unless a query for the same package version is
/// already there.
pub(crate) fn insert_query(queries: &mut Vec<AuditQuery>, q: AuditQuery)
    requires
        queries_sorted(old(queries)@),
    ensures
        queries_sorted(final(queries)@),
        forall|x: AuditQuery|
            #[trigger] has_query(final(queries)@, x) == (has_query(old(queries)@, x) || q.same_as(
                x,
            )),
{
    let ghost before = queries@;
    let mut k: usize = 0;
    while k < queries.len() && query_precedes(&queries[k], &q)
        invariant
            queries@ == before,
            queries_sorted(before),
            k <= before.len(),
            forall|i: int| 0 <= i < k ==> query_less(#[trigger] before[i], q),
        decreases before.len() - k,
    {
        k = k + 1;
    }
    if k < queries.len() && queries[k].same(&q) {
        assert forall|x: AuditQuery| #[trigger] has_query(queries@, x) == (has_query(before, x)
            || q.same_as(x)) by {
            if q.same_as(x) {
                assert(before[k as int].same_as(x));
            }
        }
        return;
    }
    proof {
        if k < before.len() {
            lemma_query_order(before[k as int], q, q);
            assert(query_less(q, before[k as int]));
        }
    }
    queries.insert(k, q);
    let ghost after = queries@;
    assert(after =~= before.take(k as int).push(q) + before.skip(k as int));
    assert forall|i: int, j: int| 0 <= i < j < after.len() implies query_less(
        #[trigger] after[i],
        #[trigger] after[j],
    ) by {
        if j < k {
            assert(after[i] == before[i] && after[j] == before[j]);
        } else if j == k {
            assert(after[i] == before[i]);
        } else if i == k {
            assert(after[j] == before[j - 1]);
            if j - 1 > k {
                assert(query_less(before[k as int], before[j - 1]));
                lemma_query_order(q, before[k as int], before[j - 1]);
            }
        } else if i < k {
            assert(after[i] == before[i] && after[j] == before[j - 1]);
        } else {
            assert(after[i] == before[i - 1] && after[j] == before[j - 1]);
        }
    }
    assert forall|x: AuditQuery| #[trigger] has_query(after, x) == (has_query(before, x)
        || q.same_as(x)) by {
        if has_query(after, x) {
            let i = choose|i: int| 0 <= i < after.len() && #[trigger] after[i].same_as(x);
            if i < k {
                assert(before[i].same_as(x));
            } else if i > k {
                assert(before[i - 1].same_as(x));
            }
        }
        if has_query(before, x) {
            let i = choose|i: int| 0 <= i < before.len() && #[trigger] before[i].same_as(x);
            if i < k {
                assert(after[i].same_as(x));
            } else {
                assert(after[i + 1].same_as(x));
            }
        }
        if q.same_as(x) {
            assert(after[k as int].same_as(x));
        }
    }
}

/// The audit queries that planning `inputs` needs, each package version
/// once, sorted by ecosystem, package name and version text.
pub fn derive_audit_queries(inputs: &[ManagerUpdateInput]) -> (r: Vec<AuditQuery>)
    ensures
        queries_sorted(r@),
        forall|x: AuditQuery| #[trigger]
            has_query(r@, x) == has_query(inputs_audit_queries(inputs@), x),
{
    let mut r: Vec<AuditQuery> = Vec::new();
    let mut i: usize = 0;
    while i < inputs.len()
        invariant
            i <= inputs@.len(),
            queries_sorted(r@),
            forall|x: AuditQuery| #[trigger]
                has_query(r@, x) == has_query(inputs_audit_queries(inputs@.take(i as int)), x),
        decreases inputs@.len() - i,
    {
        let ghost prev = inputs_audit_queries(inputs@.take(i as int));
        assert(inputs@.take(i + 1).drop_last() =~= inputs@.take(i as int));
        match &inputs[i] {
            ManagerUpdateInput::Seed(seed) => {
                let qs = audit_queries_for_seed(seed);
                let mut j: usize = 0;
                while j < qs.len()
                    invariant
                        j <= qs@.len(),
                        queries_sorted(r@),
                        forall|x: AuditQuery| #[trigger]
                            has_query(r@, x) == (has_query(prev, x) || has_query(
                                qs@.take(j as int),
                                x,
                            )),
                    decreases qs@.len() - j,
                {
                    let ghost before = r@;
                    insert_query(&mut r, qs[j].clone());
                    assert forall|x: AuditQuery| #[trigger] has_query(r@, x) == (has_query(prev, x)
                        || has_query(qs@.take(j + 1), x)) by {
                        assert(qs@.take(j + 1) =~= qs@.take(j as int) + seq![qs@[j as int]]);
                        lemma_has_query_concat(qs@.take(j as int), seq![qs@[j as int]], x);
                        if qs@[j as int].same_as(x) {
                            assert(seq![qs@[j as int]][0].same_as(x));
                        }
                    }
                    j = j + 1;
                }
                assert(qs@.take(qs@.len() as int) =~= qs@);
                assert forall|x: AuditQuery| #[trigger] has_query(r@, x) == has_query(
                    inputs_audit_queries(inputs@.take(i + 1)),
                    x,
                ) by {
                    lemma_has_query_concat(prev, seed_audit_queries(*seed), x);
                }
            },
            _ => {},
        }
        i = i + 1;
    }
    assert(inputs@.take(inputs@.len() as int) =~= inputs@);
    r
}

// ---------------------------------------------------------------------------
// Default batch selection
// ---------------------------------------------------------------------------

/// The ids of the update rows whose package the policy selects, in plan
/// order.
pub open spec fn default_selection_ids(items: Seq<PlanItem>, policy: UpdateSelectionPolicy) -> Seq<
    PlanItemId,
>
    decreases items.len(),
{
    if items.len() == 0 {
        Seq::empty()
    } else {
        let head = default_selection_ids(items.drop_last(), policy);
        match items.last() {
            PlanItem::Update { id, candidate } => if policy.spec_includes(
                candidate.package_name@,
            ) {
                head.push(id)
            } else {
                head
            },
            _ => head,
        }
    }
}

/// The rule selects the package: in include mode when the except list does
/// not name it, in skip mode when it does.
pub open spec fn rule_selects(policy: UpdateSelectionPolicy, name: Seq<char>) -> bool {
    (policy.mode == UpdateSelectionMode::Include) != names_contain(policy.except@, name)
}

/// An update row whose package the rule selects.
pub open spec fn selected_update_row(item: PlanItem, policy: UpdateSelectionPolicy) -> bool {
    item matches PlanItem::Update { candidate, .. } && rule_selects(policy, candidate.package_name@)
}

proof fn lemma_batch_ids_are_selected_rows(items: Seq<PlanItem>, policy: UpdateSelectionPolicy, k: int)
    requires
        0 <= k < default_selection_ids(items, policy).len(),
    ensures
        exists|i: int|
            0 <= i < items.len() && selected_update_row(#[trigger] items[i], policy) && items[i].spec_id()
                == default_selection_ids(items, policy)[k],
    decreases items.len(),
{
    let init = items.drop_last();
    let head = default_selection_ids(init, policy);
    let n = items.len() - 1;
    if k < head.len() {
        lemma_batch_ids_are_selected_rows(init, policy, k);
        let i = choose|i: int|
            0 <= i < init.len() && selected_update_row(#[trigger] init[i], policy) && init[i].spec_id() == head[k];
        assert(items[i] == init[i]);
        assert(selected_update_row(items[i], policy) && items[i].spec_id() == default_selection_ids(items, policy)[k]);
    } else {
        assert(selected_update_row(items[n], policy) && items[n].spec_id() == default_selection_ids(items, policy)[k]);
    }
}

proof fn lemma_selected_rows_are_batched(items: Seq<PlanItem>, policy: UpdateSelectionPolicy, i: int)
    requires
        0 <= i < items.len(),
        selected_update_row(items[i], policy),
    ensures
        exists|k: int|
            0 <= k < default_selection_ids(items, policy).len() && default_selection_ids(items, policy)[k]
                == items[i].spec_id(),
    decreases items.len(),
{
    let init = items.drop_last();
    let head = default_selection_ids(init, policy);
    let ids = default_selection_ids(items, policy);
    if i < items.len() - 1 {
        assert(init[i] == items[i]);
        lemma_selected_rows_are_batched(init, policy, i);
        let k = choose|k: int| 0 <= k < head.len() && head[k] == init[i].spec_id();
        assert(ids[k] == head[k]);
    } else {
        assert(ids[head.len() as int] == items[i].spec_id());
    }
}

/// `id` is the id of an update row of `items` whose package the rule
/// selects.
pub open spec fn is_selected_update_id(items: Seq<PlanItem>, policy: UpdateSelectionPolicy, id: PlanItemId) -> bool {
    exists|i: int| 0 <= i < items.len() && selected_update_row(#[trigger] items[i], policy) && items[i].spec_id() == id
}

/// The default batch of a plan holds exactly the update rows whose package
/// the selection rule selects: every id in it is such a row's, and every
/// such row's id is in it. A package the rule leaves out is never updated.
pub proof fn law_batch_holds_exactly_selected_updates(items: Seq<PlanItem>, policy: UpdateSelectionPolicy)
    ensures
        forall|k: int|
            0 <= k < default_selection_ids(items, policy).len() ==> is_selected_update_id(
                items,
                policy,
                #[trigger] default_selection_ids(items, policy)[k],
            ),
        forall|i: int|
            0 <= i < items.len() && selected_update_row(#[trigger] items[i], policy) ==> default_selection_ids(
                items,
                policy,
            ).contains(items[i].spec_id()),
{
    assert forall|k: int| 0 <= k < default_selection_ids(items, policy).len() implies is_selected_update_id(
        items,
        policy,
        #[trigger] default_selection_ids(items, policy)[k],
    ) by {
        lemma_batch_ids_are_selected_rows(items, policy, k);
    }
    assert forall|i: int| 0 <= i < items.len() && selected_update_row(#[trigger] items[i], policy) implies default_selection_ids(
        items,
        policy,
    ).contains(items[i].spec_id()) by {
        lemma_selected_rows_are_batched(items, policy, i);
    }
}

/// No id occurs twice in `ids`.
pub open spec fn ids_unique(ids: Seq<PlanItemId>) -> bool {
    forall|i: int, j: int| 0 <= i < j < ids.len() ==> #[trigger] ids[i]@ != #[trigger] ids[j]@
}

proof fn lemma_first_item_found(items: Seq<PlanItem>, i: int)
    requires
        0 <= i < items.len(),
    ensures
        first_item_with(items, items[i].spec_id()@) is Some,
    decreases items.len(),
{
    if items[0].spec_id()@ != items[i].spec_id()@ {
        assert(items.drop_first()[i - 1] == items[i]);
        lemma_first_item_found(items.drop_first(), i - 1);
    }
}

proof fn lemma_selection_ids_in_plan(items: Seq<PlanItem>, policy: UpdateSelectionPolicy, k: int)
    requires
        0 <= k < default_selection_ids(items, policy).len(),
    ensures
        exists|i: int|
            0 <= i < items.len() && #[trigger] items[i].spec_id() == default_selection_ids(
                items,
                policy,
            )[k],
    decreases items.len(),
{
    let head = default_selection_ids(items.drop_last(), policy);
    if k < head.len() {
        lemma_selection_ids_in_plan(items.drop_last(), policy, k);
        let i = choose|i: int|
            0 <= i < items.drop_last().len() && #[trigger] items.drop_last()[i].spec_id() == head[k];
        assert(items[i] == items.drop_last()[i]);
    } else {
        assert(items[items.len() - 1].spec_id() == default_selection_ids(items, policy)[k]);
    }
}

/// Selects, for a batch run, the update rows of `plan` whose package the
/// policy includes, each with its recommended target.
pub fn default_batch_selection(plan: &UpdatePlan, selection_policy: &UpdateSelectionPolicy) -> (r:
    Result<PlanSelection, DomainError>)
    ensures
        r is Ok <==> ids_unique(default_selection_ids(plan.items@, *selection_policy)),
        ids_distinct(plan.items@) ==> r is Ok,
        r matches Ok(s) ==> {
            &&& s.manager_id == plan.manager_id
            &&& s.selection_policy.mode == selection_policy.mode
            &&& s.selection_policy.except@ == selection_policy.except@
            &&& s.selected_items@.len() == default_selection_ids(plan.items@, *selection_policy).len()
            &&& forall|k: int|
                0 <= k < s.selected_items@.len() ==> (#[trigger] s.selected_items@[k]).plan_item_id
                    == default_selection_ids(plan.items@, *selection_policy)[k] && s.selected_items@[k].selected_update
                    == SelectedUpdate::Recommended
        },
        r matches Err(e) ==> e matches DomainError::DuplicateSelectedItem(_),
{
    let ghost ids = default_selection_ids(plan.items@, *selection_policy);
    let mut selected: Vec<SelectedItem> = Vec::new();
    let mut i: usize = 0;
    while i < plan.items.len()
        invariant
            i <= plan.items@.len(),
            selected@.len() == default_selection_ids(plan.items@.take(i as int), *selection_policy).len(),
            forall|k: int|
                0 <= k < selected@.len() ==> (#[trigger] selected@[k]).plan_item_id
                    == default_selection_ids(plan.items@.take(i as int), *selection_policy)[k]
                    && selected@[k].selected_update == SelectedUpdate::Recommended,
        decreases plan.items@.len() - i,
    {
        assert(plan.items@.take(i + 1).drop_last() =~= plan.items@.take(i as int));
        match &plan.items[i] {
            PlanItem::Update { id, candidate } => {
                if selection_policy.includes(&candidate.package_name) {
                    selected.push(SelectedItem::recommended(id.clone()));
                }
            },
            _ => {},
        }
        i = i + 1;
    }
    assert(plan.items@.take(plan.items@.len() as int) =~= plan.items@);
    proof {
        assert forall|k: int| 0 <= k < selected@.len() implies #[trigger] first_item_with(
            plan.items@,
            selected@[k].plan_item_id@,
        ) is Some by {
            lemma_selection_ids_in_plan(plan.items@, *selection_policy, k);
            let j = choose|j: int| 0 <= j < plan.items@.len() && #[trigger] plan.items@[j].spec_id() == ids[k];
            lemma_first_item_found(plan.items@, j);
        }
        assert(all_in_plan(*plan, selected@, selected@.len() as int));
        assert(selected_distinct_upto(selected@, selected@.len() as int) == ids_unique(ids)) by {
            if ids_unique(ids) {
                assert forall|a: int, b: int| 0 <= a < b < selected@.len() implies #[trigger] selected@[a].plan_item_id@
                    != #[trigger] selected@[b].plan_item_id@ by {
                    assert(ids[a]@ != ids[b]@);
                }
            }
            if selected_distinct_upto(selected@, selected@.len() as int) {
                assert forall|a: int, b: int| 0 <= a < b < ids.len() implies #[trigger] ids[a]@
                    != #[trigger] ids[b]@ by {
                    assert(selected@[a].plan_item_id@ != selected@[b].plan_item_id@);
                }
            }
        }
        if ids_distinct(plan.items@) {
            assert forall|a: int, b: int| 0 <= a < b < ids.len() implies #[trigger] ids[a]@
                != #[trigger] ids[b]@ by {
                lemma_selection_ids_ordered(plan.items@, *selection_policy, a, b);
            }
        }
    }
    PlanSelection::new(plan, selected, selection_policy.clone())
}

proof fn lemma_selection_ids_ordered(
    items: Seq<PlanItem>,
    policy: UpdateSelectionPolicy,
    a: int,
    b: int,
)
    requires
        0 <= a < b < default_selection_ids(items, policy).len(),
    ensures
        exists|i: int, j: int|
            0 <= i < j < items.len() && #[trigger] items[i].spec_id() == default_selection_ids(
                items,
                policy,
            )[a] && #[trigger] items[j].spec_id() == default_selection_ids(items, policy)[b],
    decreases items.len(),
{
    let head = default_selection_ids(items.drop_last(), policy);
    let d = items.drop_last();
    if b < head.len() {
        lemma_selection_ids_ordered(d, policy, a, b);
        let (i, j) = choose|i: int, j: int|
            0 <= i < j < d.len() && #[trigger] d[i].spec_id() == head[a] && #[trigger] d[j].spec_id()
                == head[b];
        assert(items[i] == d[i] && items[j] == d[j]);
    } else {
        lemma_selection_ids_in_plan(d, policy, a);
        let i = choose|i: int| 0 <= i < d.len() && #[trigger] d[i].spec_id() == head[a];
        assert(items[i] == d[i]);
        assert(items[items.len() - 1].spec_id() == default_selection_ids(items, policy)[b]);
    }
}

} // verus!
