//! Which plan rows a user selects, and the per-manager default selection rule.
use vstd::prelude::*;

use crate::domain::{domain_error_text, DomainError, ManagerId, PackageName, PlanItemId, VersionText};
use crate::plan::{first_item_with, UpdatePlan};

verus! {

/// The default for packages that the `except` list does not name.
#[derive(Debug, Clone, Copy, PartialEq, Eq, Structural)]
pub enum UpdateSelectionMode {
    Include,
    Skip,
}

/// A selection rule: `except` always means the opposite of `mode`.
#[derive(Debug)]
pub struct UpdateSelectionPolicy {
    pub mode: UpdateSelectionMode,
    pub except: Vec<PackageName>,
}

pub open spec fn names_contain(names: Seq<PackageName>, name: Seq<char>) -> bool {
    exists|i: int| 0 <= i < names.len() && #[trigger] names[i]@ == name
}

impl UpdateSelectionPolicy {
    pub open spec fn spec_includes(self, name: Seq<char>) -> bool {
        (self.mode == UpdateSelectionMode::Include) != names_contain(self.except@, name)
    }

    /// Every package is selected by default.
    pub fn include_all() -> (r: Self)
        ensures
            r.mode == UpdateSelectionMode::Include,
            r.except@.len() == 0,
            forall|n: Seq<char>| r.spec_includes(n),
    {
        UpdateSelectionPolicy { mode: UpdateSelectionMode::Include, except: Vec::new() }
    }

    pub fn default() -> (r: Self)
        ensures
            r.mode == UpdateSelectionMode::Include,
            r.except@.len() == 0,
            forall|n: Seq<char>| r.spec_includes(n),
    {
        Self::include_all()
    }

    pub fn new(mode: UpdateSelectionMode, except: Vec<PackageName>) -> (r: Self)
        ensures
            r.mode == mode,
            r.except == except,
    {
        UpdateSelectionPolicy { mode, except }
    }

    /// Whether the rule selects `name` by default.
    pub fn includes(&self, name: &PackageName) -> (r: bool)
        ensures
            r == self.spec_includes(name@),
    {
        let mut listed = false;
        let mut i: usize = 0;
        while i < self.except.len()
            invariant
                i <= self.except@.len(),
                listed == (exists|j: int| 0 <= j < i && #[trigger] self.except@[j]@ == name@),
            decreases self.except@.len() - i,
        {
            if self.except[i].same(name) {
                listed = true;
            }
            i = i + 1;
        }
        let include_mode = match self.mode {
            UpdateSelectionMode::Include => true,
            UpdateSelectionMode::Skip => false,
        };
        include_mode != listed
    }

    /// Makes the rule select (or not) `name`, leaving every other name as it was.
    pub fn set_included(&mut self, name: PackageName, included: bool)
        ensures
            final(self).mode == old(self).mode,
            final(self).spec_includes(name@) == included,
            forall|n: Seq<char>| n != name@ ==> final(self).spec_includes(n) == old(self).spec_includes(n),
    {
        let include_mode = match self.mode {
            UpdateSelectionMode::Include => true,
            UpdateSelectionMode::Skip => false,
        };
        let ghost before = self.except@;
        let mut kept: Vec<PackageName> = Vec::new();
        let mut i: usize = 0;
        while i < self.except.len()
            invariant
                i <= self.except@.len(),
                self.except@ == before,
                forall|n: Seq<char>|
                    n != name@ ==> (names_contain(kept@, n) <==> names_contain(before.take(i as int), n)),
                !names_contain(kept@, name@),
            decreases self.except@.len() - i,
        {
            let ghost old_kept = kept@;
            let ghost pre = before.take(i as int);
            let ghost post = before.take(i + 1);
            assert(post == pre.push(before[i as int]));
            if !self.except[i].same(&name) {
                kept.push(self.except[i].clone());
                assert(kept@ == old_kept.push(before[i as int]));
            }
            proof {
                assert forall|n: Seq<char>| n != name@ implies (names_contain(kept@, n)
                    <==> names_contain(post, n)) by {
                    lemma_names_push(pre, before[i as int], n);
                    lemma_names_push(old_kept, before[i as int], n);
                }
                if kept@ != old_kept {
                    lemma_names_push(old_kept, before[i as int], name@);
                }
            }
            i = i + 1;
        }
        assert(before.take(before.len() as int) == before);
        assert(forall|n: Seq<char>| n != name@ ==> (names_contain(kept@, n) <==> names_contain(before, n)));
        if included != include_mode {
            let ghost old_kept = kept@;
            kept.push(name);
            proof {
                assert(kept@[old_kept.len() as int]@ == name@);
                assert forall|n: Seq<char>| n != name@ implies (names_contain(kept@, n)
                    <==> names_contain(old_kept, n)) by {
                    lemma_names_push(old_kept, kept@[old_kept.len() as int], n);
                }
            }
        }
        self.except = kept;
    }
}

proof fn lemma_names_push(names: Seq<PackageName>, p: PackageName, n: Seq<char>)
    ensures
        names_contain(names.push(p), n) <==> (names_contain(names, n) || p@ == n),
{
    let s = names.push(p);
    if names_contain(s, n) {
        let k = choose|k: int| 0 <= k < s.len() && #[trigger] s[k]@ == n;
        if k < names.len() {
            assert(names[k]@ == n);
        }
    }
    if names_contain(names, n) {
        let k = choose|k: int| 0 <= k < names.len() && #[trigger] names[k]@ == n;
        assert(s[k]@ == n);
    }
    if p@ == n {
        assert(s[names.len() as int]@ == n);
    }
}

impl Clone for UpdateSelectionPolicy {
    fn clone(&self) -> (r: Self)
        ensures
            r.mode == self.mode,
            r.except@ == self.except@,
    {
        let mut except: Vec<PackageName> = Vec::new();
        let mut i: usize = 0;
        while i < self.except.len()
            invariant
                i <= self.except@.len(),
                except@ == self.except@.take(i as int),
            decreases self.except@.len() - i,
        {
            except.push(self.except[i].clone());
            i = i + 1;
            assert(except@ =~= self.except@.take(i as int));
        }
        assert(self.except@.take(self.except@.len() as int) =~= self.except@);
        UpdateSelectionPolicy { mode: self.mode, except }
    }
}

/// The target a user picked for one row.
#[derive(Debug)]
pub enum SelectedUpdate {
    /// The target that planning recommends.
    Recommended,
    /// The candidate that planning delayed or blocked, chosen explicitly.
    ForcePlannedCandidate,
    /// A specific version from the row's alternatives.
    Exact { target_version: VersionText },
    /// Whatever the manager's resolver picks.
    ManagerResolved,
}

impl Clone for SelectedUpdate {
    fn clone(&self) -> (r: Self)
        ensures
            r == *self,
    {
        match self {
            SelectedUpdate::Recommended => SelectedUpdate::Recommended,
            SelectedUpdate::ForcePlannedCandidate => SelectedUpdate::ForcePlannedCandidate,
            SelectedUpdate::Exact { target_version } => SelectedUpdate::Exact {
                target_version: target_version.clone(),
            },
            SelectedUpdate::ManagerResolved => SelectedUpdate::ManagerResolved,
        }
    }
}

/// One selected plan row.
#[derive(Debug)]
pub struct SelectedItem {
    pub plan_item_id: PlanItemId,
    pub selected_update: SelectedUpdate,
}

impl SelectedItem {
    pub fn new(plan_item_id: PlanItemId, update: SelectedUpdate) -> (r: Self)
        ensures
            r.plan_item_id == plan_item_id,
            r.selected_update == update,
    {
        SelectedItem { plan_item_id, selected_update: update }
    }

    pub fn recommended(plan_item_id: PlanItemId) -> (r: Self)
        ensures
            r.plan_item_id == plan_item_id,
            r.selected_update == SelectedUpdate::Recommended,
    {
        SelectedItem { plan_item_id, selected_update: SelectedUpdate::Recommended }
    }
}

/// The selected rows of one manager's plan.
#[derive(Debug)]
pub struct PlanSelection {
    pub manager_id: ManagerId,
    pub selected_items: Vec<SelectedItem>,
    pub selection_policy: UpdateSelectionPolicy,
}

/// Every selected id is a row of the plan.
pub open spec fn all_in_plan(plan: UpdatePlan, items: Seq<SelectedItem>, n: int) -> bool {
    forall|k: int| 0 <= k < n ==> #[trigger] first_item_with(plan.items@, items[k].plan_item_id@) is Some
}

/// No two of the first `n` selected items name the same row.
pub open spec fn selected_distinct_upto(items: Seq<SelectedItem>, n: int) -> bool {
    forall|i: int, j: int|
        0 <= i < j < n ==> #[trigger] items[i].plan_item_id@ != #[trigger] items[j].plan_item_id@
}

/// `j` is the first selected item that is not a row of the plan or repeats
/// an earlier item.
pub open spec fn is_first_bad_item(plan: UpdatePlan, items: Seq<SelectedItem>, j: int) -> bool {
    &&& 0 <= j < items.len()
    &&& all_in_plan(plan, items, j)
    &&& selected_distinct_upto(items, j)
    &&& !(all_in_plan(plan, items, j + 1) && selected_distinct_upto(items, j + 1))
}

/// The text of the error a selection is refused with: it names the first
/// selected item that is not a row of the plan, or that repeats an earlier
/// one.
pub open spec fn selection_error_text(plan: UpdatePlan, items: Seq<SelectedItem>) -> Seq<char> {
    let j = choose|j: int| is_first_bad_item(plan, items, j);
    let id = items[j].plan_item_id@;
    if first_item_with(plan.items@, id) is None {
        "selected item `"@ + id + "` is not in the plan"@
    } else {
        "selected item `"@ + id + "` is selected twice"@
    }
}

proof fn lemma_first_bad_item(plan: UpdatePlan, items: Seq<SelectedItem>, e: DomainError, j: int)
    requires
        0 <= j < items.len(),
        all_in_plan(plan, items, j),
        selected_distinct_upto(items, j),
        match e {
            DomainError::UnknownSelectedItem(s) => s@ == items[j].plan_item_id@ && first_item_with(
                plan.items@,
                items[j].plan_item_id@,
            ) is None,
            DomainError::DuplicateSelectedItem(s) => s@ == items[j].plan_item_id@ && first_item_with(
                plan.items@,
                items[j].plan_item_id@,
            ) is Some && !selected_distinct_upto(items, j + 1),
            _ => false,
        },
    ensures
        domain_error_text(e) == selection_error_text(plan, items),
{
    assert(is_first_bad_item(plan, items, j));
    let c = choose|c: int| is_first_bad_item(plan, items, c);
    if c < j {
        assert(all_in_plan(plan, items, c + 1));
        assert(selected_distinct_upto(items, c + 1));
    } else if j < c {
        assert(all_in_plan(plan, items, j + 1));
        assert(selected_distinct_upto(items, j + 1));
    }
}

impl PlanSelection {
    /// Checks a selection against its plan: every selected row must exist
    /// and appear once.
    pub fn new(
        plan: &UpdatePlan,
        items: Vec<SelectedItem>,
        selection_policy: UpdateSelectionPolicy,
    ) -> (r: Result<Self, DomainError>)
        ensures
            r is Ok <==> (all_in_plan(*plan, items@, items@.len() as int) && selected_distinct_upto(
                items@,
                items@.len() as int,
            )),
            r matches Ok(s) ==> s.manager_id == plan.manager_id && s.selected_items == items
                && s.selection_policy == selection_policy,
            r matches Err(e) ==> exists|j: int|
                0 <= j < items@.len() && all_in_plan(*plan, items@, j) && selected_distinct_upto(
                    items@,
                    j,
                ) && (match e {
                    DomainError::UnknownSelectedItem(s) => s@ == items@[j].plan_item_id@
                        && first_item_with(plan.items@, items@[j].plan_item_id@) is None,
                    DomainError::DuplicateSelectedItem(s) => s@ == items@[j].plan_item_id@
                        && first_item_with(plan.items@, items@[j].plan_item_id@) is Some
                        && !selected_distinct_upto(items@, j + 1),
                    _ => false,
                }),
            r matches Err(e) ==> domain_error_text(e) == selection_error_text(*plan, items@),
    {
        let mut j: usize = 0;
        while j < items.len()
            invariant
                j <= items@.len(),
                all_in_plan(*plan, items@, j as int),
                selected_distinct_upto(items@, j as int),
            decreases items@.len() - j,
        {
            if !plan.contains_item(&items[j].plan_item_id) {
                let id = items[j].plan_item_id.as_str().to_owned();
                let e = DomainError::UnknownSelectedItem(id);
                proof {
                    lemma_first_bad_item(*plan, items@, e, j as int);
                }
                return Err(e);
            }
            let mut i: usize = 0;
            while i < j
                invariant
                    i <= j < items@.len(),
                    selected_distinct_upto(items@, j as int),
                    all_in_plan(*plan, items@, j as int),
                    first_item_with(plan.items@, items@[j as int].plan_item_id@) is Some,
                    forall|k: int| 0 <= k < i ==> items@[k].plan_item_id@ != items@[j as int].plan_item_id@,
                decreases j - i,
            {
                if items[i].plan_item_id.same(&items[j].plan_item_id) {
                    assert(!selected_distinct_upto(items@, j + 1)) by {
                        assert(items@[i as int].plan_item_id@ == items@[j as int].plan_item_id@);
                    }
                    assert(first_item_with(plan.items@, items@[j as int].plan_item_id@) is Some);
                    assert(all_in_plan(*plan, items@, j as int));
                    let id = items[j].plan_item_id.as_str().to_owned();
                    let e = DomainError::DuplicateSelectedItem(id);
                    proof {
                        lemma_first_bad_item(*plan, items@, e, j as int);
                    }
                    return Err(e);
                }
                i = i + 1;
            }
            j = j + 1;
        }
        Ok(PlanSelection { manager_id: plan.manager_id.clone(), selected_items: items, selection_policy })
    }
}

} // verus!
