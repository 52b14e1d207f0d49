//! One manager's picker state: its rows, the selection rule the user is
//! editing, and the target chosen for each selected row.
use vstd::prelude::*;

use crate::domain::{PackageName, PlanItemId, VersionText};
use crate::selection::{SelectedItem, SelectedUpdate, UpdateSelectionPolicy};
use crate::selection_view::{
    rows_view, OptionKind, RowView, SelectionRow, SelectionRowStatus, SelectionView, TargetOption,
};
use crate::text::{concat, lemma_seq_less_irreflexive, lemma_seq_less_total, lemma_seq_less_transitive, seq_less, text_less};

verus! {

/// Why a picker action was refused.
#[derive(Debug)]
pub enum SelectionStateError {
    UnknownPlanItem(String),
    TargetUnavailable(String),
    PlanningFailed(String),
}

pub open spec fn selection_error_text(e: SelectionStateError) -> Seq<char> {
    match e {
        SelectionStateError::UnknownPlanItem(id) => "unknown selection row `"@ + id@ + "`"@,
        SelectionStateError::TargetUnavailable(id) => "selection target is unavailable for `"@ + id@ + "`"@,
        SelectionStateError::PlanningFailed(message) => message@,
    }
}

impl SelectionStateError {
    /// What went wrong, in words.
    pub fn message(&self) -> (r: String)
        ensures
            r@ == selection_error_text(*self),
    {
        match self {
            SelectionStateError::UnknownPlanItem(id) => {
                let a = concat("unknown selection row `", id.as_str());
                concat(a.as_str(), "`")
            },
            SelectionStateError::TargetUnavailable(id) => {
                let a = concat("selection target is unavailable for `", id.as_str());
                concat(a.as_str(), "`")
            },
            SelectionStateError::PlanningFailed(message) => message.clone(),
        }
    }
}

/// The target chosen for a row, with versions read as text.
pub enum UpdateChoice {
    Recommended,
    Forced,
    Exact(Seq<char>),
    ManagerResolved,
}

pub open spec fn choice_view(u: SelectedUpdate) -> UpdateChoice {
    match u {
        SelectedUpdate::Recommended => UpdateChoice::Recommended,
        SelectedUpdate::ForcePlannedCandidate => UpdateChoice::Forced,
        SelectedUpdate::Exact { target_version } => UpdateChoice::Exact(target_version@),
        SelectedUpdate::ManagerResolved => UpdateChoice::ManagerResolved,
    }
}

/// Chosen targets, keyed by row id.
pub open spec fn choices_view(v: Seq<(PlanItemId, SelectedUpdate)>) -> Seq<(Seq<char>, UpdateChoice)> {
    v.map_values(|p: (PlanItemId, SelectedUpdate)| (p.0@, choice_view(p.1)))
}

/// Ascending by row id, so each row appears at most once.
pub open spec fn choices_sorted(c: Seq<(Seq<char>, UpdateChoice)>) -> bool {
    forall|i: int, j: int| 0 <= i < j < c.len() ==> seq_less(#[trigger] c[i].0, #[trigger] c[j].0)
}

/// The target chosen for row `id`, if any.
pub open spec fn choice_of(c: Seq<(Seq<char>, UpdateChoice)>, id: Seq<char>) -> Option<UpdateChoice>
    decreases c.len(),
{
    if c.len() == 0 {
        None
    } else if c.last().0 == id {
        Some(c.last().1)
    } else {
        choice_of(c.drop_last(), id)
    }
}

/// `new` chooses `c` for `id` and agrees with `old` on every other row.
pub open spec fn choices_agree(
    new: Seq<(Seq<char>, UpdateChoice)>,
    old: Seq<(Seq<char>, UpdateChoice)>,
    id: Seq<char>,
    c: Option<UpdateChoice>,
) -> bool {
    forall|k: Seq<char>| #[trigger] choice_of(new, k) == if k == id { c } else { choice_of(old, k) }
}

/// The first row with id `id`.
pub open spec fn row_index(rows: Seq<RowView>, id: Seq<char>) -> Option<int>
    decreases rows.len(),
{
    if rows.len() == 0 {
        None
    } else {
        match row_index(rows.drop_last(), id) {
            Some(i) => Some(i),
            None => if rows.last().id == id {
                Some(rows.len() - 1)
            } else {
                None
            },
        }
    }
}

pub struct StateView {
    pub rows: Seq<RowView>,
    pub policy: UpdateSelectionPolicy,
    pub choices: Map<Seq<char>, UpdateChoice>,
}

/// The sorted list of choices read as a map from row id.
pub open spec fn choices_map(c: Seq<(Seq<char>, UpdateChoice)>) -> Map<Seq<char>, UpdateChoice> {
    Map::new(|k: Seq<char>| choice_of(c, k) is Some, |k: Seq<char>| choice_of(c, k)->0)
}

proof fn lemma_choices_map_agree(
    new: Seq<(Seq<char>, UpdateChoice)>,
    old: Seq<(Seq<char>, UpdateChoice)>,
    id: Seq<char>,
    c: Option<UpdateChoice>,
)
    requires
        choices_agree(new, old, id, c),
    ensures
        choices_map(new) == match c {
            Some(x) => choices_map(old).insert(id, x),
            None => choices_map(old).remove(id),
        },
{
    match c {
        Some(x) => {
            assert(choices_map(new) =~= choices_map(old).insert(id, x)) by {
                assert(choice_of(new, id) == Some(x));
            }
        },
        None => {
            assert(choices_map(new) =~= choices_map(old).remove(id)) by {
                assert(choice_of(new, id) is None);
            }
        },
    }
}

/// One manager's picker state.
#[derive(Debug)]
pub struct InteractiveSelectionState {
    rows: Vec<SelectionRow>,
    selection_policy: UpdateSelectionPolicy,
    choices: Vec<(PlanItemId, SelectedUpdate)>,
}

impl View for InteractiveSelectionState {
    type V = StateView;

    closed spec fn view(&self) -> StateView {
        StateView {
            rows: rows_view(self.rows@),
            policy: self.selection_policy,
            choices: choices_map(choices_view(self.choices@)),
        }
    }
}

/// The row offers an option of this kind (and, for an exact one, this
/// version).
pub open spec fn offers(row: RowView, kind: OptionKind, version: Option<Seq<char>>) -> bool {
    exists|i: int|
        0 <= i < row.options.len() && (#[trigger] row.options[i]).kind == kind && (kind
            == OptionKind::AlternateExact ==> row.options[i].version == version)
}

proof fn lemma_choice_of_sorted(c: Seq<(Seq<char>, UpdateChoice)>, i: int)
    requires
        choices_sorted(c),
        0 <= i < c.len(),
    ensures
        choice_of(c, c[i].0) == Some(c[i].1),
    decreases c.len(),
{
    if i < c.len() - 1 {
        lemma_seq_less_irreflexive(c[i].0);
        assert(seq_less(c[i].0, c.last().0));
        assert(c.drop_last()[i] == c[i]);
        lemma_choice_of_sorted(c.drop_last(), i);
    }
}

proof fn lemma_choice_of_absent(c: Seq<(Seq<char>, UpdateChoice)>, id: Seq<char>)
    requires
        forall|i: int| 0 <= i < c.len() ==> (#[trigger] c[i]).0 != id,
    ensures
        choice_of(c, id) is None,
    decreases c.len(),
{
    if c.len() > 0 {
        assert forall|i: int| 0 <= i < c.drop_last().len() implies (#[trigger] c.drop_last()[i]).0 != id by {
            assert(c.drop_last()[i] == c[i]);
        }
        lemma_choice_of_absent(c.drop_last(), id);
    }
}

proof fn lemma_choice_of_between(c: Seq<(Seq<char>, UpdateChoice)>, id: Seq<char>, i: int)
    requires
        0 <= i <= c.len(),
        forall|j: int| 0 <= j < i ==> seq_less(#[trigger] c[j].0, id),
        forall|j: int| i <= j < c.len() ==> seq_less(id, #[trigger] c[j].0),
    ensures
        choice_of(c, id) is None,
{
    lemma_seq_less_irreflexive(id);
    assert forall|j: int| 0 <= j < c.len() implies (#[trigger] c[j]).0 != id by {
        if j < i {
            assert(seq_less(c[j].0, id));
        } else {
            assert(seq_less(id, c[j].0));
        }
    }
    lemma_choice_of_absent(c, id);
}

proof fn lemma_choice_of_found(c: Seq<(Seq<char>, UpdateChoice)>, id: Seq<char>)
    requires
        choices_sorted(c),
    ensures
        choice_of(c, id) matches Some(x) ==> exists|i: int| 0 <= i < c.len() && (#[trigger] c[i]).0 == id && c[i].1 == x,
        choice_of(c, id) is None ==> forall|i: int| 0 <= i < c.len() ==> (#[trigger] c[i]).0 != id,
{
    if exists|i: int| 0 <= i < c.len() && (#[trigger] c[i]).0 == id {
        let i = choose|i: int| 0 <= i < c.len() && (#[trigger] c[i]).0 == id;
        lemma_choice_of_sorted(c, i);
    } else {
        lemma_choice_of_absent(c, id);
    }
}

/// A sorted list of choices holds exactly as many rows as its map.
proof fn lemma_choices_count(c: Seq<(Seq<char>, UpdateChoice)>)
    requires
        choices_sorted(c),
    ensures
        choices_map(c).dom().finite(),
        choices_map(c).dom().len() == c.len(),
{
    let keys = c.map_values(|p: (Seq<char>, UpdateChoice)| p.0);
    assert(keys.no_duplicates()) by {
        assert forall|i: int, j: int| 0 <= i < keys.len() && 0 <= j < keys.len() && i != j implies keys[i] != keys[j] by {
            if i < j {
                assert(seq_less(c[i].0, c[j].0));
                lemma_seq_less_irreflexive(c[i].0);
            } else {
                assert(seq_less(c[j].0, c[i].0));
                lemma_seq_less_irreflexive(c[j].0);
            }
        }
    }
    keys.unique_seq_to_set();
    assert(choices_map(c).dom() =~= keys.to_set()) by {
        assert forall|k: Seq<char>| choices_map(c).dom().contains(k) <==> keys.to_set().contains(k) by {
            lemma_choice_of_found(c, k);
            if keys.to_set().contains(k) {
                assert(keys.contains(k));
                let i = choose|i: int| 0 <= i < keys.len() && keys[i] == k;
                assert(c[i].0 == k);
            }
            if choice_of(c, k) is Some {
                let i = choose|i: int| 0 <= i < c.len() && (#[trigger] c[i]).0 == k && c[i].1 == choice_of(c, k)->0;
                assert(keys[i] == k);
            }
        }
    }
}

impl InteractiveSelectionState {
    #[verifier::type_invariant]
    spec fn sorted(self) -> bool {
        choices_sorted(choices_view(self.choices@))
    }

    /// Starts from the rows that planning preselected, each with its
    /// recommended target.
    pub fn new(view: SelectionView, selection_policy: UpdateSelectionPolicy) -> (r: Self)
        ensures
            r@.rows == rows_view(view.rows@),
            r@.policy == selection_policy,
            forall|k: Seq<char>| #[trigger] r@.choices.dom().contains(k) == exists|i: int|
                0 <= i < view.rows@.len() && view.rows@[i].plan_item_id@ == k
                    && view.rows@[i].initially_selected,
            forall|k: Seq<char>| #[trigger] r@.choices.dom().contains(k) ==> r@.choices[k] == UpdateChoice::Recommended,
    {
        let mut choices: Vec<(PlanItemId, SelectedUpdate)> = Vec::new();
        let mut i: usize = 0;
        while i < view.rows.len()
            invariant
                i <= view.rows@.len(),
                choices_sorted(choices_view(choices@)),
                forall|k: Seq<char>| #[trigger] choice_of(choices_view(choices@), k) == if exists|j: int|
                    0 <= j < i && view.rows@[j].plan_item_id@ == k && view.rows@[j].initially_selected {
                    Some(UpdateChoice::Recommended)
                } else {
                    None
                },
            decreases view.rows@.len() - i,
        {
            let ghost before = choices_view(choices@);
            if view.rows[i].initially_selected {
                let id = view.rows[i].plan_item_id.clone();
                put_choice(&mut choices, id, SelectedUpdate::Recommended);
            }
            proof {
                assert forall|k: Seq<char>| #[trigger] choice_of(choices_view(choices@), k) == if exists|j: int|
                    0 <= j < i + 1 && view.rows@[j].plan_item_id@ == k && view.rows@[j].initially_selected {
                    Some(UpdateChoice::Recommended)
                } else {
                    None
                } by {
                    if exists|j: int| 0 <= j < i && view.rows@[j].plan_item_id@ == k && view.rows@[j].initially_selected {
                        let j = choose|j: int| 0 <= j < i && view.rows@[j].plan_item_id@ == k && view.rows@[j].initially_selected;
                        assert(0 <= j < i + 1 && view.rows@[j].plan_item_id@ == k && view.rows@[j].initially_selected);
                    }
                    if view.rows@[i as int].plan_item_id@ == k && view.rows@[i as int].initially_selected {
                        assert(0 <= i < i + 1 && view.rows@[i as int].plan_item_id@ == k);
                    }
                }
            }
            i = i + 1;
        }
        let r = InteractiveSelectionState { rows: view.rows, selection_policy, choices };
        proof {
            let cv = choices_view(choices@);
            assert forall|k: Seq<char>| #[trigger] r@.choices.dom().contains(k) ==> r@.choices[k] == UpdateChoice::Recommended by {}
        }
        r
    }

    pub fn rows(&self) -> (r: &Vec<SelectionRow>)
        ensures
            rows_view(r@) == self@.rows,
    {
        &self.rows
    }

    pub fn selection_policy(&self) -> (r: &UpdateSelectionPolicy)
        ensures
            *r == self@.policy,
    {
        &self.selection_policy
    }

    /// The target chosen for row `id`, if the row is selected.
    pub fn selected_target(&self, plan_item_id: &PlanItemId) -> (r: Option<&SelectedUpdate>)
        ensures
            match r {
                Some(u) => self@.choices.dom().contains(plan_item_id@) && self@.choices[plan_item_id@] == choice_view(*u),
                None => !self@.choices.dom().contains(plan_item_id@),
            },
    {
        proof {
            use_type_invariant(self);
        }
        match find_choice(&self.choices, plan_item_id) {
            Ok(i) => {
                proof {
                    lemma_choice_of_sorted(choices_view(self.choices@), i as int);
                }
                Some(&self.choices[i].1)
            },
            Err(i) => {
                proof {
                    let cv = choices_view(self.choices@);
                    assert forall|j: int| 0 <= j < i implies seq_less(#[trigger] cv[j].0, plan_item_id@) by {
                        assert(cv[j].0 == self.choices@[j].0@);
                    }
                    assert forall|j: int| i <= j < cv.len() implies seq_less(plan_item_id@, #[trigger] cv[j].0) by {
                        assert(cv[j].0 == self.choices@[j].0@);
                    }
                    lemma_choice_of_between(cv, plan_item_id@, i as int);
                }
                None
            },
        }
    }

    /// How many rows are selected.
    pub fn selected_count(&self) -> (r: usize)
        ensures
            r == self@.choices.dom().len(),
    {
        proof {
            use_type_invariant(self);
            lemma_choices_count(choices_view(self.choices@));
        }
        self.choices.len()
    }

    /// The selected rows in row-id order, each with its chosen target.
    pub fn selected_items(&self) -> (r: Vec<SelectedItem>)
        ensures
            forall|i: int, j: int| 0 <= i < j < r@.len() ==> seq_less(#[trigger] r@[i].plan_item_id@, #[trigger] r@[j].plan_item_id@),
            forall|i: int| 0 <= i < r@.len() ==> self@.choices.dom().contains((#[trigger] r@[i]).plan_item_id@)
                && self@.choices[r@[i].plan_item_id@] == choice_view(r@[i].selected_update),
            forall|k: Seq<char>| #[trigger] self@.choices.dom().contains(k) ==> exists|i: int| 0 <= i < r@.len() && (#[trigger] r@[i]).plan_item_id@ == k,
    {
        let mut r: Vec<SelectedItem> = Vec::new();
        let mut i: usize = 0;
        while i < self.choices.len()
            invariant
                i <= self.choices@.len(),
                r@.len() == i,
                forall|k: int| 0 <= k < i ==> (#[trigger] r@[k]).plan_item_id == self.choices@[k].0
                    && r@[k].selected_update == self.choices@[k].1,
            decreases self.choices@.len() - i,
        {
            r.push(SelectedItem::new(self.choices[i].0.clone(), self.choices[i].1.clone()));
            i = i + 1;
        }
        proof {
            use_type_invariant(self);
            let cv = choices_view(self.choices@);
            assert forall|a: int| 0 <= a < r@.len() implies self@.choices.dom().contains((#[trigger] r@[a]).plan_item_id@)
                && self@.choices[r@[a].plan_item_id@] == choice_view(r@[a].selected_update) by {
                assert(cv[a] == (r@[a].plan_item_id@, choice_view(r@[a].selected_update)));
                lemma_choice_of_sorted(cv, a);
            }
            assert forall|a: int, b: int| 0 <= a < b < r@.len() implies seq_less(#[trigger] r@[a].plan_item_id@, #[trigger] r@[b].plan_item_id@) by {
                assert(cv[a].0 == r@[a].plan_item_id@ && cv[b].0 == r@[b].plan_item_id@);
            }
            assert forall|k: Seq<char>| #[trigger] self@.choices.dom().contains(k) implies exists|a: int| 0 <= a < r@.len() && (#[trigger] r@[a]).plan_item_id@ == k by {
                lemma_choice_of_found(cv, k);
                let a = choose|a: int| 0 <= a < cv.len() && (#[trigger] cv[a]).0 == k && cv[a].1 == choice_of(cv, k)->0;
                assert(r@[a].plan_item_id@ == k);
            }
        }
        r
    }

    fn row(&self, plan_item_id: &PlanItemId) -> (r: Result<usize, SelectionStateError>)
        ensures
            match r {
                Ok(i) => row_index(self@.rows, plan_item_id@) == Some(i as int) && i < self.rows@.len()
                    && self@.rows[i as int] == self.rows@[i as int]@,
                Err(e) => row_index(self@.rows, plan_item_id@) is None && (e matches SelectionStateError::UnknownPlanItem(s) && s@ == plan_item_id@),
            },
    {
        let ghost rv = rows_view(self.rows@);
        let mut i: usize = 0;
        while i < self.rows.len()
            invariant
                i <= self.rows@.len(),
                rv == rows_view(self.rows@),
                row_index(rv.take(i as int), plan_item_id@) is None,
            decreases self.rows@.len() - i,
        {
            assert(rv.take(i + 1).drop_last() =~= rv.take(i as int));
            if self.rows[i].plan_item_id.same(plan_item_id) {
                proof {
                    lemma_row_index_prefix(rv, i as int + 1);
                }
                return Ok(i);
            }
            i = i + 1;
        }
        assert(rv.take(i as int) =~= rv);
        Err(SelectionStateError::UnknownPlanItem(plan_item_id.as_str().to_owned()))
    }

    /// Selects an update row with its recommended target, and records in the
    /// rule that its package is selected.
    pub fn select_recommended(&mut self, plan_item_id: &PlanItemId) -> (r: Result<(), SelectionStateError>)
        ensures
            recommend_result(r, old(self)@, final(self)@, plan_item_id@),
    {
        proof {
            use_type_invariant(&*self);
        }
        let i = match self.row(plan_item_id) {
            Ok(i) => i,
            Err(e) => return Err(e),
        };
        if self.rows[i].status != SelectionRowStatus::Update {
            return Err(SelectionStateError::TargetUnavailable(plan_item_id.as_str().to_owned()));
        }
        let package_name = self.rows[i].package_name.clone();
        let mut choices = take_choices(self);
        let ghost before = choices_view(choices@);
        put_choice(&mut choices, plan_item_id.clone(), SelectedUpdate::Recommended);
        proof {
            lemma_choices_map_agree(choices_view(choices@), before, plan_item_id@, Some(UpdateChoice::Recommended));
        }
        self.choices = choices;
        let mut policy = take_policy(self);
        policy.set_included(package_name, true);
        self.selection_policy = policy;
        Ok(())
    }

    /// Clears a row's selection; for an update row the rule then leaves its
    /// package out.
    pub fn deselect(&mut self, plan_item_id: &PlanItemId) -> (r: Result<(), SelectionStateError>)
        ensures
            deselect_result(r, old(self)@, final(self)@, plan_item_id@),
    {
        proof {
            use_type_invariant(&*self);
        }
        let i = match self.row(plan_item_id) {
            Ok(i) => i,
            Err(e) => return Err(e),
        };
        let package_name = self.rows[i].package_name.clone();
        let is_update = self.rows[i].status == SelectionRowStatus::Update;
        let mut choices = take_choices(self);
        let ghost before = choices_view(choices@);
        remove_choice(&mut choices, plan_item_id);
        proof {
            lemma_choices_map_agree(choices_view(choices@), before, plan_item_id@, None);
        }
        self.choices = choices;
        if is_update {
            let mut policy = take_policy(self);
            policy.set_included(package_name, false);
            self.selection_policy = policy;
        }
        Ok(())
    }

    fn set_choice(&mut self, plan_item_id: &PlanItemId, update: SelectedUpdate)
        ensures
            final(self)@.rows == old(self)@.rows,
            final(self)@.policy == old(self)@.policy,
            final(self)@.choices == old(self)@.choices.insert(plan_item_id@, choice_view(update)),
    {
        let mut choices = take_choices(self);
        let ghost before = choices_view(choices@);
        let ghost c = choice_view(update);
        put_choice(&mut choices, plan_item_id.clone(), update);
        proof {
            lemma_choices_map_agree(choices_view(choices@), before, plan_item_id@, Some(c));
        }
        self.choices = choices;
    }

    /// Selects a delayed or blocked row's forced candidate, when the row
    /// offers one.
    pub fn force_candidate(&mut self, plan_item_id: &PlanItemId) -> (r: Result<(), SelectionStateError>)
        ensures
            self_choice_result(r, old(self)@, final(self)@, plan_item_id@, OptionKind::ForcedCandidate, None, UpdateChoice::Forced),
    {
        let i = match self.row(plan_item_id) {
            Ok(i) => i,
            Err(e) => return Err(e),
        };
        if !row_offers(&self.rows[i], OptionKind::ForcedCandidate, None) {
            return Err(SelectionStateError::TargetUnavailable(plan_item_id.as_str().to_owned()));
        }
        self.set_choice(plan_item_id, SelectedUpdate::ForcePlannedCandidate);
        Ok(())
    }

    /// Selects one of the exact versions the row offers.
    pub fn choose_alternate_exact(&mut self, plan_item_id: &PlanItemId, target_version: VersionText) -> (r: Result<(), SelectionStateError>)
        ensures
            self_choice_result(r, old(self)@, final(self)@, plan_item_id@, OptionKind::AlternateExact, Some(target_version@), UpdateChoice::Exact(target_version@)),
    {
        let i = match self.row(plan_item_id) {
            Ok(i) => i,
            Err(e) => return Err(e),
        };
        if !row_offers(&self.rows[i], OptionKind::AlternateExact, Some(&target_version)) {
            return Err(SelectionStateError::TargetUnavailable(plan_item_id.as_str().to_owned()));
        }
        self.set_choice(plan_item_id, SelectedUpdate::Exact { target_version });
        Ok(())
    }

    /// Leaves the target to the manager's resolver, when the row allows it.
    pub fn choose_manager_resolved(&mut self, plan_item_id: &PlanItemId) -> (r: Result<(), SelectionStateError>)
        ensures
            self_choice_result(r, old(self)@, final(self)@, plan_item_id@, OptionKind::ManagerResolved, None, UpdateChoice::ManagerResolved),
    {
        let i = match self.row(plan_item_id) {
            Ok(i) => i,
            Err(e) => return Err(e),
        };
        if !row_offers(&self.rows[i], OptionKind::ManagerResolved, None) {
            return Err(SelectionStateError::TargetUnavailable(plan_item_id.as_str().to_owned()));
        }
        self.set_choice(plan_item_id, SelectedUpdate::ManagerResolved);
        Ok(())
    }
}

/// The rule now selects `package` (or not), leaving every other package as
/// it was.
pub open spec fn policy_set(after: UpdateSelectionPolicy, before: UpdateSelectionPolicy, package: Seq<char>, included: bool) -> bool {
    &&& after.mode == before.mode
    &&& after.spec_includes(package) == included
    &&& forall|n: Seq<char>| n != package ==> after.spec_includes(n) == before.spec_includes(n)
}

/// The outcome of selecting a row with its recommended target: only update
/// rows can be, and the rule then selects their package.
pub open spec fn recommend_result(r: Result<(), SelectionStateError>, before: StateView, after: StateView, id: Seq<char>) -> bool {
    match row_index(before.rows, id) {
        None => (r matches Err(SelectionStateError::UnknownPlanItem(s)) && s@ == id) && after == before,
        Some(i) => if before.rows[i].status != SelectionRowStatus::Update {
            (r matches Err(SelectionStateError::TargetUnavailable(s)) && s@ == id) && after == before
        } else {
            &&& r is Ok
            &&& after.rows == before.rows
            &&& after.choices == before.choices.insert(id, UpdateChoice::Recommended)
            &&& policy_set(after.policy, before.policy, before.rows[i].package, true)
        },
    }
}

/// The outcome of clearing a row's selection; for an update row the rule
/// then leaves its package out.
pub open spec fn deselect_result(r: Result<(), SelectionStateError>, before: StateView, after: StateView, id: Seq<char>) -> bool {
    match row_index(before.rows, id) {
        None => (r matches Err(SelectionStateError::UnknownPlanItem(s)) && s@ == id) && after == before,
        Some(i) => {
            &&& r is Ok
            &&& after.rows == before.rows
            &&& after.choices == before.choices.remove(id)
            &&& if before.rows[i].status == SelectionRowStatus::Update {
                policy_set(after.policy, before.policy, before.rows[i].package, false)
            } else {
                after.policy == before.policy
            }
        },
    }
}

/// The outcome of choosing an offered target for a row.
pub open spec fn self_choice_result(
    r: Result<(), SelectionStateError>,
    before: StateView,
    after: StateView,
    id: Seq<char>,
    kind: OptionKind,
    version: Option<Seq<char>>,
    choice: UpdateChoice,
) -> bool {
    match row_index(before.rows, id) {
        None => (r matches Err(SelectionStateError::UnknownPlanItem(s)) && s@ == id) && after == before,
        Some(i) => if !offers(before.rows[i], kind, version) {
            (r matches Err(SelectionStateError::TargetUnavailable(s)) && s@ == id) && after == before
        } else {
            &&& r is Ok
            &&& after.rows == before.rows
            &&& after.policy == before.policy
            &&& after.choices == before.choices.insert(id, choice)
        },
    }
}

/// A row with the id exists, so the lookup finds one.
pub proof fn lemma_row_index_some(rows: Seq<RowView>, i: int)
    requires
        0 <= i < rows.len(),
    ensures
        row_index(rows, rows[i].id) is Some,
    decreases rows.len(),
{
    if i < rows.len() - 1 {
        assert(rows.drop_last()[i] == rows[i]);
        lemma_row_index_some(rows.drop_last(), i);
    }
}

proof fn lemma_row_index_prefix(rows: Seq<RowView>, n: int)
    requires
        0 < n <= rows.len(),
        row_index(rows.take(n - 1), rows[n - 1].id) is None,
    ensures
        row_index(rows, rows[n - 1].id) == Some(n - 1),
    decreases rows.len(),
{
    if n < rows.len() {
        assert(rows.drop_last().take(n - 1) =~= rows.take(n - 1));
        assert(rows.drop_last()[n - 1] == rows[n - 1]);
        lemma_row_index_prefix(rows.drop_last(), n);
    } else {
        assert(rows.take(n - 1) =~= rows.drop_last());
    }
}

fn row_offers(row: &SelectionRow, kind: OptionKind, version: Option<&VersionText>) -> (r: bool)
    ensures
        r == offers(row@, kind, match version {
            Some(v) => Some(v@),
            None => None,
        }),
{
    let ghost ver = match version {
        Some(v) => Some(v@),
        None => None,
    };
    let mut i: usize = 0;
    while i < row.target_options.len()
        invariant
            i <= row.target_options@.len(),
            row@.options.len() == row.target_options@.len(),
            ver == match version {
                Some(v) => Some(v@),
                None => None,
            },
            forall|j: int| 0 <= j < i ==> !((#[trigger] row@.options[j]).kind == kind && (kind == OptionKind::AlternateExact ==> row@.options[j].version == ver)),
        decreases row.target_options@.len() - i,
    {
        let option = &row.target_options[i];
        assert(row@.options[i as int] == option@);
        let k = option.kind();
        if k == kind {
            let matches = match kind {
                OptionKind::AlternateExact => match (option.target_version(), version) {
                    (Some(a), Some(b)) => a.same(b),
                    (None, None) => true,
                    _ => false,
                },
                _ => true,
            };
            if matches {
                return true;
            }
        }
        i = i + 1;
    }
    false
}

/// Moves the chosen targets out of the state, leaving it empty meanwhile.
fn take_choices(state: &mut InteractiveSelectionState) -> (r: Vec<(PlanItemId, SelectedUpdate)>)
    ensures
        r@ == old(state).choices@,
        choices_map(choices_view(r@)) == old(state)@.choices,
        choices_sorted(choices_view(r@)),
        final(state)@.rows == old(state)@.rows,
        final(state)@.policy == old(state)@.policy,
{
    proof {
        use_type_invariant(&*state);
    }
    let mut r: Vec<(PlanItemId, SelectedUpdate)> = Vec::new();
    std::mem::swap(&mut r, &mut state.choices);
    assert(choices_view(state.choices@) =~= Seq::<(Seq<char>, UpdateChoice)>::empty());
    r
}

/// Moves the selection rule out of the state, leaving the default meanwhile.
fn take_policy(state: &mut InteractiveSelectionState) -> (r: UpdateSelectionPolicy)
    ensures
        r == old(state)@.policy,
        final(state)@.rows == old(state)@.rows,
        final(state)@.choices == old(state)@.choices,
        final(state).choices@ == old(state).choices@,
{
    proof {
        use_type_invariant(&*state);
    }
    let mut r = UpdateSelectionPolicy::default();
    std::mem::swap(&mut r, &mut state.selection_policy);
    r
}

/// Where `id` is (`Ok`) or would go (`Err`) in the sorted choices.
fn find_choice(choices: &Vec<(PlanItemId, SelectedUpdate)>, id: &PlanItemId) -> (r: Result<usize, usize>)
    requires
        choices_sorted(choices_view(choices@)),
    ensures
        match r {
            Ok(i) => i < choices@.len() && choices@[i as int].0@ == id@,
            Err(i) => i <= choices@.len() && (forall|j: int| 0 <= j < i ==> seq_less(#[trigger] choices@[j].0@, id@))
                && (forall|j: int| i <= j < choices@.len() ==> seq_less(id@, #[trigger] choices@[j].0@)),
        },
{
    let ghost cv = choices_view(choices@);
    let mut i: usize = 0;
    while i < choices.len() && text_less(choices[i].0.as_str(), id.as_str())
        invariant
            i <= choices@.len(),
            cv == choices_view(choices@),
            choices_sorted(cv),
            forall|j: int| 0 <= j < i ==> seq_less(#[trigger] choices@[j].0@, id@),
        decreases choices@.len() - i,
    {
        i = i + 1;
    }
    if i < choices.len() && choices[i].0.same(id) {
        return Ok(i);
    }
    proof {
        if i < choices@.len() {
            lemma_seq_less_total(choices@[i as int].0@, id@);
            assert(seq_less(id@, choices@[i as int].0@));
            assert forall|j: int| i <= j < choices@.len() implies seq_less(id@, #[trigger] choices@[j].0@) by {
                if j > i {
                    assert(seq_less(cv[i as int].0, cv[j].0));
                    lemma_seq_less_transitive(id@, choices@[i as int].0@, choices@[j].0@);
                }
            }
        }
    }
    Err(i)
}

/// Chooses `update` for `id`, keeping the choices sorted.
fn put_choice(choices: &mut Vec<(PlanItemId, SelectedUpdate)>, id: PlanItemId, update: SelectedUpdate)
    requires
        choices_sorted(choices_view(old(choices)@)),
    ensures
        choices_sorted(choices_view(final(choices)@)),
        choices_agree(choices_view(final(choices)@), choices_view(old(choices)@), id@, Some(choice_view(update))),
{
    let ghost before = choices_view(choices@);
    let ghost key = id@;
    let ghost c = choice_view(update);
    match find_choice(choices, &id) {
        Ok(i) => {
            choices.set(i, (id, update));
            let ghost after = choices_view(choices@);
            assert(after =~= before.update(i as int, (key, c)));
            proof {
                assert forall|a: int, b: int| 0 <= a < b < after.len() implies seq_less(#[trigger] after[a].0, #[trigger] after[b].0) by {
                    assert(after[a].0 == before[a].0 && after[b].0 == before[b].0);
                }
                assert forall|k: Seq<char>| #[trigger] choice_of(after, k) == if k == key { Some(c) } else { choice_of(before, k) } by {
                    lemma_choice_of_found(before, k);
                    lemma_choice_of_found(after, k);
                    lemma_choice_of_sorted(after, i as int);
                    if k != key {
                        if choice_of(before, k) is Some {
                            let j = choose|j: int| 0 <= j < before.len() && (#[trigger] before[j]).0 == k && before[j].1 == choice_of(before, k)->0;
                            lemma_choice_of_sorted(after, j);
                        } else if choice_of(after, k) is Some {
                            let j = choose|j: int| 0 <= j < after.len() && (#[trigger] after[j]).0 == k && after[j].1 == choice_of(after, k)->0;
                            assert(before[j].0 == k);
                        }
                    }
                }
            }
        },
        Err(i) => {
            choices.insert(i, (id, update));
            let ghost after = choices_view(choices@);
            assert(after =~= before.insert(i as int, (key, c)));
            proof {
                assert forall|a: int| 0 <= a < after.len() implies #[trigger] after[a] == (if a < i { before[a] } else if a == i { (key, c) } else { before[a - 1] }) by {}
                assert forall|a: int, b: int| 0 <= a < b < after.len() implies seq_less(#[trigger] after[a].0, #[trigger] after[b].0) by {
                    if a < i && b < i {
                    } else if a < i && b == i {
                    } else if a < i {
                        assert(seq_less(before[a].0, before[b - 1].0));
                    } else if a == i {
                        assert(seq_less(key, choices@[b].0@));
                    } else {
                        assert(seq_less(before[a - 1].0, before[b - 1].0));
                    }
                }
                assert forall|k: Seq<char>| #[trigger] choice_of(after, k) == if k == key { Some(c) } else { choice_of(before, k) } by {
                    lemma_choice_of_found(before, k);
                    lemma_choice_of_found(after, k);
                    lemma_choice_of_sorted(after, i as int);
                    if k != key {
                        if choice_of(before, k) is Some {
                            let j = choose|j: int| 0 <= j < before.len() && (#[trigger] before[j]).0 == k && before[j].1 == choice_of(before, k)->0;
                            if j < i {
                                lemma_choice_of_sorted(after, j);
                            } else {
                                lemma_choice_of_sorted(after, j + 1);
                            }
                        } else if choice_of(after, k) is Some {
                            let j = choose|j: int| 0 <= j < after.len() && (#[trigger] after[j]).0 == k && after[j].1 == choice_of(after, k)->0;
                            if j < i {
                                assert(before[j].0 == k);
                            } else if j > i {
                                assert(before[j - 1].0 == k);
                            }
                        }
                    }
                }
            }
        },
    }
}

/// Forgets the choice for `id`.
fn remove_choice(choices: &mut Vec<(PlanItemId, SelectedUpdate)>, id: &PlanItemId)
    requires
        choices_sorted(choices_view(old(choices)@)),
    ensures
        choices_sorted(choices_view(final(choices)@)),
        choices_agree(choices_view(final(choices)@), choices_view(old(choices)@), id@, None),
{
    let ghost before = choices_view(choices@);
    let ghost key = id@;
    match find_choice(choices, id) {
        Ok(i) => {
            choices.remove(i);
            let ghost after = choices_view(choices@);
            assert(after =~= before.remove(i as int));
            proof {
                assert forall|a: int| 0 <= a < after.len() implies #[trigger] after[a] == (if a < i { before[a] } else { before[a + 1] }) by {}
                assert forall|a: int, b: int| 0 <= a < b < after.len() implies seq_less(#[trigger] after[a].0, #[trigger] after[b].0) by {
                    let a2 = if a < i { a } else { a + 1 };
                    let b2 = if b < i { b } else { b + 1 };
                    assert(seq_less(before[a2].0, before[b2].0));
                }
                assert forall|k: Seq<char>| #[trigger] choice_of(after, k) == if k == key { None } else { choice_of(before, k) } by {
                    lemma_choice_of_found(before, k);
                    lemma_choice_of_found(after, k);
                    if k == key {
                        if choice_of(after, k) is Some {
                            let j = choose|j: int| 0 <= j < after.len() && (#[trigger] after[j]).0 == k && after[j].1 == choice_of(after, k)->0;
                            let j2 = if j < i { j } else { j + 1 };
                            lemma_seq_less_irreflexive(k);
                            if j2 < i {
                                assert(seq_less(before[j2].0, before[i as int].0));
                            } else {
                                assert(seq_less(before[i as int].0, before[j2].0));
                            }
                        }
                    } else {
                        if choice_of(before, k) is Some {
                            let j = choose|j: int| 0 <= j < before.len() && (#[trigger] before[j]).0 == k && before[j].1 == choice_of(before, k)->0;
                            if j < i {
                                lemma_choice_of_sorted(after, j);
                            } else {
                                lemma_choice_of_sorted(after, j - 1);
                            }
                        } else if choice_of(after, k) is Some {
                            let j = choose|j: int| 0 <= j < after.len() && (#[trigger] after[j]).0 == k && after[j].1 == choice_of(after, k)->0;
                            let j2 = if j < i { j } else { j + 1 };
                            assert(before[j2].0 == k);
                        }
                    }
                }
            }
        },
        Err(i) => {
            proof {
                assert forall|j: int| 0 <= j < i implies seq_less(#[trigger] before[j].0, key) by {
                    assert(before[j].0 == choices@[j].0@);
                }
                assert forall|j: int| i <= j < before.len() implies seq_less(key, #[trigger] before[j].0) by {
                    assert(before[j].0 == choices@[j].0@);
                }
                lemma_choice_of_between(before, key, i as int);
                assert forall|k: Seq<char>| #[trigger] choice_of(before, k) == if k == key { None } else { choice_of(before, k) } by {}
            }
        },
    }
}

} // verus!
