//! The apply snapshot: one row per plan item, saying what the confirmed
//! selection does with it.
use vstd::prelude::*;

use crate::domain::{PlanItemId, VersionText};
use crate::plan::{PlanItem, UpdatePlan};
use crate::selection::{PlanSelection, SelectedItem, SelectedUpdate};

verus! {

/// One row of the snapshot.
#[derive(Debug)]
pub struct ApplySnapshotRow {
    pub manager: String,
    pub tool_name: String,
    pub current: String,
    pub target: Option<String>,
    pub action: String,
}

pub struct SnapshotView {
    pub manager: Seq<char>,
    pub tool_name: Seq<char>,
    pub current: Seq<char>,
    pub target: Option<Seq<char>>,
    pub action: Seq<char>,
}

impl View for ApplySnapshotRow {
    type V = SnapshotView;

    open spec fn view(&self) -> SnapshotView {
        SnapshotView {
            manager: self.manager@,
            tool_name: self.tool_name@,
            current: self.current@,
            target: match self.target {
                Some(t) => Some(t@),
                None => None,
            },
            action: self.action@,
        }
    }
}

/// A selected item is an update; an unselected one keeps its plan status,
/// an unselected update counting as skipped.
pub open spec fn action_text(item: PlanItem, selected: Option<SelectedUpdate>) -> Seq<char> {
    if selected is Some {
        "update"@
    } else {
        match item {
            PlanItem::Update { .. } => "skipped"@,
            PlanItem::Skipped { .. } => "skipped"@,
            PlanItem::Current { .. } => "current"@,
            PlanItem::Delayed { .. } => "delayed"@,
            PlanItem::Blocked { .. } => "blocked"@,
            PlanItem::ResolverError { .. } => "error"@,
        }
    }
}

pub fn snapshot_action(item: &PlanItem, selected_update: Option<&SelectedUpdate>) -> (r: &'static str)
    ensures
        r@ == action_text(
            *item,
            match selected_update {
                Some(s) => Some(*s),
                None => None,
            },
        ),
{
    proof {
        reveal_strlit("update");
        reveal_strlit("skipped");
        reveal_strlit("current");
        reveal_strlit("delayed");
        reveal_strlit("blocked");
        reveal_strlit("error");
    }
    if selected_update.is_some() {
        return "update";
    }
    match item {
        PlanItem::Update { .. } => "skipped",
        PlanItem::Skipped { .. } => "skipped",
        PlanItem::Current { .. } => "current",
        PlanItem::Delayed { .. } => "delayed",
        PlanItem::Blocked { .. } => "blocked",
        PlanItem::ResolverError { .. } => "error",
    }
}

/// The tool a row names: the candidate's package, else the installed
/// tool's name.
pub open spec fn tool_name_of(item: PlanItem) -> Seq<char> {
    match item {
        PlanItem::Update { candidate, .. } => candidate.package_name@,
        PlanItem::Delayed { candidate, .. } => candidate.package_name@,
        PlanItem::Current { installed, .. } => installed.tool_name@,
        PlanItem::Skipped { installed, .. } => installed.tool_name@,
        PlanItem::ResolverError { installed, .. } => installed.tool_name@,
        PlanItem::Blocked { seed, .. } => seed.installed.tool_name@,
    }
}

pub fn snapshot_tool_name(item: &PlanItem) -> (r: &str)
    ensures
        r@ == tool_name_of(*item),
{
    match item {
        PlanItem::Update { candidate, .. } => candidate.package_name.as_str(),
        PlanItem::Delayed { candidate, .. } => candidate.package_name.as_str(),
        PlanItem::Current { installed, .. } => installed.tool_name.as_str(),
        PlanItem::Skipped { installed, .. } => installed.tool_name.as_str(),
        PlanItem::ResolverError { installed, .. } => installed.tool_name.as_str(),
        PlanItem::Blocked { seed, .. } => seed.installed.tool_name.as_str(),
    }
}

pub open spec fn current_of(item: PlanItem) -> Seq<char> {
    match item {
        PlanItem::Update { candidate, .. } => candidate.installed_version@,
        PlanItem::Delayed { candidate, .. } => candidate.installed_version@,
        PlanItem::Current { installed, .. } => installed.installed_version@,
        PlanItem::Skipped { installed, .. } => installed.installed_version@,
        PlanItem::ResolverError { installed, .. } => installed.installed_version@,
        PlanItem::Blocked { seed, .. } => seed.installed.installed_version@,
    }
}

pub fn snapshot_current_version(item: &PlanItem) -> (r: &str)
    ensures
        r@ == current_of(*item),
{
    match item {
        PlanItem::Update { candidate, .. } => candidate.installed_version.as_str(),
        PlanItem::Delayed { candidate, .. } => candidate.installed_version.as_str(),
        PlanItem::Current { installed, .. } => installed.installed_version.as_str(),
        PlanItem::Skipped { installed, .. } => installed.installed_version.as_str(),
        PlanItem::ResolverError { installed, .. } => installed.installed_version.as_str(),
        PlanItem::Blocked { seed, .. } => seed.installed.installed_version.as_str(),
    }
}

pub open spec fn opt_text(v: Option<VersionText>) -> Option<Seq<char>> {
    match v {
        Some(t) => Some(t@),
        None => None,
    }
}

/// The target the plan itself gives a row, where it names one.
pub open spec fn plan_target_of(item: PlanItem) -> Option<Seq<char>> {
    match item {
        PlanItem::Update { candidate, .. } => opt_text(candidate.target.spec_version()),
        PlanItem::Delayed { candidate, .. } => opt_text(candidate.target.spec_version()),
        PlanItem::Blocked { seed, .. } => opt_text(seed.target_selection.spec_target_version()),
        _ => None,
    }
}

pub fn snapshot_plan_target(item: &PlanItem) -> (r: Option<&str>)
    ensures
        match r {
            Some(s) => plan_target_of(*item) == Some(s@),
            None => plan_target_of(*item) is None,
        },
{
    match item {
        PlanItem::Update { candidate, .. } => match candidate.target_version() {
            Some(v) => Some(v.as_str()),
            None => None,
        },
        PlanItem::Delayed { candidate, .. } => match candidate.target_version() {
            Some(v) => Some(v.as_str()),
            None => None,
        },
        PlanItem::Blocked { seed, .. } => match seed.target_selection.target_version() {
            Some(v) => Some(v.as_str()),
            None => None,
        },
        _ => None,
    }
}

/// An exact choice names its version, a manager-resolved one none; any
/// other choice, or none, keeps the plan's target.
pub open spec fn target_of(item: PlanItem, selected: Option<SelectedUpdate>) -> Option<Seq<char>> {
    match selected {
        Some(SelectedUpdate::Exact { target_version }) => Some(target_version@),
        Some(SelectedUpdate::ManagerResolved) => None,
        _ => plan_target_of(item),
    }
}

pub fn snapshot_target<'a>(item: &'a PlanItem, selected_update: Option<&'a SelectedUpdate>) -> (r: Option<&'a str>)
    ensures
        match r {
            Some(s) => target_of(
                *item,
                match selected_update {
                    Some(u) => Some(*u),
                    None => None,
                },
            ) == Some(s@),
            None => target_of(
                *item,
                match selected_update {
                    Some(u) => Some(*u),
                    None => None,
                },
            ) is None,
        },
{
    match selected_update {
        Some(SelectedUpdate::Exact { target_version }) => Some(target_version.as_str()),
        Some(SelectedUpdate::ManagerResolved) => None,
        _ => snapshot_plan_target(item),
    }
}

/// The snapshot row of one plan item.
pub open spec fn row_of(manager: Seq<char>, item: PlanItem, selected: Option<SelectedUpdate>) -> SnapshotView {
    SnapshotView {
        manager,
        tool_name: tool_name_of(item),
        current: current_of(item),
        target: target_of(item, selected),
        action: action_text(item, selected),
    }
}

pub fn snapshot_row(plan: &UpdatePlan, item: &PlanItem, selected_update: Option<&SelectedUpdate>) -> (r: ApplySnapshotRow)
    ensures
        r@ == row_of(
            plan.manager_id@,
            *item,
            match selected_update {
                Some(u) => Some(*u),
                None => None,
            },
        ),
{
    let target = match snapshot_target(item, selected_update) {
        Some(t) => Some(t.to_owned()),
        None => None,
    };
    ApplySnapshotRow {
        manager: plan.manager_id.as_str().to_owned(),
        tool_name: snapshot_tool_name(item).to_owned(),
        current: snapshot_current_version(item).to_owned(),
        target,
        action: snapshot_action(item, selected_update).to_owned(),
    }
}

/// The choice the selection makes for the item `id`: that of its first
/// entry for it.
pub open spec fn choice_for(items: Seq<SelectedItem>, id: Seq<char>) -> Option<SelectedUpdate>
    decreases items.len(),
{
    if items.len() == 0 {
        None
    } else {
        match choice_for(items.drop_last(), id) {
            Some(u) => Some(u),
            None => if items.last().plan_item_id@ == id {
                Some(items.last().selected_update)
            } else {
                None
            },
        }
    }
}

proof fn lemma_choice_stop(items: Seq<SelectedItem>, id: Seq<char>, k: int)
    requires
        0 <= k <= items.len(),
        choice_for(items.take(k), id) is Some,
    ensures
        choice_for(items, id) == choice_for(items.take(k), id),
    decreases items.len() - k,
{
    if k < items.len() {
        assert(items.take(k + 1).drop_last() =~= items.take(k));
        lemma_choice_stop(items, id, k + 1);
    } else {
        assert(items.take(k) =~= items);
    }
}

fn find_choice<'a>(selection: &'a PlanSelection, id: &PlanItemId) -> (r: Option<&'a SelectedUpdate>)
    ensures
        match r {
            Some(u) => choice_for(selection.selected_items@, id@) == Some(*u),
            None => choice_for(selection.selected_items@, id@) is None,
        },
{
    let items = &selection.selected_items;
    let mut i: usize = 0;
    while i < items.len()
        invariant
            i <= items@.len(),
            items@ == selection.selected_items@,
            choice_for(items@.take(i as int), id@) is None,
        decreases items@.len() - i,
    {
        assert(items@.take(i + 1).drop_last() =~= items@.take(i as int));
        assert(items@.take(i + 1).last() == items@[i as int]);
        if items[i].plan_item_id.same(id) {
            proof {
                lemma_choice_stop(items@, id@, i + 1);
            }
            return Some(&items[i].selected_update);
        }
        i = i + 1;
    }
    assert(items@.take(items@.len() as int) =~= items@);
    None
}

pub open spec fn snapshot_rows_v(plan: UpdatePlan, selection: PlanSelection) -> Seq<SnapshotView> {
    plan.items@.map_values(
        |item: PlanItem| row_of(plan.manager_id@, item, choice_for(selection.selected_items@, item.spec_id()@)),
    )
}

pub open spec fn rows_view(v: Seq<ApplySnapshotRow>) -> Seq<SnapshotView> {
    v.map_values(|r: ApplySnapshotRow| r@)
}

/// A row per plan item, in plan order, with the choice the selection makes
/// for it.
pub fn snapshot_rows(plan: &UpdatePlan, selection: &PlanSelection) -> (r: Vec<ApplySnapshotRow>)
    ensures
        rows_view(r@) == snapshot_rows_v(*plan, *selection),
{
    let mut rows: Vec<ApplySnapshotRow> = Vec::new();
    let mut i: usize = 0;
    while i < plan.items.len()
        invariant
            i <= plan.items@.len(),
            rows@.len() == i,
            forall|k: int| 0 <= k < i ==> (#[trigger] rows@[k])@ == snapshot_rows_v(*plan, *selection)[k],
        decreases plan.items@.len() - i,
    {
        let item = &plan.items[i];
        let choice = find_choice(selection, item.id());
        rows.push(snapshot_row(plan, item, choice));
        i = i + 1;
    }
    assert(rows_view(rows@) =~= snapshot_rows_v(*plan, *selection));
    rows
}

/// The rows of every confirmed manager, manager after manager.
pub fn snapshot_rows_for_selections(selections: &[(UpdatePlan, PlanSelection)]) -> (r: Vec<ApplySnapshotRow>)
    ensures
        rows_view(r@) == selections@.map_values(|p: (UpdatePlan, PlanSelection)| snapshot_rows_v(p.0, p.1)).flatten(),
{
    let mut rows: Vec<ApplySnapshotRow> = Vec::new();
    let ghost parts = selections@.map_values(|p: (UpdatePlan, PlanSelection)| snapshot_rows_v(p.0, p.1));
    let mut i: usize = 0;
    while i < selections.len()
        invariant
            i <= selections@.len(),
            parts == selections@.map_values(|p: (UpdatePlan, PlanSelection)| snapshot_rows_v(p.0, p.1)),
            rows_view(rows@) == parts.take(i as int).flatten_alt(),
        decreases selections@.len() - i,
    {
        let ghost before = rows_view(rows@);
        let mut more = snapshot_rows(&selections[i].0, &selections[i].1);
        let ghost mv = rows_view(more@);
        rows.append(&mut more);
        assert(rows_view(rows@) =~= before + mv);
        assert(parts.take(i + 1).drop_last() =~= parts.take(i as int));
        assert(parts.take(i + 1).last() == parts[i as int]);
        i = i + 1;
    }
    assert(parts.take(selections@.len() as int) =~= parts);
    proof {
        parts.lemma_flatten_and_flatten_alt_are_equivalent();
    }
    rows
}

} // verus!
