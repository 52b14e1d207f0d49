//! The interactive picker as a state machine: manager tabs, a row cursor,
//! a target picker and a confirmation step, driven by inputs and by
//! planning events. Drawing and the terminal loop live outside.
use vstd::prelude::*;

use crate::domain::{ManagerId, PlanItemId, VersionPolicy};
use crate::plan::PlanIssue;
use crate::selection::{SelectedItem, SelectedUpdate, UpdateSelectionPolicy};
use crate::selection_state::{
    choice_view, deselect_result, lemma_row_index_some, offers, recommend_result, row_index,
    self_choice_result,
    InteractiveSelectionState, SelectionStateError, StateView, UpdateChoice,
};
use crate::selection_view::{
    clone_options, rows_view, OptionKind, OptionView, RowView, SelectionRow, SelectionRowStatus,
    SelectionRowVisibility, SelectionView, TargetOption,
};
use crate::text::concat;

verus! {

// ---------------------------------------------------------------------------
// Public types
// ---------------------------------------------------------------------------

/// The planned state of one manager, as the picker starts from it.
#[derive(Debug)]
pub struct InteractiveSelectionPlan {
    pub view: SelectionView,
    pub issues: Vec<PlanIssue>,
    pub selection_policy: UpdateSelectionPolicy,
    pub version_policy: VersionPolicy,
}

impl InteractiveSelectionPlan {
    pub fn new(
        view: SelectionView,
        issues: Vec<PlanIssue>,
        selection_policy: UpdateSelectionPolicy,
        version_policy: VersionPolicy,
    ) -> (r: Self)
        ensures
            r.view == view,
            r.issues == issues,
            r.selection_policy == selection_policy,
            r.version_policy == version_policy,
    {
        InteractiveSelectionPlan { view, issues, selection_policy, version_policy }
    }
}

/// What the user chose for one manager.
#[derive(Debug)]
pub struct InteractiveManagerSelectionDraft {
    pub manager_id: ManagerId,
    pub selected_items: Vec<SelectedItem>,
    pub selection_policy: UpdateSelectionPolicy,
}

#[derive(Debug)]
pub enum InteractiveSelectionOutcome {
    Confirmed(Vec<InteractiveManagerSelectionDraft>),
    Cancelled,
    Interrupted,
}

/// One user input, already decoded from keys or the mouse.
#[derive(Debug, Clone, Copy, PartialEq, Eq, Structural)]
pub enum SelectionInput {
    Up,
    Down,
    NextTab,
    PreviousTab,
    ToggleCurrent,
    SelectVisible,
    SelectNoneVisible,
    ToggleViewAll,
    OpenTargetPicker,
    PickerUp,
    PickerDown,
    PickerPreviousRow,
    PickerNextRow,
    PickerConfirm,
    PickerCancel,
    RecommendedTarget,
    Confirm,
    Cancel,
    Interrupt,
    Ignore,
}

/// What the event loop does after an input.
#[derive(Debug, Clone, Copy, PartialEq, Eq, Structural)]
pub enum SelectionControl {
    Continue,
    Confirm,
    Cancel,
    Interrupt,
}

/// Progress reported by planning while the picker is open.
#[derive(Debug)]
pub enum InteractiveSelectionPlanningEvent {
    ManagerStarted { manager_id: ManagerId },
    CommandStarted { command: String },
    ManagerReady {
        view: SelectionView,
        issues: Vec<PlanIssue>,
        selection_policy: UpdateSelectionPolicy,
        version_policy: VersionPolicy,
    },
    ManagerError { manager_id: ManagerId, detail: String },
    PlanningFailed { detail: String },
    Finished,
}

#[derive(Debug)]
enum ManagerPlanningStatus {
    Waiting,
    Planning,
    Ready,
    Empty,
    Error { detail: String },
}

#[derive(Debug)]
struct ManagerSelectionState {
    manager_id: ManagerId,
    version_policy: VersionPolicy,
    issues: Vec<PlanIssue>,
    planning_status: ManagerPlanningStatus,
    state: InteractiveSelectionState,
}

/// A row of one manager, by position.
#[derive(Debug, Clone, Copy, PartialEq, Eq, Structural)]
pub struct VisibleRow {
    pub manager_idx: usize,
    pub row_idx: usize,
}

/// A tab: all managers, or one manager by position.
#[derive(Debug, Clone, Copy, PartialEq, Eq, Structural)]
pub enum SelectionTabRef {
    All,
    Manager(usize),
}

/// The open target picker: its row and highlighted option.
#[derive(Debug, Clone, Copy, PartialEq, Eq, Structural)]
pub struct TargetPickerState {
    pub visible_row: VisibleRow,
    pub cursor: usize,
}

/// The picker screen.
#[derive(Debug)]
pub struct InteractiveSelectionScreen {
    managers: Vec<ManagerSelectionState>,
    command_log: Vec<String>,
    command_log_scroll_from_bottom: usize,
    trace_commands: bool,
    planning_finished: bool,
    planning_failure: Option<String>,
    spinner_tick: usize,
    active_tab: usize,
    tab_offset: usize,
    cursor: Option<usize>,
    table_offset: usize,
    show_all: bool,
    target_picker: Option<TargetPickerState>,
    confirmation_dialog: bool,
}

// ---------------------------------------------------------------------------
// The model
// ---------------------------------------------------------------------------

pub enum StatusView {
    Waiting,
    Planning,
    Ready,
    Empty,
    Error(Seq<char>),
}

pub struct ManagerView {
    pub id: Seq<char>,
    pub version_policy: VersionPolicy,
    pub issues: Seq<Seq<char>>,
    pub status: StatusView,
    pub state: StateView,
}

pub struct ScreenView {
    pub managers: Seq<ManagerView>,
    pub command_log: Seq<Seq<char>>,
    pub command_log_scroll: usize,
    pub trace_commands: bool,
    pub planning_finished: bool,
    pub planning_failure: Option<Seq<char>>,
    pub spinner_tick: usize,
    pub active_tab: usize,
    pub tab_offset: usize,
    pub cursor: Option<usize>,
    pub table_offset: usize,
    pub show_all: bool,
    pub picker: Option<TargetPickerState>,
    pub dialog_open: bool,
}

pub open spec fn issue_text(i: PlanIssue) -> Seq<char> {
    match i {
        PlanIssue::DiscoveryFailed { detail } => detail@,
    }
}

spec fn status_view(s: ManagerPlanningStatus) -> StatusView {
    match s {
        ManagerPlanningStatus::Waiting => StatusView::Waiting,
        ManagerPlanningStatus::Planning => StatusView::Planning,
        ManagerPlanningStatus::Ready => StatusView::Ready,
        ManagerPlanningStatus::Empty => StatusView::Empty,
        ManagerPlanningStatus::Error { detail } => StatusView::Error(detail@),
    }
}

spec fn manager_view(m: ManagerSelectionState) -> ManagerView {
    ManagerView {
        id: m.manager_id@,
        version_policy: m.version_policy,
        issues: m.issues@.map_values(|i: PlanIssue| issue_text(i)),
        status: status_view(m.planning_status),
        state: m.state@,
    }
}

impl View for InteractiveSelectionScreen {
    type V = ScreenView;

    closed spec fn view(&self) -> ScreenView {
        ScreenView {
            managers: self.managers@.map_values(|m: ManagerSelectionState| manager_view(m)),
            command_log: self.command_log@.map_values(|s: String| s@),
            command_log_scroll: self.command_log_scroll_from_bottom,
            trace_commands: self.trace_commands,
            planning_finished: self.planning_finished,
            planning_failure: match self.planning_failure {
                Some(s) => Some(s@),
                None => None,
            },
            spinner_tick: self.spinner_tick,
            active_tab: self.active_tab,
            tab_offset: self.tab_offset,
            cursor: self.cursor,
            table_offset: self.table_offset,
            show_all: self.show_all,
            picker: self.target_picker,
            dialog_open: self.confirmation_dialog,
        }
    }
}

/// The manager tabs, in manager order; a manager with nothing to show has
/// none.
pub open spec fn manager_tabs(ms: Seq<ManagerView>) -> Seq<SelectionTabRef>
    decreases ms.len(),
{
    if ms.len() == 0 {
        Seq::empty()
    } else {
        let head = manager_tabs(ms.drop_last());
        if ms.last().status is Empty {
            head
        } else {
            head.push(SelectionTabRef::Manager((ms.len() - 1) as usize))
        }
    }
}

/// The tabs: "all" first, then one per manager with something to show.
pub open spec fn tabs(ms: Seq<ManagerView>) -> Seq<SelectionTabRef> {
    seq![SelectionTabRef::All] + manager_tabs(ms)
}

/// The manager whose tab is active, if it is a manager tab.
pub open spec fn active_manager(v: ScreenView) -> Option<int> {
    let t = tabs(v.managers);
    if v.active_tab < t.len() {
        match t[v.active_tab as int] {
            SelectionTabRef::Manager(i) => Some(i as int),
            SelectionTabRef::All => None,
        }
    } else {
        None
    }
}

/// A row shows when "view all" is on, when planning marked it visible, or
/// when it is selected.
pub open spec fn row_shown(show_all: bool, m: ManagerView, r: RowView) -> bool {
    show_all || r.visibility == SelectionRowVisibility::Visible || m.state.choices.dom().contains(r.id)
}

/// The shown rows among the first `n` rows of manager `mi`.
pub open spec fn manager_visible(show_all: bool, m: ManagerView, mi: int, n: int) -> Seq<VisibleRow>
    decreases n,
{
    if n <= 0 {
        Seq::empty()
    } else {
        let head = manager_visible(show_all, m, mi, n - 1);
        if row_shown(show_all, m, m.state.rows[n - 1]) {
            head.push(VisibleRow { manager_idx: mi as usize, row_idx: (n - 1) as usize })
        } else {
            head
        }
    }
}

/// The shown rows of the first `k` managers that the active tab covers.
pub open spec fn visible_upto(v: ScreenView, k: int) -> Seq<VisibleRow>
    decreases k,
{
    if k <= 0 {
        Seq::empty()
    } else {
        let head = visible_upto(v, k - 1);
        let m = v.managers[k - 1];
        if active_manager(v) matches Some(a) && a != k - 1 {
            head
        } else {
            head + manager_visible(v.show_all, m, k - 1, m.state.rows.len() as int)
        }
    }
}

/// The rows the table shows, in manager and row order.
pub open spec fn visible(v: ScreenView) -> Seq<VisibleRow> {
    visible_upto(v, v.managers.len() as int)
}

/// A row position that exists.
pub open spec fn row_exists(v: ScreenView, r: VisibleRow) -> bool {
    r.manager_idx < v.managers.len() && r.row_idx < v.managers[r.manager_idx as int].state.rows.len()
}

pub open spec fn row_at(v: ScreenView, r: VisibleRow) -> RowView {
    v.managers[r.manager_idx as int].state.rows[r.row_idx as int]
}

/// The screen's invariant: the active tab exists, and an open target picker
/// is on an existing row and option.
pub open spec fn screen_wf(v: ScreenView) -> bool {
    &&& v.active_tab < tabs(v.managers).len()
    &&& v.picker matches Some(p) ==> row_exists(v, p.visible_row) && p.cursor < row_at(v, p.visible_row).options.len()
}

pub proof fn lemma_manager_visible_valid(show_all: bool, m: ManagerView, mi: int, n: int)
    requires
        0 <= n <= m.state.rows.len(),
        0 <= mi <= usize::MAX,
    ensures
        manager_visible(show_all, m, mi, n).len() <= n,
        forall|i: int| 0 <= i < manager_visible(show_all, m, mi, n).len() ==> {
            let r = #[trigger] manager_visible(show_all, m, mi, n)[i];
            r.manager_idx == mi && r.row_idx < n
        },
    decreases n,
{
    if n > 0 {
        lemma_manager_visible_valid(show_all, m, mi, n - 1);
    }
}

pub proof fn lemma_visible_valid(v: ScreenView, k: int)
    requires
        0 <= k <= v.managers.len(),
        v.managers.len() <= usize::MAX,
    ensures
        forall|i: int| 0 <= i < visible_upto(v, k).len() ==> {
            let r = #[trigger] visible_upto(v, k)[i];
            r.manager_idx < k && row_exists(v, r)
        },
    decreases k,
{
    if k > 0 {
        lemma_visible_valid(v, k - 1);
        let m = v.managers[k - 1];
        lemma_manager_visible_valid(v.show_all, m, k - 1, m.state.rows.len() as int);
        let head = visible_upto(v, k - 1);
        let all = visible_upto(v, k);
        if !(active_manager(v) matches Some(a) && a != k - 1) {
            let extra = manager_visible(v.show_all, m, k - 1, m.state.rows.len() as int);
            assert forall|i: int| 0 <= i < all.len() implies {
                let r = #[trigger] all[i];
                r.manager_idx < k && row_exists(v, r)
            } by {
                if i < head.len() {
                    assert(all[i] == head[i]);
                } else {
                    assert(all[i] == extra[i - head.len()]);
                }
            }
        }
    }
}

pub proof fn lemma_manager_tabs_valid(ms: Seq<ManagerView>)
    requires
        ms.len() <= usize::MAX,
    ensures
        manager_tabs(ms).len() <= ms.len(),
        forall|i: int| 0 <= i < manager_tabs(ms).len() ==> (#[trigger] manager_tabs(ms)[i] matches SelectionTabRef::Manager(m) && m < ms.len()),
    decreases ms.len(),
{
    if ms.len() > 0 {
        lemma_manager_tabs_valid(ms.drop_last());
    }
}

pub open spec fn clamp_tab(t: usize, count: int) -> usize {
    if count <= 0 {
        0
    } else if t >= count {
        (count - 1) as usize
    } else {
        t
    }
}

pub open spec fn clamp_cursor_to(c: Option<usize>, count: int) -> Option<usize> {
    if count <= 0 {
        None
    } else {
        match c {
            Some(x) => if x >= count {
                Some((count - 1) as usize)
            } else {
                Some(x)
            },
            None => None,
        }
    }
}

/// The screen after `clamp_cursor`: the active tab and then the cursor
/// pulled back into range.
pub open spec fn clamped(v: ScreenView) -> ScreenView {
    let v1 = ScreenView { active_tab: clamp_tab(v.active_tab, tabs(v.managers).len() as int), ..v };
    ScreenView { cursor: clamp_cursor_to(v1.cursor, visible(v1).len() as int), ..v1 }
}

/// Everything but the cursor, tabs, offsets, view mode and dialogs is as
/// before.
pub open spec fn same_content(a: ScreenView, b: ScreenView) -> bool {
    &&& a.managers == b.managers
    &&& a.command_log == b.command_log
    &&& a.command_log_scroll == b.command_log_scroll
    &&& a.trace_commands == b.trace_commands
    &&& a.planning_finished == b.planning_finished
    &&& a.planning_failure == b.planning_failure
    &&& a.spinner_tick == b.spinner_tick
}

pub open spec fn cursor_up(c: Option<usize>, n: int) -> Option<usize> {
    match c {
        None => Some(0),
        Some(x) => if x == 0 {
            Some((n - 1) as usize)
        } else {
            Some((x - 1) as usize)
        },
    }
}

pub open spec fn cursor_down(c: Option<usize>, n: int) -> Option<usize> {
    match c {
        None => Some(0),
        Some(x) => if x + 1 >= n {
            Some(0)
        } else {
            Some((x + 1) as usize)
        },
    }
}

/// After a tab change the cursor, if there was one, returns to the top.
pub open spec fn after_tab_change(v: ScreenView, tab: usize) -> ScreenView {
    clamped(
        ScreenView {
            active_tab: tab,
            cursor: if v.cursor is Some { Some(0) } else { None },
            table_offset: 0,
            ..v
        },
    )
}

pub proof fn lemma_clamped_wf(v: ScreenView)
    requires
        screen_wf(v),
    ensures
        screen_wf(clamped(v)),
        clamped(v).active_tab == v.active_tab,
{
}

impl InteractiveSelectionScreen {
    proof fn lemma_manager_at(&self, i: int)
        requires
            0 <= i < self.managers@.len(),
        ensures
            self@.managers[i] == manager_view(self.managers@[i]),
            self@.managers.len() == self.managers@.len(),
            self@.managers[i].state == self.managers@[i].state@,
    {
    }

    proof fn lemma_lengths(&self)
        ensures
            self@.managers.len() == self.managers@.len(),
            self.managers@.len() <= usize::MAX,
    {
        assert(self.managers@.len() == self.managers.len());
    }

    fn tab_refs(&self) -> (r: Vec<SelectionTabRef>)
        ensures
            r@ == tabs(self@.managers),
    {
        let ghost ms = self@.managers;
        let mut r: Vec<SelectionTabRef> = Vec::new();
        r.push(SelectionTabRef::All);
        let mut i: usize = 0;
        assert(ms.take(0) =~= Seq::<ManagerView>::empty());
        while i < self.managers.len()
            invariant
                i <= self.managers@.len(),
                ms == self@.managers,
                ms.len() == self.managers@.len(),
                r@ == seq![SelectionTabRef::All] + manager_tabs(ms.take(i as int)),
            decreases self.managers@.len() - i,
        {
            assert(ms.take(i + 1).drop_last() =~= ms.take(i as int));
            assert(ms[i as int] == manager_view(self.managers@[i as int]));
            let empty = match self.managers[i].planning_status {
                ManagerPlanningStatus::Empty => true,
                _ => false,
            };
            if !empty {
                r.push(SelectionTabRef::Manager(i));
            }
            i = i + 1;
        }
        assert(ms.take(ms.len() as int) =~= ms);
        r
    }

    fn active_manager_idx(&self) -> (r: Option<usize>)
        ensures
            match r {
                Some(i) => active_manager(self@) == Some(i as int) && i < self@.managers.len(),
                None => active_manager(self@) is None,
            },
    {
        let tabs_now = self.tab_refs();
        proof {
            self.lemma_lengths();
            lemma_manager_tabs_valid(self@.managers);
            assert forall|i: int| 0 <= i < tabs_now@.len() implies (#[trigger] tabs_now@[i] matches SelectionTabRef::Manager(m) ==> m < self@.managers.len()) by {
                if i > 0 {
                    assert(tabs_now@[i] == manager_tabs(self@.managers)[i - 1]);
                }
            }
        }
        if self.active_tab < tabs_now.len() {
            match tabs_now[self.active_tab] {
                SelectionTabRef::Manager(i) => Some(i),
                SelectionTabRef::All => None,
            }
        } else {
            None
        }
    }

    fn tab_count(&self) -> (r: usize)
        ensures
            r == tabs(self@.managers).len(),
            r >= 1,
    {
        self.tab_refs().len()
    }

    /// Whether row `r` of manager `m` shows.
    fn shown(&self, m: usize, r: usize) -> (b: bool)
        requires
            m < self@.managers.len(),
            r < self@.managers[m as int].state.rows.len(),
        ensures
            b == row_shown(self@.show_all, self@.managers[m as int], self@.managers[m as int].state.rows[r as int]),
    {
        proof {
            self.lemma_manager_at(m as int);
        }
        let manager = &self.managers[m];
        let rows = manager.state.rows();
        assert(rows@[r as int]@ == self@.managers[m as int].state.rows[r as int]);
        let row = &rows[r];
        self.show_all || row.default_visibility == SelectionRowVisibility::Visible
            || manager.state.selected_target(&row.plan_item_id).is_some()
    }

    fn visible_row_refs(&self) -> (r: Vec<VisibleRow>)
        ensures
            r@ == visible(self@),
            visible(self@).len() <= usize::MAX,
    {
        let ghost v = self@;
        let active = self.active_manager_idx();
        let mut out: Vec<VisibleRow> = Vec::new();
        let mut mi: usize = 0;
        while mi < self.managers.len()
            invariant
                mi <= self.managers@.len(),
                v == self@,
                v.managers.len() == self.managers@.len(),
                match active {
                    Some(i) => active_manager(v) == Some(i as int),
                    None => active_manager(v) is None,
                },
                out@ == visible_upto(v, mi as int),
            decreases self.managers@.len() - mi,
        {
            let skip = match active {
                Some(a) => a != mi,
                None => false,
            };
            if !skip {
                proof {
                    self.lemma_manager_at(mi as int);
                }
                let n = self.managers[mi].state.rows().len();
                let ghost m = v.managers[mi as int];
                let ghost head = out@;
                let mut ri: usize = 0;
                while ri < n
                    invariant
                        mi < self.managers@.len(),
                        v == self@,
                        m == v.managers[mi as int],
                        n == m.state.rows.len(),
                        ri <= n,
                        out@ == head + manager_visible(v.show_all, m, mi as int, ri as int),
                    decreases n - ri,
                {
                    if self.shown(mi, ri) {
                        out.push(VisibleRow { manager_idx: mi, row_idx: ri });
                    }
                    ri = ri + 1;
                }
            }
            mi = mi + 1;
        }
        assert(out@.len() == out.len());
        out
    }

    fn row(&self, visible: VisibleRow) -> (r: &SelectionRow)
        requires
            row_exists(self@, visible),
        ensures
            r@ == row_at(self@, visible),
    {
        proof {
            self.lemma_manager_at(visible.manager_idx as int);
        }
        let rows = self.managers[visible.manager_idx].state.rows();
        assert(rows@[visible.row_idx as int]@ == row_at(self@, visible));
        &rows[visible.row_idx]
    }

    /// Pulls the active tab and then the cursor back into range.
    fn clamp_cursor(&mut self)
        ensures
            final(self)@ == clamped(old(self)@),
    {
        let count = self.tab_count();
        if self.active_tab >= count {
            self.active_tab = count - 1;
        }
        let row_count = self.visible_row_refs().len();
        if row_count == 0 {
            self.cursor = None;
        } else if let Some(c) = self.cursor {
            if c >= row_count {
                self.cursor = Some(row_count - 1);
            }
        }
    }
}

/// The choices a fresh manager state starts from: the preselected rows, each
/// with its recommended target.
pub open spec fn starts_from(st: StateView, rows: Seq<SelectionRow>, policy: UpdateSelectionPolicy) -> bool {
    &&& st.rows == rows_view(rows)
    &&& st.policy == policy
    &&& forall|k: Seq<char>| #[trigger] st.choices.dom().contains(k) == exists|i: int|
        0 <= i < rows.len() && rows[i].plan_item_id@ == k && rows[i].initially_selected
    &&& forall|k: Seq<char>| #[trigger] st.choices.dom().contains(k) ==> st.choices[k] == UpdateChoice::Recommended
}

/// A screen with no cursor, on the "all" tab, nothing open, nothing logged.
pub open spec fn fresh(v: ScreenView) -> bool {
    &&& v.command_log.len() == 0
    &&& v.command_log_scroll == 0
    &&& !v.trace_commands
    &&& v.planning_failure is None
    &&& v.spinner_tick == 0
    &&& v.active_tab == 0
    &&& v.tab_offset == 0
    &&& v.cursor is None
    &&& v.table_offset == 0
    &&& !v.show_all
    &&& v.picker is None
    &&& !v.dialog_open
}

fn manager_state(
    manager_id: ManagerId,
    version_policy: VersionPolicy,
    issues: Vec<PlanIssue>,
    planning_status: ManagerPlanningStatus,
    view: SelectionView,
    selection_policy: UpdateSelectionPolicy,
) -> (r: ManagerSelectionState)
    ensures
        manager_view(r).id == manager_id@,
        manager_view(r).version_policy == version_policy,
        manager_view(r).issues == issues@.map_values(|i: PlanIssue| issue_text(i)),
        manager_view(r).status == status_view(planning_status),
        starts_from(manager_view(r).state, view.rows@, selection_policy),
{
    let ghost rows = view.rows@;
    let state = InteractiveSelectionState::new(view, selection_policy);
    ManagerSelectionState { manager_id, version_policy, issues, planning_status, state }
}

fn empty_view(manager_id: &ManagerId) -> (r: SelectionView)
    ensures
        r.manager_id == *manager_id,
        r.rows@.len() == 0,
{
    SelectionView { manager_id: manager_id.clone(), rows: Vec::new() }
}

impl InteractiveSelectionScreen {
    /// Opens the picker on finished plans: a manager without rows has no
    /// tab; planning counts as finished.
    pub fn new(plans: Vec<InteractiveSelectionPlan>) -> (r: Self)
        ensures
            screen_wf(r@),
            fresh(r@),
            r@.planning_finished,
            r@.managers.len() == plans@.len(),
            forall|i: int| 0 <= i < plans@.len() ==> {
                let m = #[trigger] r@.managers[i];
                let p = plans@[i];
                &&& m.id == p.view.manager_id@
                &&& m.version_policy == p.version_policy
                &&& m.issues == p.issues@.map_values(|x: PlanIssue| issue_text(x))
                &&& m.status == (if p.view.rows@.len() == 0 { StatusView::Empty } else { StatusView::Ready })
                &&& starts_from(m.state, p.view.rows@, p.selection_policy)
            },
    {
        let ghost orig = plans@;
        let mut rest = plans;
        let mut managers: Vec<ManagerSelectionState> = Vec::new();
        while rest.len() > 0
            invariant
                managers@.len() + rest@.len() == orig.len(),
                rest@ == orig.subrange(managers@.len() as int, orig.len() as int),
                forall|i: int| 0 <= i < managers@.len() ==> {
                    let m = manager_view(#[trigger] managers@[i]);
                    let p = orig[i];
                    &&& m.id == p.view.manager_id@
                    &&& m.version_policy == p.version_policy
                    &&& m.issues == p.issues@.map_values(|x: PlanIssue| issue_text(x))
                    &&& m.status == (if p.view.rows@.len() == 0 { StatusView::Empty } else { StatusView::Ready })
                    &&& starts_from(m.state, p.view.rows@, p.selection_policy)
                },
            decreases rest@.len(),
        {
            let ghost k = managers@.len() as int;
            let plan = rest.remove(0);
            assert(plan == orig[k]);
            let status = if plan.view.rows.len() == 0 {
                ManagerPlanningStatus::Empty
            } else {
                ManagerPlanningStatus::Ready
            };
            let manager_id = plan.view.manager_id.clone();
            let m = manager_state(manager_id, plan.version_policy, plan.issues, status, plan.view, plan.selection_policy);
            managers.push(m);
            assert(rest@ =~= orig.subrange(managers@.len() as int, orig.len() as int));
        }
        let r = InteractiveSelectionScreen {
            managers,
            command_log: Vec::new(),
            command_log_scroll_from_bottom: 0,
            trace_commands: false,
            planning_finished: true,
            planning_failure: None,
            spinner_tick: 0,
            active_tab: 0,
            tab_offset: 0,
            cursor: None,
            table_offset: 0,
            show_all: false,
            target_picker: None,
            confirmation_dialog: false,
        };
        assert(r@.command_log =~= Seq::<Seq<char>>::empty());
        r
    }

    /// Opens the picker before planning: every manager waits, with no rows.
    pub fn from_manager_ids(manager_ids: Vec<ManagerId>) -> (r: Self)
        ensures
            screen_wf(r@),
            fresh(r@),
            !r@.planning_finished,
            r@.managers.len() == manager_ids@.len(),
            forall|i: int| 0 <= i < manager_ids@.len() ==> {
                let m = #[trigger] r@.managers[i];
                &&& m.id == manager_ids@[i]@
                &&& m.version_policy == VersionPolicy::Unfiltered
                &&& m.issues.len() == 0
                &&& m.status == StatusView::Waiting
                &&& m.state.rows.len() == 0
                &&& m.state.choices.dom().is_empty()
                &&& m.state.policy.mode == crate::selection::UpdateSelectionMode::Include
                &&& m.state.policy.except@.len() == 0
            },
    {
        let mut managers: Vec<ManagerSelectionState> = Vec::new();
        let mut i: usize = 0;
        while i < manager_ids.len()
            invariant
                i <= manager_ids@.len(),
                managers@.len() == i,
                forall|k: int| 0 <= k < i ==> {
                    let m = manager_view(#[trigger] managers@[k]);
                    &&& m.id == manager_ids@[k]@
                    &&& m.version_policy == VersionPolicy::Unfiltered
                    &&& m.issues.len() == 0
                    &&& m.status == StatusView::Waiting
                    &&& m.state.rows.len() == 0
                    &&& m.state.choices.dom().is_empty()
                    &&& m.state.policy.mode == crate::selection::UpdateSelectionMode::Include
                    &&& m.state.policy.except@.len() == 0
                },
            decreases manager_ids@.len() - i,
        {
            let view = empty_view(&manager_ids[i]);
            let m = manager_state(manager_ids[i].clone(), VersionPolicy::Unfiltered, Vec::new(), ManagerPlanningStatus::Waiting, view, UpdateSelectionPolicy::default());
            proof {
                let mv = manager_view(m);
                assert(mv.state.rows =~= Seq::<RowView>::empty());
                assert(mv.state.choices.dom() =~= Set::<Seq<char>>::empty());
            }
            managers.push(m);
            i = i + 1;
        }
        let r = InteractiveSelectionScreen {
            managers,
            command_log: Vec::new(),
            command_log_scroll_from_bottom: 0,
            trace_commands: false,
            planning_finished: false,
            planning_failure: None,
            spinner_tick: 0,
            active_tab: 0,
            tab_offset: 0,
            cursor: None,
            table_offset: 0,
            show_all: false,
            target_picker: None,
            confirmation_dialog: false,
        };
        assert(r@.command_log =~= Seq::<Seq<char>>::empty());
        r
    }

    /// Whether planning commands are echoed to the command log.
    pub fn trace_commands(self, trace_commands: bool) -> (r: Self)
        ensures
            r@ == (ScreenView { trace_commands, ..self@ }),
    {
        let mut s = self;
        s.trace_commands = trace_commands;
        s
    }

    /// Advances the spinner, wrapping at the largest tick.
    pub fn tick(&mut self)
        ensures
            final(self)@ == (ScreenView {
                spinner_tick: if old(self)@.spinner_tick == usize::MAX { 0 } else { (old(self)@.spinner_tick + 1) as usize },
                ..old(self)@
            }),
    {
        self.spinner_tick = if self.spinner_tick == usize::MAX { 0 } else { self.spinner_tick + 1 };
    }

    pub fn active_tab(&self) -> (r: usize)
        ensures
            r == self@.active_tab,
    {
        self.active_tab
    }

    pub fn cursor(&self) -> (r: Option<usize>)
        ensures
            r == self@.cursor,
    {
        self.cursor
    }

    pub fn show_all(&self) -> (r: bool)
        ensures
            r == self@.show_all,
    {
        self.show_all
    }

    pub fn tab_offset(&self) -> (r: usize)
        ensures
            r == self@.tab_offset,
    {
        self.tab_offset
    }

    /// The first table row on screen.
    pub fn table_offset(&self) -> (r: usize)
        ensures
            r == self@.table_offset,
    {
        self.table_offset
    }

    pub fn target_picker_open(&self) -> (r: bool)
        ensures
            r == self@.picker is Some,
    {
        self.target_picker.is_some()
    }

    pub fn confirmation_dialog_open(&self) -> (r: bool)
        ensures
            r == self@.dialog_open,
    {
        self.confirmation_dialog
    }

    pub fn close_confirmation_dialog(&mut self)
        ensures
            final(self)@ == (ScreenView { dialog_open: false, ..old(self)@ }),
    {
        self.confirmation_dialog = false;
    }

    /// Records how far the tab strip is scrolled.
    pub fn sync_tab_offset(&mut self, tab_offset: usize)
        ensures
            final(self)@ == (ScreenView { tab_offset, ..old(self)@ }),
    {
        self.tab_offset = tab_offset;
    }

    fn move_cursor_up(&mut self)
        ensures
            final(self)@ == cursor_up_view(old(self)@),
    {
        let row_count = self.visible_row_refs().len();
        if row_count == 0 {
            return;
        }
        self.cursor = Some(match self.cursor {
            None => 0,
            Some(c) => if c == 0 { row_count - 1 } else { c - 1 },
        });
    }

    fn move_cursor_down(&mut self)
        ensures
            final(self)@ == cursor_down_view(old(self)@),
    {
        let row_count = self.visible_row_refs().len();
        if row_count == 0 {
            return;
        }
        self.cursor = Some(match self.cursor {
            None => 0,
            Some(c) => if c >= row_count - 1 { 0 } else { c + 1 },
        });
    }

    fn change_tab(&mut self, tab: usize)
        ensures
            final(self)@ == after_tab_change(old(self)@, tab),
    {
        self.active_tab = tab;
        if self.cursor.is_some() {
            self.cursor = Some(0);
        }
        self.table_offset = 0;
        self.clamp_cursor();
    }

    fn next_tab(&mut self)
        requires
            screen_wf(old(self)@),
        ensures
            final(self)@ == after_tab_change(old(self)@, ((old(self)@.active_tab + 1) % tabs(old(self)@.managers).len() as int) as usize),
    {
        let count = self.tab_count();
        let next = if self.active_tab < count - 1 { self.active_tab + 1 } else { 0 };
        assert(next == (self.active_tab + 1) % count as int) by (nonlinear_arith)
            requires
                count >= 1,
                self.active_tab < count,
                next == if self.active_tab < count - 1 { self.active_tab + 1 } else { 0 },
        {
        }
        self.change_tab(next);
    }

    fn previous_tab(&mut self)
        ensures
            final(self)@ == after_tab_change(old(self)@, if old(self)@.active_tab == 0 {
                (tabs(old(self)@.managers).len() - 1) as usize
            } else {
                (old(self)@.active_tab - 1) as usize
            }),
    {
        let count = self.tab_count();
        let previous = if self.active_tab == 0 { count - 1 } else { self.active_tab - 1 };
        self.change_tab(previous);
    }

    /// Switches to tab `tab_idx` when it exists; the cursor, if there was
    /// one, returns to the top.
    pub fn select_tab(&mut self, tab_idx: usize)
        requires
            screen_wf(old(self)@),
        ensures
            screen_wf(final(self)@),
            final(self)@ == after_tab_change(old(self)@, if tab_idx < tabs(old(self)@.managers).len() {
                tab_idx
            } else {
                old(self)@.active_tab
            }),
    {
        let count = self.tab_count();
        let tab = if tab_idx < count { tab_idx } else { self.active_tab };
        self.change_tab(tab);
    }

    fn table_max_offset(&self, visible_height: usize) -> (r: usize)
        ensures
            visible(self@).len() <= usize::MAX,
            r == if visible(self@).len() > visible_height { (visible(self@).len() - visible_height) as usize } else { 0 },
    {
        let n = self.visible_row_refs().len();
        if n > visible_height { n - visible_height } else { 0 }
    }

    fn clamp_cursor_to_table_view(&mut self, visible_height: usize)
        ensures
            visible_height == 0 ==> final(self)@ == (ScreenView { cursor: None, ..old(self)@ }),
            visible_height > 0 ==> {
                let v = clamped(old(self)@);
                let last = if v.table_offset as int + visible_height as int - 1 > usize::MAX { usize::MAX as int } else { v.table_offset as int + visible_height as int - 1 };
                let n = visible(v).len() as int;
                final(self)@ == ScreenView {
                    cursor: match v.cursor {
                        None => None,
                        Some(c) => if c < v.table_offset {
                            Some(v.table_offset)
                        } else if c > last {
                            Some((if last < n - 1 { last } else if n > 0 { n - 1 } else { 0 }) as usize)
                        } else {
                            Some(c)
                        },
                    },
                    ..v
                }
            },
    {
        if visible_height == 0 {
            self.cursor = None;
            return;
        }
        self.clamp_cursor();
        let Some(cursor) = self.cursor else {
            return;
        };
        if cursor < self.table_offset {
            self.cursor = Some(self.table_offset);
        } else {
            let last_visible = if self.table_offset > usize::MAX - visible_height { usize::MAX } else { self.table_offset + visible_height - 1 };
            if cursor > last_visible {
                let n = self.visible_row_refs().len();
                let bottom = if n > 0 { n - 1 } else { 0 };
                self.cursor = Some(if last_visible < bottom { last_visible } else { bottom });
            }
        }
    }

    /// Scrolls the table by `delta` rows; the first scroll only puts the
    /// cursor on the first row.
    pub fn scroll_table_by(&mut self, delta: isize, visible_height: usize)
        requires
            screen_wf(old(self)@),
        ensures
            screen_wf(final(self)@),
            delta == 0 ==> final(self)@ == old(self)@,
            delta != 0 && old(self)@.cursor is None ==> final(self)@ == (ScreenView {
                cursor: if visible(old(self)@).len() > 0 { Some(0) } else { None },
                ..old(self)@
            }),
            delta != 0 && old(self)@.cursor is Some ==> final(self)@.table_offset as int == (if delta > 0 {
                let n = visible(old(self)@).len() as int;
                let max = if n > visible_height { n - visible_height } else { 0 };
                let moved = old(self)@.table_offset + delta;
                if moved < max { moved } else { max }
            } else {
                if old(self)@.table_offset + delta > 0 { old(self)@.table_offset + delta } else { 0 }
            }),
            same_content(final(self)@, old(self)@),
    {
        let max_offset = self.table_max_offset(visible_height);
        if delta == 0 {
            return;
        }
        if self.cursor.is_none() {
            if self.visible_row_refs().len() > 0 {
                self.cursor = Some(0);
            }
            return;
        }
        if delta > 0 {
            let step = delta as usize;
            let moved = if self.table_offset > usize::MAX - step { usize::MAX } else { self.table_offset + step };
            self.table_offset = if moved < max_offset { moved } else { max_offset };
        } else {
            let step: usize = if delta == isize::MIN { (isize::MAX as usize) + 1 } else { (-delta) as usize };
            self.table_offset = if self.table_offset > step { self.table_offset - step } else { 0 };
        }
        proof {
            lemma_clamped_wf(self@);
        }
        self.clamp_cursor_to_table_view(visible_height);
    }

    /// Moves the table so that the cursor row is on screen.
    pub fn keep_cursor_visible(&mut self, visible_height: usize)
        ensures
            visible_height == 0 ==> final(self)@ == (ScreenView { table_offset: 0, ..old(self)@ }),
            visible_height > 0 ==> {
                let n = visible(old(self)@).len() as int;
                let max = if n > visible_height { n - visible_height } else { 0 };
                let t0 = if old(self)@.table_offset < max { old(self)@.table_offset as int } else { max };
                &&& final(self)@ == ScreenView { table_offset: final(self)@.table_offset, ..old(self)@ }
                &&& final(self)@.table_offset as int == match old(self)@.cursor {
                    None => t0,
                    Some(c) => if c < t0 {
                        c as int
                    } else if c >= t0 + visible_height {
                        c + 1 - visible_height
                    } else {
                        t0
                    },
                }
            },
    {
        if visible_height == 0 {
            self.table_offset = 0;
            return;
        }
        let ghost before = self@;
        let max = self.table_max_offset(visible_height);
        if self.table_offset > max {
            self.table_offset = max;
        }
        assert(self@ == ScreenView { table_offset: self.table_offset, ..before });
        let Some(cursor) = self.cursor else {
            return;
        };
        if cursor < self.table_offset {
            self.table_offset = cursor;
        } else if cursor - self.table_offset >= visible_height {
            self.table_offset = cursor - (visible_height - 1);
        }
    }
}

/// The screen with manager `mi`'s selection state replaced.
pub open spec fn with_state(v: ScreenView, mi: int, st: StateView) -> ScreenView {
    ScreenView { managers: v.managers.update(mi, ManagerView { state: st, ..v.managers[mi] }), ..v }
}

/// The row under the cursor, when the cursor is on a shown row.
pub open spec fn current_row(v: ScreenView) -> Option<VisibleRow> {
    match v.cursor {
        Some(c) => if c < visible(v).len() {
            Some(visible(v)[c as int])
        } else {
            None
        },
        None => None,
    }
}

/// What toggling the row under the cursor does: a selected row is cleared;
/// otherwise an update row takes its recommended target and a row with a
/// forced candidate takes that.
pub open spec fn toggle_result(r: Result<(), SelectionStateError>, before: ScreenView, after: ScreenView) -> bool {
    match current_row(before) {
        None => r is Ok && after == before,
        Some(vr) => {
            let mi = vr.manager_idx as int;
            let st = before.managers[mi].state;
            let st2 = after.managers[mi].state;
            let row = row_at(before, vr);
            &&& after == with_state(before, mi, st2)
            &&& if st.choices.dom().contains(row.id) {
                deselect_result(r, st, st2, row.id)
            } else if row.status == SelectionRowStatus::Update {
                recommend_result(r, st, st2, row.id)
            } else if offers(row, OptionKind::ForcedCandidate, None) {
                self_choice_result(r, st, st2, row.id, OptionKind::ForcedCandidate, None, UpdateChoice::Forced)
            } else {
                r is Ok && after == before
            }
        },
    }
}

impl InteractiveSelectionScreen {
    proof fn lemma_wf_with_state(&self, v: ScreenView, mi: int, st: StateView)
        requires
            screen_wf(v),
            0 <= mi < v.managers.len(),
            st.rows == v.managers[mi].state.rows,
        ensures
            screen_wf(with_state(v, mi, st)),
            tabs(with_state(v, mi, st).managers) == tabs(v.managers),
    {
        let w = with_state(v, mi, st);
        assert(manager_tabs(w.managers) == manager_tabs(v.managers)) by {
            lemma_manager_tabs_same(w.managers, v.managers);
        }
    }

    /// Takes manager `mi` out, applies `op` to its state and puts it back.
    fn take_manager(&mut self, mi: usize) -> (m: ManagerSelectionState)
        requires
            mi < old(self)@.managers.len(),
        ensures
            manager_view(m) == old(self)@.managers[mi as int],
            final(self).managers@ == old(self).managers@.remove(mi as int),
            final(self)@ == (ScreenView { managers: final(self)@.managers, ..old(self)@ }),
    {
        proof {
            self.lemma_manager_at(mi as int);
        }
        self.managers.remove(mi)
    }

    fn put_manager(&mut self, mi: usize, m: ManagerSelectionState)
        requires
            mi <= old(self).managers@.len(),
        ensures
            final(self).managers@ == old(self).managers@.insert(mi as int, m),
            final(self)@ == (ScreenView { managers: final(self)@.managers, ..old(self)@ }),
    {
        self.managers.insert(mi, m);
    }

    proof fn lemma_replaced(old_managers: Seq<ManagerSelectionState>, mi: int, m: ManagerSelectionState)
        requires
            0 <= mi < old_managers.len(),
        ensures
            old_managers.remove(mi).insert(mi, m).map_values(|x: ManagerSelectionState| manager_view(x))
                == old_managers.map_values(|x: ManagerSelectionState| manager_view(x)).update(mi, manager_view(m)),
    {
        assert(old_managers.remove(mi).insert(mi, m) =~= old_managers.update(mi, m));
        assert(old_managers.update(mi, m).map_values(|x: ManagerSelectionState| manager_view(x))
            =~= old_managers.map_values(|x: ManagerSelectionState| manager_view(x)).update(mi, manager_view(m)));
    }

    fn state_recommend(&mut self, mi: usize, id: &PlanItemId) -> (r: Result<(), SelectionStateError>)
        requires
            mi < old(self)@.managers.len(),
        ensures
            final(self)@ == with_state(old(self)@, mi as int, final(self)@.managers[mi as int].state),
            recommend_result(r, old(self)@.managers[mi as int].state, final(self)@.managers[mi as int].state, id@),
    {
        let ghost before = self.managers@;
        let mut m = self.take_manager(mi);
        let r = m.state.select_recommended(id);
        self.put_manager(mi, m);
        proof {
            Self::lemma_replaced(before, mi as int, m);
        }
        r
    }

    fn state_deselect(&mut self, mi: usize, id: &PlanItemId) -> (r: Result<(), SelectionStateError>)
        requires
            mi < old(self)@.managers.len(),
        ensures
            final(self)@ == with_state(old(self)@, mi as int, final(self)@.managers[mi as int].state),
            deselect_result(r, old(self)@.managers[mi as int].state, final(self)@.managers[mi as int].state, id@),
    {
        let ghost before = self.managers@;
        let mut m = self.take_manager(mi);
        let r = m.state.deselect(id);
        self.put_manager(mi, m);
        proof {
            Self::lemma_replaced(before, mi as int, m);
        }
        r
    }

    fn state_force(&mut self, mi: usize, id: &PlanItemId) -> (r: Result<(), SelectionStateError>)
        requires
            mi < old(self)@.managers.len(),
        ensures
            final(self)@ == with_state(old(self)@, mi as int, final(self)@.managers[mi as int].state),
            self_choice_result(r, old(self)@.managers[mi as int].state, final(self)@.managers[mi as int].state, id@, OptionKind::ForcedCandidate, None, UpdateChoice::Forced),
    {
        let ghost before = self.managers@;
        let mut m = self.take_manager(mi);
        let r = m.state.force_candidate(id);
        self.put_manager(mi, m);
        proof {
            Self::lemma_replaced(before, mi as int, m);
        }
        r
    }

    fn state_exact(&mut self, mi: usize, id: &PlanItemId, version: crate::domain::VersionText) -> (r: Result<(), SelectionStateError>)
        requires
            mi < old(self)@.managers.len(),
        ensures
            final(self)@ == with_state(old(self)@, mi as int, final(self)@.managers[mi as int].state),
            self_choice_result(r, old(self)@.managers[mi as int].state, final(self)@.managers[mi as int].state, id@, OptionKind::AlternateExact, Some(version@), UpdateChoice::Exact(version@)),
    {
        let ghost before = self.managers@;
        let mut m = self.take_manager(mi);
        let r = m.state.choose_alternate_exact(id, version);
        self.put_manager(mi, m);
        proof {
            Self::lemma_replaced(before, mi as int, m);
        }
        r
    }

    fn state_resolved(&mut self, mi: usize, id: &PlanItemId) -> (r: Result<(), SelectionStateError>)
        requires
            mi < old(self)@.managers.len(),
        ensures
            final(self)@ == with_state(old(self)@, mi as int, final(self)@.managers[mi as int].state),
            self_choice_result(r, old(self)@.managers[mi as int].state, final(self)@.managers[mi as int].state, id@, OptionKind::ManagerResolved, None, UpdateChoice::ManagerResolved),
    {
        let ghost before = self.managers@;
        let mut m = self.take_manager(mi);
        let r = m.state.choose_manager_resolved(id);
        self.put_manager(mi, m);
        proof {
            Self::lemma_replaced(before, mi as int, m);
        }
        r
    }

    fn current_visible_row(&self) -> (r: Option<VisibleRow>)
        ensures
            r == current_row(self@),
            r matches Some(vr) ==> row_exists(self@, vr),
    {
        let rows = self.visible_row_refs();
        match self.cursor {
            Some(c) => if c < rows.len() {
                proof {
                    self.lemma_lengths();
                    lemma_visible_valid(self@, self@.managers.len() as int);
                    assert(row_exists(self@, rows@[c as int]));
                }
                Some(rows[c])
            } else {
                None
            },
            None => None,
        }
    }

    fn toggle_current(&mut self) -> (r: Result<(), SelectionStateError>)
        ensures
            toggle_result(r, old(self)@, final(self)@),
    {
        let Some(visible) = self.current_visible_row() else {
            return Ok(());
        };
        let row = self.row(visible);
        let id = row.plan_item_id.clone();
        let is_update = row.status == SelectionRowStatus::Update;
        let has_forced = row_offers_kind(row, OptionKind::ForcedCandidate);
        let mi = visible.manager_idx;
        proof {
            self.lemma_manager_at(mi as int);
        }
        let selected = self.managers[mi].state.selected_target(&id).is_some();
        let ghost before = self@;
        assert(before == old(self)@);
        let ghost rv = row_at(before, visible);
        assert(id@ == rv.id);
        assert(selected == before.managers[mi as int].state.choices.dom().contains(rv.id));
        assert(is_update == (rv.status == SelectionRowStatus::Update));
        assert(has_forced == offers(rv, OptionKind::ForcedCandidate, None));
        assert(current_row(before) == Some(visible));
        if selected {
            let r = self.state_deselect(mi, &id);
            assert(toggle_result(r, before, self@));
            r
        } else if is_update {
            let r = self.state_recommend(mi, &id);
            assert(toggle_result(r, before, self@));
            r
        } else if has_forced {
            let r = self.state_force(mi, &id);
            assert(toggle_result(r, before, self@));
            r
        } else {
            assert(with_state(before, mi as int, before.managers[mi as int].state).managers =~= before.managers);
            assert(toggle_result(Ok(()), before, self@));
            Ok(())
        }
    }
}

/// Whether the row offers an option of `kind` (whatever its version).
fn row_offers_kind(row: &SelectionRow, kind: OptionKind) -> (r: bool)
    requires
        kind != OptionKind::AlternateExact,
    ensures
        r == offers(row@, kind, None),
{
    let mut i: usize = 0;
    while i < row.target_options.len()
        invariant
            kind != OptionKind::AlternateExact,
            i <= row.target_options@.len(),
            row@.options.len() == row.target_options@.len(),
            forall|j: int| 0 <= j < i ==> (#[trigger] row@.options[j]).kind != kind,
        decreases row.target_options@.len() - i,
    {
        assert(row@.options[i as int] == row.target_options@[i as int]@);
        if row.target_options[i].kind() == kind {
            return true;
        }
        i = i + 1;
    }
    false
}

/// Managers with the same planning statuses have the same tabs.
pub proof fn lemma_manager_tabs_same(a: Seq<ManagerView>, b: Seq<ManagerView>)
    requires
        a.len() == b.len(),
        forall|i: int| 0 <= i < a.len() ==> (#[trigger] a[i]).status == b[i].status,
    ensures
        manager_tabs(a) == manager_tabs(b),
    decreases a.len(),
{
    if a.len() > 0 {
        lemma_manager_tabs_same(a.drop_last(), b.drop_last());
    }
}

/// The ids of the listed rows of manager `j`; only of update rows when
/// `updates_only`.
pub open spec fn listed_ids(vs: Seq<VisibleRow>, v: ScreenView, j: int, updates_only: bool) -> Set<Seq<char>> {
    Set::new(
        |id: Seq<char>|
            exists|k: int|
                0 <= k < vs.len() && (#[trigger] vs[k]).manager_idx == j && row_at(v, vs[k]).id == id && (
                updates_only ==> row_at(v, vs[k]).status == SelectionRowStatus::Update),
    )
}

/// `c` with every id of `ids` chosen with its recommended target.
pub open spec fn choose_all(c: Map<Seq<char>, UpdateChoice>, ids: Set<Seq<char>>) -> Map<Seq<char>, UpdateChoice> {
    Map::new(
        |k: Seq<char>| c.dom().contains(k) || ids.contains(k),
        |k: Seq<char>| if ids.contains(k) { UpdateChoice::Recommended } else { c[k] },
    )
}

/// What selecting (or clearing) every shown row does: clearing always
/// succeeds, selecting exactly when every shown update row can take its
/// recommended target; each manager keeps its rows and rule mode; if nothing
/// was refused, the shown update rows are
/// selected with their recommended target (or every shown row is cleared),
/// and no other row changes.
pub open spec fn select_visible_result(r: Result<(), SelectionStateError>, before: ScreenView, after: ScreenView, selected: bool) -> bool {
    &&& r is Ok <==> (!selected || select_visible_ok(before))
    &&& after == ScreenView { managers: after.managers, ..before }
    &&& after.managers.len() == before.managers.len()
    &&& forall|j: int| 0 <= j < before.managers.len() ==> {
        let m = #[trigger] before.managers[j];
        let m2 = after.managers[j];
        &&& m2 == ManagerView { state: m2.state, ..m }
        &&& m2.state.rows == m.state.rows
        &&& m2.state.policy.mode == m.state.policy.mode
        &&& r is Ok ==> m2.state.choices == if selected {
            choose_all(m.state.choices, listed_ids(visible(before), before, j, true))
        } else {
            m.state.choices.remove_keys(listed_ids(visible(before), before, j, false))
        }
    }
}

/// Selecting the shown row `vr` with its recommended target can be done:
/// it is no update row, or the row its manager finds under its id is one.
pub open spec fn recommend_ok_at(v: ScreenView, vr: VisibleRow) -> bool {
    let rows = v.managers[vr.manager_idx as int].state.rows;
    row_at(v, vr).status == SelectionRowStatus::Update ==> (row_index(rows, row_at(v, vr).id) matches Some(i)
        && rows[i].status == SelectionRowStatus::Update)
}

/// Every shown update row can be selected with its recommended target.
pub open spec fn select_visible_ok(v: ScreenView) -> bool {
    forall|k: int| 0 <= k < visible(v).len() ==> recommend_ok_at(v, #[trigger] visible(v)[k])
}

impl InteractiveSelectionScreen {
    fn select_visible(&mut self, selected: bool) -> (r: Result<(), SelectionStateError>)
        requires
            screen_wf(old(self)@),
        ensures
            screen_wf(final(self)@),
            select_visible_result(r, old(self)@, final(self)@, selected),
            r matches Err(e) ==> e is TargetUnavailable,
    {
        let ghost before = self@;
        let vs = self.visible_row_refs();
        proof {
            self.lemma_lengths();
            lemma_visible_valid(before, before.managers.len() as int);
        }
        let mut k: usize = 0;
        assert(vs@.take(0) =~= Seq::<VisibleRow>::empty());
        proof {
            assert forall|j: int| 0 <= j < before.managers.len() implies {
                let m = #[trigger] before.managers[j];
                if selected {
                    m.state.choices == choose_all(m.state.choices, listed_ids(vs@.take(0), before, j, true))
                } else {
                    m.state.choices == m.state.choices.remove_keys(listed_ids(vs@.take(0), before, j, false))
                }
            } by {
                let m = before.managers[j];
                assert(listed_ids(vs@.take(0), before, j, selected) =~= Set::<Seq<char>>::empty());
                assert(choose_all(m.state.choices, Set::<Seq<char>>::empty()) =~= m.state.choices);
                assert(m.state.choices.remove_keys(Set::<Seq<char>>::empty()) =~= m.state.choices);
            }
        }
        while k < vs.len()
            invariant
                k <= vs@.len(),
                before == old(self)@,
                vs@ == visible(before),
                screen_wf(before),
                forall|i: int| 0 <= i < vs@.len() ==> row_exists(before, #[trigger] vs@[i]),
                selected ==> forall|i: int| 0 <= i < k ==> recommend_ok_at(before, #[trigger] vs@[i]),
                self@ == (ScreenView { managers: self@.managers, ..before }),
                self@.managers.len() == before.managers.len(),
                forall|j: int| 0 <= j < before.managers.len() ==> {
                    let m = #[trigger] before.managers[j];
                    let m2 = self@.managers[j];
                    &&& m2 == (ManagerView { state: m2.state, ..m })
                    &&& m2.state.rows == m.state.rows
                    &&& m2.state.policy.mode == m.state.policy.mode
                    &&& m2.state.choices == if selected {
                        choose_all(m.state.choices, listed_ids(vs@.take(k as int), before, j, true))
                    } else {
                        m.state.choices.remove_keys(listed_ids(vs@.take(k as int), before, j, false))
                    }
                },
            decreases vs@.len() - k,
        {
            let vr = vs[k];
            let ghost cur = self@;
            assert(row_exists(before, vr));
            assert(row_exists(self@, vr));
            let row = self.row(vr);
            let id = row.plan_item_id.clone();
            let is_update = row.status == SelectionRowStatus::Update;
            let mi = vr.manager_idx;
            let ghost rv = row_at(before, vr);
            assert(rv == row_at(self@, vr));
            proof {
                self.lemma_manager_at(mi as int);
            }
            let ghost c0 = before.managers[mi as int].state.choices;
            proof {
                assert(cur.managers[mi as int].state.rows == before.managers[mi as int].state.rows);
                lemma_row_index_some(before.managers[mi as int].state.rows, vr.row_idx as int);
                assert(vs@[k as int] == vr);
            }
            if selected {
                if is_update {
                    let r = self.state_recommend(mi, &id);
                    if r.is_err() {
                        proof {
                            assert(self@.managers =~= cur.managers);
                            assert(self@ == cur);
                            lemma_wf_after_state(before, self@);
                            assert(!recommend_ok_at(before, visible(before)[k as int]));
                            assert(select_visible_result(r, before, self@, selected));
                        }
                        return r;
                    }
                }
                assert(recommend_ok_at(before, vr));
            } else if self.managers[mi].state.selected_target(&id).is_some() {
                proof {
                    let i = row_index(cur.managers[mi as int].state.rows, id@);
                    lemma_row_index_some(cur.managers[mi as int].state.rows, vr.row_idx as int);
                }
                let r = self.state_deselect(mi, &id);
                if r.is_err() {
                    proof {
                        assert(self@.managers =~= cur.managers);
                        lemma_wf_after_state(before, self@);
                    }
                    return r;
                }
            }
            proof {
                let next = vs@.take(k + 1);
                assert(next =~= vs@.take(k as int).push(vr));
                assert forall|j: int| 0 <= j < before.managers.len() implies {
                    let m = #[trigger] before.managers[j];
                    let m2 = self@.managers[j];
                    &&& m2 == ManagerView { state: m2.state, ..m }
                    &&& m2.state.rows == m.state.rows
                    &&& m2.state.policy.mode == m.state.policy.mode
                    &&& m2.state.choices == if selected {
                        choose_all(m.state.choices, listed_ids(next, before, j, true))
                    } else {
                        m.state.choices.remove_keys(listed_ids(next, before, j, false))
                    }
                } by {
                    let m = before.managers[j];
                    let prev_ids = listed_ids(vs@.take(k as int), before, j, selected);
                    let ids = listed_ids(next, before, j, selected);
                    if j == mi && (is_update || !selected) {
                        assert(ids =~= prev_ids.insert(id@)) by {
                            assert forall|x: Seq<char>| ids.contains(x) == prev_ids.insert(id@).contains(x) by {
                                if ids.contains(x) {
                                    let q = choose|q: int| 0 <= q < next.len() && (#[trigger] next[q]).manager_idx == j && row_at(before, next[q]).id == x && (selected ==> row_at(before, next[q]).status == SelectionRowStatus::Update);
                                    if q < k {
                                        assert(vs@.take(k as int)[q] == next[q]);
                                    }
                                }
                                if prev_ids.contains(x) {
                                    let q = choose|q: int| 0 <= q < vs@.take(k as int).len() && (#[trigger] vs@.take(k as int)[q]).manager_idx == j && row_at(before, vs@.take(k as int)[q]).id == x && (selected ==> row_at(before, vs@.take(k as int)[q]).status == SelectionRowStatus::Update);
                                    assert(next[q] == vs@.take(k as int)[q]);
                                }
                                if x == id@ {
                                    assert(next[k as int] == vr);
                                }
                            }
                        }
                        if selected {
                            assert(choose_all(m.state.choices, ids) =~= choose_all(m.state.choices, prev_ids).insert(id@, UpdateChoice::Recommended));
                        } else {
                            assert(m.state.choices.remove_keys(ids) =~= m.state.choices.remove_keys(prev_ids).remove(id@));
                            if !cur.managers[j].state.choices.dom().contains(id@) {
                                assert(cur.managers[j].state.choices.remove(id@) =~= cur.managers[j].state.choices);
                            }
                        }
                    } else {
                        assert(ids =~= prev_ids) by {
                            assert forall|x: Seq<char>| ids.contains(x) == prev_ids.contains(x) by {
                                if ids.contains(x) {
                                    let q = choose|q: int| 0 <= q < next.len() && (#[trigger] next[q]).manager_idx == j && row_at(before, next[q]).id == x && (selected ==> row_at(before, next[q]).status == SelectionRowStatus::Update);
                                    if q < k {
                                        assert(vs@.take(k as int)[q] == next[q]);
                                    } else {
                                        assert(next[q] == vr);
                                    }
                                }
                                if prev_ids.contains(x) {
                                    let q = choose|q: int| 0 <= q < vs@.take(k as int).len() && (#[trigger] vs@.take(k as int)[q]).manager_idx == j && row_at(before, vs@.take(k as int)[q]).id == x && (selected ==> row_at(before, vs@.take(k as int)[q]).status == SelectionRowStatus::Update);
                                    assert(next[q] == vs@.take(k as int)[q]);
                                }
                            }
                        }
                    }
                }
            }
            k = k + 1;
        }
        assert(vs@.take(vs@.len() as int) =~= vs@);
        proof {
            lemma_wf_after_state(before, self@);
        }
        Ok(())
    }

}

/// Changing only the selection states keeps the screen well formed.
proof fn lemma_wf_after_state(before: ScreenView, after: ScreenView)
        requires
            screen_wf(before),
            after == (ScreenView { managers: after.managers, ..before }),
            after.managers.len() == before.managers.len(),
            forall|j: int| 0 <= j < before.managers.len() ==> {
                let m = #[trigger] before.managers[j];
                let m2 = after.managers[j];
                &&& m2 == (ManagerView { state: m2.state, ..m })
                &&& m2.state.rows == m.state.rows
            },
        ensures
            screen_wf(after),
    {
        assert forall|i: int| 0 <= i < after.managers.len() implies (#[trigger] after.managers[i]).status == before.managers[i].status by {
            assert(after.managers[i] == ManagerView { state: after.managers[i].state, ..before.managers[i] });
        }
        lemma_manager_tabs_same(after.managers, before.managers);
}

pub open spec fn cursor_up_view(before: ScreenView) -> ScreenView {
    (if visible(before).len() == 0 {
                before
            } else {
                ScreenView { cursor: cursor_up(before.cursor, visible(before).len() as int), ..before }
            })
}

pub open spec fn cursor_down_view(before: ScreenView) -> ScreenView {
    (if visible(before).len() == 0 {
                before
            } else {
                ScreenView { cursor: cursor_down(before.cursor, visible(before).len() as int), ..before }
            })
}

pub open spec fn open_picker_view(before: ScreenView) -> ScreenView {
    (match current_row(before) {
                Some(vr) => if row_at(before, vr).options.len() > 0 {
                    ScreenView { picker: Some(picker_on(before, vr)), ..before }
                } else {
                    before
                },
                None => before,
            })
}

pub open spec fn picker_up_view(before: ScreenView) -> ScreenView {
    (match before.picker {
                Some(p) => ScreenView {
                    picker: Some(TargetPickerState {
                        cursor: (if p.cursor == 0 { row_at(before, p.visible_row).options.len() - 1 } else { p.cursor - 1 }) as usize,
                        ..p
                    }),
                    ..before
                },
                None => before,
            })
}

pub open spec fn picker_down_view(before: ScreenView) -> ScreenView {
    (match before.picker {
                Some(p) => ScreenView {
                    picker: Some(TargetPickerState {
                        cursor: (if p.cursor + 1 >= row_at(before, p.visible_row).options.len() { 0 } else { p.cursor + 1 }) as usize,
                        ..p
                    }),
                    ..before
                },
                None => before,
            })
}

pub open spec fn picker_row_view(before: ScreenView, delta: isize) -> ScreenView {
    (match before.picker {
                None => before,
                Some(p) => match index_of_row(visible(before), p.visible_row) {
                    None => before,
                    Some(i) => match scan_rows(before, i, delta, visible(before).len() as int) {
                        None => before,
                        Some(n) => ScreenView {
                            cursor: Some(n as usize),
                            picker: Some(picker_on(before, visible(before)[n])),
                            ..before
                        },
                    },
                },
            })
}

pub open spec fn recommended_target_result(r: Result<(), SelectionStateError>, before: ScreenView, after: ScreenView) -> bool {
    match before.picker {
                None => r is Ok && after == before,
                Some(p) => {
                    let mi = p.visible_row.manager_idx as int;
                    let row = row_at(before, p.visible_row);
                    let st = before.managers[mi].state;
                    let st2 = after.managers[mi].state;
                    if offers(row, OptionKind::Recommended, None) {
                        &&& recommend_result(r, st, st2, row.id)
                        &&& after == (if r is Ok {
                            ScreenView { picker: None, ..with_state(before, mi, st2) }
                        } else {
                            with_state(before, mi, st2)
                        })
                    } else {
                        r is Ok && after == (ScreenView { picker: None, ..before })
                    }
                },
            }
}

pub open spec fn confirm_target_result(r: Result<(), SelectionStateError>, before: ScreenView, after: ScreenView) -> bool {
    match before.picker {
                None => r is Ok && after == before,
                Some(p) => {
                    let mi = p.visible_row.manager_idx as int;
                    let row = row_at(before, p.visible_row);
                    let st = before.managers[mi].state;
                    let st2 = after.managers[mi].state;
                    let o = row.options[p.cursor as int];
                    &&& match o.kind {
                        OptionKind::Recommended => recommend_result(r, st, st2, row.id),
                        OptionKind::ForcedCandidate => self_choice_result(r, st, st2, row.id, OptionKind::ForcedCandidate, None, UpdateChoice::Forced),
                        OptionKind::AlternateExact => self_choice_result(r, st, st2, row.id, OptionKind::AlternateExact, o.version, UpdateChoice::Exact(o.version->0)),
                        OptionKind::ManagerResolved => self_choice_result(r, st, st2, row.id, OptionKind::ManagerResolved, None, UpdateChoice::ManagerResolved),
                    }
                    &&& after == (if r is Ok {
                        ScreenView { picker: None, ..with_state(before, mi, st2) }
                    } else {
                        with_state(before, mi, st2)
                    })
                },
            }
}

// ---------------------------------------------------------------------------
// The target picker
// ---------------------------------------------------------------------------

/// The option stands for the chosen target.
pub open spec fn option_matches(o: OptionView, c: UpdateChoice) -> bool {
    match c {
        UpdateChoice::Recommended => o.kind == OptionKind::Recommended,
        UpdateChoice::Forced => o.kind == OptionKind::ForcedCandidate,
        UpdateChoice::ManagerResolved => o.kind == OptionKind::ManagerResolved,
        UpdateChoice::Exact(v) => o.kind == OptionKind::AlternateExact && o.version == Some(v),
    }
}

/// The first option that stands for `c`.
pub open spec fn first_matching(opts: Seq<OptionView>, c: UpdateChoice) -> Option<int>
    decreases opts.len(),
{
    if opts.len() == 0 {
        None
    } else if option_matches(opts[0], c) {
        Some(0)
    } else {
        match first_matching(opts.drop_first(), c) {
            Some(i) => Some(i + 1),
            None => None,
        }
    }
}

/// Where the picker opens: on the chosen target, else on the recommended
/// one, else on the first.
pub open spec fn initial_option(row: RowView, choice: Option<UpdateChoice>) -> int {
    let fallback = match first_matching(row.options, UpdateChoice::Recommended) {
        Some(i) => i,
        None => 0,
    };
    match choice {
        Some(c) => match first_matching(row.options, c) {
            Some(i) => i,
            None => fallback,
        },
        None => fallback,
    }
}

pub open spec fn choice_for(st: StateView, id: Seq<char>) -> Option<UpdateChoice> {
    if st.choices.dom().contains(id) {
        Some(st.choices[id])
    } else {
        None
    }
}

/// The picker on row `vr`, at its initial option.
pub open spec fn picker_on(v: ScreenView, vr: VisibleRow) -> TargetPickerState {
    TargetPickerState {
        visible_row: vr,
        cursor: initial_option(row_at(v, vr), choice_for(v.managers[vr.manager_idx as int].state, row_at(v, vr).id)) as usize,
    }
}

proof fn lemma_first_matching(opts: Seq<OptionView>, c: UpdateChoice)
    ensures
        first_matching(opts, c) matches Some(i) ==> 0 <= i < opts.len() && option_matches(opts[i], c),
    decreases opts.len(),
{
    if opts.len() > 0 {
        lemma_first_matching(opts.drop_first(), c);
    }
}

pub open spec fn step_index(i: int, delta: isize, n: int) -> int {
    if delta < 0 {
        if i == 0 { n - 1 } else { i - 1 }
    } else if delta == 0 {
        i
    } else {
        if i + 1 >= n { 0 } else { i + 1 }
    }
}

/// Scanning from index `i` in the direction of `delta`, at most `steps`
/// moves, the first shown row with target options.
pub open spec fn scan_rows(v: ScreenView, i: int, delta: isize, steps: int) -> Option<int>
    decreases steps,
{
    if steps <= 0 {
        None
    } else {
        let n = step_index(i, delta, visible(v).len() as int);
        if row_at(v, visible(v)[n]).options.len() > 0 {
            Some(n)
        } else {
            scan_rows(v, n, delta, steps - 1)
        }
    }
}

pub open spec fn index_of_row(vs: Seq<VisibleRow>, r: VisibleRow) -> Option<int>
    decreases vs.len(),
{
    if vs.len() == 0 {
        None
    } else {
        match index_of_row(vs.drop_last(), r) {
            Some(i) => Some(i),
            None => if vs.last() == r { Some(vs.len() - 1) } else { None },
        }
    }
}

/// Error texts of the managers whose planning failed, as `id: detail`.
pub open spec fn error_details(ms: Seq<ManagerView>) -> Seq<Seq<char>>
    decreases ms.len(),
{
    if ms.len() == 0 {
        Seq::empty()
    } else {
        let head = error_details(ms.drop_last());
        match ms.last().status {
            StatusView::Error(d) => head.push(ms.last().id + ": "@ + d),
            _ => head,
        }
    }
}

/// Why planning cannot be confirmed, if it failed anywhere.
pub open spec fn planning_error(v: ScreenView) -> Option<Seq<char>> {
    match v.planning_failure {
        Some(d) => Some(d),
        None => {
            let ds = error_details(v.managers);
            if ds.len() == 0 {
                None
            } else {
                Some(crate::notes::joined(ds, "; "@))
            }
        },
    }
}

impl InteractiveSelectionScreen {
    fn target_picker_initial_cursor(&self, vr: VisibleRow) -> (r: usize)
        requires
            row_exists(self@, vr),
        ensures
            r as int == initial_option(row_at(self@, vr), choice_for(self@.managers[vr.manager_idx as int].state, row_at(self@, vr).id)),
            row_at(self@, vr).options.len() > 0 ==> r < row_at(self@, vr).options.len(),
    {
        proof {
            self.lemma_manager_at(vr.manager_idx as int);
        }
        let row = self.row(vr);
        let selected = self.managers[vr.manager_idx].state.selected_target(&row.plan_item_id);
        let fallback = match first_option(row, None) {
            Some(i) => i,
            None => 0,
        };
        proof {
            lemma_first_matching(row@.options, UpdateChoice::Recommended);
        }
        match selected {
            Some(target) => {
                proof {
                    lemma_first_matching(row@.options, choice_view(*target));
                }
                match first_option(row, Some(target)) {
                    Some(i) => i,
                    None => fallback,
                }
            },
            None => fallback,
        }
    }

    fn open_target_picker(&mut self)
        ensures
            final(self)@ == open_picker_view(old(self)@),
    {
        let Some(vr) = self.current_visible_row() else {
            return;
        };
        let count = self.row(vr).target_options.len();
        if count > 0 {
            let cursor = self.target_picker_initial_cursor(vr);
            self.target_picker = Some(TargetPickerState { visible_row: vr, cursor });
        }
    }

    fn move_picker_up(&mut self)
        requires
            screen_wf(old(self)@),
        ensures
            final(self)@ == picker_up_view(old(self)@),
    {
        let Some(picker) = self.target_picker else {
            return;
        };
        let count = self.row(picker.visible_row).target_options.len();
        let cursor = if picker.cursor == 0 { count - 1 } else { picker.cursor - 1 };
        self.target_picker = Some(TargetPickerState { visible_row: picker.visible_row, cursor });
    }

    fn move_picker_down(&mut self)
        requires
            screen_wf(old(self)@),
        ensures
            final(self)@ == picker_down_view(old(self)@),
    {
        let Some(picker) = self.target_picker else {
            return;
        };
        let count = self.row(picker.visible_row).target_options.len();
        let cursor = if picker.cursor >= count - 1 { 0 } else { picker.cursor + 1 };
        self.target_picker = Some(TargetPickerState { visible_row: picker.visible_row, cursor });
    }

    /// Moves the open picker to the next shown row (in the direction of
    /// `delta`) that has target options; the cursor follows.
    fn move_picker_to_row(&mut self, delta: isize)
        requires
            screen_wf(old(self)@),
        ensures
            screen_wf(final(self)@),
            final(self)@ == picker_row_view(old(self)@, delta),
    {
        let Some(picker) = self.target_picker else {
            return;
        };
        let ghost v = self@;
        let rows = self.visible_row_refs();
        proof {
            self.lemma_lengths();
            lemma_visible_valid(v, v.managers.len() as int);
        }
        let Some(current) = position_of(&rows, picker.visible_row) else {
            return;
        };
        let n = rows.len();
        let mut next = current;
        let mut steps: usize = 0;
        while steps < n
            invariant
                v == self@,
                v == old(self)@,
                screen_wf(v),
                v.picker == Some(picker),
                index_of_row(visible(v), picker.visible_row) == Some(current as int),
                rows@ == visible(v),
                n == rows@.len(),
                steps <= n,
                next < n,
                forall|i: int| 0 <= i < rows@.len() ==> row_exists(v, #[trigger] rows@[i]),
                scan_rows(v, current as int, delta, n as int) == scan_rows(v, next as int, delta, n - steps),
            decreases n - steps,
        {
            next = if delta < 0 {
                if next == 0 { n - 1 } else { next - 1 }
            } else if delta == 0 {
                next
            } else {
                if next >= n - 1 { 0 } else { next + 1 }
            };
            let row = rows[next];
            assert(row_exists(v, row));
            if self.row(row).target_options.len() > 0 {
                let cursor = self.target_picker_initial_cursor(row);
                self.cursor = Some(next);
                self.target_picker = Some(TargetPickerState { visible_row: row, cursor });
                proof {
                    assert(scan_rows(v, current as int, delta, n as int) == Some(next as int));
                    assert(visible(v)[next as int] == row);
                    assert(picker_on(v, row).cursor == cursor);
                }
                return;
            }
            steps = steps + 1;
        }
    }

    fn choose_recommended_target(&mut self) -> (r: Result<(), SelectionStateError>)
        requires
            screen_wf(old(self)@),
        ensures
            screen_wf(final(self)@),
            recommended_target_result(r, old(self)@, final(self)@),
    {
        let Some(picker) = self.target_picker else {
            return Ok(());
        };
        let ghost before = self@;
        let row = self.row(picker.visible_row);
        let id = row.plan_item_id.clone();
        if row_offers_kind(row, OptionKind::Recommended) {
            let r = self.state_recommend(picker.visible_row.manager_idx, &id);
            proof {
                self.lemma_wf_state(before, picker.visible_row.manager_idx as int);
            }
            if r.is_err() {
                return r;
            }
        }
        self.target_picker = None;
        Ok(())
    }

    /// After a state change on one manager the screen stays well formed,
    /// since rows do not change.
    proof fn lemma_wf_state(&self, before: ScreenView, mi: int)
        requires
            screen_wf(before),
            0 <= mi < before.managers.len(),
            self@ == with_state(before, mi, self@.managers[mi].state),
            self@.managers[mi].state.rows == before.managers[mi].state.rows,
        ensures
            screen_wf(self@),
    {
        self.lemma_wf_with_state(before, mi, self@.managers[mi].state);
    }

    fn confirm_picker_target(&mut self) -> (r: Result<(), SelectionStateError>)
        requires
            screen_wf(old(self)@),
        ensures
            screen_wf(final(self)@),
            confirm_target_result(r, old(self)@, final(self)@),
    {
        let Some(picker) = self.target_picker else {
            return Ok(());
        };
        let ghost before = self@;
        let mi = picker.visible_row.manager_idx;
        let row = self.row(picker.visible_row);
        let id = row.plan_item_id.clone();
        let option = &row.target_options[picker.cursor];
        assert(row@.options[picker.cursor as int] == option@);
        let r = match option {
            TargetOption::Recommended { .. } => self.state_recommend(mi, &id),
            TargetOption::ForcedCandidate { .. } => self.state_force(mi, &id),
            TargetOption::AlternateExact { target_version, .. } => {
                let version = target_version.clone();
                self.state_exact(mi, &id, version)
            },
            TargetOption::ManagerResolved { .. } => self.state_resolved(mi, &id),
        };
        proof {
            self.lemma_wf_state(before, mi as int);
        }
        if r.is_err() {
            return r;
        }
        self.target_picker = None;
        Ok(())
    }

    fn planning_error_detail(&self) -> (r: Option<String>)
        ensures
            match r {
                Some(s) => planning_error(self@) == Some(s@),
                None => planning_error(self@) is None,
            },
    {
        if let Some(detail) = &self.planning_failure {
            return Some(detail.clone());
        }
        let ghost ms = self@.managers;
        let mut out = String::new();
        let mut count: usize = 0;
        let mut i: usize = 0;
        assert(ms.take(0) =~= Seq::<ManagerView>::empty());
        while i < self.managers.len()
            invariant
                i <= self.managers@.len(),
                ms == self@.managers,
                ms.len() == self.managers@.len(),
                count == error_details(ms.take(i as int)).len(),
                count <= i,
                out@ == crate::notes::joined(error_details(ms.take(i as int)), "; "@),
            decreases self.managers@.len() - i,
        {
            assert(ms.take(i + 1).drop_last() =~= ms.take(i as int));
            proof {
                self.lemma_manager_at(i as int);
            }
            if let ManagerPlanningStatus::Error { detail } = &self.managers[i].planning_status {
                let a = concat(self.managers[i].manager_id.as_str(), ": ");
                let text = concat(a.as_str(), detail.as_str());
                let ghost before = out@;
                let ghost ds = error_details(ms.take(i as int));
                if count > 0 {
                    out.append("; ");
                }
                out.append(text.as_str());
                count = count + 1;
                proof {
                    let ds2 = error_details(ms.take(i + 1));
                    assert(ds2 == ds.push(text@));
                    assert(ds2.drop_last() =~= ds);
                    if ds.len() == 0 {
                        assert(crate::notes::joined(ds2, "; "@) == ds2[0]);
                    }
                }
            }
            i = i + 1;
        }
        assert(ms.take(ms.len() as int) =~= ms);
        if count == 0 {
            None
        } else {
            Some(out)
        }
    }
}

/// The first option of the row standing for `target` (the recommended one
/// when no target is given).
fn first_option(row: &SelectionRow, target: Option<&SelectedUpdate>) -> (r: Option<usize>)
    ensures
        r matches Some(i) ==> (i as int) < row@.options.len(),
        (match r {
            Some(i) => Some(i as int),
            None => None,
        }) == first_matching(row@.options, match target {
            Some(t) => choice_view(*t),
            None => UpdateChoice::Recommended,
        }),
{
    let ghost c = match target {
        Some(t) => choice_view(*t),
        None => UpdateChoice::Recommended,
    };
    let ghost opts = row@.options;
    let mut i: usize = 0;
    assert(opts.skip(0) =~= opts);
    while i < row.target_options.len()
        invariant
            i <= row.target_options@.len(),
            opts == row@.options,
            opts.len() == row.target_options@.len(),
            c == match target {
                Some(t) => choice_view(*t),
                None => UpdateChoice::Recommended,
            },
            first_matching(opts, c) == (match first_matching(opts.skip(i as int), c) {
                Some(j) => Some(j + i),
                None => None,
            }),
        decreases row.target_options@.len() - i,
    {
        let o = &row.target_options[i];
        assert(opts[i as int] == o@);
        assert(opts.skip(i as int)[0] == o@);
        assert(opts.skip(i as int).drop_first() =~= opts.skip(i + 1));
        let m = match (o, target) {
            (TargetOption::Recommended { .. }, None) => true,
            (TargetOption::Recommended { .. }, Some(SelectedUpdate::Recommended)) => true,
            (TargetOption::ForcedCandidate { .. }, Some(SelectedUpdate::ForcePlannedCandidate)) => true,
            (TargetOption::ManagerResolved { .. }, Some(SelectedUpdate::ManagerResolved)) => true,
            (TargetOption::AlternateExact { target_version, .. }, Some(SelectedUpdate::Exact { target_version: chosen })) => target_version.same(chosen),
            _ => false,
        };
        if m {
            return Some(i);
        }
        i = i + 1;
    }
    None
}

/// The position of `r` among `rows`.
fn position_of(rows: &Vec<VisibleRow>, r: VisibleRow) -> (i: Option<usize>)
    ensures
        (match i {
            Some(i) => Some(i as int),
            None => None,
        }) == index_of_row(rows@, r),
        i matches Some(k) ==> k < rows@.len(),
{
    let mut k: usize = 0;
    while k < rows.len()
        invariant
            k <= rows@.len(),
            index_of_row(rows@.take(k as int), r) is None,
        decreases rows@.len() - k,
    {
        assert(rows@.take(k + 1).drop_last() =~= rows@.take(k as int));
        if rows[k] == r {
            proof {
                lemma_index_of_row_prefix(rows@, k as int);
            }
            return Some(k);
        }
        k = k + 1;
    }
    assert(rows@.take(rows@.len() as int) =~= rows@);
    None
}

proof fn lemma_index_of_row_prefix(vs: Seq<VisibleRow>, k: int)
    requires
        0 <= k < vs.len(),
        index_of_row(vs.take(k), vs[k]) is None,
    ensures
        index_of_row(vs, vs[k]) == Some(k),
    decreases vs.len(),
{
    if k < vs.len() - 1 {
        assert(vs.drop_last().take(k) =~= vs.take(k));
        assert(vs.drop_last()[k] == vs[k]);
        lemma_index_of_row_prefix(vs.drop_last(), k);
    } else {
        assert(vs.take(k) =~= vs.drop_last());
    }
}

pub open spec fn as_unit(r: Result<SelectionControl, SelectionStateError>) -> Result<(), SelectionStateError> {
    match r {
        Ok(_) => Ok(()),
        Err(e) => Err(e),
    }
}

/// The screen after "view all" is toggled.
pub open spec fn view_all_view(before: ScreenView) -> ScreenView {
    ScreenView { table_offset: 0, ..clamped(ScreenView { show_all: !before.show_all, ..before }) }
}

pub open spec fn next_tab_index(v: ScreenView) -> usize {
    ((v.active_tab + 1) % tabs(v.managers).len() as int) as usize
}

pub open spec fn previous_tab_index(v: ScreenView) -> usize {
    if v.active_tab == 0 {
        (tabs(v.managers).len() - 1) as usize
    } else {
        (v.active_tab - 1) as usize
    }
}

pub open spec fn continues(r: Result<SelectionControl, SelectionStateError>) -> bool {
    r matches Ok(c) ==> c == SelectionControl::Continue
}

/// What one input does. With the target picker open only picker inputs,
/// cancel and interrupt act; otherwise the cursor, tabs, selection, "view
/// all", the picker and the confirmation step respond.
pub open spec fn input_result(
    r: Result<SelectionControl, SelectionStateError>,
    before: ScreenView,
    after: ScreenView,
    input: SelectionInput,
) -> bool {
    let unchanged = r == Ok::<SelectionControl, SelectionStateError>(SelectionControl::Continue) && after == before;
    if before.picker is Some {
        match input {
            SelectionInput::PickerCancel => r == Ok::<SelectionControl, SelectionStateError>(SelectionControl::Continue)
                && after == (ScreenView { picker: None, ..before }),
            SelectionInput::Cancel => r == Ok::<SelectionControl, SelectionStateError>(SelectionControl::Cancel) && after == before,
            SelectionInput::Interrupt => r == Ok::<SelectionControl, SelectionStateError>(SelectionControl::Interrupt) && after == before,
            SelectionInput::PickerUp => r == Ok::<SelectionControl, SelectionStateError>(SelectionControl::Continue) && after == picker_up_view(before),
            SelectionInput::PickerDown => r == Ok::<SelectionControl, SelectionStateError>(SelectionControl::Continue) && after == picker_down_view(before),
            SelectionInput::PickerPreviousRow => r == Ok::<SelectionControl, SelectionStateError>(SelectionControl::Continue) && after == picker_row_view(before, -1isize),
            SelectionInput::PickerNextRow => r == Ok::<SelectionControl, SelectionStateError>(SelectionControl::Continue) && after == picker_row_view(before, 1isize),
            SelectionInput::RecommendedTarget => continues(r) && recommended_target_result(as_unit(r), before, after),
            SelectionInput::PickerConfirm => continues(r) && confirm_target_result(as_unit(r), before, after),
            _ => unchanged,
        }
    } else {
        match input {
            SelectionInput::Up => r == Ok::<SelectionControl, SelectionStateError>(SelectionControl::Continue) && after == cursor_up_view(before),
            SelectionInput::Down => r == Ok::<SelectionControl, SelectionStateError>(SelectionControl::Continue) && after == cursor_down_view(before),
            SelectionInput::NextTab => r == Ok::<SelectionControl, SelectionStateError>(SelectionControl::Continue) && after == after_tab_change(before, next_tab_index(before)),
            SelectionInput::PreviousTab => r == Ok::<SelectionControl, SelectionStateError>(SelectionControl::Continue) && after == after_tab_change(before, previous_tab_index(before)),
            SelectionInput::ToggleCurrent => continues(r) && toggle_result(as_unit(r), before, after),
            SelectionInput::SelectVisible => continues(r) && select_visible_result(as_unit(r), before, after, true),
            SelectionInput::SelectNoneVisible => continues(r) && select_visible_result(as_unit(r), before, after, false),
            SelectionInput::ToggleViewAll => r == Ok::<SelectionControl, SelectionStateError>(SelectionControl::Continue) && after == view_all_view(before),
            SelectionInput::OpenTargetPicker => r == Ok::<SelectionControl, SelectionStateError>(SelectionControl::Continue) && after == open_picker_view(before),
            SelectionInput::Confirm => if before.planning_finished {
                match planning_error(before) {
                    Some(d) => (r matches Err(SelectionStateError::PlanningFailed(s)) && s@ == d) && after == before,
                    None => r == Ok::<SelectionControl, SelectionStateError>(SelectionControl::Continue) && after == (ScreenView { dialog_open: true, ..before }),
                }
            } else {
                unchanged
            },
            SelectionInput::Cancel => r == Ok::<SelectionControl, SelectionStateError>(SelectionControl::Cancel) && after == before,
            SelectionInput::Interrupt => r == Ok::<SelectionControl, SelectionStateError>(SelectionControl::Interrupt) && after == before,
            _ => unchanged,
        }
    }
}

proof fn lemma_initial_option_bound(row: RowView, choice: Option<UpdateChoice>)
    requires
        row.options.len() > 0,
    ensures
        0 <= initial_option(row, choice) < row.options.len(),
{
    lemma_first_matching(row.options, UpdateChoice::Recommended);
    if let Some(c) = choice {
        lemma_first_matching(row.options, c);
    }
}

impl InteractiveSelectionScreen {
    fn handle_picker_input(&mut self, input: SelectionInput) -> (r: Result<SelectionControl, SelectionStateError>)
        requires
            screen_wf(old(self)@),
            old(self)@.picker is Some,
        ensures
            screen_wf(final(self)@),
            input_result(r, old(self)@, final(self)@, input),
    {
        match input {
            SelectionInput::PickerCancel => {
                self.target_picker = None;
            },
            SelectionInput::Cancel => return Ok(SelectionControl::Cancel),
            SelectionInput::Interrupt => return Ok(SelectionControl::Interrupt),
            SelectionInput::PickerUp => {
                self.move_picker_up();
            },
            SelectionInput::PickerDown => {
                self.move_picker_down();
            },
            SelectionInput::PickerPreviousRow => self.move_picker_to_row(-1),
            SelectionInput::PickerNextRow => self.move_picker_to_row(1),
            SelectionInput::RecommendedTarget => {
                if let Err(e) = self.choose_recommended_target() {
                    return Err(e);
                }
            },
            SelectionInput::PickerConfirm => {
                if let Err(e) = self.confirm_picker_target() {
                    return Err(e);
                }
            },
            _ => {},
        }
        Ok(SelectionControl::Continue)
    }

    /// Applies one input. Returns what the event loop does next, or why the
    /// input was refused.
    pub fn handle_input(&mut self, input: SelectionInput) -> (r: Result<SelectionControl, SelectionStateError>)
        requires
            screen_wf(old(self)@),
        ensures
            screen_wf(final(self)@),
            input_result(r, old(self)@, final(self)@, input),
    {
        if self.target_picker.is_some() {
            return self.handle_picker_input(input);
        }
        let ghost before = self@;
        proof {
            self.lemma_lengths();
        }
        match input {
            SelectionInput::Up => self.move_cursor_up(),
            SelectionInput::Down => self.move_cursor_down(),
            SelectionInput::NextTab => self.next_tab(),
            SelectionInput::PreviousTab => self.previous_tab(),
            SelectionInput::ToggleCurrent => {
                let r = self.toggle_current();
                proof {
                    if let Some(vr) = current_row(before) {
                        lemma_visible_valid(before, before.managers.len() as int);
                        self.lemma_wf_with_state(before, vr.manager_idx as int, self@.managers[vr.manager_idx as int].state);
                    }
                }
                if let Err(e) = r {
                    return Err(e);
                }
            },
            SelectionInput::SelectVisible => {
                if let Err(e) = self.select_visible(true) {
                    return Err(e);
                }
            },
            SelectionInput::SelectNoneVisible => {
                if let Err(e) = self.select_visible(false) {
                    return Err(e);
                }
            },
            SelectionInput::ToggleViewAll => {
                self.show_all = !self.show_all;
                self.clamp_cursor();
                self.table_offset = 0;
            },
            SelectionInput::OpenTargetPicker => {
                self.open_target_picker();
                proof {
                    if let Some(vr) = current_row(before) {
                        lemma_visible_valid(before, before.managers.len() as int);
                        if row_at(before, vr).options.len() > 0 {
                            lemma_initial_option_bound(row_at(before, vr), choice_for(before.managers[vr.manager_idx as int].state, row_at(before, vr).id));
                        }
                    }
                }
            },
            SelectionInput::Confirm => {
                if self.planning_finished {
                    if let Some(detail) = self.planning_error_detail() {
                        return Err(SelectionStateError::PlanningFailed(detail));
                    }
                    self.confirmation_dialog = true;
                }
            },
            SelectionInput::Cancel => return Ok(SelectionControl::Cancel),
            SelectionInput::Interrupt => return Ok(SelectionControl::Interrupt),
            _ => {},
        }
        Ok(SelectionControl::Continue)
    }
}

/// `items` lists exactly the chosen rows, in row-id order, with their
/// targets.
pub open spec fn lists_choices(items: Seq<SelectedItem>, choices: Map<Seq<char>, UpdateChoice>) -> bool {
    &&& forall|i: int, j: int| 0 <= i < j < items.len() ==> crate::text::seq_less(#[trigger] items[i].plan_item_id@, #[trigger] items[j].plan_item_id@)
    &&& forall|i: int| 0 <= i < items.len() ==> choices.dom().contains((#[trigger] items[i]).plan_item_id@)
        && choices[items[i].plan_item_id@] == choice_view(items[i].selected_update)
    &&& forall|k: Seq<char>| #[trigger] choices.dom().contains(k) ==> exists|i: int| 0 <= i < items.len() && (#[trigger] items[i]).plan_item_id@ == k
}

/// The rows the table shows, as rows.
pub open spec fn visible_row_views(v: ScreenView) -> Seq<RowView> {
    visible(v).map_values(|vr: VisibleRow| row_at(v, vr))
}

/// Some row anywhere can be updated, or forced.
pub open spec fn has_selectable(v: ScreenView) -> bool {
    exists|m: int, i: int|
        0 <= m < v.managers.len() && 0 <= i < v.managers[m].state.rows.len() && {
            let row = #[trigger] v.managers[m].state.rows[i];
            row.status == SelectionRowStatus::Update || offers(row, OptionKind::ForcedCandidate, None)
        }
}

pub open spec fn manager_placeholder(m: ManagerView) -> Seq<char> {
    match m.status {
        StatusView::Waiting => "Waiting to plan"@,
        StatusView::Planning => "Planning..."@,
        StatusView::Error(d) => d,
        _ => if m.issues.len() > 0 { m.issues[0] } else { "No selectable updates"@ },
    }
}

pub open spec fn any_status(ms: Seq<ManagerView>, s: StatusView) -> bool {
    exists|i: int| 0 <= i < ms.len() && (#[trigger] ms[i]).status == s
}

/// The first manager note among errors and planning issues, in manager
/// order.
pub open spec fn first_manager_note(ms: Seq<ManagerView>) -> Option<Seq<char>>
    decreases ms.len(),
{
    if ms.len() == 0 {
        None
    } else {
        match ms[0].status {
            StatusView::Error(d) => Some(ms[0].id + ": "@ + d),
            _ => if ms[0].issues.len() > 0 {
                Some(ms[0].id + ": "@ + ms[0].issues[0])
            } else {
                first_manager_note(ms.drop_first())
            },
        }
    }
}

/// What the table says when it has no rows.
pub open spec fn placeholder(v: ScreenView) -> Option<Seq<char>> {
    if visible(v).len() > 0 {
        None
    } else if v.planning_failure is Some {
        v.planning_failure
    } else if active_manager(v) is Some {
        Some(manager_placeholder(v.managers[active_manager(v)->0]))
    } else if any_status(v.managers, StatusView::Planning) {
        Some("Planning..."@)
    } else if any_status(v.managers, StatusView::Waiting) {
        Some("Waiting to plan"@)
    } else {
        match first_manager_note(v.managers) {
            Some(n) => Some(n),
            None => Some("No selectable updates"@),
        }
    }
}

fn issue_label(issue: &PlanIssue) -> (r: String)
    ensures
        r@ == issue_text(*issue),
{
    match issue {
        PlanIssue::DiscoveryFailed { detail } => detail.clone(),
    }
}

impl InteractiveSelectionScreen {
    /// Each manager's selected rows and selection rule, in manager order.
    pub fn selection_drafts(&self) -> (r: Vec<InteractiveManagerSelectionDraft>)
        ensures
            r@.len() == self@.managers.len(),
            forall|i: int| 0 <= i < r@.len() ==> {
                let d = #[trigger] r@[i];
                let m = self@.managers[i];
                &&& d.manager_id@ == m.id
                &&& lists_choices(d.selected_items@, m.state.choices)
                &&& d.selection_policy.mode == m.state.policy.mode
                &&& d.selection_policy.except@ == m.state.policy.except@
            },
    {
        let mut r: Vec<InteractiveManagerSelectionDraft> = Vec::new();
        let mut i: usize = 0;
        while i < self.managers.len()
            invariant
                i <= self.managers@.len(),
                r@.len() == i,
                forall|k: int| 0 <= k < i ==> {
                    let d = #[trigger] r@[k];
                    let m = self@.managers[k];
                    &&& d.manager_id@ == m.id
                    &&& lists_choices(d.selected_items@, m.state.choices)
                    &&& d.selection_policy.mode == m.state.policy.mode
                    &&& d.selection_policy.except@ == m.state.policy.except@
                },
            decreases self.managers@.len() - i,
        {
            proof {
                self.lemma_manager_at(i as int);
            }
            let m = &self.managers[i];
            let d = InteractiveManagerSelectionDraft {
                manager_id: m.manager_id.clone(),
                selected_items: m.state.selected_items(),
                selection_policy: m.state.selection_policy().clone(),
            };
            r.push(d);
            i = i + 1;
        }
        r
    }

    /// The options of the open target picker; none when it is closed.
    pub fn target_picker_options(&self) -> (r: Vec<TargetOption>)
        requires
            screen_wf(self@),
        ensures
            crate::selection_view::options_view(r@) == match self@.picker {
                Some(p) => row_at(self@, p.visible_row).options,
                None => Seq::empty(),
            },
    {
        let Some(picker) = self.target_picker else {
            let r: Vec<TargetOption> = Vec::new();
            assert(crate::selection_view::options_view(r@) =~= Seq::<OptionView>::empty());
            return r;
        };
        let row = self.row(picker.visible_row);
        clone_options(&row.target_options)
    }

    /// The rows the table shows, in order.
    pub fn visible_rows(&self) -> (r: Vec<SelectionRow>)
        ensures
            rows_view(r@) == visible_row_views(self@),
    {
        let vs = self.visible_row_refs();
        proof {
            self.lemma_lengths();
            lemma_visible_valid(self@, self@.managers.len() as int);
        }
        let mut r: Vec<SelectionRow> = Vec::new();
        let mut i: usize = 0;
        while i < vs.len()
            invariant
                i <= vs@.len(),
                vs@ == visible(self@),
                forall|k: int| 0 <= k < vs@.len() ==> row_exists(self@, #[trigger] vs@[k]),
                r@.len() == i,
                forall|k: int| 0 <= k < i ==> (#[trigger] r@[k])@ == row_at(self@, vs@[k]),
            decreases vs@.len() - i,
        {
            assert(row_exists(self@, vs@[i as int]));
            r.push(self.row(vs[i]).clone());
            i = i + 1;
        }
        assert(rows_view(r@) =~= visible_row_views(self@));
        r
    }

    /// Whether any row of any manager can be selected or forced.
    pub fn has_selectable_rows(&self) -> (r: bool)
        ensures
            r == has_selectable(self@),
    {
        let mut m: usize = 0;
        while m < self.managers.len()
            invariant
                m <= self.managers@.len(),
                self@.managers.len() == self.managers@.len(),
                forall|a: int, i: int| 0 <= a < m && 0 <= i < self@.managers[a].state.rows.len() ==> {
                    let row = #[trigger] self@.managers[a].state.rows[i];
                    !(row.status == SelectionRowStatus::Update || offers(row, OptionKind::ForcedCandidate, None))
                },
            decreases self.managers@.len() - m,
        {
            proof {
                self.lemma_manager_at(m as int);
            }
            let rows = self.managers[m].state.rows();
            let mut i: usize = 0;
            while i < rows.len()
                invariant
                    m < self.managers@.len(),
                    rows_view(rows@) == self@.managers[m as int].state.rows,
                    i <= rows@.len(),
                    forall|j: int| 0 <= j < i ==> {
                        let row = #[trigger] self@.managers[m as int].state.rows[j];
                        !(row.status == SelectionRowStatus::Update || offers(row, OptionKind::ForcedCandidate, None))
                    },
                decreases rows@.len() - i,
            {
                assert(rows@[i as int]@ == self@.managers[m as int].state.rows[i as int]);
                if rows[i].status == SelectionRowStatus::Update || row_offers_kind(&rows[i], OptionKind::ForcedCandidate) {
                    assert(self@.managers[m as int].state.rows[i as int] == rows@[i as int]@);
                    return true;
                }
                i = i + 1;
            }
            m = m + 1;
        }
        false
    }

    fn any_manager_with(&self, waiting: bool) -> (r: bool)
        ensures
            r == any_status(self@.managers, if waiting { StatusView::Waiting } else { StatusView::Planning }),
    {
        let mut i: usize = 0;
        while i < self.managers.len()
            invariant
                i <= self.managers@.len(),
                self@.managers.len() == self.managers@.len(),
                forall|k: int| 0 <= k < i ==> (#[trigger] self@.managers[k]).status != (if waiting { StatusView::Waiting } else { StatusView::Planning }),
            decreases self.managers@.len() - i,
        {
            proof {
                self.lemma_manager_at(i as int);
            }
            let hit = match self.managers[i].planning_status {
                ManagerPlanningStatus::Waiting => waiting,
                ManagerPlanningStatus::Planning => !waiting,
                _ => false,
            };
            if hit {
                return true;
            }
            i = i + 1;
        }
        false
    }

    fn manager_note(&self, m: usize) -> (r: String)
        requires
            m < self@.managers.len(),
        ensures
            r@ == manager_placeholder(self@.managers[m as int]),
    {
        proof {
            self.lemma_manager_at(m as int);
        }
        let manager = &self.managers[m];
        match &manager.planning_status {
            ManagerPlanningStatus::Waiting => "Waiting to plan".to_owned(),
            ManagerPlanningStatus::Planning => "Planning...".to_owned(),
            ManagerPlanningStatus::Error { detail } => detail.clone(),
            _ => if manager.issues.len() > 0 {
                issue_label(&manager.issues[0])
            } else {
                "No selectable updates".to_owned()
            },
        }
    }

    /// What the table shows in place of rows, when it has none.
    pub fn placeholder_message(&self) -> (r: Option<String>)
        ensures
            match r {
                Some(s) => placeholder(self@) == Some(s@),
                None => placeholder(self@) is None,
            },
    {
        if self.visible_row_refs().len() > 0 {
            return None;
        }
        if let Some(detail) = &self.planning_failure {
            return Some(detail.clone());
        }
        if let Some(m) = self.active_manager_idx() {
            return Some(self.manager_note(m));
        }
        if self.any_manager_with(false) {
            return Some("Planning...".to_owned());
        }
        if self.any_manager_with(true) {
            return Some("Waiting to plan".to_owned());
        }
        let ghost ms = self@.managers;
        let mut i: usize = 0;
        assert(ms.skip(0) =~= ms);
        assert(placeholder(self@) == match first_manager_note(ms) {
            Some(n) => Some(n),
            None => Some("No selectable updates"@),
        });
        while i < self.managers.len()
            invariant
                i <= self.managers@.len(),
                ms == self@.managers,
                ms.len() == self.managers@.len(),
                first_manager_note(ms) == first_manager_note(ms.skip(i as int)),
                placeholder(self@) == match first_manager_note(ms) {
                    Some(n) => Some(n),
                    None => Some("No selectable updates"@),
                },
            decreases self.managers@.len() - i,
        {
            proof {
                self.lemma_manager_at(i as int);
                assert(ms.skip(i as int)[0] == ms[i as int]);
                assert(ms.skip(i as int).drop_first() =~= ms.skip(i + 1));
            }
            let manager = &self.managers[i];
            if let ManagerPlanningStatus::Error { detail } = &manager.planning_status {
                let a = concat(manager.manager_id.as_str(), ": ");
                return Some(concat(a.as_str(), detail.as_str()));
            }
            if manager.issues.len() > 0 {
                let a = concat(manager.manager_id.as_str(), ": ");
                let label = issue_label(&manager.issues[0]);
                return Some(concat(a.as_str(), label.as_str()));
            }
            i = i + 1;
        }
        assert(ms.skip(ms.len() as int) =~= Seq::<ManagerView>::empty());
        Some("No selectable updates".to_owned())
    }
}

// ---------------------------------------------------------------------------
// Planning events
// ---------------------------------------------------------------------------

/// The first manager with id `id`.
pub open spec fn manager_index(ms: Seq<ManagerView>, id: Seq<char>) -> Option<int>
    decreases ms.len(),
{
    if ms.len() == 0 {
        None
    } else {
        match manager_index(ms.drop_last(), id) {
            Some(i) => Some(i),
            None => if ms.last().id == id { Some(ms.len() - 1) } else { None },
        }
    }
}

/// Where the manager with id `id` goes: its current place, else the end.
pub open spec fn manager_slot(ms: Seq<ManagerView>, id: Seq<char>) -> int {
    match manager_index(ms, id) {
        Some(i) => i,
        None => ms.len() as int,
    }
}

/// `after` is `before` with the manager `id` replaced, or appended.
pub open spec fn replaced_at(before: Seq<ManagerView>, after: Seq<ManagerView>, id: Seq<char>) -> bool {
    let j = manager_slot(before, id);
    &&& after.len() == if j < before.len() { before.len() } else { before.len() + 1 }
    &&& forall|i: int| 0 <= i < before.len() && i != j ==> #[trigger] after[i] == before[i]
}

/// How a planning event changes the managers.
pub open spec fn event_managers(before: Seq<ManagerView>, after: Seq<ManagerView>, e: InteractiveSelectionPlanningEvent) -> bool {
    match e {
        InteractiveSelectionPlanningEvent::ManagerStarted { manager_id } => {
            let m = after[manager_slot(before, manager_id@)];
            &&& replaced_at(before, after, manager_id@)
            &&& m.id == manager_id@
            &&& m.version_policy == VersionPolicy::Unfiltered
            &&& m.issues.len() == 0
            &&& m.status == StatusView::Planning
            &&& m.state.rows.len() == 0
            &&& m.state.choices.dom().is_empty()
            &&& m.state.policy.mode == crate::selection::UpdateSelectionMode::Include
            &&& m.state.policy.except@.len() == 0
        },
        InteractiveSelectionPlanningEvent::ManagerReady { view, issues, selection_policy, version_policy } => {
            let m = after[manager_slot(before, view.manager_id@)];
            &&& replaced_at(before, after, view.manager_id@)
            &&& m.id == view.manager_id@
            &&& m.version_policy == version_policy
            &&& m.issues == issues@.map_values(|x: PlanIssue| issue_text(x))
            &&& m.status == (if view.rows@.len() == 0 { StatusView::Empty } else { StatusView::Ready })
            &&& starts_from(m.state, view.rows@, selection_policy)
        },
        InteractiveSelectionPlanningEvent::ManagerError { manager_id, detail } => {
            let j = manager_slot(before, manager_id@);
            let m = after[j];
            &&& replaced_at(before, after, manager_id@)
            &&& m.id == manager_id@
            &&& m.issues.len() == 0
            &&& m.status == StatusView::Error(detail@)
            &&& m.state.rows.len() == 0
            &&& m.state.choices.dom().is_empty()
            &&& if j < before.len() {
                &&& m.version_policy == before[j].version_policy
                &&& m.state.policy.mode == before[j].state.policy.mode
                &&& m.state.policy.except@ == before[j].state.policy.except@
            } else {
                &&& m.version_policy == VersionPolicy::Unfiltered
                &&& m.state.policy.mode == crate::selection::UpdateSelectionMode::Include
                &&& m.state.policy.except@.len() == 0
            }
        },
        InteractiveSelectionPlanningEvent::PlanningFailed { detail } => {
            &&& after.len() == before.len()
            &&& forall|i: int| 0 <= i < before.len() ==> #[trigger] after[i] == if before[i].status is Waiting || before[i].status is Planning {
                ManagerView { status: StatusView::Error(detail@), ..before[i] }
            } else {
                before[i]
            }
        },
        _ => after == before,
    }
}

/// The screen right after an event, before tabs, cursor and picker settle.
pub open spec fn event_base(before: ScreenView, ms: Seq<ManagerView>, e: InteractiveSelectionPlanningEvent) -> ScreenView {
    match e {
        InteractiveSelectionPlanningEvent::CommandStarted { command } => ScreenView {
            managers: ms,
            command_log: before.command_log.push(command@),
            command_log_scroll: if before.command_log_scroll == 0 {
                0
            } else if before.command_log_scroll == usize::MAX {
                usize::MAX
            } else {
                (before.command_log_scroll + 1) as usize
            },
            ..before
        },
        InteractiveSelectionPlanningEvent::PlanningFailed { detail } => ScreenView {
            managers: ms,
            planning_finished: true,
            planning_failure: Some(detail@),
            ..before
        },
        InteractiveSelectionPlanningEvent::Finished => ScreenView { managers: ms, planning_finished: true, ..before },
        _ => ScreenView { managers: ms, ..before },
    }
}

pub enum TabIdentity {
    All,
    Manager(Seq<char>),
}

/// Which tab is active, by manager id rather than position.
pub open spec fn tab_identity(v: ScreenView) -> Option<TabIdentity> {
    let t = tabs(v.managers);
    if v.active_tab < t.len() {
        match t[v.active_tab as int] {
            SelectionTabRef::All => Some(TabIdentity::All),
            SelectionTabRef::Manager(i) => Some(TabIdentity::Manager(v.managers[i as int].id)),
        }
    } else {
        None
    }
}

pub open spec fn tab_matches(ms: Seq<ManagerView>, t: SelectionTabRef, ident: TabIdentity) -> bool {
    match (ident, t) {
        (TabIdentity::All, SelectionTabRef::All) => true,
        (TabIdentity::Manager(id), SelectionTabRef::Manager(i)) => ms[i as int].id == id,
        _ => false,
    }
}

/// The first tab with that identity.
pub open spec fn tab_position_in(ms: Seq<ManagerView>, ts: Seq<SelectionTabRef>, ident: TabIdentity) -> Option<int>
    decreases ts.len(),
{
    if ts.len() == 0 {
        None
    } else {
        match tab_position_in(ms, ts.drop_last(), ident) {
            Some(i) => Some(i),
            None => if tab_matches(ms, ts.last(), ident) { Some(ts.len() - 1) } else { None },
        }
    }
}

/// The first shown row with row id `id`.
pub open spec fn first_visible_with(v: ScreenView, id: Seq<char>) -> Option<int> {
    first_row_with(v, visible(v), id)
}

pub open spec fn first_row_with(v: ScreenView, vs: Seq<VisibleRow>, id: Seq<char>) -> Option<int>
    decreases vs.len(),
{
    if vs.len() == 0 {
        None
    } else {
        match first_row_with(v, vs.drop_last(), id) {
            Some(i) => Some(i),
            None => if row_at(v, vs.last()).id == id { Some(vs.len() - 1) } else { None },
        }
    }
}

/// The row the user is on: the picker's row, else the cursor's.
pub open spec fn focus_id(v: ScreenView) -> Option<Seq<char>> {
    match v.picker {
        Some(p) => Some(row_at(v, p.visible_row).id),
        None => match current_row(v) {
            Some(vr) => Some(row_at(v, vr).id),
            None => None,
        },
    }
}

/// After an event the same tab stays active and the cursor stays on the
/// same row, where they still exist; then both are pulled into range, and
/// an open picker follows its row or closes.
pub open spec fn settled(before: ScreenView, base: ScreenView) -> ScreenView {
    let tab = match tab_identity(before) {
        Some(t) => match tab_position_in(base.managers, tabs(base.managers), t) {
            Some(p) => p as usize,
            None => base.active_tab,
        },
        None => base.active_tab,
    };
    let v2 = ScreenView { active_tab: tab, ..base };
    let cur = match focus_id(before) {
        Some(id) => match first_visible_with(v2, id) {
            Some(p) => Some(p as usize),
            None => v2.cursor,
        },
        None => v2.cursor,
    };
    let v4 = clamped(ScreenView { cursor: cur, ..v2 });
    let picker = match before.picker {
        None => v4.picker,
        Some(p) => match first_visible_with(v4, row_at(before, p.visible_row).id) {
            None => None,
            Some(k) => {
                let vr = visible(v4)[k];
                let count = row_at(v4, vr).options.len();
                if count == 0 {
                    None
                } else {
                    Some(TargetPickerState { visible_row: vr, cursor: if p.cursor >= count { (count - 1) as usize } else { p.cursor } })
                }
            },
        },
    };
    ScreenView { picker, ..v4 }
}

enum TabIdentityRef {
    All,
    Manager(ManagerId),
}

spec fn identity_view(t: Option<TabIdentityRef>) -> Option<TabIdentity> {
    match t {
        Some(TabIdentityRef::All) => Some(TabIdentity::All),
        Some(TabIdentityRef::Manager(id)) => Some(TabIdentity::Manager(id@)),
        None => None,
    }
}

impl InteractiveSelectionScreen {
    fn find_manager(&self, id: &ManagerId) -> (r: Option<usize>)
        ensures
            (match r {
                Some(i) => Some(i as int),
                None => None,
            }) == manager_index(self@.managers, id@),
            r matches Some(i) ==> i < self@.managers.len(),
    {
        let ghost ms = self@.managers;
        let mut i: usize = 0;
        assert(ms.take(0) =~= Seq::<ManagerView>::empty());
        while i < self.managers.len()
            invariant
                i <= self.managers@.len(),
                ms == self@.managers,
                ms.len() == self.managers@.len(),
                manager_index(ms.take(i as int), id@) is None,
            decreases self.managers@.len() - i,
        {
            proof {
                self.lemma_manager_at(i as int);
            }
            assert(ms.take(i + 1).drop_last() =~= ms.take(i as int));
            if self.managers[i].manager_id.same(id) {
                proof {
                    lemma_manager_index_prefix(ms, i as int);
                }
                return Some(i);
            }
            i = i + 1;
        }
        assert(ms.take(ms.len() as int) =~= ms);
        None
    }

    fn replace_manager_state(&mut self, manager: ManagerSelectionState)
        ensures
            replaced_at(old(self)@.managers, final(self)@.managers, manager.manager_id@),
            final(self)@.managers[manager_slot(old(self)@.managers, manager.manager_id@)] == manager_view(manager),
            final(self)@ == (ScreenView { managers: final(self)@.managers, ..old(self)@ }),
    {
        let ghost before = self.managers@;
        let ghost mv = manager_view(manager);
        match self.find_manager(&manager.manager_id) {
            Some(j) => {
                self.managers.set(j, manager);
                assert(self.managers@ == before.update(j as int, manager));
                assert(self@.managers =~= old(self)@.managers.update(j as int, mv));
            },
            None => {
                self.managers.push(manager);
                assert(self@.managers =~= old(self)@.managers.push(mv));
            },
        }
    }

    fn active_tab_identity(&self) -> (r: Option<TabIdentityRef>)
        ensures
            identity_view(r) == tab_identity(self@),
    {
        let ts = self.tab_refs();
        proof {
            self.lemma_lengths();
            lemma_manager_tabs_valid(self@.managers);
        }
        if self.active_tab < ts.len() {
            match ts[self.active_tab] {
                SelectionTabRef::All => Some(TabIdentityRef::All),
                SelectionTabRef::Manager(i) => {
                    assert(ts@[self.active_tab as int] == manager_tabs(self@.managers)[self.active_tab - 1]);
                    proof {
                        self.lemma_manager_at(i as int);
                    }
                    Some(TabIdentityRef::Manager(self.managers[i].manager_id.clone()))
                },
            }
        } else {
            None
        }
    }

    fn restore_active_tab(&mut self, identity: Option<TabIdentityRef>)
        ensures
            final(self)@ == (ScreenView {
                active_tab: match identity_view(identity) {
                    Some(t) => match tab_position_in(old(self)@.managers, tabs(old(self)@.managers), t) {
                        Some(p) => p as usize,
                        None => old(self)@.active_tab,
                    },
                    None => old(self)@.active_tab,
                },
                ..old(self)@
            }),
    {
        let Some(ident) = &identity else {
            return;
        };
        let ts = self.tab_refs();
        let ghost ms = self@.managers;
        proof {
            self.lemma_lengths();
            lemma_manager_tabs_valid(ms);
        }
        let mut k: usize = 0;
        assert(ts@.take(0) =~= Seq::<SelectionTabRef>::empty());
        while k < ts.len()
            invariant
                k <= ts@.len(),
                ts@ == tabs(ms),
                ms == self@.managers,
                self@ == old(self)@,
                identity == Some(*ident),
                ms.len() <= usize::MAX,
                forall|i: int| 0 <= i < ts@.len() ==> (#[trigger] ts@[i] matches SelectionTabRef::Manager(m) ==> m < ms.len()),
                tab_position_in(ms, ts@.take(k as int), identity_view(identity)->0) is None,
            decreases ts@.len() - k,
        {
            assert(ts@.take(k + 1).drop_last() =~= ts@.take(k as int));
            let hit = match (ident, ts[k]) {
                (TabIdentityRef::All, SelectionTabRef::All) => true,
                (TabIdentityRef::Manager(id), SelectionTabRef::Manager(i)) => {
                    proof {
                        if i >= 1 {
                        }
                        assert(i < ms.len());
                        self.lemma_manager_at(i as int);
                    }
                    self.managers[i].manager_id.same(id)
                },
                _ => false,
            };
            if hit {
                proof {
                    lemma_tab_position_prefix(ms, ts@, identity_view(identity)->0, k as int);
                }
                self.active_tab = k;
                return;
            }
            k = k + 1;
        }
        assert(ts@.take(ts@.len() as int) =~= ts@);
    }

    fn restore_cursor(&mut self, focused: Option<PlanItemId>)
        ensures
            final(self)@ == (ScreenView {
                cursor: match focused {
                    Some(id) => match first_visible_with(old(self)@, id@) {
                        Some(p) => Some(p as usize),
                        None => old(self)@.cursor,
                    },
                    None => old(self)@.cursor,
                },
                ..old(self)@
            }),
    {
        let Some(id) = focused else {
            return;
        };
        if let Some(p) = self.first_visible_row_with(&id) {
            self.cursor = Some(p);
        }
    }

    fn first_visible_row_with(&self, id: &PlanItemId) -> (r: Option<usize>)
        ensures
            (match r {
                Some(i) => Some(i as int),
                None => None,
            }) == first_visible_with(self@, id@),
            r matches Some(i) ==> i < visible(self@).len(),
    {
        let vs = self.visible_row_refs();
        proof {
            self.lemma_lengths();
            lemma_visible_valid(self@, self@.managers.len() as int);
        }
        let mut k: usize = 0;
        assert(vs@.take(0) =~= Seq::<VisibleRow>::empty());
        while k < vs.len()
            invariant
                k <= vs@.len(),
                vs@ == visible(self@),
                forall|i: int| 0 <= i < vs@.len() ==> row_exists(self@, #[trigger] vs@[i]),
                first_row_with(self@, vs@.take(k as int), id@) is None,
            decreases vs@.len() - k,
        {
            assert(vs@.take(k + 1).drop_last() =~= vs@.take(k as int));
            assert(row_exists(self@, vs@[k as int]));
            if self.row(vs[k]).plan_item_id.same(id) {
                proof {
                    lemma_first_row_prefix(self@, vs@, id@, k as int);
                }
                return Some(k);
            }
            k = k + 1;
        }
        assert(vs@.take(vs@.len() as int) =~= vs@);
        None
    }

    fn rebind_or_close_target_picker(&mut self, open_picker_row: Option<PlanItemId>)
        ensures
            final(self)@ == (ScreenView {
                picker: match (open_picker_row, old(self)@.picker) {
                    (Some(id), Some(p)) => match first_visible_with(old(self)@, id@) {
                        None => None,
                        Some(k) => {
                            let vr = visible(old(self)@)[k];
                            let count = row_at(old(self)@, vr).options.len();
                            if count == 0 {
                                None
                            } else {
                                Some(TargetPickerState { visible_row: vr, cursor: if p.cursor >= count { (count - 1) as usize } else { p.cursor } })
                            }
                        },
                    },
                    _ => old(self)@.picker,
                },
                ..old(self)@
            }),
            open_picker_row is Some ==> (final(self)@.picker matches Some(p) ==> row_exists(final(self)@, p.visible_row) && p.cursor < row_at(final(self)@, p.visible_row).options.len()),
    {
        let Some(id) = open_picker_row else {
            return;
        };
        let Some(picker) = self.target_picker else {
            return;
        };
        let Some(k) = self.first_visible_row_with(&id) else {
            self.target_picker = None;
            return;
        };
        let vs = self.visible_row_refs();
        proof {
            self.lemma_lengths();
            lemma_visible_valid(self@, self@.managers.len() as int);
        }
        let vr = vs[k];
        assert(row_exists(self@, vr));
        let count = self.row(vr).target_options.len();
        if count == 0 {
            self.target_picker = None;
            return;
        }
        let cursor = if picker.cursor >= count { count - 1 } else { picker.cursor };
        self.target_picker = Some(TargetPickerState { visible_row: vr, cursor });
    }
}

proof fn lemma_manager_index_prefix(ms: Seq<ManagerView>, i: int)
    requires
        0 <= i < ms.len(),
        manager_index(ms.take(i), ms[i].id) is None,
    ensures
        manager_index(ms, ms[i].id) == Some(i),
    decreases ms.len(),
{
    if i < ms.len() - 1 {
        assert(ms.drop_last().take(i) =~= ms.take(i));
        assert(ms.drop_last()[i] == ms[i]);
        lemma_manager_index_prefix(ms.drop_last(), i);
    } else {
        assert(ms.take(i) =~= ms.drop_last());
    }
}

proof fn lemma_tab_position_prefix(ms: Seq<ManagerView>, ts: Seq<SelectionTabRef>, ident: TabIdentity, k: int)
    requires
        0 <= k < ts.len(),
        tab_position_in(ms, ts.take(k), ident) is None,
        tab_matches(ms, ts[k], ident),
    ensures
        tab_position_in(ms, ts, ident) == Some(k),
    decreases ts.len(),
{
    if k < ts.len() - 1 {
        assert(ts.drop_last().take(k) =~= ts.take(k));
        assert(ts.drop_last()[k] == ts[k]);
        lemma_tab_position_prefix(ms, ts.drop_last(), ident, k);
    } else {
        assert(ts.take(k) =~= ts.drop_last());
    }
}

proof fn lemma_first_row_prefix(v: ScreenView, vs: Seq<VisibleRow>, id: Seq<char>, k: int)
    requires
        0 <= k < vs.len(),
        first_row_with(v, vs.take(k), id) is None,
        row_at(v, vs[k]).id == id,
    ensures
        first_row_with(v, vs, id) == Some(k),
    decreases vs.len(),
{
    if k < vs.len() - 1 {
        assert(vs.drop_last().take(k) =~= vs.take(k));
        assert(vs.drop_last()[k] == vs[k]);
        lemma_first_row_prefix(v, vs.drop_last(), id, k);
    } else {
        assert(vs.take(k) =~= vs.drop_last());
    }
}

proof fn lemma_first_row_bound(v: ScreenView, vs: Seq<VisibleRow>, id: Seq<char>)
    ensures
        first_row_with(v, vs, id) matches Some(k) ==> 0 <= k < vs.len(),
    decreases vs.len(),
{
    if vs.len() > 0 {
        lemma_first_row_bound(v, vs.drop_last(), id);
    }
}

proof fn lemma_settled_wf(before: ScreenView, base: ScreenView, after: ScreenView)
    requires
        after == settled(before, base),
        base.managers.len() <= usize::MAX,
        base.picker == before.picker,
    ensures
        screen_wf(after),
{
    let tab = match tab_identity(before) {
        Some(t) => match tab_position_in(base.managers, tabs(base.managers), t) {
            Some(p) => p as usize,
            None => base.active_tab,
        },
        None => base.active_tab,
    };
    let v2 = ScreenView { active_tab: tab, ..base };
    let cur = match focus_id(before) {
        Some(id) => match first_visible_with(v2, id) {
            Some(p) => Some(p as usize),
            None => v2.cursor,
        },
        None => v2.cursor,
    };
    let v4 = clamped(ScreenView { cursor: cur, ..v2 });
    lemma_visible_valid(v4, v4.managers.len() as int);
    if let Some(p) = before.picker {
        lemma_first_row_bound(v4, visible(v4), row_at(before, p.visible_row).id);
        if let Some(k) = first_visible_with(v4, row_at(before, p.visible_row).id) {
            assert(row_exists(v4, visible(v4)[k]));
        }
    }
    assert(after == ScreenView { picker: after.picker, ..v4 });
}

impl InteractiveSelectionScreen {
    fn fail_pending_managers(&mut self, detail: &String)
        ensures
            final(self)@ == (ScreenView { managers: final(self)@.managers, ..old(self)@ }),
            final(self)@.managers.len() == old(self)@.managers.len(),
            forall|i: int| 0 <= i < old(self)@.managers.len() ==> #[trigger] final(self)@.managers[i] == if old(self)@.managers[i].status is Waiting || old(self)@.managers[i].status is Planning {
                ManagerView { status: StatusView::Error(detail@), ..old(self)@.managers[i] }
            } else {
                old(self)@.managers[i]
            },
    {
        let ghost before = self@;
        let mut i: usize = 0;
        while i < self.managers.len()
            invariant
                i <= self.managers@.len(),
                self@ == (ScreenView { managers: self@.managers, ..before }),
                self@.managers.len() == before.managers.len(),
                self.managers@.len() == before.managers.len(),
                forall|k: int| 0 <= k < i ==> #[trigger] self@.managers[k] == if before.managers[k].status is Waiting || before.managers[k].status is Planning {
                    ManagerView { status: StatusView::Error(detail@), ..before.managers[k] }
                } else {
                    before.managers[k]
                },
                forall|k: int| i <= k < before.managers.len() ==> #[trigger] self@.managers[k] == before.managers[k],
            decreases self.managers@.len() - i,
        {
            proof {
                self.lemma_manager_at(i as int);
            }
            let pending = match self.managers[i].planning_status {
                ManagerPlanningStatus::Waiting => true,
                ManagerPlanningStatus::Planning => true,
                _ => false,
            };
            if pending {
                let ghost old_managers = self.managers@;
                let mut m = self.managers.remove(i);
                m.planning_status = ManagerPlanningStatus::Error { detail: detail.clone() };
                self.managers.insert(i, m);
                proof {
                    Self::lemma_replaced(old_managers, i as int, m);
                }
            }
            i = i + 1;
        }
    }

    fn change_for_event(&mut self, event: InteractiveSelectionPlanningEvent)
        ensures
            event_managers(old(self)@.managers, final(self)@.managers, event),
            final(self)@ == event_base(old(self)@, final(self)@.managers, event),
    {
        let ghost before = self@;
        match event {
            InteractiveSelectionPlanningEvent::ManagerStarted { manager_id } => {
                let view = empty_view(&manager_id);
                let m = manager_state(manager_id, VersionPolicy::Unfiltered, Vec::new(), ManagerPlanningStatus::Planning, view, UpdateSelectionPolicy::default());
                proof {
                    assert(manager_view(m).state.choices.dom() =~= Set::<Seq<char>>::empty());
                    assert(manager_view(m).issues =~= Seq::<Seq<char>>::empty());
                }
                self.replace_manager_state(m);
            },
            InteractiveSelectionPlanningEvent::CommandStarted { command } => {
                self.command_log.push(command);
                if self.command_log_scroll_from_bottom > 0 {
                    self.command_log_scroll_from_bottom = if self.command_log_scroll_from_bottom == usize::MAX {
                        usize::MAX
                    } else {
                        self.command_log_scroll_from_bottom + 1
                    };
                }
                assert(self@.command_log =~= before.command_log.push(command@));
            },
            InteractiveSelectionPlanningEvent::ManagerReady { view, issues, selection_policy, version_policy } => {
                let status = if view.rows.len() == 0 {
                    ManagerPlanningStatus::Empty
                } else {
                    ManagerPlanningStatus::Ready
                };
                let id = view.manager_id.clone();
                let m = manager_state(id, version_policy, issues, status, view, selection_policy);
                self.replace_manager_state(m);
            },
            InteractiveSelectionPlanningEvent::ManagerError { manager_id, detail } => {
                let existing = self.find_manager(&manager_id);
                let (policy, version_policy) = match existing {
                    Some(j) => {
                        proof {
                            self.lemma_manager_at(j as int);
                        }
                        (self.managers[j].state.selection_policy().clone(), self.managers[j].version_policy)
                    },
                    None => (UpdateSelectionPolicy::default(), VersionPolicy::Unfiltered),
                };
                let view = empty_view(&manager_id);
                let m = manager_state(manager_id, version_policy, Vec::new(), ManagerPlanningStatus::Error { detail }, view, policy);
                proof {
                    assert(manager_view(m).state.choices.dom() =~= Set::<Seq<char>>::empty());
                    assert(manager_view(m).issues =~= Seq::<Seq<char>>::empty());
                }
                self.replace_manager_state(m);
            },
            InteractiveSelectionPlanningEvent::PlanningFailed { detail } => {
                self.planning_finished = true;
                self.planning_failure = Some(detail.clone());
                self.fail_pending_managers(&detail);
            },
            InteractiveSelectionPlanningEvent::Finished => {
                self.planning_finished = true;
            },
        }
    }

    /// Applies a planning event: a manager starts, finishes or fails, a
    /// command is logged, or planning ends. The active tab and the focused
    /// row are kept where they still exist.
    #[verifier::rlimit(60)]
    pub fn apply_planning_event(&mut self, event: InteractiveSelectionPlanningEvent)
        requires
            screen_wf(old(self)@),
        ensures
            screen_wf(final(self)@),
            event_managers(old(self)@.managers, final(self)@.managers, event),
            final(self)@ == settled(old(self)@, event_base(old(self)@, final(self)@.managers, event)),
    {
        let ghost before = self@;
        let identity = self.active_tab_identity();
        let open_picker_row = match self.target_picker {
            Some(p) => Some(self.row(p.visible_row).plan_item_id.clone()),
            None => None,
        };
        let focused = match &open_picker_row {
            Some(id) => Some(id.clone()),
            None => match self.current_visible_row() {
                Some(vr) => Some(self.row(vr).plan_item_id.clone()),
                None => None,
            },
        };
        proof {
            if focused is Some {
                assert(focus_id(before) == Some(focused->0@));
            } else {
                assert(focus_id(before) is None);
            }
        }
        let ghost e = event;
        self.change_for_event(event);
        let ghost base = self@;
        proof {
            self.lemma_lengths();
        }
        self.restore_active_tab(identity);
        self.restore_cursor(focused);
        self.clamp_cursor();
        self.rebind_or_close_target_picker(open_picker_row);
        proof {
            assert(base == event_base(before, base.managers, e));
            lemma_settled_wf(before, base, self@);
        }
    }

    /// Planning stopped sending events: unless it had finished, this counts
    /// as a planning failure.
    pub fn planning_events_disconnected(&mut self)
        requires
            screen_wf(old(self)@),
        ensures
            screen_wf(final(self)@),
            old(self)@.planning_finished ==> final(self)@ == old(self)@,
            !old(self)@.planning_finished ==> {
                &&& final(self)@.planning_failure == Some("planning stopped before reporting completion"@)
                &&& final(self)@.planning_finished
                &&& final(self)@.managers.len() == old(self)@.managers.len()
                &&& forall|i: int| 0 <= i < old(self)@.managers.len() ==> #[trigger] final(self)@.managers[i] == if old(self)@.managers[i].status is Waiting || old(self)@.managers[i].status is Planning {
                    ManagerView { status: StatusView::Error("planning stopped before reporting completion"@), ..old(self)@.managers[i] }
                } else {
                    old(self)@.managers[i]
                }
            },
    {
        if !self.planning_finished {
            self.apply_planning_event(InteractiveSelectionPlanningEvent::PlanningFailed {
                detail: "planning stopped before reporting completion".to_owned(),
            });
        }
    }

    /// Scrolls the command log by `delta` lines, within what it holds.
    pub fn scroll_command_log_by(&mut self, delta: isize, visible_height: usize)
        ensures
            final(self)@ == (ScreenView { command_log_scroll: final(self)@.command_log_scroll, ..old(self)@ }),
            final(self)@.command_log_scroll <= (if old(self)@.command_log.len() > visible_height { old(self)@.command_log.len() - visible_height } else { 0 }),
    {
        let next = if delta > 0 {
            let step = delta as usize;
            if self.command_log_scroll_from_bottom > usize::MAX - step { usize::MAX } else { self.command_log_scroll_from_bottom + step }
        } else {
            let step: usize = if delta == isize::MIN { (isize::MAX as usize) + 1 } else { (-delta) as usize };
            if self.command_log_scroll_from_bottom > step { self.command_log_scroll_from_bottom - step } else { 0 }
        };
        self.command_log_scroll_from_bottom = crate::components::clamp_command_log_scroll(next, self.command_log.len(), visible_height);
    }
}


/// One line of the confirmation dialog: a manager and how many of its rows
/// are selected.
#[derive(Debug)]
pub struct ConfirmationManagerSummary {
    pub manager: String,
    pub selected_count: usize,
}

/// What the confirmation dialog reports: the managers with a selection, in
/// manager order, and the number of selected rows in all.
#[derive(Debug)]
pub struct ConfirmationSummary {
    pub selected_total: usize,
    pub managers: Vec<ConfirmationManagerSummary>,
}

/// Each manager with at least one selected row, with that number, in order.
pub open spec fn summary_lines(ms: Seq<ManagerView>) -> Seq<(Seq<char>, nat)>
    decreases ms.len(),
{
    if ms.len() == 0 {
        Seq::empty()
    } else {
        let head = summary_lines(ms.drop_last());
        let n = ms.last().state.choices.dom().len();
        if n > 0 {
            head.push((ms.last().id, n))
        } else {
            head
        }
    }
}

pub open spec fn summary_total(lines: Seq<(Seq<char>, nat)>) -> nat
    decreases lines.len(),
{
    if lines.len() == 0 {
        0
    } else {
        summary_total(lines.drop_last()) + lines.last().1
    }
}

proof fn lemma_summary_step(ms: Seq<ManagerView>, k: int)
    requires
        0 <= k < ms.len(),
    ensures
        summary_lines(ms.take(k + 1)) == (if ms[k].state.choices.dom().len() > 0 {
            summary_lines(ms.take(k)).push((ms[k].id, ms[k].state.choices.dom().len()))
        } else {
            summary_lines(ms.take(k))
        }),
        summary_total(summary_lines(ms.take(k + 1))) == summary_total(summary_lines(ms.take(k)))
            + ms[k].state.choices.dom().len(),
{
    let t = ms.take(k + 1);
    assert(t.drop_last() =~= ms.take(k));
    assert(t.last() == ms[k]);
    let head = summary_lines(ms.take(k));
    let e = (ms[k].id, ms[k].state.choices.dom().len());
    assert(head.push(e).drop_last() =~= head);
}

proof fn lemma_summary_total_prefix(ms: Seq<ManagerView>, k: int)
    requires
        0 <= k <= ms.len(),
    ensures
        summary_total(summary_lines(ms.take(k))) <= summary_total(summary_lines(ms)),
    decreases ms.len() - k,
{
    if k < ms.len() {
        lemma_summary_step(ms, k);
        lemma_summary_total_prefix(ms, k + 1);
    } else {
        assert(ms.take(k) =~= ms);
    }
}

pub open spec fn summary_view(v: Seq<ConfirmationManagerSummary>) -> Seq<(Seq<char>, nat)> {
    v.map_values(|m: ConfirmationManagerSummary| (m.manager@, m.selected_count as nat))
}

impl InteractiveSelectionScreen {
    /// The summary the confirmation dialog shows.
    pub fn confirmation_summary(&self) -> (r: ConfirmationSummary)
        requires
            summary_total(summary_lines(self@.managers)) <= usize::MAX,
        ensures
            summary_view(r.managers@) == summary_lines(self@.managers),
            r.selected_total == summary_total(summary_lines(self@.managers)),
    {
        let ghost ms = self@.managers;
        let mut managers: Vec<ConfirmationManagerSummary> = Vec::new();
        let mut total: usize = 0;
        let mut i: usize = 0;
        while i < self.managers.len()
            invariant
                i <= self.managers@.len(),
                ms == self@.managers,
                ms.len() == self.managers@.len(),
                summary_total(summary_lines(ms)) <= usize::MAX,
                summary_view(managers@) == summary_lines(ms.take(i as int)),
                total == summary_total(summary_lines(ms.take(i as int))),
            decreases self.managers@.len() - i,
        {
            proof {
                self.lemma_manager_at(i as int);
                lemma_summary_step(ms, i as int);
                lemma_summary_total_prefix(ms, i + 1);
            }
            let m = &self.managers[i];
            let count = m.state.selected_count();
            if count > 0 {
                let ghost before = summary_view(managers@);
                managers.push(ConfirmationManagerSummary { manager: m.manager_id.as_str().to_owned(), selected_count: count });
                assert(summary_view(managers@) =~= before.push((m.manager_id@, count as nat)));
                total = total + count;
            }
            i = i + 1;
        }
        assert(ms.take(ms.len() as int) =~= ms);
        ConfirmationSummary { selected_total: total, managers }
    }
}

} // verus!
