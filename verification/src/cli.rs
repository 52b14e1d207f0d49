//! Decisions of the command line: which managers run, when a run is
//! refused, what a finished run suggests next, and how interactive choices
//! become plan selections.
use vstd::prelude::*;

use crate::adapter::{
    adapter_error_text, available_manager_ids, ensure_known_manager, known_manager_names,
    ManagerAdapterError,
};
use crate::domain::{domain_error_text, DomainError, ManagerId};
use crate::plan::UpdatePlan;
use crate::screen::{InteractiveManagerSelectionDraft, InteractiveSelectionOutcome};
use crate::selection::{all_in_plan, selected_distinct_upto, selection_error_text, PlanSelection, SelectedItem};
use crate::text::{concat, is_blank, str_eq, str_is_blank};
use crate::batch::{always, manager_error_table, rows_view};
use crate::outcome::{OutcomeStatusView, OutcomeSubjectView, OutcomeTable, OutcomeVisibility, RowView};

verus! {

/// Why a run of the CLI failed.
#[derive(Debug)]
pub enum AppError {
    Config(String),
    InvalidArgs(String),
    Manager(String),
    Planning(String),
    Execution(String),
    Interrupted(String),
}

pub open spec fn app_error_text(e: AppError) -> Seq<char> {
    match e {
        AppError::Config(d) => d@,
        AppError::InvalidArgs(d) => d@,
        AppError::Manager(d) => d@,
        AppError::Planning(d) => d@,
        AppError::Execution(d) => d@,
        AppError::Interrupted(d) => d@,
    }
}

impl AppError {
    /// Whether the run was interrupted by the user.
    pub fn is_interruption(&self) -> (r: bool)
        ensures
            r == (self is Interrupted),
    {
        match self {
            AppError::Interrupted(_) => true,
            _ => false,
        }
    }

    /// What went wrong, in words.
    pub fn message(&self) -> (r: String)
        ensures
            r@ == app_error_text(*self),
    {
        match self {
            AppError::Config(d) => d.clone(),
            AppError::InvalidArgs(d) => d.clone(),
            AppError::Manager(d) => d.clone(),
            AppError::Planning(d) => d.clone(),
            AppError::Execution(d) => d.clone(),
            AppError::Interrupted(d) => d.clone(),
        }
    }
}

/// What a finished run hands back.
#[derive(Debug)]
pub struct CliRunOutput {
    pub stdout: String,
    pub command_log_dir: Option<String>,
}

/// How a run ended.
#[derive(Debug)]
pub enum CliRunResult {
    Completed(CliRunOutput),
    Cancelled(CliRunOutput),
    Failed { error: AppError, command_log_dir: Option<String> },
}

/// The subcommands.
#[derive(Debug, Clone, Copy, PartialEq, Eq, Structural)]
pub enum CliCommand {
    Scan,
    Plan,
    Apply,
}

impl CliCommand {
    pub fn name(self) -> (r: &'static str)
        ensures
            r@ == match self {
                CliCommand::Scan => "scan"@,
                CliCommand::Plan => "plan"@,
                CliCommand::Apply => "apply"@,
            },
    {
        match self {
            CliCommand::Scan => "scan",
            CliCommand::Plan => "plan",
            CliCommand::Apply => "apply",
        }
    }
}

/// How a manager takes part in runs.
#[derive(Debug, Clone, Copy, PartialEq, Eq, Structural)]
pub enum ManagerMode {
    Off,
    Plan,
    Apply,
}

/// Whether a manager in `mode` runs: never when off, only for scan and plan
/// in plan mode, always in apply mode.
pub open spec fn mode_allows_run(mode: ManagerMode, is_apply: bool) -> bool {
    match mode {
        ManagerMode::Off => false,
        ManagerMode::Plan => !is_apply,
        ManagerMode::Apply => true,
    }
}

#[verifier::when_used_as_spec(mode_allows_run)]
pub fn manager_mode_allows_run(mode: ManagerMode, is_apply: bool) -> (r: bool)
    ensures
        r == mode_allows_run(mode, is_apply),
{
    match mode {
        ManagerMode::Off => false,
        ManagerMode::Plan => !is_apply,
        ManagerMode::Apply => true,
    }
}

/// The run is the interactive picker: apply (the default command) without
/// `--yolo`.
pub open spec fn is_interactive_apply(command: Option<CliCommand>, yolo: bool) -> bool {
    (command is None || command == Some(CliCommand::Apply)) && !yolo
}

/// `--yolo` given with a command other than apply.
pub open spec fn yolo_misused(command: Option<CliCommand>, yolo: bool) -> bool {
    yolo && match command {
        Some(c) => c != CliCommand::Apply,
        None => false,
    }
}

/// Refuses `--yolo` with a command other than apply, and an interactive
/// apply without a terminal on both stdin and stdout.
pub fn check_run_arguments(command: Option<CliCommand>, yolo: bool, stdin_is_terminal: bool, stdout_is_terminal: bool) -> (r:
    Result<bool, AppError>)
    ensures
        yolo_misused(command, yolo) ==> (r matches Err(AppError::InvalidArgs(d))
            && d@ == "--yolo is only supported with apply"@),
        !yolo_misused(command, yolo) ==> {
            &&& is_interactive_apply(command, yolo) && !(stdin_is_terminal && stdout_is_terminal)
                ==> (r matches Err(AppError::InvalidArgs(d)) && d@
                == "interactive apply requires a TTY; use --yolo for non-interactive apply"@)
            &&& !(is_interactive_apply(command, yolo) && !(stdin_is_terminal && stdout_is_terminal))
                ==> r == Ok::<bool, AppError>(is_interactive_apply(command, yolo))
        },
{
    let is_apply = match command {
        None => true,
        Some(CliCommand::Apply) => true,
        _ => false,
    };
    if yolo && !is_apply {
        return Err(AppError::InvalidArgs("--yolo is only supported with apply".to_owned()));
    }
    let interactive = is_apply && !yolo;
    if interactive && !(stdin_is_terminal && stdout_is_terminal) {
        return Err(
            AppError::InvalidArgs(
                "interactive apply requires a TTY; use --yolo for non-interactive apply".to_owned(),
            ),
        );
    }
    Ok(interactive)
}

/// A failure to set up command logging ends the run when the log was asked
/// for or the run applies updates; otherwise the run goes on without it.
pub fn logging_failure_is_fatal(log_commands: bool, command: CliCommand) -> (r: bool)
    ensures
        r == (log_commands || command == CliCommand::Apply),
{
    log_commands || command == CliCommand::Apply
}

/// The command-log directory a run reports: only when logging was asked for.
pub fn reported_command_log_dir(log_commands: bool, log_dir: Option<String>) -> (r: Option<String>)
    ensures
        r == if log_commands { log_dir } else { None },
{
    if log_commands {
        log_dir
    } else {
        None
    }
}

pub open spec fn scan_suggestion() -> Seq<char> {
    "To preview available updates, run:\nupgate plan\n\nTo choose updates interactively, run:\nupgate apply\n"@
}

pub open spec fn plan_suggestion() -> Seq<char> {
    "To choose and apply updates interactively, run:\nupgate apply\n"@
}

/// A run's output followed by what to run next, as a scan or a plan
/// suggests it.
pub open spec fn with_suggestion_text(output: Seq<char>, command: CliCommand) -> Seq<char> {
    match command {
        CliCommand::Apply => output,
        _ => {
            let s = if command == CliCommand::Scan {
                scan_suggestion()
            } else {
                plan_suggestion()
            };
            if output.len() == 0 {
                s
            } else {
                output.push('\n') + s
            }
        },
    }
}

/// The output of a successful scan or plan, followed (after a blank line
/// when there is output) by what to run next; apply output is left as is.
pub fn with_success_suggestion(output: String, command: CliCommand) -> (r: String)
    ensures
        r@ == with_suggestion_text(output@, command),
{
    let suggestion = match command {
        CliCommand::Scan => "To preview available updates, run:\nupgate plan\n\nTo choose updates interactively, run:\nupgate apply\n",
        CliCommand::Plan => "To choose and apply updates interactively, run:\nupgate apply\n",
        CliCommand::Apply => {
            return output;
        },
    };
    let mut out = output;
    if out.unicode_len() > 0 {
        crate::text::push_char(&mut out, '\n');
    }
    concat(out.as_str(), suggestion)
}

pub open spec fn interrupted_adapter(err: ManagerAdapterError) -> bool {
    err matches ManagerAdapterError::Manager { kind, .. } && kind == crate::adapter::ManagerAdapterErrorKind::Interrupted
}

/// A manager failure as a run failure: interruptions stay interruptions.
pub fn map_manager_error(err: ManagerAdapterError) -> (r: AppError)
    ensures
        interrupted_adapter(err) ==> (r matches AppError::Interrupted(d) && d@ == adapter_error_text(err)),
        !interrupted_adapter(err) ==> (r matches AppError::Manager(d) && d@ == adapter_error_text(err)),
{
    let detail = err.message();
    if err.is_interruption() {
        AppError::Interrupted(detail)
    } else {
        AppError::Manager(detail)
    }
}

/// `s` with later repeats of a text left out.
pub open spec fn first_occurrences(s: Seq<Seq<char>>) -> Seq<Seq<char>>
    decreases s.len(),
{
    if s.len() == 0 {
        Seq::empty()
    } else {
        let head = first_occurrences(s.drop_last());
        if head.contains(s.last()) {
            head
        } else {
            head.push(s.last())
        }
    }
}

/// The first selected name that is blank or not a known manager.
pub open spec fn first_bad_manager(s: Seq<Seq<char>>) -> Option<int>
    decreases s.len(),
{
    if s.len() == 0 {
        None
    } else {
        match first_bad_manager(s.drop_last()) {
            Some(j) => Some(j),
            None => if is_blank(s.last()) || !known_manager_names().contains(s.last()) {
                Some(s.len() - 1)
            } else {
                None
            },
        }
    }
}

proof fn lemma_first_bad_stop(s: Seq<Seq<char>>, k: int)
    requires
        0 <= k <= s.len(),
        first_bad_manager(s.take(k)) is Some,
    ensures
        first_bad_manager(s) == first_bad_manager(s.take(k)),
    decreases s.len() - k,
{
    if k < s.len() {
        assert(s.take(k + 1).drop_last() =~= s.take(k));
        lemma_first_bad_stop(s, k + 1);
    } else {
        assert(s.take(k) =~= s);
    }
}

pub open spec fn ids_view(v: Seq<ManagerId>) -> Seq<Seq<char>> {
    v.map_values(|m: ManagerId| m@)
}

/// The managers a run covers: every known one in the default order when
/// none is named, else the named ones in the order given, each once. A
/// blank or unknown name is refused, the first one in the list.
pub fn selected_manager_ids(selected: &[String]) -> (r: Result<Vec<ManagerId>, AppError>)
    ensures
        selected@.len() == 0 ==> (r matches Ok(v) && ids_view(v@) == known_manager_names()),
        selected@.len() > 0 ==> match first_bad_manager(crate::pipx::texts(selected@)) {
            Some(j) => if is_blank(selected@[j]@) {
                r matches Err(AppError::InvalidArgs(d)) && d@ == domain_error_text(DomainError::EmptyManagerId)
            } else {
                r matches Err(AppError::Manager(d)) && d@ == "unknown manager `"@ + selected@[j]@ + "`"@
            },
            None => r matches Ok(v) && ids_view(v@) == first_occurrences(crate::pipx::texts(selected@)),
        },
{
    if selected.len() == 0 {
        let ids = available_manager_ids();
        assert(ids_view(ids@) =~= known_manager_names());
        return Ok(ids);
    }
    let ghost all = crate::pipx::texts(selected@);
    let mut ids: Vec<ManagerId> = Vec::new();
    let mut i: usize = 0;
    while i < selected.len()
        invariant
            i <= selected@.len(),
            all == crate::pipx::texts(selected@),
            first_bad_manager(all.take(i as int)) is None,
            ids_view(ids@) == first_occurrences(all.take(i as int)),
        decreases selected@.len() - i,
    {
        assert(all.take(i + 1).drop_last() =~= all.take(i as int));
        assert(all.take(i + 1).last() == all[i as int]);
        assert(all[i as int] == selected@[i as int]@);
        let id = match ManagerId::new(selected[i].as_str()) {
            Ok(id) => id,
            Err(e) => {
                proof {
                    lemma_first_bad_stop(all, i + 1);
                }
                return Err(AppError::InvalidArgs(e.message()));
            },
        };
        match ensure_known_manager(id.as_str()) {
            Ok(()) => {},
            Err(e) => {
                proof {
                    lemma_first_bad_stop(all, i + 1);
                }
                return Err(map_manager_error(e));
            },
        }
        let mut seen = false;
        let mut k: usize = 0;
        while k < ids.len()
            invariant
                k <= ids@.len(),
                seen == (exists|m: int| 0 <= m < k && ids@[m]@ == id@),
            decreases ids@.len() - k,
        {
            if ids[k].same(&id) {
                seen = true;
            }
            k = k + 1;
        }
        let ghost before = ids_view(ids@);
        assert(seen == before.contains(id@)) by {
            if before.contains(id@) {
                let m = choose|m: int| 0 <= m < before.len() && before[m] == id@;
                assert(ids@[m]@ == id@);
            }
            if seen {
                let m = choose|m: int| 0 <= m < ids@.len() && ids@[m]@ == id@;
                assert(before[m] == id@);
            }
        }
        if !seen {
            ids.push(id);
            assert(ids_view(ids@) =~= before.push(all[i as int]));
        }
        i = i + 1;
    }
    assert(all.take(selected@.len() as int) =~= all);
    Ok(ids)
}

/// Whether a picker session's logs go to the screen.
#[derive(Debug, Clone, Copy)]
pub struct InteractiveCommandLog {
    enabled: bool,
}

impl InteractiveCommandLog {
    pub fn new(enabled: bool) -> (r: Self)
        ensures
            r.is_enabled() == enabled,
    {
        InteractiveCommandLog { enabled }
    }

    pub closed spec fn is_enabled(self) -> bool {
        self.enabled
    }

    pub fn enabled(&self) -> (r: bool)
        ensures
            r == self.is_enabled(),
    {
        self.enabled
    }
}


// ---------------------------------------------------------------------------
// Confirming interactive choices
// ---------------------------------------------------------------------------

/// A manager's plan with the selection the user confirmed for it.
#[derive(Debug)]
pub struct ConfirmedInteractiveManagerApply {
    pub plan: UpdatePlan,
    pub selection: PlanSelection,
}

pub open spec fn failure_text(f: (ManagerId, String)) -> Seq<char> {
    f.0@ + ": "@ + f.1@
}

/// The planning failures as `manager: detail`, separated by `; `.
pub open spec fn joined_failures(fs: Seq<(ManagerId, String)>) -> Seq<char>
    decreases fs.len(),
{
    if fs.len() == 0 {
        Seq::empty()
    } else if fs.len() == 1 {
        failure_text(fs[0])
    } else {
        joined_failures(fs.drop_last()) + "; "@ + failure_text(fs.last())
    }
}

/// The first draft for manager `id`.
pub open spec fn draft_for(drafts: Seq<InteractiveManagerSelectionDraft>, id: Seq<char>) -> Option<int>
    decreases drafts.len(),
{
    if drafts.len() == 0 {
        None
    } else {
        match draft_for(drafts.drop_last(), id) {
            Some(k) => Some(k),
            None => if drafts.last().manager_id@ == id {
                Some(drafts.len() - 1)
            } else {
                None
            },
        }
    }
}

/// A plan has a draft whose items are rows of it, each once.
pub open spec fn plan_confirms(plan: UpdatePlan, drafts: Seq<InteractiveManagerSelectionDraft>) -> bool {
    match draft_for(drafts, plan.manager_id@) {
        Some(k) => all_in_plan(plan, drafts[k].selected_items@, drafts[k].selected_items@.len() as int)
            && selected_distinct_upto(drafts[k].selected_items@, drafts[k].selected_items@.len() as int),
        None => false,
    }
}

/// The first plan that the drafts do not confirm.
pub open spec fn first_unconfirmed(plans: Seq<UpdatePlan>, drafts: Seq<InteractiveManagerSelectionDraft>) -> Option<int>
    decreases plans.len(),
{
    if plans.len() == 0 {
        None
    } else {
        match first_unconfirmed(plans.drop_last(), drafts) {
            Some(k) => Some(k),
            None => if plan_confirms(plans.last(), drafts) {
                None
            } else {
                Some(plans.len() - 1)
            },
        }
    }
}

proof fn lemma_first_unconfirmed_stop(plans: Seq<UpdatePlan>, drafts: Seq<InteractiveManagerSelectionDraft>, k: int)
    requires
        0 <= k <= plans.len(),
        first_unconfirmed(plans.take(k), drafts) is Some,
    ensures
        first_unconfirmed(plans, drafts) == first_unconfirmed(plans.take(k), drafts),
    decreases plans.len() - k,
{
    if k < plans.len() {
        assert(plans.take(k + 1).drop_last() =~= plans.take(k));
        lemma_first_unconfirmed_stop(plans, drafts, k + 1);
    } else {
        assert(plans.take(k) =~= plans);
    }
}

fn joined_failures_of(fs: &Vec<(ManagerId, String)>) -> (r: String)
    ensures
        r@ == joined_failures(fs@),
{
    let mut out = String::new();
    let mut i: usize = 0;
    assert(out@ =~= joined_failures(fs@.take(0)));
    while i < fs.len()
        invariant
            i <= fs@.len(),
            out@ == joined_failures(fs@.take(i as int)),
        decreases fs@.len() - i,
    {
        let ghost t = fs@.take(i + 1);
        assert(t.drop_last() =~= fs@.take(i as int));
        assert(t.last() == fs@[i as int]);
        if i > 0 {
            out = concat(out.as_str(), "; ");
        } else {
            assert(t.len() == 1 && t[0] == fs@[0]);
        }
        let a = concat(out.as_str(), fs[i].0.as_str());
        let b = concat(a.as_str(), ": ");
        out = concat(b.as_str(), fs[i].1.as_str());
        i = i + 1;
    }
    assert(fs@.take(fs@.len() as int) =~= fs@);
    out
}

fn find_draft(drafts: &[InteractiveManagerSelectionDraft], id: &ManagerId) -> (r: Option<usize>)
    ensures
        match r {
            Some(k) => draft_for(drafts@, id@) == Some(k as int) && k < drafts@.len(),
            None => draft_for(drafts@, id@) is None,
        },
{
    let mut i: usize = 0;
    while i < drafts.len()
        invariant
            i <= drafts@.len(),
            draft_for(drafts@.take(i as int), id@) is None,
        decreases drafts@.len() - i,
    {
        assert(drafts@.take(i + 1).drop_last() =~= drafts@.take(i as int));
        assert(drafts@.take(i + 1).last() == drafts@[i as int]);
        if drafts[i].manager_id.same(id) {
            assert(draft_for(drafts@.take(i + 1), id@) == Some(i as int));
            proof {
                lemma_draft_for_stop(drafts@, id@, i + 1);
            }
            return Some(i);
        }
        i = i + 1;
    }
    assert(drafts@.take(drafts@.len() as int) =~= drafts@);
    None
}

proof fn lemma_draft_for_stop(drafts: Seq<InteractiveManagerSelectionDraft>, id: Seq<char>, k: int)
    requires
        0 <= k <= drafts.len(),
        draft_for(drafts.take(k), id) is Some,
    ensures
        draft_for(drafts, id) == draft_for(drafts.take(k), id),
    decreases drafts.len() - k,
{
    if k < drafts.len() {
        assert(drafts.take(k + 1).drop_last() =~= drafts.take(k));
        lemma_draft_for_stop(drafts, id, k + 1);
    } else {
        assert(drafts.take(k) =~= drafts);
    }
}

fn clone_items(v: &Vec<SelectedItem>) -> (r: Vec<SelectedItem>)
    ensures
        r@ == v@,
{
    let mut out: Vec<SelectedItem> = Vec::new();
    let mut i: usize = 0;
    while i < v.len()
        invariant
            i <= v@.len(),
            out@ == v@.take(i as int),
        decreases v@.len() - i,
    {
        out.push(SelectedItem { plan_item_id: v[i].plan_item_id.clone(), selected_update: v[i].selected_update.clone() });
        assert(out@ =~= v@.take(i + 1));
        i = i + 1;
    }
    assert(v@.take(v@.len() as int) =~= v@);
    out
}

/// What confirming the picker's drafts against the plans gives.
pub open spec fn confirmation_outcome(
    r: Result<Vec<ConfirmedInteractiveManagerApply>, AppError>,
    plans: Seq<UpdatePlan>,
    planning_failures: Seq<(ManagerId, String)>,
    drafts: Seq<InteractiveManagerSelectionDraft>,
) -> bool {
    &&& planning_failures.len() > 0 ==> (r matches Err(AppError::Planning(d)) && d@ == joined_failures(
        planning_failures,
    ))
    &&& planning_failures.len() == 0 ==> match first_unconfirmed(plans, drafts) {
        Some(k) => r matches Err(AppError::Planning(d)) && match draft_for(drafts, plans[k].manager_id@) {
            None => d@ == "missing interactive selection for "@ + plans[k].manager_id@,
            Some(j) => d@ == selection_error_text(plans[k], drafts[j].selected_items@),
        },
        None => r matches Ok(v) && v@.len() == plans.len() && forall|i: int|
            0 <= i < plans.len() ==> {
                let k = draft_for(drafts, plans[i].manager_id@)->0;
                &&& (#[trigger] v@[i]).plan == plans[i]
                &&& v@[i].selection.manager_id == plans[i].manager_id
                &&& v@[i].selection.selected_items@ == drafts[k].selected_items@
                &&& v@[i].selection.selection_policy.mode == drafts[k].selection_policy.mode
                &&& v@[i].selection.selection_policy.except@ == drafts[k].selection_policy.except@
            },
    }
}

/// Turns the picker's drafts into one confirmed selection per plan, in plan
/// order. A manager whose planning failed refuses the whole apply; so does a
/// plan without a draft, or a draft that names rows the plan lacks or names
/// a row twice (the first such plan).
pub fn confirmed_from_drafts(
    plans: Vec<UpdatePlan>,
    planning_failures: Vec<(ManagerId, String)>,
    drafts: &[InteractiveManagerSelectionDraft],
) -> (r: Result<Vec<ConfirmedInteractiveManagerApply>, AppError>)
    ensures
        confirmation_outcome(r, plans@, planning_failures@, drafts@),
{
    if planning_failures.len() > 0 {
        return Err(AppError::Planning(joined_failures_of(&planning_failures)));
    }
    let ghost all = plans@;
    let mut rest = plans;
    let total: usize = rest.len();
    assert(all == plans@);
    let mut confirmed: Vec<ConfirmedInteractiveManagerApply> = Vec::new();
    let mut i: usize = 0;
    while rest.len() > 0
        invariant
            i + rest@.len() == all.len(),
            all.len() <= usize::MAX,
            all == plans@,
            planning_failures@.len() == 0,
            rest@ == all.skip(i as int),
            first_unconfirmed(all.take(i as int), drafts@) is None,
            confirmed@.len() == i,
            forall|m: int|
                0 <= m < i ==> {
                    let k = draft_for(drafts@, all[m].manager_id@)->0;
                    &&& (#[trigger] confirmed@[m]).plan == all[m]
                    &&& confirmed@[m].selection.manager_id == all[m].manager_id
                    &&& confirmed@[m].selection.selected_items@ == drafts@[k].selected_items@
                    &&& confirmed@[m].selection.selection_policy.mode == drafts@[k].selection_policy.mode
                    &&& confirmed@[m].selection.selection_policy.except@ == drafts@[k].selection_policy.except@
                },
        decreases rest@.len(),
    {
        let ghost before = rest@;
        let plan = rest.remove(0);
        assert(before[0] == all[i as int]);
        assert(rest@ =~= all.skip(i + 1));
        assert(all.take(i + 1).drop_last() =~= all.take(i as int));
        assert(all.take(i + 1).last() == all[i as int]);
        let k = match find_draft(drafts, &plan.manager_id) {
            Some(k) => k,
            None => {
                proof {
                    lemma_first_unconfirmed_stop(all, drafts@, i + 1);
                }
                let a = concat("missing interactive selection for ", plan.manager_id.as_str());
                return Err(AppError::Planning(a));
            },
        };
        let items = clone_items(&drafts[k].selected_items);
        let policy = drafts[k].selection_policy.clone();
        match PlanSelection::new(&plan, items, policy) {
            Ok(selection) => {
                confirmed.push(ConfirmedInteractiveManagerApply { plan, selection });
            },
            Err(e) => {
                proof {
                    lemma_first_unconfirmed_stop(all, drafts@, i + 1);
                }
                return Err(AppError::Planning(e.message()));
            },
        }
        i = i + 1;
    }
    assert(all.take(all.len() as int) =~= all);
    Ok(confirmed)
}


// ---------------------------------------------------------------------------
// Gathering the managers' results
// ---------------------------------------------------------------------------

/// What one manager contributed to a batch run: its rows, and whether one
/// of its items failed.
#[derive(Debug)]
pub struct ManagerBatchOutput {
    pub table: OutcomeTable,
    pub failed: bool,
}

/// The error row of a manager whose command failed.
pub open spec fn manager_error_row(m: ManagerId, command: Seq<char>, e: AppError) -> RowView {
    RowView {
        status: OutcomeStatusView::Error,
        subject: OutcomeSubjectView::Manager(m),
        notes: seq![always(command + " failed: "@ + app_error_text(e))],
        visibility: OutcomeVisibility::Always,
    }
}

/// The managers' results gathered in order: the first interruption ends the
/// run with that error; any other failure becomes the manager's error row
/// and marks the run failed; the other managers' rows are kept.
pub open spec fn gathered(
    outs: Seq<(ManagerId, Result<ManagerBatchOutput, AppError>)>,
    command: Seq<char>,
) -> Result<(Seq<RowView>, bool), AppError>
    decreases outs.len(),
{
    if outs.len() == 0 {
        Ok((Seq::empty(), false))
    } else {
        match gathered(outs.drop_last(), command) {
            Err(e) => Err(e),
            Ok((rows, failed)) => match outs.last().1 {
                Ok(o) => Ok((rows + rows_view(o.table.rows@), failed || o.failed)),
                Err(e) => if e is Interrupted {
                    Err(e)
                } else {
                    Ok((rows.push(manager_error_row(outs.last().0, command, e)), true))
                },
            },
        }
    }
}

proof fn lemma_gathered_stop(
    outs: Seq<(ManagerId, Result<ManagerBatchOutput, AppError>)>,
    command: Seq<char>,
    k: int,
)
    requires
        0 <= k <= outs.len(),
        gathered(outs.take(k), command) is Err,
    ensures
        gathered(outs, command) == gathered(outs.take(k), command),
    decreases outs.len() - k,
{
    if k < outs.len() {
        assert(outs.take(k + 1).drop_last() =~= outs.take(k));
        lemma_gathered_stop(outs, command, k + 1);
    } else {
        assert(outs.take(k) =~= outs);
    }
}

/// Gathers the managers' results of a batch run, in manager order.
pub fn collect_manager_outputs(
    outputs: Vec<(ManagerId, Result<ManagerBatchOutput, AppError>)>,
    command: &str,
) -> (r: Result<(OutcomeTable, bool), AppError>)
    ensures
        match gathered(outputs@, command@) {
            Err(e) => r == Err::<(OutcomeTable, bool), AppError>(e),
            Ok((rows, failed)) => r matches Ok((t, f)) && rows_view(t.rows@) == rows && f == failed,
        },
{
    let ghost all = outputs@;
    let n = outputs.len();
    let mut rest = outputs;
    let mut rows: Vec<crate::outcome::OutcomeRow> = Vec::new();
    let mut failed = false;
    let mut k: usize = 0;
    assert(all.take(0) =~= Seq::<(ManagerId, Result<ManagerBatchOutput, AppError>)>::empty());
    assert(rows_view(rows@) =~= Seq::<RowView>::empty());
    assert(all.skip(0) =~= all);
    while rest.len() > 0
        invariant
            all == outputs@,
            n == all.len(),
            k + rest@.len() == all.len(),
            rest@ == all.skip(k as int),
            gathered(all.take(k as int), command@) == Ok::<(Seq<RowView>, bool), AppError>((rows_view(rows@), failed)),
        decreases rest@.len(),
    {
        let (manager_id, result) = rest.remove(0);
        assert(all.take(k + 1).drop_last() =~= all.take(k as int));
        assert(all.take(k + 1).last() == all[k as int]);
        assert(all[k as int] == (manager_id, result));
        let ghost before = rows_view(rows@);
        match result {
            Ok(o) => {
                let ManagerBatchOutput { table, failed: f } = o;
                let mut more = table.rows;
                let ghost mv = rows_view(more@);
                rows.append(&mut more);
                assert(rows_view(rows@) =~= before + mv);
                failed = failed || f;
            },
            Err(e) => {
                if e.is_interruption() {
                    proof {
                        lemma_gathered_stop(all, command@, k + 1);
                    }
                    return Err(e);
                }
                let text = e.message();
                let t = manager_error_table(&manager_id, command, text.as_str());
                let ghost row_v = t.rows@[0]@;
                let mut more = t.rows;
                rows.append(&mut more);
                assert(rows_view(rows@) =~= before.push(row_v));
                failed = true;
            },
        }
        k = k + 1;
        assert(rest@ =~= all.skip(k as int));
    }
    assert(all.take(all.len() as int) =~= all);
    Ok((OutcomeTable::new(rows), failed))
}

/// How a batch run ends once its table is rendered: with the rendered
/// output as a manager failure when one failed, else as the run's output
/// with what to run next.
pub fn batch_result(output: String, had_error: bool, command: CliCommand) -> (r: Result<String, AppError>)
    ensures
        had_error ==> (r matches Err(AppError::Manager(d)) && d@ == output@),
        !had_error ==> (r matches Ok(s) && s@ == with_suggestion_text(output@, command)),
{
    if had_error {
        Err(AppError::Manager(output))
    } else {
        Ok(with_success_suggestion(output, command))
    }
}

/// What the run does once the live picker has closed.
#[derive(Debug)]
pub enum LiveSelectionStep {
    /// Planning stops and the run ends with this result: nothing applied
    /// after a cancel, an interruption error after an interrupt.
    Finish(Result<Option<Vec<ConfirmedInteractiveManagerApply>>, AppError>),
    /// The user confirmed: wait for planning, then confirm these drafts.
    AwaitPlanning(Vec<InteractiveManagerSelectionDraft>),
}

/// The picker's outcome as the next step of a live selection.
pub fn live_selection_step(outcome: InteractiveSelectionOutcome) -> (r: LiveSelectionStep)
    ensures
        match outcome {
            InteractiveSelectionOutcome::Cancelled => r matches LiveSelectionStep::Finish(Ok(None)),
            InteractiveSelectionOutcome::Interrupted => r matches LiveSelectionStep::Finish(
                Err(AppError::Interrupted(d)),
            ) && d@ == "interactive selection interrupted"@,
            InteractiveSelectionOutcome::Confirmed(drafts) => r == LiveSelectionStep::AwaitPlanning(drafts),
        },
{
    match outcome {
        InteractiveSelectionOutcome::Cancelled => LiveSelectionStep::Finish(Ok(None)),
        InteractiveSelectionOutcome::Interrupted => LiveSelectionStep::Finish(
            Err(AppError::Interrupted("interactive selection interrupted".to_owned())),
        ),
        InteractiveSelectionOutcome::Confirmed(drafts) => LiveSelectionStep::AwaitPlanning(drafts),
    }
}

/// A confirmed live selection once planning is done: planning's own error
/// ends the run; otherwise the drafts are confirmed against the plans.
pub fn live_selection_result(
    prepared: Result<(Vec<UpdatePlan>, Vec<(ManagerId, String)>), AppError>,
    drafts: &[InteractiveManagerSelectionDraft],
) -> (r: Result<Option<Vec<ConfirmedInteractiveManagerApply>>, AppError>)
    ensures
        match prepared {
            Err(e) => r == Err::<Option<Vec<ConfirmedInteractiveManagerApply>>, AppError>(e),
            Ok((plans, failures)) => match r {
                Ok(Some(v)) => confirmation_outcome(Ok(v), plans@, failures@, drafts@),
                Ok(None) => false,
                Err(e) => confirmation_outcome(Err(e), plans@, failures@, drafts@),
            },
        },
{
    match prepared {
        Err(e) => Err(e),
        Ok((plans, failures)) => match confirmed_from_drafts(plans, failures, drafts) {
            Ok(v) => Ok(Some(v)),
            Err(e) => Err(e),
        },
    }
}

/// How a run ended, from what it returned (`None` for a run the user
/// cancelled): its output, or its error, with the command log directory
/// when commands were logged.
pub fn cli_run_result(result: Result<Option<String>, AppError>, log_commands: bool, log_dir: Option<String>) -> (r:
    CliRunResult)
    ensures
        match result {
            Ok(None) => r matches CliRunResult::Cancelled(o) && o.stdout@ == Seq::<char>::empty()
                && o.command_log_dir == (if log_commands { log_dir } else { None }),
            Ok(Some(out)) => r matches CliRunResult::Completed(o) && o.stdout == out && o.command_log_dir == (
            if log_commands { log_dir } else { None }),
            Err(e) => r matches CliRunResult::Failed { error, command_log_dir } && error == e && command_log_dir == (
            if log_commands { log_dir } else { None }),
        },
{
    let reported = reported_command_log_dir(log_commands, log_dir);
    match result {
        Ok(None) => CliRunResult::Cancelled(CliRunOutput { stdout: String::new(), command_log_dir: reported }),
        Ok(Some(stdout)) => CliRunResult::Completed(CliRunOutput { stdout, command_log_dir: reported }),
        Err(error) => CliRunResult::Failed { error, command_log_dir: reported },
    }
}

// ---------------------------------------------------------------------------
// One manager's part of a scan or plan run
// ---------------------------------------------------------------------------

/// The mode a manager runs in without configuration: RubyGems and .NET
/// tools are off, every other known manager applies.
pub open spec fn default_mode_of(manager_id: Seq<char>) -> ManagerMode {
    if manager_id == "gem"@ || manager_id == "dotnet"@ {
        ManagerMode::Off
    } else {
        ManagerMode::Apply
    }
}

/// The mode of a known manager without configuration; an unknown manager is
/// refused, exactly as `ensure_known_manager` refuses it.
pub fn default_manager_mode(manager_id: &str) -> (r: Result<ManagerMode, ManagerAdapterError>)
    ensures
        r is Ok <==> known_manager_names().contains(manager_id@),
        r matches Ok(m) ==> m == default_mode_of(manager_id@),
        r matches Err(e) ==> (e matches ManagerAdapterError::UnknownManager(id) && id@ == manager_id@),
{
    match ensure_known_manager(manager_id) {
        Err(e) => Err(e),
        Ok(()) => {
            proof {
                reveal_strlit("gem");
                reveal_strlit("dotnet");
            }
            if str_eq(manager_id, "gem") || str_eq(manager_id, "dotnet") {
                Ok(ManagerMode::Off)
            } else {
                Ok(ManagerMode::Apply)
            }
        },
    }
}

/// What a scan or plan run does for one known manager.
#[derive(Debug, Clone, Copy, PartialEq, Eq, Structural)]
pub enum ManagerBatchStep {
    /// Nothing: the manager's mode does not take part, or its executable is
    /// missing. The manager gives an empty table.
    Skip,
    VerboseScan,
    Scan,
    Plan,
    /// Apply is not run manager by manager.
    RefuseApply,
}

/// Decides one manager's part of a run: a manager whose mode does not take
/// part in the command, or whose executable is missing, is skipped;
/// otherwise the command runs (a scan with audit answers when verbose), and
/// apply is refused.
pub fn manager_batch_step(command: CliCommand, mode: ManagerMode, executable_available: bool, verbose: bool) -> (r:
    ManagerBatchStep)
    ensures
        !manager_mode_allows_run(mode, command == CliCommand::Apply) || !executable_available ==> r is Skip,
        manager_mode_allows_run(mode, command == CliCommand::Apply) && executable_available ==> r == match command {
            CliCommand::Scan => if verbose {
                ManagerBatchStep::VerboseScan
            } else {
                ManagerBatchStep::Scan
            },
            CliCommand::Plan => ManagerBatchStep::Plan,
            CliCommand::Apply => ManagerBatchStep::RefuseApply,
        },
{
    if !manager_mode_allows_run(mode, command == CliCommand::Apply) || !executable_available {
        return ManagerBatchStep::Skip;
    }
    match command {
        CliCommand::Scan => if verbose {
            ManagerBatchStep::VerboseScan
        } else {
            ManagerBatchStep::Scan
        },
        CliCommand::Plan => ManagerBatchStep::Plan,
        CliCommand::Apply => ManagerBatchStep::RefuseApply,
    }
}

/// The error of an apply asked of a single manager's step.
pub fn refused_apply_error() -> (r: AppError)
    ensures
        r matches AppError::Execution(d) && d@ == "batch apply must be prepared before serial execution"@,
{
    AppError::Execution("batch apply must be prepared before serial execution".to_owned())
}

} // verus!
