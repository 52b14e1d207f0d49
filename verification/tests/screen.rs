use upgate::domain::{ManagerId, PackageName, PlanItemId, VersionPolicy, VersionText};
use upgate::screen::{
    InteractiveSelectionPlan, InteractiveSelectionPlanningEvent, InteractiveSelectionScreen,
    SelectionControl, SelectionInput,
};
use upgate::selection::UpdateSelectionPolicy;
use upgate::selection_view::{
    SelectionRow, SelectionRowStatus, SelectionRowVisibility, SelectionView, TargetOption,
};

fn manager_id(value: &str) -> ManagerId {
    ManagerId::new(value).expect("valid manager id")
}

fn version(value: &str) -> VersionText {
    VersionText::new(value).expect("valid version")
}

fn row(manager: &str, package: &str) -> SelectionRow {
    SelectionRow {
        plan_item_id: PlanItemId::new(&format!("{manager}:{package}"))
            .expect("valid plan item id"),
        package_name: PackageName::new(package).expect("valid package name"),
        installed_version: version("1.0.0"),
        target_version: Some(version("2.0.0")),
        status: SelectionRowStatus::Update,
        default_visibility: SelectionRowVisibility::Visible,
        notes: Vec::new(),
        initially_selected: true,
        target_options: vec![TargetOption::Recommended {
            target_version: version("2.0.0"),
            note_parts: Vec::new(),
        }],
    }
}

fn view(manager: &str, packages: &[&str]) -> SelectionView {
    SelectionView {
        manager_id: manager_id(manager),
        rows: packages.iter().map(|package| row(manager, package)).collect(),
    }
}

fn plan(manager: &str, packages: &[&str]) -> InteractiveSelectionPlan {
    InteractiveSelectionPlan::new(
        view(manager, packages),
        Vec::new(),
        UpdateSelectionPolicy::include_all(),
        VersionPolicy::Unfiltered,
    )
}

fn ready_event(manager: &str, packages: &[&str]) -> InteractiveSelectionPlanningEvent {
    InteractiveSelectionPlanningEvent::ManagerReady {
        view: view(manager, packages),
        issues: Vec::new(),
        selection_policy: UpdateSelectionPolicy::include_all(),
        version_policy: VersionPolicy::Unfiltered,
    }
}

// Screens that start from finished plans.

#[test]
fn selection_planning_rows_do_not_create_an_implicit_cursor() {
    let mut screen = InteractiveSelectionScreen::from_manager_ids(vec![manager_id("npm")]);

    screen.apply_planning_event(ready_event("npm", &["alpha"]));
    assert_eq!(screen.cursor(), None);

    screen.apply_planning_event(ready_event("npm", &["beta", "alpha"]));
    assert_eq!(screen.cursor(), None);
}

#[test]
fn selection_first_keyboard_navigation_starts_at_row_zero() {
    let mut screen = InteractiveSelectionScreen::new(vec![plan("npm", &["alpha", "beta"])]);

    screen
        .handle_input(SelectionInput::Down)
        .expect("navigation should succeed");
    assert_eq!(screen.cursor(), Some(0));

    screen
        .handle_input(SelectionInput::Down)
        .expect("navigation should succeed");
    assert_eq!(screen.cursor(), Some(1));

    let mut screen = InteractiveSelectionScreen::new(vec![plan("npm", &["alpha", "beta"])]);
    screen
        .handle_input(SelectionInput::Up)
        .expect("navigation should succeed");
    assert_eq!(screen.cursor(), Some(0));
}

#[test]
fn selection_tab_switch_does_not_select_row_until_navigation_starts() {
    let mut screen = InteractiveSelectionScreen::new(vec![
        plan("npm", &["alpha"]),
        plan("cargo", &["beta"]),
    ]);

    screen
        .handle_input(SelectionInput::NextTab)
        .expect("tab switch should succeed");
    assert_eq!(screen.cursor(), None);

    screen.select_tab(2);
    assert_eq!(screen.cursor(), None);
}

#[test]
fn selection_tab_switch_preserves_existing_reset_behavior_after_navigation_starts() {
    let mut screen = InteractiveSelectionScreen::new(vec![
        plan("npm", &["alpha", "beta"]),
        plan("cargo", &["gamma"]),
    ]);

    screen
        .handle_input(SelectionInput::Down)
        .expect("navigation should succeed");
    screen
        .handle_input(SelectionInput::Down)
        .expect("navigation should succeed");
    assert_eq!(screen.cursor(), Some(1));

    screen
        .handle_input(SelectionInput::NextTab)
        .expect("tab switch should succeed");
    assert_eq!(screen.cursor(), Some(0));
}

#[test]
fn selection_first_mouse_scroll_selects_row_zero_before_scrolling() {
    let mut screen = InteractiveSelectionScreen::new(vec![plan(
        "npm",
        &["alpha", "beta", "gamma", "delta"],
    )]);

    screen.scroll_table_by(1, 2);

    assert_eq!(screen.cursor(), Some(0));
    assert_eq!(screen.table_offset(), 0);
}

// Screens that fill in while planning runs.

#[test]
fn screen_planning_rows_do_not_create_an_implicit_cursor() {
    let mut screen = InteractiveSelectionScreen::from_manager_ids(vec![manager_id("npm")]);

    screen.apply_planning_event(ready_event("npm", &["alpha"]));
    assert_eq!(screen.cursor(), None);

    screen.apply_planning_event(ready_event("npm", &["beta", "alpha"]));
    assert_eq!(screen.cursor(), None);
}

#[test]
fn screen_first_keyboard_navigation_starts_at_row_zero() {
    let mut screen = InteractiveSelectionScreen::from_manager_ids(vec![manager_id("npm")]);
    screen.apply_planning_event(ready_event("npm", &["alpha", "beta"]));

    screen
        .handle_input(SelectionInput::Down)
        .expect("navigation should succeed");
    assert_eq!(screen.cursor(), Some(0));

    screen
        .handle_input(SelectionInput::Down)
        .expect("navigation should succeed");
    assert_eq!(screen.cursor(), Some(1));

    let mut screen = InteractiveSelectionScreen::from_manager_ids(vec![manager_id("npm")]);
    screen.apply_planning_event(ready_event("npm", &["alpha", "beta"]));
    screen
        .handle_input(SelectionInput::Up)
        .expect("navigation should succeed");
    assert_eq!(screen.cursor(), Some(0));
}

#[test]
fn screen_tab_switch_does_not_select_row_until_navigation_starts() {
    let mut screen =
        InteractiveSelectionScreen::from_manager_ids(vec![manager_id("npm"), manager_id("cargo")]);
    screen.apply_planning_event(ready_event("npm", &["alpha"]));
    screen.apply_planning_event(ready_event("cargo", &["beta"]));

    screen
        .handle_input(SelectionInput::NextTab)
        .expect("tab switch should succeed");
    assert_eq!(screen.cursor(), None);

    screen.select_tab(2);
    assert_eq!(screen.cursor(), None);
}

#[test]
fn screen_tab_switch_preserves_existing_reset_behavior_after_navigation_starts() {
    let mut screen =
        InteractiveSelectionScreen::from_manager_ids(vec![manager_id("npm"), manager_id("cargo")]);
    screen.apply_planning_event(ready_event("npm", &["alpha", "beta"]));
    screen.apply_planning_event(ready_event("cargo", &["gamma"]));

    screen
        .handle_input(SelectionInput::Down)
        .expect("navigation should succeed");
    screen
        .handle_input(SelectionInput::Down)
        .expect("navigation should succeed");
    assert_eq!(screen.cursor(), Some(1));

    screen
        .handle_input(SelectionInput::NextTab)
        .expect("tab switch should succeed");
    assert_eq!(screen.cursor(), Some(0));
}

#[test]
fn screen_first_mouse_scroll_selects_row_zero_before_scrolling() {
    let mut screen = InteractiveSelectionScreen::from_manager_ids(vec![manager_id("npm")]);
    screen.apply_planning_event(ready_event("npm", &["alpha", "beta", "gamma", "delta"]));

    screen.scroll_table_by(1, 2);

    assert_eq!(screen.cursor(), Some(0));
    assert_eq!(screen.table_offset(), 0);
}

#[test]
fn confirm_and_cancel_inputs_end_the_picker() {
    let mut screen = InteractiveSelectionScreen::new(vec![plan("npm", &["alpha"])]);
    assert_eq!(
        screen.handle_input(SelectionInput::Cancel).expect("cancel"),
        SelectionControl::Cancel
    );
    let mut screen = InteractiveSelectionScreen::new(vec![plan("npm", &["alpha"])]);
    assert_eq!(
        screen.handle_input(SelectionInput::Interrupt).expect("interrupt"),
        SelectionControl::Interrupt
    );
}

#[test]
fn toggling_a_row_deselects_it_in_the_drafts() {
    let mut screen = InteractiveSelectionScreen::new(vec![plan("npm", &["alpha", "beta"])]);
    let drafts = screen.selection_drafts();
    assert_eq!(drafts.len(), 1);
    assert_eq!(drafts[0].selected_items.len(), 2);

    screen.handle_input(SelectionInput::Down).expect("navigation");
    screen
        .handle_input(SelectionInput::ToggleCurrent)
        .expect("toggle");
    let drafts = screen.selection_drafts();
    assert_eq!(drafts[0].selected_items.len(), 1);
    assert_eq!(
        drafts[0].selected_items[0].plan_item_id.as_str(),
        "npm:beta"
    );
}

#[test]
fn confirmation_summary_counts_selected_rows_per_manager() {
    let screen = InteractiveSelectionScreen::new(vec![
        plan("npm", &["alpha", "beta"]),
        plan("bun", &[]),
        plan("pipx", &["gamma"]),
    ]);
    let summary = screen.confirmation_summary();
    assert_eq!(summary.selected_total, 3);
    assert_eq!(summary.managers.len(), 2);
    assert_eq!(summary.managers[0].manager, "npm");
    assert_eq!(summary.managers[0].selected_count, 2);
    assert_eq!(summary.managers[1].manager, "pipx");
    assert_eq!(summary.managers[1].selected_count, 1);
}

#[test]
fn tab_window_keeps_the_selected_tab_in_view() {
    let widths = [3usize, 3, 3, 3];
    let late = upgate::tabs::visible_tabs(&widths, 3, 0, 12);
    assert_eq!(late.start, 3);
    assert_eq!(late.count, 1);
    assert_eq!(late.selected_in_slice, 0);
    assert!(late.has_left_overflow);

    let early = upgate::tabs::visible_tabs(&widths, 1, 0, 12);
    assert_eq!(early.start, 0);
    assert_eq!(early.count, 2);
    assert_eq!(early.selected_in_slice, 1);
    assert!(!early.has_left_overflow);

    let none = upgate::tabs::visible_tabs(&[], 5, 2, 80);
    assert_eq!((none.start, none.count, none.selected_in_slice), (0, 0, 0));
    assert!(!none.has_left_overflow);
}

#[test]
fn texts_are_clipped_to_their_columns() {
    assert_eq!(upgate::width::truncate_with_ellipsis("hello", 3), "he…");
    assert_eq!(upgate::width::truncate_with_ellipsis("hi", 5), "hi");
    assert_eq!(upgate::width::truncate_with_ellipsis("hello", 1), "…");
    assert_eq!(upgate::width::truncate_with_ellipsis("hello", 0), "");
    assert_eq!(upgate::width::truncate_with_ellipsis("日本語", 4), "日…");
}

#[test]
fn footer_columns_map_to_buttons() {
    let bindings = [
        upgate::width::KeyBinding { key: "j", label: "down" },
        upgate::width::KeyBinding { key: "C", label: "confirm" },
    ];
    assert_eq!(upgate::width::key_footer_hit(&bindings, 0), Some(0));
    assert_eq!(upgate::width::key_footer_hit(&bindings, 7), Some(0));
    assert_eq!(upgate::width::key_footer_hit(&bindings, 8), None);
    assert_eq!(upgate::width::key_footer_hit(&bindings, 11), Some(1));
    assert_eq!(upgate::width::key_footer_hit(&bindings, 21), Some(1));
    assert_eq!(upgate::width::key_footer_hit(&bindings, 22), None);
}

#[test]
fn selecting_every_shown_row_succeeds_for_update_rows() {
    let mut screen = InteractiveSelectionScreen::new(vec![plan("npm", &["alpha", "beta"])]);
    assert!(screen.handle_input(SelectionInput::SelectNoneVisible).is_ok());
    assert_eq!(screen.confirmation_summary().selected_total, 0);
    assert!(screen.handle_input(SelectionInput::SelectVisible).is_ok());
    assert_eq!(screen.confirmation_summary().selected_total, 2);
}
