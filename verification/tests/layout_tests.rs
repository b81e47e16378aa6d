use hier::layout::{cycle_depth_index, LayoutEngine, ScrollSign, TilingMode, WheelScroll, WindowId};

const WIDTH: f32 = 500.0;

fn engine() -> LayoutEngine<f32> {
    LayoutEngine::new(5)
}

#[test]
fn test_spawn_and_close() {
    let mut engine = engine();
    let win1 = WindowId(1);
    let win2 = WindowId(2);

    assert_eq!(engine.active_workspace().columns.len(), 0);

    engine.spawn_window(win1, "Terminal".to_string(), WIDTH);
    assert_eq!(engine.active_workspace().columns.len(), 1);
    assert_eq!(engine.active_workspace().focused_column_idx, 0);

    engine.spawn_window(win2, "Browser".to_string(), WIDTH);
    assert_eq!(engine.active_workspace().columns.len(), 2);
    assert_eq!(engine.active_workspace().focused_column_idx, 1);

    engine.close_window(win2);
    assert_eq!(engine.active_workspace().columns.len(), 1);
    assert_eq!(engine.active_workspace().focused_column_idx, 0);

    engine.close_window(win1);
    assert_eq!(engine.active_workspace().columns.len(), 0);
}

#[test]
fn test_navigation_and_recenter() {
    let mut engine = engine();
    engine.spawn_window(WindowId(1), "W1".to_string(), WIDTH);
    engine.spawn_window(WindowId(2), "W2".to_string(), WIDTH);
    engine.spawn_window(WindowId(3), "W3".to_string(), WIDTH);

    assert_eq!(engine.active_workspace().focused_column_idx, 2);

    // Moving left changes the focused column, so the camera is recentred.
    assert!(engine.focus_left());
    assert_eq!(engine.active_workspace().focused_column_idx, 1);
}

#[test]
fn test_tabbed_group() {
    let mut engine = engine();
    let w1 = WindowId(1);
    let w2 = WindowId(2);

    engine.spawn_window(w1, "W1".to_string(), WIDTH);
    engine.spawn_window(w2, "W2".to_string(), WIDTH);

    assert_eq!(engine.active_workspace().columns.len(), 2);
    engine.focus_left();

    engine.toggle_tab_group();
    assert_eq!(engine.active_workspace().columns.len(), 1);
    let col = &engine.active_workspace().columns[0];
    assert_eq!(col.windows.len(), 2);
    assert_eq!(col.focused_window_idx, 1);

    engine.focus_tab_up();
    assert_eq!(engine.active_workspace().columns[0].focused_window_idx, 0);

    engine.toggle_tab_group();
    assert_eq!(engine.active_workspace().columns.len(), 2);
    assert_eq!(engine.active_workspace().columns[0].windows.len(), 1);
    assert_eq!(engine.active_workspace().columns[1].windows.len(), 1);
}

#[test]
fn test_workspace_movement() {
    let mut engine = engine();
    let w1 = WindowId(1);

    engine.spawn_window(w1, "W1".to_string(), WIDTH);
    assert_eq!(engine.active_workspace_idx, 0);
    assert_eq!(engine.workspaces[0].columns.len(), 1);

    engine.move_window_workspace_down();
    assert_eq!(engine.workspaces[0].columns.len(), 0);
    assert_eq!(engine.workspaces[1].columns.len(), 1);

    // The workspace below exists, so it is activated and the camera follows.
    assert!(engine.focus_workspace_down());
    assert_eq!(engine.active_workspace_idx, 1);
}

#[test]
fn test_complex_multitasking_flow() {
    let mut engine = engine();
    let w1 = WindowId(1);
    let w2 = WindowId(2);
    let w3 = WindowId(3);

    engine.spawn_window(w1, "Terminal".to_string(), WIDTH);
    assert_eq!(engine.active_workspace().columns.len(), 1);

    engine.spawn_window(w2, "Editor".to_string(), WIDTH);
    assert_eq!(engine.active_workspace().columns.len(), 2);
    assert_eq!(engine.active_workspace().focused_column_idx, 1);

    engine.spawn_window(w3, "Browser".to_string(), WIDTH);
    assert_eq!(engine.active_workspace().columns.len(), 3);
    assert_eq!(engine.active_workspace().focused_column_idx, 2);

    engine.focus_left();
    assert_eq!(engine.active_workspace().focused_column_idx, 1);

    engine.toggle_tab_group();
    assert_eq!(engine.active_workspace().columns.len(), 2);
    let col = &engine.active_workspace().columns[1];
    assert_eq!(col.windows.len(), 2);
    assert_eq!(col.focused_window_idx, 1);

    engine.focus_tab_up();
    assert_eq!(engine.active_workspace().columns[1].focused_window_idx, 0);

    assert!(engine.move_column_left());
    assert_eq!(engine.active_workspace().focused_column_idx, 0);

    let active_ws = engine.active_workspace();
    assert_eq!(active_ws.columns[0].windows[0].id, w2);
    assert_eq!(active_ws.columns[0].windows[1].id, w3);
    assert_eq!(active_ws.columns[1].windows[0].id, w1);
}

#[test]
fn test_perpetual_tab_wrapping() {
    let mut engine = engine();
    engine.spawn_window(WindowId(1), "W1".to_string(), WIDTH);
    engine.spawn_window(WindowId(2), "W2".to_string(), WIDTH);
    engine.spawn_window(WindowId(3), "W3".to_string(), WIDTH);

    engine.focus_left();
    engine.toggle_tab_group();

    engine.focus_left();
    engine.toggle_tab_group();

    let col_len = engine.active_workspace().columns.len();
    assert_eq!(col_len, 1);
    assert_eq!(engine.active_workspace().columns[0].windows.len(), 3);

    engine.active_workspace_mut().columns[0].focused_window_idx = 2;

    engine.focus_tab_down();
    assert_eq!(engine.active_workspace().columns[0].focused_window_idx, 0);

    engine.focus_tab_up();
    assert_eq!(engine.active_workspace().columns[0].focused_window_idx, 2);

    engine.focus_tab_up();
    assert_eq!(engine.active_workspace().columns[0].focused_window_idx, 1);
}

#[test]
fn new_engine_is_empty_grid() {
    let engine = engine();
    assert_eq!(engine.workspaces.len(), 5);
    assert_eq!(engine.active_workspace_idx, 0);
    assert_eq!(engine.tiling_mode, TilingMode::Grid);
    assert!(!engine.overview_open);
    assert!(engine.windows.is_empty());
    assert_eq!(engine.focused_window_id(), None);
}

#[test]
fn spawn_inserts_right_of_focus_and_joins_depth_order() {
    let mut engine = engine();
    engine.spawn_window(WindowId(1), "a".to_string(), WIDTH);
    engine.spawn_window(WindowId(2), "b".to_string(), WIDTH);
    engine.focus_left();
    engine.spawn_window(WindowId(3), "c".to_string(), 300.0);
    let ws = engine.active_workspace();
    let ids: Vec<u32> = ws.columns.iter().map(|c| c.windows[0].id.0).collect();
    assert_eq!(ids, vec![1, 3, 2]);
    assert_eq!(ws.focused_column_idx, 1);
    assert_eq!(ws.columns[1].width, 300.0);
    assert_eq!(engine.windows, vec![WindowId(1), WindowId(2), WindowId(3)]);
    assert_eq!(engine.focused_window_id(), Some(WindowId(3)));
}

#[test]
fn focus_left_then_right_restores_focus() {
    let mut engine = engine();
    engine.spawn_window(WindowId(1), "a".to_string(), WIDTH);
    engine.spawn_window(WindowId(2), "b".to_string(), WIDTH);
    assert!(engine.focus_left());
    assert!(engine.focus_right());
    assert_eq!(engine.active_workspace().focused_column_idx, 1);
    // At the right edge nothing moves and the camera stays.
    assert!(!engine.focus_right());
    assert_eq!(engine.active_workspace().focused_column_idx, 1);
}

#[test]
fn move_column_round_trip() {
    let mut engine = engine();
    engine.spawn_window(WindowId(1), "a".to_string(), WIDTH);
    engine.spawn_window(WindowId(2), "b".to_string(), WIDTH);
    assert!(engine.move_column_left());
    assert_eq!(engine.active_workspace().columns[0].windows[0].id, WindowId(2));
    assert!(engine.move_column_right());
    assert_eq!(engine.active_workspace().columns[0].windows[0].id, WindowId(1));
    assert_eq!(engine.active_workspace().columns[1].windows[0].id, WindowId(2));
    assert_eq!(engine.active_workspace().focused_column_idx, 1);
    assert!(!engine.move_column_right());
}

#[test]
fn workspace_up_then_down_restores_active() {
    let mut engine = engine();
    assert!(!engine.focus_workspace_up());
    assert!(engine.focus_workspace_down());
    assert!(engine.focus_workspace_up());
    assert_eq!(engine.active_workspace_idx, 0);
}

#[test]
fn spawn_then_close_restores_columns() {
    let mut engine = engine();
    engine.spawn_window(WindowId(1), "a".to_string(), WIDTH);
    engine.spawn_window(WindowId(2), "b".to_string(), WIDTH);
    engine.focus_left();
    engine.spawn_window(WindowId(9), "x".to_string(), WIDTH);
    assert!(engine.close_window(WindowId(9)));
    let ids: Vec<u32> = engine.active_workspace().columns.iter().map(|c| c.windows[0].id.0).collect();
    assert_eq!(ids, vec![1, 2]);
    assert_eq!(engine.windows, vec![WindowId(1), WindowId(2)]);
    assert!(!engine.close_window(WindowId(9)));
}

#[test]
fn close_takes_one_tab_and_keeps_column() {
    let mut engine = engine();
    engine.spawn_window(WindowId(1), "a".to_string(), WIDTH);
    engine.spawn_window(WindowId(2), "b".to_string(), WIDTH);
    engine.focus_left();
    engine.toggle_tab_group();
    assert!(engine.close_window(WindowId(2)));
    let ws = engine.active_workspace();
    assert_eq!(ws.columns.len(), 1);
    assert_eq!(ws.columns[0].windows.len(), 1);
    assert_eq!(ws.columns[0].focused_window_idx, 0);
}

#[test]
fn move_window_up_and_down_keeps_windows() {
    let mut engine = engine();
    engine.spawn_window(WindowId(1), "a".to_string(), WIDTH);
    assert!(engine.move_window_workspace_down());
    assert!(!engine.move_window_workspace_up());
    assert!(engine.focus_workspace_down());
    assert!(engine.move_window_workspace_up());
    assert_eq!(engine.workspaces[0].columns.len(), 1);
    assert_eq!(engine.workspaces[1].columns.len(), 0);
    assert_eq!(engine.locate_window(WindowId(1)), Some((0, 0, 0)));
}

#[test]
fn focus_window_by_id_switches_workspace() {
    let mut engine = engine();
    engine.spawn_window(WindowId(1), "a".to_string(), WIDTH);
    engine.move_window_workspace_down();
    engine.spawn_window(WindowId(2), "b".to_string(), WIDTH);
    assert!(engine.focus_window_by_id(WindowId(1)));
    assert_eq!(engine.active_workspace_idx, 1);
    assert_eq!(engine.focused_window_id(), Some(WindowId(1)));
    assert!(!engine.focus_window_by_id(WindowId(7)));
}

#[test]
fn rename_reports_stale_title_once() {
    let mut engine = engine();
    engine.spawn_window(WindowId(1), "old".to_string(), WIDTH);
    assert!(engine.rename_window(WindowId(1), &"new".to_string()));
    assert!(!engine.rename_window(WindowId(1), &"new".to_string()));
    assert_eq!(engine.active_workspace().columns[0].windows[0].title, "new");
}

#[test]
fn relocate_clamps_and_keeps_width() {
    let mut engine = engine();
    engine.spawn_window(WindowId(1), "a".to_string(), 320.0);
    engine.spawn_window(WindowId(2), "b".to_string(), WIDTH);
    assert!(engine.relocate_window(WindowId(1), 99, 0, 0));
    assert_eq!(engine.workspaces[4].columns.len(), 1);
    assert_eq!(engine.workspaces[4].columns[0].windows[0].id, WindowId(1));
    assert_eq!(engine.workspaces[4].columns[0].width, 320.0);
    assert!(!engine.relocate_window(WindowId(8), 0, 0, 0));
}

#[test]
fn depth_focus_and_cycle() {
    let mut engine = engine();
    engine.spawn_window(WindowId(1), "a".to_string(), WIDTH);
    engine.spawn_window(WindowId(2), "b".to_string(), WIDTH);
    assert_eq!(engine.focus_depth_index(0), Some(WindowId(1)));
    assert_eq!(engine.focused_window_id(), Some(WindowId(1)));
    assert_eq!(engine.focus_depth_index(5), None);
    assert_eq!(engine.depth_position(WindowId(2)), Some(1));
    assert_eq!(cycle_depth_index(1, 2, true), 0);
    assert_eq!(cycle_depth_index(0, 2, false), 1);
    assert_eq!(cycle_depth_index(cycle_depth_index(2, 3, true), 3, false), 2);
}

#[test]
fn restore_nest_zero_focuses_first_window() {
    let mut engine = engine();
    engine.spawn_window(WindowId(1), "a".to_string(), WIDTH);
    engine.spawn_window(WindowId(2), "b".to_string(), WIDTH);
    engine.focus_workspace_down();
    engine.restore_nest_zero();
    assert_eq!(engine.active_workspace_idx, 0);
    assert_eq!(engine.focused_window_id(), Some(WindowId(1)));
}

#[test]
fn set_focused_column_width_changes_only_that_column() {
    let mut engine = engine();
    engine.spawn_window(WindowId(1), "a".to_string(), WIDTH);
    engine.spawn_window(WindowId(2), "b".to_string(), WIDTH);
    assert!(engine.set_focused_column_width(640.0, 50.0, !(640.0f32 >= 50.0)));
    assert_eq!(engine.active_workspace().columns[1].width, 640.0);
    assert_eq!(engine.active_workspace().columns[0].width, WIDTH);
}

#[test]
fn set_focused_column_width_keeps_the_minimum() {
    let mut engine = engine();
    engine.spawn_window(WindowId(1), "a".to_string(), WIDTH);
    assert!(engine.set_focused_column_width(10.0, 50.0, !(10.0f32 >= 50.0)));
    assert_eq!(engine.active_workspace().columns[0].width, 50.0);
    assert!(engine.set_focused_column_width(50.0, 50.0, !(50.0f32 >= 50.0)));
    assert_eq!(engine.active_workspace().columns[0].width, 50.0);
}

#[test]
fn set_focused_column_width_without_columns() {
    let mut engine = engine();
    assert!(!engine.set_focused_column_width(10.0, 50.0, true));
    assert_eq!(engine.active_workspace().columns.len(), 0);
}

#[test]
fn restore_window_into_saved_column() {
    let mut engine = engine();
    engine.spawn_window(WindowId(1), "a".to_string(), WIDTH);
    engine.restore_window(WindowId(2), "b".to_string(), 0, 0, 100.0);
    assert_eq!(engine.workspaces[0].columns[0].windows.len(), 2);
    assert_eq!(engine.workspaces[0].columns[0].focused_window_idx, 1);
    engine.restore_window(WindowId(3), "c".to_string(), 1, 4, 100.0);
    assert_eq!(engine.workspaces[1].columns.len(), 1);
    assert_eq!(engine.workspaces[1].columns[0].width, 100.0);
    assert_eq!(engine.windows, vec![WindowId(1), WindowId(2), WindowId(3)]);
}

/// Windows 1 and 2 as two tabs of one column, the focus on window 2.
fn tabbed_engine() -> LayoutEngine<f32> {
    let mut engine = engine();
    engine.spawn_window(WindowId(1), "a".to_string(), WIDTH);
    engine.spawn_window(WindowId(2), "b".to_string(), WIDTH);
    assert!(engine.focus_left());
    assert!(engine.toggle_tab_group());
    assert_eq!(engine.focused_window_id(), Some(WindowId(2)));
    engine
}

#[test]
fn depth_axis_scroll_cycles_tabs() {
    let mut engine = tabbed_engine();
    assert!(!engine.scroll_depth_axis(false, ScrollSign::Positive));
    assert_eq!(engine.focused_window_id(), Some(WindowId(1)));
    assert!(!engine.scroll_depth_axis(false, ScrollSign::Positive));
    assert_eq!(engine.focused_window_id(), Some(WindowId(2)));
    assert!(!engine.scroll_depth_axis(false, ScrollSign::Negative));
    assert_eq!(engine.focused_window_id(), Some(WindowId(1)));
    assert!(!engine.scroll_depth_axis(false, ScrollSign::Negative));
    assert_eq!(engine.focused_window_id(), Some(WindowId(2)));
    assert!(!engine.scroll_depth_axis(false, ScrollSign::Zero));
    assert_eq!(engine.focused_window_id(), Some(WindowId(2)));
}

#[test]
fn depth_axis_scroll_forwarded_or_in_depth_mode() {
    let mut engine = tabbed_engine();
    assert!(!engine.scroll_depth_axis(true, ScrollSign::Positive));
    assert_eq!(engine.focused_window_id(), Some(WindowId(2)));
    engine.tiling_mode = TilingMode::Depth;
    assert!(engine.scroll_depth_axis(false, ScrollSign::Positive));
    assert_eq!(engine.focused_window_id(), Some(WindowId(2)));
    assert!(!engine.scroll_depth_axis(true, ScrollSign::Positive));
}

#[test]
fn wheel_scroll_decisions() {
    let mut engine = tabbed_engine();
    assert_eq!(engine.scroll_wheel(ScrollSign::Zero, false), WheelScroll::Client);
    assert_eq!(engine.scroll_wheel(ScrollSign::Positive, true), WheelScroll::Carousel);
    assert_eq!(engine.focused_window_id(), Some(WindowId(2)));
    assert_eq!(engine.scroll_wheel(ScrollSign::Positive, false), WheelScroll::Tabs);
    assert_eq!(engine.focused_window_id(), Some(WindowId(1)));
    assert_eq!(engine.scroll_wheel(ScrollSign::Negative, false), WheelScroll::Tabs);
    assert_eq!(engine.focused_window_id(), Some(WindowId(2)));

    let mut plain = engine_with_one_window();
    assert_eq!(plain.scroll_wheel(ScrollSign::Positive, false), WheelScroll::Client);
    assert_eq!(plain.scroll_wheel(ScrollSign::Negative, true), WheelScroll::Carousel);
}

fn engine_with_one_window() -> LayoutEngine<f32> {
    let mut engine = engine();
    engine.spawn_window(WindowId(7), "x".to_string(), WIDTH);
    engine
}

#[test]
fn move_focused_window_to_any_workspace() {
    let mut engine = engine();
    engine.spawn_window(WindowId(1), "a".to_string(), WIDTH);
    engine.spawn_window(WindowId(2), "b".to_string(), 300.0);
    assert!(engine.move_focused_window_to_workspace(3));
    assert_eq!(engine.active_workspace_idx, 0);
    assert_eq!(engine.workspaces[0].columns.len(), 1);
    assert_eq!(engine.workspaces[0].focused_column_idx, 0);
    assert_eq!(engine.workspaces[3].columns.len(), 1);
    assert_eq!(engine.workspaces[3].focused_column_idx, 0);
    assert_eq!(engine.workspaces[3].columns[0].windows[0].id, WindowId(2));
    assert_eq!(engine.workspaces[3].columns[0].width, 300.0);
    assert!(engine.move_focused_window_to_workspace(3));
    assert_eq!(engine.workspaces[0].columns.len(), 0);
    assert_eq!(engine.workspaces[3].columns.len(), 2);
    assert_eq!(engine.workspaces[3].focused_column_idx, 1);
    assert_eq!(engine.workspaces[3].columns[1].windows[0].id, WindowId(1));
    assert!(!engine.move_focused_window_to_workspace(3));
    assert_eq!(engine.workspaces[3].columns.len(), 2);
}
