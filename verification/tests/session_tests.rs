use hier::layout::{LayoutEngine, WindowId};
use hier::session::{
    find_pending, session_path, LiveWindow, PendingRestore, SavedColumn, SavedSession, SavedWindow, SavedWorkspace,
    WindowDetails,
};

fn s(x: &str) -> String {
    x.to_string()
}

fn live(id: u32, title: &str, app_id: Option<&str>) -> LiveWindow {
    LiveWindow { id: WindowId(id), title: s(title), app_id: app_id.map(s) }
}

/// Workspace 0: a column with tabs Terminal and Editor (Editor focused) of
/// width 400, then Browser of width 600. Workspace 1: Music of width 500.
/// Workspace 1 is active.
fn sample_layout() -> LayoutEngine<f32> {
    let mut e = LayoutEngine::new(3);
    e.spawn_window(WindowId(1), s("Terminal"), 400.0);
    e.spawn_window(WindowId(2), s("Editor"), 400.0);
    e.focus_left();
    e.toggle_tab_group();
    e.spawn_window(WindowId(3), s("Browser"), 600.0);
    e.focus_workspace_down();
    e.spawn_window(WindowId(4), s("Music"), 500.0);
    e
}

fn sample_details() -> Vec<WindowDetails> {
    vec![
        WindowDetails { id: WindowId(1), app_id: Some(s("foot")), cmdline: Some(vec![s("foot")]) },
        WindowDetails { id: WindowId(3), app_id: Some(s("firefox")), cmdline: None },
        WindowDetails { id: WindowId(4), app_id: None, cmdline: Some(vec![s("mpv"), s("song.ogg")]) },
        WindowDetails { id: WindowId(1), app_id: Some(s("ignored")), cmdline: None },
    ]
}

#[test]
fn snapshot_records_layout_and_details() {
    let e = sample_layout();
    let saved = e.snapshot_session(&sample_details());
    assert_eq!(saved.active_workspace_idx, 1);
    assert_eq!(saved.workspaces.len(), 3);
    let ws0 = &saved.workspaces[0];
    assert_eq!(ws0.focused_column_idx, 1);
    assert_eq!(ws0.columns.len(), 2);
    assert_eq!(ws0.columns[0].width, 400.0);
    assert_eq!(ws0.columns[0].focused_window_idx, 1);
    assert_eq!(ws0.columns[0].windows[0].title, "Terminal");
    assert_eq!(ws0.columns[0].windows[0].app_id.as_deref(), Some("foot"));
    assert_eq!(ws0.columns[0].windows[0].cmdline, Some(vec![s("foot")]));
    assert_eq!(ws0.columns[0].windows[1].title, "Editor");
    assert_eq!(ws0.columns[0].windows[1].app_id, None);
    assert_eq!(ws0.columns[0].windows[1].cmdline, None);
    assert_eq!(ws0.columns[1].windows[0].app_id.as_deref(), Some("firefox"));
    assert_eq!(saved.workspaces[1].columns[0].width, 500.0);
    assert_eq!(saved.workspaces[1].columns[0].windows[0].cmdline, Some(vec![s("mpv"), s("song.ogg")]));
    assert!(saved.workspaces[2].columns.is_empty());
}

#[test]
fn restore_matches_in_four_rounds() {
    let saved = sample_layout().snapshot_session(&sample_details());
    let mut e: LayoutEngine<f32> = LayoutEngine::new(3);
    let pool = vec![live(10, "Browser - Docs", Some("firefox")), live(11, "Terminal", Some("foot")), live(12, "Random", None)];
    let mut pending: Vec<PendingRestore<f32>> = Vec::new();
    let launches = e.restore_session(&saved, pool, 500.0, &mut pending);

    // Terminal by title and id, Browser by title, Editor takes what is left;
    // Music finds no window.
    let ws0 = &e.workspaces[0];
    assert_eq!(ws0.columns.len(), 2);
    let ids0: Vec<u32> = ws0.columns[0].windows.iter().map(|w| w.id.0).collect();
    assert_eq!(ids0, vec![11, 12]);
    assert_eq!(ws0.columns[0].windows[1].title, "Random");
    assert_eq!(ws0.columns[0].width, 400.0);
    assert_eq!(ws0.columns[0].focused_window_idx, 1);
    assert_eq!(ws0.columns[1].windows[0].id, WindowId(10));
    assert_eq!(ws0.columns[1].width, 600.0);
    assert_eq!(ws0.focused_column_idx, 0);
    assert!(e.workspaces[1].columns.is_empty());
    assert_eq!(e.active_workspace_idx, 1);

    assert_eq!(pending.len(), 1);
    assert_eq!(pending[0].title, "Music");
    assert_eq!(pending[0].app_id, None);
    assert_eq!((pending[0].ws_idx, pending[0].col_idx, pending[0].col_focused_idx), (1, 0, 0));
    assert_eq!(pending[0].col_width, 500.0);
    assert_eq!(launches, vec![vec![s("mpv"), s("song.ogg")]]);
}

#[test]
fn restore_places_leftovers_on_first_workspace() {
    let saved = SavedSession {
        active_workspace_idx: 7,
        workspaces: vec![SavedWorkspace {
            focused_column_idx: 0,
            columns: vec![SavedColumn {
                width: 300.0f32,
                focused_window_idx: 9,
                windows: vec![SavedWindow { title: s("Mail"), app_id: Some(s("mail")), cmdline: None }],
            }],
        }],
    };
    let mut e: LayoutEngine<f32> = LayoutEngine::new(2);
    e.spawn_window(WindowId(99), s("stale"), 1.0);
    let pool = vec![live(5, "Inbox", Some("mail")), live(6, "Other", None), live(7, "Third", Some("x"))];
    let mut pending = Vec::new();
    let launches = e.restore_session(&saved, pool, 500.0, &mut pending);
    assert!(pending.is_empty());
    assert!(launches.is_empty());
    let ws0 = &e.workspaces[0];
    let ids: Vec<u32> = ws0.columns.iter().map(|c| c.windows[0].id.0).collect();
    // Mail finds Inbox by its application id; the others follow, in pool order.
    assert_eq!(ids, vec![5, 6, 7]);
    assert_eq!(ws0.columns[0].width, 300.0);
    assert_eq!(ws0.columns[0].focused_window_idx, 0);
    assert_eq!(ws0.columns[1].width, 500.0);
    assert_eq!(e.active_workspace_idx, 1);
    assert_eq!(e.windows, vec![WindowId(99)]);
}

#[test]
fn restore_merges_workspaces_past_the_last() {
    let saved = sample_layout().snapshot_session(&sample_details());
    let mut e: LayoutEngine<f32> = LayoutEngine::new(1);
    let pool = vec![live(21, "Music", None), live(22, "Browser", Some("firefox"))];
    let mut pending = Vec::new();
    e.restore_session(&saved, pool, 500.0, &mut pending);
    // Both saved workspaces land on the only one; column keys 0 of both meet.
    let ws0 = &e.workspaces[0];
    assert_eq!(ws0.columns.len(), 2);
    assert_eq!(ws0.columns[0].windows.len(), 1);
    assert_eq!(ws0.columns[0].windows[0].id, WindowId(21));
    assert_eq!(ws0.columns[0].width, 500.0);
    assert_eq!(ws0.columns[1].windows[0].id, WindowId(22));
    assert_eq!(pending.len(), 2);
    assert_eq!(e.active_workspace_idx, 0);
}

#[test]
fn restore_keeps_every_live_window_once() {
    let saved = sample_layout().snapshot_session(&sample_details());
    let mut e: LayoutEngine<f32> = LayoutEngine::new(3);
    let pool: Vec<LiveWindow> = (0..7).map(|i| live(40 + i, "Terminal", Some("foot"))).collect();
    let mut pending = Vec::new();
    e.restore_session(&saved, pool, 500.0, &mut pending);
    let mut ids: Vec<u32> = e
        .workspaces
        .iter()
        .flat_map(|ws| ws.columns.iter().flat_map(|c| c.windows.iter().map(|w| w.id.0)))
        .collect();
    ids.sort();
    assert_eq!(ids, (40..47).collect::<Vec<u32>>());
    assert!(pending.is_empty());
}

#[test]
fn snapshot_then_restore_gives_back_the_layout() {
    let before = sample_layout();
    let details = sample_details();
    let saved = before.snapshot_session(&details);
    let pool = vec![
        live(4, "Music", None),
        live(3, "Browser", Some("firefox")),
        live(2, "Editor", None),
        live(1, "Terminal", Some("foot")),
    ];
    let mut after: LayoutEngine<f32> = LayoutEngine::new(3);
    let mut pending = Vec::new();
    after.restore_session(&saved, pool, 500.0, &mut pending);
    assert!(pending.is_empty());
    assert_eq!(after.active_workspace_idx, before.active_workspace_idx);
    for (a, b) in after.workspaces.iter().zip(before.workspaces.iter()) {
        assert_eq!(a.focused_column_idx, 0);
        assert_eq!(a.columns.len(), b.columns.len());
        for (ca, cb) in a.columns.iter().zip(b.columns.iter()) {
            assert_eq!(ca.width, cb.width);
            assert_eq!(ca.focused_window_idx, cb.focused_window_idx);
            let ia: Vec<(u32, &str)> = ca.windows.iter().map(|w| (w.id.0, w.title.as_str())).collect();
            let ib: Vec<(u32, &str)> = cb.windows.iter().map(|w| (w.id.0, w.title.as_str())).collect();
            assert_eq!(ia, ib);
        }
    }
}

#[test]
fn windows_mapped_later_claim_pending_restores() {
    let saved = sample_layout().snapshot_session(&sample_details());
    let mut e: LayoutEngine<f32> = LayoutEngine::new(3);
    let mut pending = Vec::new();
    e.restore_session(&saved, Vec::new(), 500.0, &mut pending);
    assert_eq!(pending.len(), 4);

    assert_eq!(find_pending(&pending, &s("Music - Artist"), &None), Some(3));
    assert_eq!(find_pending(&pending, &s("x"), &Some(s("firefox"))), Some(2));
    assert_eq!(find_pending(&pending, &s("Unrelated"), &Some(s("nope"))), None);
    // An application id of none claims nothing by itself.
    assert_eq!(find_pending(&pending, &s("zzz"), &None), None);

    assert!(e.adopt_window(&mut pending, WindowId(30), s("Music - Artist"), &None, 700.0));
    assert_eq!(pending.len(), 3);
    assert_eq!(e.workspaces[1].columns.len(), 1);
    assert_eq!(e.workspaces[1].columns[0].windows[0].id, WindowId(30));
    assert_eq!(e.workspaces[1].columns[0].width, 500.0);

    assert!(e.adopt_window(&mut pending, WindowId(31), s("Editor"), &None, 700.0));
    assert!(e.adopt_window(&mut pending, WindowId(32), s("Terminal"), &Some(s("foot")), 700.0));
    let col0: Vec<u32> = e.workspaces[0].columns[0].windows.iter().map(|w| w.id.0).collect();
    assert_eq!(col0, vec![31, 32]);
    assert_eq!(e.workspaces[0].columns[0].focused_window_idx, 1);

    assert!(!e.adopt_window(&mut pending, WindowId(33), s("Calculator"), &Some(s("calc")), 700.0));
    assert_eq!(pending.len(), 1);
    assert_eq!(e.active_workspace().columns.len(), 2);
    assert_eq!(e.focused_window_id(), Some(WindowId(33)));
    assert_eq!(e.windows, vec![WindowId(30), WindowId(31), WindowId(32), WindowId(33)]);
}

#[test]
fn session_file_locations() {
    assert_eq!(session_path(Some("c1"), Some("/home/ann")), "/home/ann/.cache/hier/cookies/c1/session.json");
    assert_eq!(session_path(Some("c1"), None), "/home/super/.cache/hier/cookies/c1/session.json");
    assert_eq!(session_path(None, Some("/home/ann")), "/tmp/hier-session.json");
}
