use hier::action::{parse_action, ActionEffect, ActionError, LayoutAction};
use hier::command::{parse_command, press_state, Command, CommandError};
use hier::layout::{LayoutEngine, TilingMode, WindowId};
use hier::text::split_words;

fn words(s: &str) -> Vec<Vec<char>> {
    let chars: Vec<char> = s.chars().collect();
    split_words(&chars)
}

fn parse(s: &str) -> Result<Command, CommandError> {
    parse_command(&words(s))
}

#[test]
fn split_words_skips_runs_of_whitespace() {
    let w = words("  a\tbc \n d ");
    let got: Vec<String> = w.iter().map(|x| x.iter().collect()).collect();
    assert_eq!(got, vec!["a", "bc", "d"]);
}

#[test]
fn commands_with_integer_arguments() {
    assert_eq!(parse("keyboard_key 30 pressed"), Ok(Command::KeyboardKey { keycode: 30, pressed: true }));
    assert_eq!(parse("keyboard_key 30 RELEASED"), Ok(Command::KeyboardKey { keycode: 30, pressed: false }));
    assert_eq!(parse("pointer_button 272 Pressed"), Ok(Command::PointerButton { button: 272, pressed: true }));
    assert_eq!(parse("highlight-window 4 red"), Ok(Command::HighlightWindow { window: 4 }));
    assert_eq!(parse("capture_window 7 /tmp/x.png"), Ok(Command::CaptureWindow { window: 7 }));
    assert_eq!(parse("copy-window-to-clipboard 9"), Ok(Command::CopyWindowToClipboard { window: 9 }));
    assert_eq!(
        parse("reposition_window 3 1 2 0"),
        Ok(Command::RepositionWindow { window: 3, workspace: 1, column: 2, tile: 0 })
    );
    assert_eq!(parse("cut_window wayland-2 12"), Ok(Command::CutWindow { window: 12 }));
    assert_eq!(parse("get_scrolling_position 5"), Ok(Command::GetScrollingPosition { window: Some(5) }));
    assert_eq!(parse("get-scrolling-position x"), Ok(Command::GetScrollingPosition { window: None }));
    assert_eq!(parse("get_scrolling_position"), Ok(Command::GetScrollingPosition { window: None }));
    assert_eq!(parse("set_camera 1.5 2 immediate"), Ok(Command::SetCamera { immediate: true }));
    assert_eq!(parse("set-camera 1.5 2"), Ok(Command::SetCamera { immediate: false }));
    assert_eq!(parse("set_camera 1 2 later"), Ok(Command::SetCamera { immediate: false }));
    assert_eq!(parse("keyboard_key +30 pressed"), Ok(Command::KeyboardKey { keycode: 30, pressed: true }));
}

#[test]
fn commands_without_integer_arguments() {
    assert_eq!(parse("pointer_motion 1.0 2.0"), Ok(Command::PointerMotion));
    assert_eq!(parse("pointer_motion_local 1 2"), Ok(Command::PointerMotionLocal));
    assert_eq!(parse("pointer_axis 0 3"), Ok(Command::PointerAxis));
    assert_eq!(parse("pointer_gesture_swipe 1 1"), Ok(Command::PointerGestureSwipe));
    assert_eq!(parse("pointer_gesture_swipe_end"), Ok(Command::PointerGestureSwipeEnd));
    assert_eq!(parse("register_child_display wayland-3"), Ok(Command::RegisterChildDisplay));
    assert_eq!(parse("get_child_display"), Ok(Command::GetChildDisplay));
    assert_eq!(parse("pointer_axis_z 1"), Ok(Command::PointerAxisZ));
    assert_eq!(parse("clear-highlight"), Ok(Command::ClearHighlight));
    assert_eq!(parse("get_layout_compact"), Ok(Command::GetLayoutCompact));
    assert_eq!(parse("set_spring camera 300 20"), Ok(Command::SetSpring));
    assert_eq!(parse("reset-telemetry"), Ok(Command::ResetTelemetry));
    assert_eq!(parse("get_telemetry"), Ok(Command::GetTelemetry));
    assert_eq!(parse("save-session"), Ok(Command::SaveSession));
    assert_eq!(parse("restore_session"), Ok(Command::RestoreSession));
    assert_eq!(parse("action focus-left"), Ok(Command::Action));
    assert_eq!(parse("get_layout"), Ok(Command::GetLayout));
    assert_eq!(parse("get_windows"), Ok(Command::GetWindows));
    assert_eq!(parse("get-camera"), Ok(Command::GetCamera));
}

#[test]
fn every_command_error() {
    let cases: Vec<(&str, CommandError)> = vec![
        ("   ", CommandError::Empty),
        ("frobnicate", CommandError::Unknown),
        ("keyboard_key 30", CommandError::KeyboardKeyArgs),
        ("keyboard_key x pressed", CommandError::InvalidKeycode),
        ("keyboard_key 30 held", CommandError::KeyState),
        ("pointer_motion 1", CommandError::PointerMotionArgs),
        ("pointer_motion_local 1", CommandError::PointerMotionLocalArgs),
        ("pointer_button 1", CommandError::PointerButtonArgs),
        ("pointer_button -1 pressed", CommandError::InvalidButtonCode),
        ("pointer_button 1 up", CommandError::ButtonState),
        ("pointer_axis 1", CommandError::PointerAxisArgs),
        ("pointer_gesture_swipe 1", CommandError::GestureSwipeArgs),
        ("register_child_display", CommandError::RegisterChildDisplayArgs),
        ("pointer_axis_z", CommandError::PointerAxisZArgs),
        ("highlight_window 1", CommandError::HighlightWindowArgs),
        ("highlight_window one red", CommandError::InvalidWindowId),
        ("set_spring camera 1", CommandError::SetSpringArgs),
        ("capture_window 1", CommandError::CaptureWindowArgs),
        ("copy_window_to_clipboard", CommandError::CopyWindowArgs),
        ("action", CommandError::ActionArgs),
        ("reposition_window 1 2 3", CommandError::RepositionWindowArgs),
        ("reposition_window 1 x 3 4", CommandError::InvalidWorkspaceIdx),
        ("reposition_window 1 2 x 4", CommandError::InvalidColumnIdx),
        ("reposition_window 1 2 3 x", CommandError::InvalidTileIdx),
        ("cut_window wayland-1", CommandError::CutWindowArgs),
        ("set_camera 1", CommandError::SetCameraArgs),
    ];
    for (input, want) in cases {
        assert_eq!(parse(input), Err(want), "input {:?}", input);
    }
    assert_eq!(parse("reposition_window x y z w"), Err(CommandError::InvalidWindowId));
    assert_eq!(parse("keyboard_key 4294967296 pressed"), Err(CommandError::InvalidKeycode));
}

#[test]
fn error_messages() {
    assert_eq!(CommandError::Empty.message(), "error: empty command\n");
    assert_eq!(CommandError::Unknown.message(), "error: unknown command '");
    assert_eq!(CommandError::InvalidWindowId.message(), "error: invalid window_id\n");
    assert_eq!(
        CommandError::SetSpringArgs.message(),
        "error: set_spring requires <camera|window|overview> <stiffness> <damping>\n"
    );
}

#[test]
fn press_states() {
    let p: Vec<char> = "pressed".chars().collect();
    let r: Vec<char> = "released".chars().collect();
    let x: Vec<char> = "Pressed".chars().collect();
    assert_eq!(press_state(&p), Some(true));
    assert_eq!(press_state(&r), Some(false));
    assert_eq!(press_state(&x), None);
}

#[test]
fn action_names() {
    assert_eq!(parse_action("focus-left"), Ok(LayoutAction::FocusLeft));
    assert_eq!(parse_action("focus_workspace_down"), Ok(LayoutAction::FocusWorkspaceDown));
    assert_eq!(parse_action("restore-nest-0"), Ok(LayoutAction::RestoreNestZero));
    assert_eq!(parse_action("tiling_mode_depth"), Ok(LayoutAction::SetTilingMode(TilingMode::Depth)));
    assert_eq!(parse_action("tiling-mode-overview"), Ok(LayoutAction::ToggleOverview));
    assert_eq!(parse_action("quit"), Ok(LayoutAction::Quit));
    assert_eq!(parse_action("workspace-3"), Ok(LayoutAction::Workspace(3)));
    assert_eq!(parse_action("workspace_5"), Ok(LayoutAction::Workspace(5)));
    assert_eq!(parse_action("workspace-0"), Err(ActionError::InvalidWorkspace));
    assert_eq!(parse_action("workspace-6"), Err(ActionError::InvalidWorkspace));
    assert_eq!(parse_action("workspace-x"), Err(ActionError::InvalidWorkspace));
    assert_eq!(parse_action("Focus-Left"), Err(ActionError::Unknown));
    assert_eq!(parse_action(""), Err(ActionError::Unknown));
}

#[test]
fn performing_actions() {
    let mut engine: LayoutEngine<f32> = LayoutEngine::new(5);
    engine.spawn_window(WindowId(1), "a".to_string(), 400.0);
    engine.spawn_window(WindowId(2), "b".to_string(), 400.0);
    assert_eq!(engine.perform_action(LayoutAction::FocusLeft), ActionEffect::FocusChanged { recenter: true });
    assert_eq!(engine.perform_action(LayoutAction::FocusLeft), ActionEffect::FocusChanged { recenter: false });
    assert_eq!(engine.perform_action(LayoutAction::MoveRight), ActionEffect::Rearranged { recenter: true });
    assert_eq!(engine.active_workspace().columns[1].windows[0].id, WindowId(1));
    assert_eq!(engine.perform_action(LayoutAction::CloseWindow), ActionEffect::Closed { window: Some(WindowId(1)) });
    assert_eq!(engine.active_workspace().columns.len(), 1);
    assert_eq!(
        engine.perform_action(LayoutAction::SetTilingMode(TilingMode::Depth)),
        ActionEffect::ModeChanged
    );
    assert_eq!(engine.tiling_mode, TilingMode::Depth);
    assert_eq!(engine.underlying_tiling_mode, TilingMode::Depth);
    assert_eq!(engine.perform_action(LayoutAction::FocusDown), ActionEffect::DepthStep { forward: true });
    assert_eq!(engine.perform_action(LayoutAction::FocusUp), ActionEffect::DepthStep { forward: false });
    assert_eq!(engine.perform_action(LayoutAction::ToggleOverview), ActionEffect::OverviewToggled);
    assert!(engine.overview_open);
    assert_eq!(engine.perform_action(LayoutAction::Workspace(3)), ActionEffect::WorkspaceSelected);
    assert_eq!(engine.active_workspace_idx, 2);
    assert_eq!(engine.perform_action(LayoutAction::CloseWindow), ActionEffect::Closed { window: None });
    assert_eq!(engine.perform_action(LayoutAction::RestoreNestZero), ActionEffect::Reset);
    assert_eq!(engine.active_workspace_idx, 0);
    assert_eq!(engine.perform_action(LayoutAction::SpawnTerminal), ActionEffect::SpawnTerminal);
    assert_eq!(engine.perform_action(LayoutAction::Quit), ActionEffect::Quit);
}
