//! Named layout actions: reading an action name, and carrying an action out
//! on the layout.

use vstd::prelude::*;
use crate::layout::{LayoutEngine, LayoutModel, TilingMode, WindowId};
use crate::text::{chars_begin_with, chars_of, parse_number, parsed_number, slice_chars, str_eq, begins_with};

verus! {

/// A layout action, as named by key bindings and by the control socket.
#[derive(Debug, Clone, Copy, PartialEq, Eq, Structural)]
pub enum LayoutAction {
    FocusLeft,
    FocusRight,
    FocusUp,
    FocusDown,
    FocusWorkspaceUp,
    FocusWorkspaceDown,
    MoveLeft,
    MoveRight,
    MoveUp,
    MoveDown,
    ToggleTab,
    SpawnTerminal,
    SpawnMockWindow,
    CloseWindow,
    FreshNest,
    RestoreNestZero,
    /// Switch to a tiling mode other than the overview.
    SetTilingMode(TilingMode),
    ToggleOverview,
    Quit,
    /// Activate workspace number `n`, counted from 1.
    Workspace(usize),
}

/// Why an action name was refused.
#[derive(Debug, Clone, Copy, PartialEq, Eq, Structural)]
pub enum ActionError {
    /// A `workspace-` name whose number is not 1 to 5.
    InvalidWorkspace,
    /// A name that is no action.
    Unknown,
}

/// `s` is the action name `dashed` or its underscored spelling `underscored`.
pub open spec fn named(s: Seq<char>, dashed: Seq<char>, underscored: Seq<char>) -> bool {
    s == dashed || s == underscored
}

/// The action that a name denotes. Every name is accepted with dashes or
/// with underscores; `workspace-N` takes a decimal `N` from 1 to 5.
pub open spec fn spec_parse_action(s: Seq<char>) -> Result<LayoutAction, ActionError> {
    if named(s, "focus-left"@, "focus_left"@) {
        Ok(LayoutAction::FocusLeft)
    } else if named(s, "focus-right"@, "focus_right"@) {
        Ok(LayoutAction::FocusRight)
    } else if named(s, "focus-up"@, "focus_up"@) {
        Ok(LayoutAction::FocusUp)
    } else if named(s, "focus-down"@, "focus_down"@) {
        Ok(LayoutAction::FocusDown)
    } else if named(s, "focus-workspace-up"@, "focus_workspace_up"@) {
        Ok(LayoutAction::FocusWorkspaceUp)
    } else if named(s, "focus-workspace-down"@, "focus_workspace_down"@) {
        Ok(LayoutAction::FocusWorkspaceDown)
    } else if named(s, "move-left"@, "move_left"@) {
        Ok(LayoutAction::MoveLeft)
    } else if named(s, "move-right"@, "move_right"@) {
        Ok(LayoutAction::MoveRight)
    } else if named(s, "move-up"@, "move_up"@) {
        Ok(LayoutAction::MoveUp)
    } else if named(s, "move-down"@, "move_down"@) {
        Ok(LayoutAction::MoveDown)
    } else if named(s, "toggle-tab"@, "toggle_tab"@) {
        Ok(LayoutAction::ToggleTab)
    } else if named(s, "spawn-terminal"@, "spawn_terminal"@) {
        Ok(LayoutAction::SpawnTerminal)
    } else if named(s, "spawn-mock-window"@, "spawn_mock_window"@) {
        Ok(LayoutAction::SpawnMockWindow)
    } else if named(s, "close-window"@, "close_window"@) {
        Ok(LayoutAction::CloseWindow)
    } else if named(s, "fresh-nest"@, "fresh_nest"@) {
        Ok(LayoutAction::FreshNest)
    } else if named(s, "restore-nest-0"@, "restore_nest_0"@) {
        Ok(LayoutAction::RestoreNestZero)
    } else if named(s, "tiling-mode-diagonal"@, "tiling_mode_diagonal"@) {
        Ok(LayoutAction::SetTilingMode(TilingMode::Diagonal))
    } else if named(s, "tiling-mode-grid"@, "tiling_mode_grid"@) {
        Ok(LayoutAction::SetTilingMode(TilingMode::Grid))
    } else if named(s, "tiling-mode-float"@, "tiling_mode_float"@) {
        Ok(LayoutAction::SetTilingMode(TilingMode::Float))
    } else if named(s, "tiling-mode-depth"@, "tiling_mode_depth"@) {
        Ok(LayoutAction::SetTilingMode(TilingMode::Depth))
    } else if named(s, "tiling-mode-overview"@, "tiling_mode_overview"@) {
        Ok(LayoutAction::ToggleOverview)
    } else if s == "quit"@ {
        Ok(LayoutAction::Quit)
    } else if begins_with(s, "workspace-"@) || begins_with(s, "workspace_"@) {
        match parsed_number(s.subrange(10, s.len() as int), usize::MAX as nat) {
            Some(n) => if 1 <= n <= 5 {
                Ok(LayoutAction::Workspace(n as usize))
            } else {
                Err(ActionError::InvalidWorkspace)
            },
            None => Err(ActionError::InvalidWorkspace),
        }
    } else {
        Err(ActionError::Unknown)
    }
}

/// Whether `s` is `a` or `b`.
fn is_named(s: &str, a: &str, b: &str) -> (r: bool)
    ensures
        r == named(s@, a@, b@),
{
    str_eq(s, a) || str_eq(s, b)
}

/// Reads an action name.
pub fn parse_action(s: &str) -> (r: Result<LayoutAction, ActionError>)
    ensures
        r == spec_parse_action(s@),
{
    if is_named(s, "focus-left", "focus_left") {
        Ok(LayoutAction::FocusLeft)
    } else if is_named(s, "focus-right", "focus_right") {
        Ok(LayoutAction::FocusRight)
    } else if is_named(s, "focus-up", "focus_up") {
        Ok(LayoutAction::FocusUp)
    } else if is_named(s, "focus-down", "focus_down") {
        Ok(LayoutAction::FocusDown)
    } else if is_named(s, "focus-workspace-up", "focus_workspace_up") {
        Ok(LayoutAction::FocusWorkspaceUp)
    } else if is_named(s, "focus-workspace-down", "focus_workspace_down") {
        Ok(LayoutAction::FocusWorkspaceDown)
    } else if is_named(s, "move-left", "move_left") {
        Ok(LayoutAction::MoveLeft)
    } else if is_named(s, "move-right", "move_right") {
        Ok(LayoutAction::MoveRight)
    } else if is_named(s, "move-up", "move_up") {
        Ok(LayoutAction::MoveUp)
    } else if is_named(s, "move-down", "move_down") {
        Ok(LayoutAction::MoveDown)
    } else if is_named(s, "toggle-tab", "toggle_tab") {
        Ok(LayoutAction::ToggleTab)
    } else if is_named(s, "spawn-terminal", "spawn_terminal") {
        Ok(LayoutAction::SpawnTerminal)
    } else if is_named(s, "spawn-mock-window", "spawn_mock_window") {
        Ok(LayoutAction::SpawnMockWindow)
    } else if is_named(s, "close-window", "close_window") {
        Ok(LayoutAction::CloseWindow)
    } else if is_named(s, "fresh-nest", "fresh_nest") {
        Ok(LayoutAction::FreshNest)
    } else if is_named(s, "restore-nest-0", "restore_nest_0") {
        Ok(LayoutAction::RestoreNestZero)
    } else if is_named(s, "tiling-mode-diagonal", "tiling_mode_diagonal") {
        Ok(LayoutAction::SetTilingMode(TilingMode::Diagonal))
    } else if is_named(s, "tiling-mode-grid", "tiling_mode_grid") {
        Ok(LayoutAction::SetTilingMode(TilingMode::Grid))
    } else if is_named(s, "tiling-mode-float", "tiling_mode_float") {
        Ok(LayoutAction::SetTilingMode(TilingMode::Float))
    } else if is_named(s, "tiling-mode-depth", "tiling_mode_depth") {
        Ok(LayoutAction::SetTilingMode(TilingMode::Depth))
    } else if is_named(s, "tiling-mode-overview", "tiling_mode_overview") {
        Ok(LayoutAction::ToggleOverview)
    } else if str_eq(s, "quit") {
        Ok(LayoutAction::Quit)
    } else {
        let c = chars_of(s);
        if chars_begin_with(c.as_slice(), "workspace-") || chars_begin_with(c.as_slice(), "workspace_") {
            proof {
                reveal_strlit("workspace-");
                reveal_strlit("workspace_");
            }
            let rest = slice_chars(c.as_slice(), 10, c.len());
            match parse_number(rest.as_slice(), usize::MAX as u64) {
                Some(n) => if 1 <= n && n <= 5 {
                    Ok(LayoutAction::Workspace(n as usize))
                } else {
                    Err(ActionError::InvalidWorkspace)
                },
                None => Err(ActionError::InvalidWorkspace),
            }
        } else {
            Err(ActionError::Unknown)
        }
    }
}

/// What the compositor has to do after an action was carried out on the
/// layout.
#[derive(Debug, Clone, Copy, PartialEq, Eq, Structural)]
pub enum ActionEffect {
    /// The focus may have moved within the layout: the focused window gets
    /// the keyboard focus, windows are repositioned, and the camera is
    /// recentred where `recenter` holds.
    FocusChanged { recenter: bool },
    /// Windows were rearranged: they are repositioned, and the camera is
    /// recentred where `recenter` holds.
    Rearranged { recenter: bool },
    /// In depth mode, the depth carousel steps forward or backward by one
    /// window; the layout itself is left to that step.
    DepthStep { forward: bool },
    /// The focused window, if there was one, was closed.
    Closed { window: Option<WindowId> },
    /// The tiling mode changed: the camera is recentred and windows are
    /// repositioned.
    ModeChanged,
    /// The overview was opened or closed.
    OverviewToggled,
    /// A terminal is to be started.
    SpawnTerminal,
    /// A placeholder window is to be added.
    SpawnMockWindow,
    /// A fresh nested compositor is to be started.
    FreshNest,
    /// The first workspace and its first window were focused.
    Reset,
    /// Another workspace was activated.
    WorkspaceSelected,
    /// The compositor is to stop.
    Quit,
}

/// The layout once `a` is carried out.
pub open spec fn spec_perform<W>(m: LayoutModel<W>, a: LayoutAction) -> LayoutModel<W> {
    match a {
        LayoutAction::FocusLeft => m.focus_left(),
        LayoutAction::FocusRight => m.focus_right(),
        LayoutAction::FocusUp => if m.mode == TilingMode::Depth { m } else { m.focus_tab_up() },
        LayoutAction::FocusDown => if m.mode == TilingMode::Depth { m } else { m.focus_tab_down() },
        LayoutAction::FocusWorkspaceUp => m.focus_workspace_up(),
        LayoutAction::FocusWorkspaceDown => m.focus_workspace_down(),
        LayoutAction::MoveLeft => m.move_column_left(),
        LayoutAction::MoveRight => m.move_column_right(),
        LayoutAction::MoveUp => m.move_window_workspace_up(),
        LayoutAction::MoveDown => m.move_window_workspace_down(),
        LayoutAction::ToggleTab => m.toggle_tab_group(),
        LayoutAction::CloseWindow => match m.focused_window_id() {
            Some(id) => m.close(id),
            None => m,
        },
        LayoutAction::RestoreNestZero => m.reset_to_first(),
        LayoutAction::SetTilingMode(t) => LayoutModel { mode: t, underlying_mode: t, ..m },
        LayoutAction::ToggleOverview => LayoutModel { overview_open: !m.overview_open, ..m },
        LayoutAction::Workspace(n) => LayoutModel { active: n - 1, ..m },
        _ => m,
    }
}

/// What the compositor has to do once `a` is carried out.
pub open spec fn spec_effect<W>(m: LayoutModel<W>, a: LayoutAction) -> ActionEffect {
    let ws = m.active_ws();
    match a {
        LayoutAction::FocusLeft => ActionEffect::FocusChanged { recenter: ws.focused > 0 },
        LayoutAction::FocusRight => ActionEffect::FocusChanged { recenter: ws.focused + 1 < ws.columns.len() },
        LayoutAction::FocusUp => if m.mode == TilingMode::Depth {
            ActionEffect::DepthStep { forward: false }
        } else {
            ActionEffect::FocusChanged { recenter: false }
        },
        LayoutAction::FocusDown => if m.mode == TilingMode::Depth {
            ActionEffect::DepthStep { forward: true }
        } else {
            ActionEffect::FocusChanged { recenter: false }
        },
        LayoutAction::FocusWorkspaceUp => ActionEffect::FocusChanged { recenter: m.active > 0 },
        LayoutAction::FocusWorkspaceDown => ActionEffect::FocusChanged { recenter: m.active + 1 < m.workspaces.len() },
        LayoutAction::MoveLeft => ActionEffect::Rearranged { recenter: ws.focused > 0 },
        LayoutAction::MoveRight => ActionEffect::Rearranged { recenter: ws.focused + 1 < ws.columns.len() },
        LayoutAction::MoveUp => ActionEffect::Rearranged { recenter: m.active > 0 && ws.columns.len() > 0 },
        LayoutAction::MoveDown => ActionEffect::Rearranged {
            recenter: m.active + 1 < m.workspaces.len() && ws.columns.len() > 0,
        },
        LayoutAction::ToggleTab => ActionEffect::Rearranged { recenter: ws.columns.len() > 0 },
        LayoutAction::SpawnTerminal => ActionEffect::SpawnTerminal,
        LayoutAction::SpawnMockWindow => ActionEffect::SpawnMockWindow,
        LayoutAction::CloseWindow => ActionEffect::Closed { window: m.focused_window_id() },
        LayoutAction::FreshNest => ActionEffect::FreshNest,
        LayoutAction::RestoreNestZero => ActionEffect::Reset,
        LayoutAction::SetTilingMode(_) => ActionEffect::ModeChanged,
        LayoutAction::ToggleOverview => ActionEffect::OverviewToggled,
        LayoutAction::Quit => ActionEffect::Quit,
        LayoutAction::Workspace(_) => ActionEffect::WorkspaceSelected,
    }
}

/// The actions that can be carried out on a layout: a workspace number must
/// name one of its workspaces.
pub open spec fn action_fits<W>(m: LayoutModel<W>, a: LayoutAction) -> bool {
    match a {
        LayoutAction::Workspace(n) => 1 <= n <= m.workspaces.len(),
        _ => true,
    }
}

impl<W: Copy> LayoutEngine<W> {
    /// Carries out an action on the layout, and says what the compositor has
    /// to do next.
    pub fn perform_action(&mut self, a: LayoutAction) -> (r: ActionEffect)
        requires
            old(self)@.wf(),
            action_fits(old(self)@, a),
        ensures
            final(self)@ == spec_perform(old(self)@, a),
            r == spec_effect(old(self)@, a),
            final(self)@.wf(),
    {
        match a {
            LayoutAction::FocusLeft => ActionEffect::FocusChanged { recenter: self.focus_left() },
            LayoutAction::FocusRight => ActionEffect::FocusChanged { recenter: self.focus_right() },
            LayoutAction::FocusUp => {
                if self.tiling_mode == TilingMode::Depth {
                    ActionEffect::DepthStep { forward: false }
                } else {
                    self.focus_tab_up();
                    ActionEffect::FocusChanged { recenter: false }
                }
            },
            LayoutAction::FocusDown => {
                if self.tiling_mode == TilingMode::Depth {
                    ActionEffect::DepthStep { forward: true }
                } else {
                    self.focus_tab_down();
                    ActionEffect::FocusChanged { recenter: false }
                }
            },
            LayoutAction::FocusWorkspaceUp => ActionEffect::FocusChanged { recenter: self.focus_workspace_up() },
            LayoutAction::FocusWorkspaceDown => ActionEffect::FocusChanged { recenter: self.focus_workspace_down() },
            LayoutAction::MoveLeft => ActionEffect::Rearranged { recenter: self.move_column_left() },
            LayoutAction::MoveRight => ActionEffect::Rearranged { recenter: self.move_column_right() },
            LayoutAction::MoveUp => ActionEffect::Rearranged { recenter: self.move_window_workspace_up() },
            LayoutAction::MoveDown => ActionEffect::Rearranged { recenter: self.move_window_workspace_down() },
            LayoutAction::ToggleTab => ActionEffect::Rearranged { recenter: self.toggle_tab_group() },
            LayoutAction::SpawnTerminal => ActionEffect::SpawnTerminal,
            LayoutAction::SpawnMockWindow => ActionEffect::SpawnMockWindow,
            LayoutAction::CloseWindow => {
                let focused = self.focused_window_id();
                match focused {
                    Some(id) => {
                        self.close_window(id);
                    },
                    None => {},
                }
                ActionEffect::Closed { window: focused }
            },
            LayoutAction::FreshNest => ActionEffect::FreshNest,
            LayoutAction::RestoreNestZero => {
                self.restore_nest_zero();
                ActionEffect::Reset
            },
            LayoutAction::SetTilingMode(t) => {
                self.tiling_mode = t;
                self.underlying_tiling_mode = t;
                ActionEffect::ModeChanged
            },
            LayoutAction::ToggleOverview => {
                self.overview_open = !self.overview_open;
                ActionEffect::OverviewToggled
            },
            LayoutAction::Quit => ActionEffect::Quit,
            LayoutAction::Workspace(n) => {
                self.select_workspace(n - 1);
                ActionEffect::WorkspaceSelected
            },
        }
    }
}

} // verus!
