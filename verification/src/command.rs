//! Text commands of the control socket: the verb, how many arguments it
//! takes, and its integer arguments. Arguments that are text or real numbers
//! are left in the command's words, at the positions each command names.

use vstd::prelude::*;
use crate::text::{chars_are, lowercase, parse_number, parsed_number, to_lowercase};

verus! {

/// A text command whose verb and integer arguments were read.
#[derive(Debug, Clone, Copy, PartialEq, Eq, Structural)]
pub enum Command {
    /// `keyboard_key <keycode> <pressed|released>`
    KeyboardKey { keycode: u32, pressed: bool },
    /// `pointer_motion <x> <y>`: the coordinates are words 1 and 2.
    PointerMotion,
    /// `pointer_motion_local <x> <y>`: the coordinates are words 1 and 2.
    PointerMotionLocal,
    /// `pointer_button <button> <pressed|released>`
    PointerButton { button: u32, pressed: bool },
    /// `pointer_axis <horizontal> <vertical>`: the amounts are words 1 and 2.
    PointerAxis,
    /// `pointer_gesture_swipe <dx> <dy>`: the deltas are words 1 and 2.
    PointerGestureSwipe,
    /// `pointer_gesture_swipe_end`
    PointerGestureSwipeEnd,
    /// `register_child_display <name>`: the name is word 1.
    RegisterChildDisplay,
    /// `get_child_display`
    GetChildDisplay,
    /// `pointer_axis_z <amount>`: the amount is word 1.
    PointerAxisZ,
    /// `highlight_window <window> <colour>`: the colour is word 2.
    HighlightWindow { window: u32 },
    /// `clear_highlight`
    ClearHighlight,
    /// `get_layout_compact`
    GetLayoutCompact,
    /// `set_spring <target> <stiffness> <damping>`: words 1 to 3.
    SetSpring,
    /// `reset_telemetry`
    ResetTelemetry,
    /// `get_telemetry`
    GetTelemetry,
    /// `save_session`
    SaveSession,
    /// `restore_session`
    RestoreSession,
    /// `capture_window <window> <path>`: the path is word 2.
    CaptureWindow { window: u32 },
    /// `copy_window_to_clipboard <window>`
    CopyWindowToClipboard { window: u32 },
    /// `action <name>`: the name is word 1.
    Action,
    /// `get_layout`
    GetLayout,
    /// `get_scrolling_position [window]`; a window word that is no number
    /// counts as none.
    GetScrollingPosition { window: Option<u32> },
    /// `reposition_window <window> <workspace> <column> <tile>`
    RepositionWindow { window: u32, workspace: usize, column: usize, tile: usize },
    /// `cut_window <child_display> <window>`: the display is word 1.
    CutWindow { window: u32 },
    /// `get_windows`
    GetWindows,
    /// `get_camera`
    GetCamera,
    /// `set_camera <x> <y> [immediate]`: the coordinates are words 1 and 2.
    SetCamera { immediate: bool },
}

/// Why a text command was refused.
#[derive(Debug, Clone, Copy, PartialEq, Eq, Structural)]
pub enum CommandError {
    Empty,
    /// The verb (word 0) is no command.
    Unknown,
    KeyboardKeyArgs,
    InvalidKeycode,
    KeyState,
    PointerMotionArgs,
    PointerMotionLocalArgs,
    PointerButtonArgs,
    InvalidButtonCode,
    ButtonState,
    PointerAxisArgs,
    GestureSwipeArgs,
    RegisterChildDisplayArgs,
    PointerAxisZArgs,
    HighlightWindowArgs,
    InvalidWindowId,
    SetSpringArgs,
    CaptureWindowArgs,
    CopyWindowArgs,
    ActionArgs,
    RepositionWindowArgs,
    InvalidWorkspaceIdx,
    InvalidColumnIdx,
    InvalidTileIdx,
    CutWindowArgs,
    SetCameraArgs,
}

/// The answer line of each refusal; for `Unknown`, the start of the line,
/// which the verb, a closing quote and a newline complete.
pub open spec fn spec_error_message(e: CommandError) -> Seq<char> {
    match e {
        CommandError::Empty => "error: empty command\n"@,
        CommandError::Unknown => "error: unknown command '"@,
        CommandError::KeyboardKeyArgs => "error: keyboard_key requires keycode and state\n"@,
        CommandError::InvalidKeycode => "error: invalid keycode\n"@,
        CommandError::KeyState => "error: key state must be pressed or released\n"@,
        CommandError::PointerMotionArgs => "error: pointer_motion requires x and y\n"@,
        CommandError::PointerMotionLocalArgs => "error: pointer_motion_local requires x and y\n"@,
        CommandError::PointerButtonArgs => "error: pointer_button requires button_code and state\n"@,
        CommandError::InvalidButtonCode => "error: invalid button code\n"@,
        CommandError::ButtonState => "error: button state must be pressed or released\n"@,
        CommandError::PointerAxisArgs => "error: pointer_axis requires horizontal and vertical scroll values\n"@,
        CommandError::GestureSwipeArgs => "error: pointer_gesture_swipe requires dx and dy\n"@,
        CommandError::RegisterChildDisplayArgs => "error: register_child_display requires display_name\n"@,
        CommandError::PointerAxisZArgs => "error: pointer_axis_z requires scroll value\n"@,
        CommandError::HighlightWindowArgs => "error: highlight_window requires window_id and color\n"@,
        CommandError::InvalidWindowId => "error: invalid window_id\n"@,
        CommandError::SetSpringArgs => "error: set_spring requires <camera|window|overview> <stiffness> <damping>\n"@,
        CommandError::CaptureWindowArgs => "error: capture_window requires window_id and path\n"@,
        CommandError::CopyWindowArgs => "error: copy_window_to_clipboard requires window_id\n"@,
        CommandError::ActionArgs => "error: action requires action_name\n"@,
        CommandError::RepositionWindowArgs => "error: reposition_window requires window_id workspace_idx column_idx tile_idx\n"@,
        CommandError::InvalidWorkspaceIdx => "error: invalid workspace_idx\n"@,
        CommandError::InvalidColumnIdx => "error: invalid column_idx\n"@,
        CommandError::InvalidTileIdx => "error: invalid tile_idx\n"@,
        CommandError::CutWindowArgs => "error: cut_window requires child_display and window_id\n"@,
        CommandError::SetCameraArgs => "error: set_camera requires x and y\n"@,
    }
}

impl CommandError {
    /// The answer line of this refusal (for `Unknown`, the start of the line,
    /// which the verb, a closing quote and a newline complete).
    pub fn message(&self) -> (r: &'static str)
        ensures
            r@ == spec_error_message(*self),
    {
        match self {
            CommandError::Empty => "error: empty command\n",
            CommandError::Unknown => "error: unknown command '",
            CommandError::KeyboardKeyArgs => "error: keyboard_key requires keycode and state\n",
            CommandError::InvalidKeycode => "error: invalid keycode\n",
            CommandError::KeyState => "error: key state must be pressed or released\n",
            CommandError::PointerMotionArgs => "error: pointer_motion requires x and y\n",
            CommandError::PointerMotionLocalArgs => "error: pointer_motion_local requires x and y\n",
            CommandError::PointerButtonArgs => "error: pointer_button requires button_code and state\n",
            CommandError::InvalidButtonCode => "error: invalid button code\n",
            CommandError::ButtonState => "error: button state must be pressed or released\n",
            CommandError::PointerAxisArgs => "error: pointer_axis requires horizontal and vertical scroll values\n",
            CommandError::GestureSwipeArgs => "error: pointer_gesture_swipe requires dx and dy\n",
            CommandError::RegisterChildDisplayArgs => "error: register_child_display requires display_name\n",
            CommandError::PointerAxisZArgs => "error: pointer_axis_z requires scroll value\n",
            CommandError::HighlightWindowArgs => "error: highlight_window requires window_id and color\n",
            CommandError::InvalidWindowId => "error: invalid window_id\n",
            CommandError::SetSpringArgs => "error: set_spring requires <camera|window|overview> <stiffness> <damping>\n",
            CommandError::CaptureWindowArgs => "error: capture_window requires window_id and path\n",
            CommandError::CopyWindowArgs => "error: copy_window_to_clipboard requires window_id\n",
            CommandError::ActionArgs => "error: action requires action_name\n",
            CommandError::RepositionWindowArgs => "error: reposition_window requires window_id workspace_idx column_idx tile_idx\n",
            CommandError::InvalidWorkspaceIdx => "error: invalid workspace_idx\n",
            CommandError::InvalidColumnIdx => "error: invalid column_idx\n",
            CommandError::InvalidTileIdx => "error: invalid tile_idx\n",
            CommandError::CutWindowArgs => "error: cut_window requires child_display and window_id\n",
            CommandError::SetCameraArgs => "error: set_camera requires x and y\n",
        }
    }
}

/// A press (`Some(true)`) or release (`Some(false)`) state word, already
/// lowercased.
pub open spec fn spec_press_state(lower: Seq<char>) -> Option<bool> {
    if lower == "pressed"@ {
        Some(true)
    } else if lower == "released"@ {
        Some(false)
    } else {
        None
    }
}

/// Reads a lowercased press or release state word.
pub fn press_state(lower: &[char]) -> (r: Option<bool>)
    ensures
        r == spec_press_state(lower@),
{
    if chars_are(lower, "pressed") {
        Some(true)
    } else if chars_are(lower, "released") {
        Some(false)
    } else {
        None
    }
}

/// A `u32` argument.
pub open spec fn arg_u32(w: Seq<char>) -> Option<u32> {
    match parsed_number(w, u32::MAX as nat) {
        Some(v) => Some(v as u32),
        None => None,
    }
}

/// A `usize` argument.
pub open spec fn arg_usize(w: Seq<char>) -> Option<usize> {
    match parsed_number(w, usize::MAX as nat) {
        Some(v) => Some(v as usize),
        None => None,
    }
}

fn read_u32(w: &[char]) -> (r: Option<u32>)
    ensures
        r == arg_u32(w@),
{
    match parse_number(w, u32::MAX as u64) {
        Some(v) => Some(v as u32),
        None => None,
    }
}

fn read_usize(w: &[char]) -> (r: Option<usize>)
    ensures
        r == arg_usize(w@),
{
    match parse_number(w, usize::MAX as u64) {
        Some(v) => Some(v as usize),
        None => None,
    }
}

/// The verb `v` is `dashed` or its underscored spelling.
pub open spec fn verb(v: Seq<char>, underscored: Seq<char>, dashed: Seq<char>) -> bool {
    v == underscored || v == dashed
}

/// A command read from its whitespace-separated words.
pub open spec fn spec_parse_command(w: Seq<Seq<char>>) -> Result<Command, CommandError> {
    if w.len() == 0 {
        Err(CommandError::Empty)
    } else {
        let v = w[0];
        let n = w.len();
        if v == "keyboard_key"@ {
            if n < 3 {
                Err(CommandError::KeyboardKeyArgs)
            } else {
                match arg_u32(w[1]) {
                    None => Err(CommandError::InvalidKeycode),
                    Some(k) => match spec_press_state(lowercase(w[2])) {
                        None => Err(CommandError::KeyState),
                        Some(p) => Ok(Command::KeyboardKey { keycode: k, pressed: p }),
                    },
                }
            }
        } else if v == "pointer_motion"@ {
            if n < 3 { Err(CommandError::PointerMotionArgs) } else { Ok(Command::PointerMotion) }
        } else if v == "pointer_motion_local"@ {
            if n < 3 { Err(CommandError::PointerMotionLocalArgs) } else { Ok(Command::PointerMotionLocal) }
        } else if v == "pointer_button"@ {
            if n < 3 {
                Err(CommandError::PointerButtonArgs)
            } else {
                match arg_u32(w[1]) {
                    None => Err(CommandError::InvalidButtonCode),
                    Some(b) => match spec_press_state(lowercase(w[2])) {
                        None => Err(CommandError::ButtonState),
                        Some(p) => Ok(Command::PointerButton { button: b, pressed: p }),
                    },
                }
            }
        } else if v == "pointer_axis"@ {
            if n < 3 { Err(CommandError::PointerAxisArgs) } else { Ok(Command::PointerAxis) }
        } else if v == "pointer_gesture_swipe"@ {
            if n < 3 { Err(CommandError::GestureSwipeArgs) } else { Ok(Command::PointerGestureSwipe) }
        } else if v == "pointer_gesture_swipe_end"@ {
            Ok(Command::PointerGestureSwipeEnd)
        } else if v == "register_child_display"@ {
            if n < 2 { Err(CommandError::RegisterChildDisplayArgs) } else { Ok(Command::RegisterChildDisplay) }
        } else if v == "get_child_display"@ {
            Ok(Command::GetChildDisplay)
        } else if v == "pointer_axis_z"@ {
            if n < 2 { Err(CommandError::PointerAxisZArgs) } else { Ok(Command::PointerAxisZ) }
        } else if verb(v, "highlight_window"@, "highlight-window"@) {
            if n < 3 {
                Err(CommandError::HighlightWindowArgs)
            } else {
                match arg_u32(w[1]) {
                    None => Err(CommandError::InvalidWindowId),
                    Some(id) => Ok(Command::HighlightWindow { window: id }),
                }
            }
        } else if verb(v, "clear_highlight"@, "clear-highlight"@) {
            Ok(Command::ClearHighlight)
        } else if verb(v, "get_layout_compact"@, "get-layout-compact"@) {
            Ok(Command::GetLayoutCompact)
        } else if verb(v, "set_spring"@, "set-spring"@) {
            if n < 4 { Err(CommandError::SetSpringArgs) } else { Ok(Command::SetSpring) }
        } else if verb(v, "reset_telemetry"@, "reset-telemetry"@) {
            Ok(Command::ResetTelemetry)
        } else if verb(v, "get_telemetry"@, "get-telemetry"@) {
            Ok(Command::GetTelemetry)
        } else if verb(v, "save_session"@, "save-session"@) {
            Ok(Command::SaveSession)
        } else if verb(v, "restore_session"@, "restore-session"@) {
            Ok(Command::RestoreSession)
        } else if verb(v, "capture_window"@, "capture-window"@) {
            if n < 3 {
                Err(CommandError::CaptureWindowArgs)
            } else {
                match arg_u32(w[1]) {
                    None => Err(CommandError::InvalidWindowId),
                    Some(id) => Ok(Command::CaptureWindow { window: id }),
                }
            }
        } else if verb(v, "copy_window_to_clipboard"@, "copy-window-to-clipboard"@) {
            if n < 2 {
                Err(CommandError::CopyWindowArgs)
            } else {
                match arg_u32(w[1]) {
                    None => Err(CommandError::InvalidWindowId),
                    Some(id) => Ok(Command::CopyWindowToClipboard { window: id }),
                }
            }
        } else if v == "action"@ {
            if n < 2 { Err(CommandError::ActionArgs) } else { Ok(Command::Action) }
        } else if v == "get_layout"@ {
            Ok(Command::GetLayout)
        } else if verb(v, "get_scrolling_position"@, "get-scrolling-position"@) {
            Ok(Command::GetScrollingPosition { window: if n > 1 { arg_u32(w[1]) } else { None } })
        } else if verb(v, "reposition_window"@, "reposition-window"@) {
            if n < 5 {
                Err(CommandError::RepositionWindowArgs)
            } else {
                match (arg_u32(w[1]), arg_usize(w[2]), arg_usize(w[3]), arg_usize(w[4])) {
                    (None, _, _, _) => Err(CommandError::InvalidWindowId),
                    (_, None, _, _) => Err(CommandError::InvalidWorkspaceIdx),
                    (_, _, None, _) => Err(CommandError::InvalidColumnIdx),
                    (_, _, _, None) => Err(CommandError::InvalidTileIdx),
                    (Some(id), Some(ws), Some(col), Some(tile)) => Ok(
                        Command::RepositionWindow { window: id, workspace: ws, column: col, tile },
                    ),
                }
            }
        } else if verb(v, "cut_window"@, "cut-window"@) {
            if n < 3 {
                Err(CommandError::CutWindowArgs)
            } else {
                match arg_u32(w[2]) {
                    None => Err(CommandError::InvalidWindowId),
                    Some(id) => Ok(Command::CutWindow { window: id }),
                }
            }
        } else if v == "get_windows"@ {
            Ok(Command::GetWindows)
        } else if verb(v, "get_camera"@, "get-camera"@) {
            Ok(Command::GetCamera)
        } else if verb(v, "set_camera"@, "set-camera"@) {
            if n < 3 {
                Err(CommandError::SetCameraArgs)
            } else {
                Ok(Command::SetCamera { immediate: n > 3 && (w[3] == "true"@ || w[3] == "immediate"@) })
            }
        } else {
            Err(CommandError::Unknown)
        }
    }
}

fn is_verb(v: &[char], a: &str, b: &str) -> (r: bool)
    ensures
        r == verb(v@, a@, b@),
{
    chars_are(v, a) || chars_are(v, b)
}

fn read_press_state(w: &[char]) -> (r: Option<bool>)
    ensures
        r == spec_press_state(lowercase(w@)),
{
    let lower = to_lowercase(w);
    press_state(lower.as_slice())
}

/// Reads a text command from its whitespace-separated words.
pub fn parse_command(w: &Vec<Vec<char>>) -> (r: Result<Command, CommandError>)
    ensures
        r == spec_parse_command(w@.map_values(|x: Vec<char>| x@)),
{
    let ghost ws = w@.map_values(|x: Vec<char>| x@);
    let n = w.len();
    if n == 0 {
        return Err(CommandError::Empty);
    }
    let v = w[0].as_slice();
    proof {
        assert(ws[0] == w@[0]@);
    }
    if chars_are(v, "keyboard_key") {
        if n < 3 {
            return Err(CommandError::KeyboardKeyArgs);
        }
        proof {
            assert(ws[1] == w@[1]@);
            assert(ws[2] == w@[2]@);
        }
        match read_u32(w[1].as_slice()) {
            None => Err(CommandError::InvalidKeycode),
            Some(k) => match read_press_state(w[2].as_slice()) {
                None => Err(CommandError::KeyState),
                Some(p) => Ok(Command::KeyboardKey { keycode: k, pressed: p }),
            },
        }
    } else if chars_are(v, "pointer_motion") {
        if n < 3 { Err(CommandError::PointerMotionArgs) } else { Ok(Command::PointerMotion) }
    } else if chars_are(v, "pointer_motion_local") {
        if n < 3 { Err(CommandError::PointerMotionLocalArgs) } else { Ok(Command::PointerMotionLocal) }
    } else if chars_are(v, "pointer_button") {
        if n < 3 {
            return Err(CommandError::PointerButtonArgs);
        }
        proof {
            assert(ws[1] == w@[1]@);
            assert(ws[2] == w@[2]@);
        }
        match read_u32(w[1].as_slice()) {
            None => Err(CommandError::InvalidButtonCode),
            Some(b) => match read_press_state(w[2].as_slice()) {
                None => Err(CommandError::ButtonState),
                Some(p) => Ok(Command::PointerButton { button: b, pressed: p }),
            },
        }
    } else if chars_are(v, "pointer_axis") {
        if n < 3 { Err(CommandError::PointerAxisArgs) } else { Ok(Command::PointerAxis) }
    } else if chars_are(v, "pointer_gesture_swipe") {
        if n < 3 { Err(CommandError::GestureSwipeArgs) } else { Ok(Command::PointerGestureSwipe) }
    } else if chars_are(v, "pointer_gesture_swipe_end") {
        Ok(Command::PointerGestureSwipeEnd)
    } else if chars_are(v, "register_child_display") {
        if n < 2 { Err(CommandError::RegisterChildDisplayArgs) } else { Ok(Command::RegisterChildDisplay) }
    } else if chars_are(v, "get_child_display") {
        Ok(Command::GetChildDisplay)
    } else if chars_are(v, "pointer_axis_z") {
        if n < 2 { Err(CommandError::PointerAxisZArgs) } else { Ok(Command::PointerAxisZ) }
    } else if is_verb(v, "highlight_window", "highlight-window") {
        if n < 3 {
            return Err(CommandError::HighlightWindowArgs);
        }
        proof {
            assert(ws[1] == w@[1]@);
        }
        match read_u32(w[1].as_slice()) {
            None => Err(CommandError::InvalidWindowId),
            Some(id) => Ok(Command::HighlightWindow { window: id }),
        }
    } else if is_verb(v, "clear_highlight", "clear-highlight") {
        Ok(Command::ClearHighlight)
    } else if is_verb(v, "get_layout_compact", "get-layout-compact") {
        Ok(Command::GetLayoutCompact)
    } else if is_verb(v, "set_spring", "set-spring") {
        if n < 4 { Err(CommandError::SetSpringArgs) } else { Ok(Command::SetSpring) }
    } else if is_verb(v, "reset_telemetry", "reset-telemetry") {
        Ok(Command::ResetTelemetry)
    } else if is_verb(v, "get_telemetry", "get-telemetry") {
        Ok(Command::GetTelemetry)
    } else if is_verb(v, "save_session", "save-session") {
        Ok(Command::SaveSession)
    } else if is_verb(v, "restore_session", "restore-session") {
        Ok(Command::RestoreSession)
    } else if is_verb(v, "capture_window", "capture-window") {
        if n < 3 {
            return Err(CommandError::CaptureWindowArgs);
        }
        proof {
            assert(ws[1] == w@[1]@);
        }
        match read_u32(w[1].as_slice()) {
            None => Err(CommandError::InvalidWindowId),
            Some(id) => Ok(Command::CaptureWindow { window: id }),
        }
    } else if is_verb(v, "copy_window_to_clipboard", "copy-window-to-clipboard") {
        if n < 2 {
            return Err(CommandError::CopyWindowArgs);
        }
        proof {
            assert(ws[1] == w@[1]@);
        }
        match read_u32(w[1].as_slice()) {
            None => Err(CommandError::InvalidWindowId),
            Some(id) => Ok(Command::CopyWindowToClipboard { window: id }),
        }
    } else if chars_are(v, "action") {
        if n < 2 { Err(CommandError::ActionArgs) } else { Ok(Command::Action) }
    } else if chars_are(v, "get_layout") {
        Ok(Command::GetLayout)
    } else if is_verb(v, "get_scrolling_position", "get-scrolling-position") {
        if n > 1 {
            proof {
                assert(ws[1] == w@[1]@);
            }
            Ok(Command::GetScrollingPosition { window: read_u32(w[1].as_slice()) })
        } else {
            Ok(Command::GetScrollingPosition { window: None })
        }
    } else if is_verb(v, "reposition_window", "reposition-window") {
        if n < 5 {
            return Err(CommandError::RepositionWindowArgs);
        }
        proof {
            assert(ws[1] == w@[1]@);
            assert(ws[2] == w@[2]@);
            assert(ws[3] == w@[3]@);
            assert(ws[4] == w@[4]@);
        }
        let id = match read_u32(w[1].as_slice()) {
            None => {
                return Err(CommandError::InvalidWindowId);
            },
            Some(id) => id,
        };
        let wsi = match read_usize(w[2].as_slice()) {
            None => {
                return Err(CommandError::InvalidWorkspaceIdx);
            },
            Some(x) => x,
        };
        let col = match read_usize(w[3].as_slice()) {
            None => {
                return Err(CommandError::InvalidColumnIdx);
            },
            Some(x) => x,
        };
        let tile = match read_usize(w[4].as_slice()) {
            None => {
                return Err(CommandError::InvalidTileIdx);
            },
            Some(x) => x,
        };
        Ok(Command::RepositionWindow { window: id, workspace: wsi, column: col, tile })
    } else if is_verb(v, "cut_window", "cut-window") {
        if n < 3 {
            return Err(CommandError::CutWindowArgs);
        }
        proof {
            assert(ws[2] == w@[2]@);
        }
        match read_u32(w[2].as_slice()) {
            None => Err(CommandError::InvalidWindowId),
            Some(id) => Ok(Command::CutWindow { window: id }),
        }
    } else if chars_are(v, "get_windows") {
        Ok(Command::GetWindows)
    } else if is_verb(v, "get_camera", "get-camera") {
        Ok(Command::GetCamera)
    } else if is_verb(v, "set_camera", "set-camera") {
        if n < 3 {
            Err(CommandError::SetCameraArgs)
        } else if n > 3 {
            proof {
                assert(ws[3] == w@[3]@);
            }
            let t = w[3].as_slice();
            let immediate = chars_are(t, "true") || chars_are(t, "immediate");
            Ok(Command::SetCamera { immediate })
        } else {
            Ok(Command::SetCamera { immediate: false })
        }
    } else {
        Err(CommandError::Unknown)
    }
}

} // verus!
