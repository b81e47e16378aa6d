//! Key bindings: the keys the compositor knows, the bindings read from a
//! niri-style configuration, and the decision a key event leads to.

use vstd::prelude::*;
use std::collections::HashMap;
use crate::layout::TilingMode;
use crate::text::chars_of;
use crate::text::{
    chars_are, find_char, first_index_of, lowercase, slice_chars, split_chars, split_on, split_words,
    strip_trailing, strip_trailing_chars, to_lowercase, trim_chars, trimmed, words, begins_with,
    chars_begin_with,
};

verus! {

/// A key that bindings can name.
#[derive(Debug, Clone, Copy, PartialEq, Eq, Structural)]
pub enum Key {
    Left,
    Right,
    Up,
    Down,
    A,
    B,
    C,
    D,
    E,
    F,
    G,
    H,
    I,
    J,
    K,
    L,
    M,
    N,
    O,
    P,
    Q,
    R,
    S,
    T,
    U,
    V,
    W,
    X,
    Y,
    Z,
    /// The shifted `Q` key symbol.
    UpperQ,
    /// The shifted `Z` key symbol.
    UpperZ,
    Escape,
    Return,
    Space,
    Comma,
    Period,
    Minus,
    Equal,
    PageDown,
    PageUp,
    Home,
    End,
    Slash,
    Semicolon,
    BracketLeft,
    BracketRight,
    Digit1,
    Digit2,
    Digit3,
    Digit4,
    Digit5,
    Digit6,
    Digit7,
    Digit8,
    Digit9,
}

/// A key together with the modifiers held.
#[derive(Debug, Clone, Copy, PartialEq, Eq, Structural)]
pub struct KeyCombo {
    pub ctrl: bool,
    pub shift: bool,
    pub alt: bool,
    pub logo: bool,
    pub key: Key,
}

/// An action a key can be bound to, by its layout action name.
#[derive(Debug, Clone, Copy, PartialEq, Eq, Structural)]
pub enum ActionName {
    FocusLeft,
    FocusRight,
    FocusUp,
    FocusDown,
    MoveLeft,
    MoveRight,
    MoveUp,
    MoveDown,
    TilingModeOverview,
    TilingModeDepth,
    TilingModeGrid,
    TilingModeFloat,
    TilingModeDiagonal,
    ToggleTab,
    CloseWindow,
    SpawnTerminal,
    FocusWorkspaceDown,
    FocusWorkspaceUp,
    MoveColumnToWorkspaceDown,
    MoveColumnToWorkspaceUp,
    Quit,
    /// `workspace-N` for `N` from 1 to 5.
    Workspace(u8),
}

/// The layout action name of each bindable action.
pub open spec fn spec_action_name(a: ActionName) -> Seq<char> {
    match a {
        ActionName::FocusLeft => "focus-left"@,
        ActionName::FocusRight => "focus-right"@,
        ActionName::FocusUp => "focus-up"@,
        ActionName::FocusDown => "focus-down"@,
        ActionName::MoveLeft => "move-left"@,
        ActionName::MoveRight => "move-right"@,
        ActionName::MoveUp => "move-up"@,
        ActionName::MoveDown => "move-down"@,
        ActionName::TilingModeOverview => "tiling-mode-overview"@,
        ActionName::TilingModeDepth => "tiling-mode-depth"@,
        ActionName::TilingModeGrid => "tiling-mode-grid"@,
        ActionName::TilingModeFloat => "tiling-mode-float"@,
        ActionName::TilingModeDiagonal => "tiling-mode-diagonal"@,
        ActionName::ToggleTab => "toggle-tab"@,
        ActionName::CloseWindow => "close-window"@,
        ActionName::SpawnTerminal => "spawn-terminal"@,
        ActionName::FocusWorkspaceDown => "focus-workspace-down"@,
        ActionName::FocusWorkspaceUp => "focus-workspace-up"@,
        ActionName::MoveColumnToWorkspaceDown => "move-column-to-workspace-down"@,
        ActionName::MoveColumnToWorkspaceUp => "move-column-to-workspace-up"@,
        ActionName::Quit => "quit"@,
        ActionName::Workspace(n) => if n == 1 {
            "workspace-1"@
        } else if n == 2 {
            "workspace-2"@
        } else if n == 3 {
            "workspace-3"@
        } else if n == 4 {
            "workspace-4"@
        } else {
            "workspace-5"@
        },
    }
}

impl ActionName {
    /// The layout action name, as the control socket's `action` command
    /// takes it.
    pub fn name(&self) -> (r: &'static str)
        ensures
            r@ == spec_action_name(*self),
    {
        match self {
            ActionName::FocusLeft => "focus-left",
            ActionName::FocusRight => "focus-right",
            ActionName::FocusUp => "focus-up",
            ActionName::FocusDown => "focus-down",
            ActionName::MoveLeft => "move-left",
            ActionName::MoveRight => "move-right",
            ActionName::MoveUp => "move-up",
            ActionName::MoveDown => "move-down",
            ActionName::TilingModeOverview => "tiling-mode-overview",
            ActionName::TilingModeDepth => "tiling-mode-depth",
            ActionName::TilingModeGrid => "tiling-mode-grid",
            ActionName::TilingModeFloat => "tiling-mode-float",
            ActionName::TilingModeDiagonal => "tiling-mode-diagonal",
            ActionName::ToggleTab => "toggle-tab",
            ActionName::CloseWindow => "close-window",
            ActionName::SpawnTerminal => "spawn-terminal",
            ActionName::FocusWorkspaceDown => "focus-workspace-down",
            ActionName::FocusWorkspaceUp => "focus-workspace-up",
            ActionName::MoveColumnToWorkspaceDown => "move-column-to-workspace-down",
            ActionName::MoveColumnToWorkspaceUp => "move-column-to-workspace-up",
            ActionName::Quit => "quit",
            ActionName::Workspace(n) => if *n == 1 {
                "workspace-1"
            } else if *n == 2 {
                "workspace-2"
            } else if *n == 3 {
                "workspace-3"
            } else if *n == 4 {
                "workspace-4"
            } else {
                "workspace-5"
            },
        }
    }
}

// ---------------------------------------------------------------------------
// Bindings
// ---------------------------------------------------------------------------

/// The action bound to `k` by a sequence of bindings: the last binding of
/// `k` wins.
pub open spec fn bound(entries: Seq<(KeyCombo, ActionName)>, k: KeyCombo) -> Option<ActionName>
    decreases entries.len(),
{
    if entries.len() == 0 {
        None
    } else if entries.last().0 == k {
        Some(entries.last().1)
    } else {
        bound(entries.drop_last(), k)
    }
}

/// The number a key is stored under in a binding table.
pub open spec fn spec_key_code(k: Key) -> u64 {
    match k {
        Key::Left => 0, Key::Right => 1, Key::Up => 2, Key::Down => 3,
        Key::A => 4, Key::B => 5, Key::C => 6, Key::D => 7,
        Key::E => 8, Key::F => 9, Key::G => 10, Key::H => 11,
        Key::I => 12, Key::J => 13, Key::K => 14, Key::L => 15,
        Key::M => 16, Key::N => 17, Key::O => 18, Key::P => 19,
        Key::Q => 20, Key::R => 21, Key::S => 22, Key::T => 23,
        Key::U => 24, Key::V => 25, Key::W => 26, Key::X => 27,
        Key::Y => 28, Key::Z => 29, Key::UpperQ => 30, Key::UpperZ => 31,
        Key::Escape => 32, Key::Return => 33, Key::Space => 34, Key::Comma => 35,
        Key::Period => 36, Key::Minus => 37, Key::Equal => 38, Key::PageDown => 39,
        Key::PageUp => 40, Key::Home => 41, Key::End => 42, Key::Slash => 43,
        Key::Semicolon => 44, Key::BracketLeft => 45, Key::BracketRight => 46, Key::Digit1 => 47,
        Key::Digit2 => 48, Key::Digit3 => 49, Key::Digit4 => 50, Key::Digit5 => 51,
        Key::Digit6 => 52, Key::Digit7 => 53, Key::Digit8 => 54, Key::Digit9 => 55,
    }
}

/// The key stored under number `n`.
pub open spec fn key_of_code(n: u64) -> Option<Key> {
    match n {
        0 => Some(Key::Left), 1 => Some(Key::Right), 2 => Some(Key::Up), 3 => Some(Key::Down),
        4 => Some(Key::A), 5 => Some(Key::B), 6 => Some(Key::C), 7 => Some(Key::D),
        8 => Some(Key::E), 9 => Some(Key::F), 10 => Some(Key::G), 11 => Some(Key::H),
        12 => Some(Key::I), 13 => Some(Key::J), 14 => Some(Key::K), 15 => Some(Key::L),
        16 => Some(Key::M), 17 => Some(Key::N), 18 => Some(Key::O), 19 => Some(Key::P),
        20 => Some(Key::Q), 21 => Some(Key::R), 22 => Some(Key::S), 23 => Some(Key::T),
        24 => Some(Key::U), 25 => Some(Key::V), 26 => Some(Key::W), 27 => Some(Key::X),
        28 => Some(Key::Y), 29 => Some(Key::Z), 30 => Some(Key::UpperQ), 31 => Some(Key::UpperZ),
        32 => Some(Key::Escape), 33 => Some(Key::Return), 34 => Some(Key::Space), 35 => Some(Key::Comma),
        36 => Some(Key::Period), 37 => Some(Key::Minus), 38 => Some(Key::Equal), 39 => Some(Key::PageDown),
        40 => Some(Key::PageUp), 41 => Some(Key::Home), 42 => Some(Key::End), 43 => Some(Key::Slash),
        44 => Some(Key::Semicolon), 45 => Some(Key::BracketLeft), 46 => Some(Key::BracketRight), 47 => Some(Key::Digit1),
        48 => Some(Key::Digit2), 49 => Some(Key::Digit3), 50 => Some(Key::Digit4), 51 => Some(Key::Digit5),
        52 => Some(Key::Digit6), 53 => Some(Key::Digit7), 54 => Some(Key::Digit8), 55 => Some(Key::Digit9),
        _ => None,
    }
}

/// The number a key is stored under in a binding table.
pub fn key_code(k: Key) -> (r: u64)
    ensures
        r == spec_key_code(k),
        r < 56,
{
    match k {
        Key::Left => 0, Key::Right => 1, Key::Up => 2, Key::Down => 3,
        Key::A => 4, Key::B => 5, Key::C => 6, Key::D => 7,
        Key::E => 8, Key::F => 9, Key::G => 10, Key::H => 11,
        Key::I => 12, Key::J => 13, Key::K => 14, Key::L => 15,
        Key::M => 16, Key::N => 17, Key::O => 18, Key::P => 19,
        Key::Q => 20, Key::R => 21, Key::S => 22, Key::T => 23,
        Key::U => 24, Key::V => 25, Key::W => 26, Key::X => 27,
        Key::Y => 28, Key::Z => 29, Key::UpperQ => 30, Key::UpperZ => 31,
        Key::Escape => 32, Key::Return => 33, Key::Space => 34, Key::Comma => 35,
        Key::Period => 36, Key::Minus => 37, Key::Equal => 38, Key::PageDown => 39,
        Key::PageUp => 40, Key::Home => 41, Key::End => 42, Key::Slash => 43,
        Key::Semicolon => 44, Key::BracketLeft => 45, Key::BracketRight => 46, Key::Digit1 => 47,
        Key::Digit2 => 48, Key::Digit3 => 49, Key::Digit4 => 50, Key::Digit5 => 51,
        Key::Digit6 => 52, Key::Digit7 => 53, Key::Digit8 => 54, Key::Digit9 => 55,
    }
}

/// The number a key combination is stored under in a binding table: the
/// key's number, then one bit for each of `Ctrl`, `Shift`, `Alt` and `Logo`.
pub open spec fn spec_combo_code(c: KeyCombo) -> int {
    spec_key_code(c.key) * 16 + (if c.ctrl { 8int } else { 0 }) + (if c.shift { 4int } else { 0 })
        + (if c.alt { 2int } else { 0 }) + (if c.logo { 1int } else { 0 })
}

/// The number a key combination is stored under in a binding table.
pub fn combo_code(c: KeyCombo) -> (r: u64)
    ensures
        r == spec_combo_code(c),
{
    let k = key_code(c.key);
    k * 16 + (if c.ctrl { 8 } else { 0 }) + (if c.shift { 4 } else { 0 }) + (if c.alt { 2 } else { 0 })
        + (if c.logo { 1 } else { 0 })
}

/// Two key combinations stored under one number are the same.
proof fn lemma_combo_code_injective(a: KeyCombo, b: KeyCombo)
    requires
        spec_combo_code(a) == spec_combo_code(b),
    ensures
        a == b,
{
    assert(key_of_code(spec_key_code(a.key)) == Some(a.key));
    assert(key_of_code(spec_key_code(b.key)) == Some(b.key));
    assert(spec_key_code(a.key) == spec_key_code(b.key));
}

/// A table of key bindings, kept in a hash map under the numbers of their
/// key combinations; a later binding of a combination replaces the earlier.
pub struct BindTable {
    map: HashMap<u64, ActionName>,
    made: Ghost<Seq<(KeyCombo, ActionName)>>,
}

impl BindTable {
    /// The bindings made, in the order they were made.
    pub closed spec fn bindings(&self) -> Seq<(KeyCombo, ActionName)> {
        self.made@
    }

    /// The map holds, under the number of each combination, the action of
    /// its last binding.
    #[verifier::type_invariant]
    closed spec fn holds_last_bindings(&self) -> bool {
        forall|c: KeyCombo| #[trigger] bound(self.made@, c) == self.map@.get(spec_combo_code(c) as u64)
    }
}

impl View for BindTable {
    type V = Seq<(KeyCombo, ActionName)>;

    open spec fn view(&self) -> Seq<(KeyCombo, ActionName)> {
        self.bindings()
    }
}

impl BindTable {
    /// An empty table.
    pub fn new() -> (r: Self)
        ensures
            r@ == Seq::<(KeyCombo, ActionName)>::empty(),
    {
        let map = HashMap::new();
        proof {
            assert forall|c: KeyCombo| #[trigger] bound(Seq::<(KeyCombo, ActionName)>::empty(), c)
                == map@.get(spec_combo_code(c) as u64) by {
                assert(!map@.dom().contains(spec_combo_code(c) as u64));
            }
        }
        BindTable { map, made: Ghost(Seq::empty()) }
    }

    /// Binds `combo` to `action`, overriding any earlier binding of it.
    pub fn insert(&mut self, combo: KeyCombo, action: ActionName)
        ensures
            final(self)@ == old(self)@.push((combo, action)),
    {
        broadcast use vstd::std_specs::hash::group_hash_axioms;
        proof {
            use_type_invariant(&*self);
        }
        let code = combo_code(combo);
        let mut old_table = BindTable::new();
        std::mem::swap(self, &mut old_table);
        proof {
            use_type_invariant(&old_table);
        }
        let BindTable { mut map, made } = old_table;
        let ghost before = map@;
        map.insert(code, action);
        let ghost now = made@.push((combo, action));
        proof {
            assert forall|c: KeyCombo| #[trigger] bound(now, c) == map@.get(spec_combo_code(c) as u64) by {
                assert(now.drop_last() =~= made@);
                assert(bound(made@, c) == before.get(spec_combo_code(c) as u64));
                if c != combo {
                    if spec_combo_code(c) == spec_combo_code(combo) {
                        lemma_combo_code_injective(c, combo);
                    }
                }
            }
        }
        *self = BindTable { map, made: Ghost(now) };
    }

    /// The action bound to `combo`.
    pub fn get(&self, combo: KeyCombo) -> (r: Option<ActionName>)
        ensures
            r == bound(self@, combo),
    {
        broadcast use vstd::std_specs::hash::group_hash_axioms;
        proof {
            use_type_invariant(self);
        }
        let code = combo_code(combo);
        match self.map.get(&code) {
            Some(a) => Some(*a),
            None => None,
        }
    }
}

// ---------------------------------------------------------------------------
// Configuration
// ---------------------------------------------------------------------------

/// The key that a lowercased key name in the configuration denotes.
pub open spec fn spec_key_of_name(lower: Seq<char>) -> Option<Key> {
    if lower == "left"@ {
        Some(Key::Left)
    } else if lower == "right"@ {
        Some(Key::Right)
    } else if lower == "up"@ {
        Some(Key::Up)
    } else if lower == "down"@ {
        Some(Key::Down)
    } else if lower == "h"@ {
        Some(Key::H)
    } else if lower == "j"@ {
        Some(Key::J)
    } else if lower == "k"@ {
        Some(Key::K)
    } else if lower == "l"@ {
        Some(Key::L)
    } else if lower == "o"@ {
        Some(Key::O)
    } else if lower == "w"@ {
        Some(Key::W)
    } else if lower == "c"@ {
        Some(Key::C)
    } else if lower == "r"@ {
        Some(Key::R)
    } else if lower == "f"@ {
        Some(Key::F)
    } else if lower == "m"@ {
        Some(Key::M)
    } else if lower == "u"@ {
        Some(Key::U)
    } else if lower == "i"@ {
        Some(Key::I)
    } else if lower == "a"@ {
        Some(Key::A)
    } else if lower == "b"@ {
        Some(Key::B)
    } else if lower == "d"@ {
        Some(Key::D)
    } else if lower == "e"@ {
        Some(Key::E)
    } else if lower == "g"@ {
        Some(Key::G)
    } else if lower == "n"@ {
        Some(Key::N)
    } else if lower == "p"@ {
        Some(Key::P)
    } else if lower == "q"@ {
        Some(Key::Q)
    } else if lower == "s"@ {
        Some(Key::S)
    } else if lower == "t"@ {
        Some(Key::T)
    } else if lower == "v"@ {
        Some(Key::V)
    } else if lower == "x"@ {
        Some(Key::X)
    } else if lower == "y"@ {
        Some(Key::Y)
    } else if lower == "z"@ {
        Some(Key::Z)
    } else if lower == "escape"@ {
        Some(Key::Escape)
    } else if lower == "return"@ {
        Some(Key::Return)
    } else if lower == "space"@ {
        Some(Key::Space)
    } else if lower == "comma"@ {
        Some(Key::Comma)
    } else if lower == "period"@ {
        Some(Key::Period)
    } else if lower == "minus"@ {
        Some(Key::Minus)
    } else if lower == "equal"@ {
        Some(Key::Equal)
    } else if lower == "page_down"@ {
        Some(Key::PageDown)
    } else if lower == "page_up"@ {
        Some(Key::PageUp)
    } else if lower == "home"@ {
        Some(Key::Home)
    } else if lower == "end"@ {
        Some(Key::End)
    } else if lower == "slash"@ {
        Some(Key::Slash)
    } else if lower == "semicolon"@ {
        Some(Key::Semicolon)
    } else if lower == "bracketleft"@ {
        Some(Key::BracketLeft)
    } else if lower == "bracketright"@ {
        Some(Key::BracketRight)
    } else if lower == "1"@ {
        Some(Key::Digit1)
    } else if lower == "2"@ {
        Some(Key::Digit2)
    } else if lower == "3"@ {
        Some(Key::Digit3)
    } else if lower == "4"@ {
        Some(Key::Digit4)
    } else if lower == "5"@ {
        Some(Key::Digit5)
    } else if lower == "6"@ {
        Some(Key::Digit6)
    } else if lower == "7"@ {
        Some(Key::Digit7)
    } else if lower == "8"@ {
        Some(Key::Digit8)
    } else if lower == "9"@ {
        Some(Key::Digit9)
    } else {
        None
    }
}

/// The key that a lowercased key name in the configuration denotes.
pub fn key_of_name(lower: &[char]) -> (r: Option<Key>)
    ensures
        r == spec_key_of_name(lower@),
{
    if chars_are(lower, "left") {
        Some(Key::Left)
    } else if chars_are(lower, "right") {
        Some(Key::Right)
    } else if chars_are(lower, "up") {
        Some(Key::Up)
    } else if chars_are(lower, "down") {
        Some(Key::Down)
    } else if chars_are(lower, "h") {
        Some(Key::H)
    } else if chars_are(lower, "j") {
        Some(Key::J)
    } else if chars_are(lower, "k") {
        Some(Key::K)
    } else if chars_are(lower, "l") {
        Some(Key::L)
    } else if chars_are(lower, "o") {
        Some(Key::O)
    } else if chars_are(lower, "w") {
        Some(Key::W)
    } else if chars_are(lower, "c") {
        Some(Key::C)
    } else if chars_are(lower, "r") {
        Some(Key::R)
    } else if chars_are(lower, "f") {
        Some(Key::F)
    } else if chars_are(lower, "m") {
        Some(Key::M)
    } else if chars_are(lower, "u") {
        Some(Key::U)
    } else if chars_are(lower, "i") {
        Some(Key::I)
    } else if chars_are(lower, "a") {
        Some(Key::A)
    } else if chars_are(lower, "b") {
        Some(Key::B)
    } else if chars_are(lower, "d") {
        Some(Key::D)
    } else if chars_are(lower, "e") {
        Some(Key::E)
    } else if chars_are(lower, "g") {
        Some(Key::G)
    } else if chars_are(lower, "n") {
        Some(Key::N)
    } else if chars_are(lower, "p") {
        Some(Key::P)
    } else if chars_are(lower, "q") {
        Some(Key::Q)
    } else if chars_are(lower, "s") {
        Some(Key::S)
    } else if chars_are(lower, "t") {
        Some(Key::T)
    } else if chars_are(lower, "v") {
        Some(Key::V)
    } else if chars_are(lower, "x") {
        Some(Key::X)
    } else if chars_are(lower, "y") {
        Some(Key::Y)
    } else if chars_are(lower, "z") {
        Some(Key::Z)
    } else if chars_are(lower, "escape") {
        Some(Key::Escape)
    } else if chars_are(lower, "return") {
        Some(Key::Return)
    } else if chars_are(lower, "space") {
        Some(Key::Space)
    } else if chars_are(lower, "comma") {
        Some(Key::Comma)
    } else if chars_are(lower, "period") {
        Some(Key::Period)
    } else if chars_are(lower, "minus") {
        Some(Key::Minus)
    } else if chars_are(lower, "equal") {
        Some(Key::Equal)
    } else if chars_are(lower, "page_down") {
        Some(Key::PageDown)
    } else if chars_are(lower, "page_up") {
        Some(Key::PageUp)
    } else if chars_are(lower, "home") {
        Some(Key::Home)
    } else if chars_are(lower, "end") {
        Some(Key::End)
    } else if chars_are(lower, "slash") {
        Some(Key::Slash)
    } else if chars_are(lower, "semicolon") {
        Some(Key::Semicolon)
    } else if chars_are(lower, "bracketleft") {
        Some(Key::BracketLeft)
    } else if chars_are(lower, "bracketright") {
        Some(Key::BracketRight)
    } else if chars_are(lower, "1") {
        Some(Key::Digit1)
    } else if chars_are(lower, "2") {
        Some(Key::Digit2)
    } else if chars_are(lower, "3") {
        Some(Key::Digit3)
    } else if chars_are(lower, "4") {
        Some(Key::Digit4)
    } else if chars_are(lower, "5") {
        Some(Key::Digit5)
    } else if chars_are(lower, "6") {
        Some(Key::Digit6)
    } else if chars_are(lower, "7") {
        Some(Key::Digit7)
    } else if chars_are(lower, "8") {
        Some(Key::Digit8)
    } else if chars_are(lower, "9") {
        Some(Key::Digit9)
    } else {
        None
    }
}

/// The bindable action that a configuration action denotes.
pub open spec fn spec_config_action(raw: Seq<char>) -> Option<ActionName> {
    if raw == "focus-column-left"@ {
        Some(ActionName::FocusLeft)
    } else if raw == "focus-window-or-workspace-left"@ {
        Some(ActionName::FocusLeft)
    } else if raw == "focus-column-right"@ {
        Some(ActionName::FocusRight)
    } else if raw == "focus-window-or-workspace-right"@ {
        Some(ActionName::FocusRight)
    } else if raw == "focus-window-down"@ {
        Some(ActionName::FocusDown)
    } else if raw == "focus-window-or-workspace-down"@ {
        Some(ActionName::FocusDown)
    } else if raw == "focus-window-up"@ {
        Some(ActionName::FocusUp)
    } else if raw == "focus-window-or-workspace-up"@ {
        Some(ActionName::FocusUp)
    } else if raw == "move-column-left"@ {
        Some(ActionName::MoveLeft)
    } else if raw == "move-column-right"@ {
        Some(ActionName::MoveRight)
    } else if raw == "move-window-down"@ {
        Some(ActionName::MoveDown)
    } else if raw == "move-window-up"@ {
        Some(ActionName::MoveUp)
    } else if raw == "toggle-overview"@ {
        Some(ActionName::TilingModeOverview)
    } else if raw == "toggle-column-tabbed-display"@ {
        Some(ActionName::ToggleTab)
    } else if raw == "close-window"@ {
        Some(ActionName::CloseWindow)
    } else if raw == "spawn"@ {
        Some(ActionName::SpawnTerminal)
    } else if raw == "focus-workspace-down"@ {
        Some(ActionName::FocusWorkspaceDown)
    } else if raw == "focus-workspace-up"@ {
        Some(ActionName::FocusWorkspaceUp)
    } else if raw == "move-column-to-workspace-down"@ {
        Some(ActionName::MoveColumnToWorkspaceDown)
    } else if raw == "move-column-to-workspace-up"@ {
        Some(ActionName::MoveColumnToWorkspaceUp)
    } else {
        None
    }
}

/// The bindable action that a configuration action denotes.
pub fn config_action(raw: &[char]) -> (r: Option<ActionName>)
    ensures
        r == spec_config_action(raw@),
{
    if chars_are(raw, "focus-column-left") {
        Some(ActionName::FocusLeft)
    } else if chars_are(raw, "focus-window-or-workspace-left") {
        Some(ActionName::FocusLeft)
    } else if chars_are(raw, "focus-column-right") {
        Some(ActionName::FocusRight)
    } else if chars_are(raw, "focus-window-or-workspace-right") {
        Some(ActionName::FocusRight)
    } else if chars_are(raw, "focus-window-down") {
        Some(ActionName::FocusDown)
    } else if chars_are(raw, "focus-window-or-workspace-down") {
        Some(ActionName::FocusDown)
    } else if chars_are(raw, "focus-window-up") {
        Some(ActionName::FocusUp)
    } else if chars_are(raw, "focus-window-or-workspace-up") {
        Some(ActionName::FocusUp)
    } else if chars_are(raw, "move-column-left") {
        Some(ActionName::MoveLeft)
    } else if chars_are(raw, "move-column-right") {
        Some(ActionName::MoveRight)
    } else if chars_are(raw, "move-window-down") {
        Some(ActionName::MoveDown)
    } else if chars_are(raw, "move-window-up") {
        Some(ActionName::MoveUp)
    } else if chars_are(raw, "toggle-overview") {
        Some(ActionName::TilingModeOverview)
    } else if chars_are(raw, "toggle-column-tabbed-display") {
        Some(ActionName::ToggleTab)
    } else if chars_are(raw, "close-window") {
        Some(ActionName::CloseWindow)
    } else if chars_are(raw, "spawn") {
        Some(ActionName::SpawnTerminal)
    } else if chars_are(raw, "focus-workspace-down") {
        Some(ActionName::FocusWorkspaceDown)
    } else if chars_are(raw, "focus-workspace-up") {
        Some(ActionName::FocusWorkspaceUp)
    } else if chars_are(raw, "move-column-to-workspace-down") {
        Some(ActionName::MoveColumnToWorkspaceDown)
    } else if chars_are(raw, "move-column-to-workspace-up") {
        Some(ActionName::MoveColumnToWorkspaceUp)
    } else {
        None
    }
}

/// The bindings one line inside a `binds` block makes: a
/// `Mods+Key { action; }` line binds the key, with the modifiers it names,
/// to the action (`Mod` standing for `Alt` and for `Logo` alike, `Super` for
/// `Logo`); any other line binds nothing.
pub open spec fn line_binds(t: Seq<char>) -> Seq<(KeyCombo, ActionName)> {
    if (exists|a: int| first_index_of(t, '{', a)) && (exists|b: int| first_index_of(t, '}', b)) {
        let a = choose|a: int| first_index_of(t, '{', a);
        let b = choose|b: int| first_index_of(t, '}', b);
        let parts = words(trimmed(t.subrange(0, a)));
        if parts.len() == 0 {
            Seq::empty()
        } else {
            let mods = split_on(parts[0], '+');
            match spec_key_of_name(lowercase(mods.last())) {
                None => Seq::empty(),
                Some(key) => {
                    let acts = words(trimmed(t.subrange(a + 1, b)));
                    if acts.len() == 0 {
                        Seq::empty()
                    } else {
                        match spec_config_action(strip_trailing(acts[0], ';')) {
                            None => Seq::empty(),
                            Some(act) => {
                                let ctrl = mods.contains("Ctrl"@);
                                let shift = mods.contains("Shift"@);
                                let alt = mods.contains("Alt"@);
                                let logo = mods.contains("Logo"@) || mods.contains("Super"@);
                                if mods.contains("Mod"@) {
                                    seq![
                                        (KeyCombo { ctrl, shift, alt: true, logo: false, key }, act),
                                        (KeyCombo { ctrl, shift, alt: false, logo: true, key }, act),
                                    ]
                                } else {
                                    seq![(KeyCombo { ctrl, shift, alt, logo, key }, act)]
                                }
                            },
                        }
                    }
                },
            }
        }
    } else {
        Seq::empty()
    }
}

/// A binding line whose first `}` comes before its first `{` cannot be
/// read.
pub open spec fn line_readable(t: Seq<char>) -> bool {
    forall|a: int, b: int| first_index_of(t, '{', a) && first_index_of(t, '}', b) ==> a < b
}

/// Reading state: inside a `binds` block or not, and the bindings so far.
pub open spec fn config_step(st: (bool, Seq<(KeyCombo, ActionName)>), line: Seq<char>) -> (bool, Seq<(KeyCombo, ActionName)>) {
    let t = trimmed(line);
    if begins_with(t, "binds {"@) {
        (true, st.1)
    } else if st.0 && t == "}"@ {
        (false, st.1)
    } else if st.0 {
        (true, st.1 + line_binds(t))
    } else {
        st
    }
}

/// The reading state after the lines `lines`.
pub open spec fn config_run(lines: Seq<Seq<char>>) -> (bool, Seq<(KeyCombo, ActionName)>)
    decreases lines.len(),
{
    if lines.len() == 0 {
        (false, Seq::empty())
    } else {
        config_step(config_run(lines.drop_last()), lines.last())
    }
}

/// Every binding line of the configuration can be read.
pub open spec fn config_readable(lines: Seq<Seq<char>>) -> bool {
    forall|i: int|
        0 <= i < lines.len() ==> {
            let st = #[trigger] config_run(lines.subrange(0, i));
            let t = trimmed(lines[i]);
            (st.0 && !begins_with(t, "binds {"@) && t != "}"@) ==> line_readable(t)
        }
}

/// Whether some piece of `mods` is the string `name`.
fn mods_contain(mods: &Vec<Vec<char>>, name: &str) -> (r: bool)
    ensures
        r == mods@.map_values(|m: Vec<char>| m@).contains(name@),
{
    let ghost ms = mods@.map_values(|m: Vec<char>| m@);
    let mut i: usize = 0;
    while i < mods.len()
        invariant
            ms == mods@.map_values(|m: Vec<char>| m@),
            i <= mods@.len(),
            forall|j: int| 0 <= j < i ==> ms[j] != name@,
        decreases mods@.len() - i,
    {
        if chars_are(mods[i].as_slice(), name) {
            proof {
                assert(ms[i as int] == name@);
            }
            return true;
        }
        i = i + 1;
    }
    false
}

/// The bindings one line inside a `binds` block makes.
pub fn bind_line(t: &[char]) -> (r: Vec<(KeyCombo, ActionName)>)
    requires
        line_readable(t@),
    ensures
        r@ == line_binds(t@),
{
    let mut r: Vec<(KeyCombo, ActionName)> = Vec::new();
    let a = match find_char(t, '{') {
        Some(a) => a,
        None => {
            return r;
        },
    };
    let b = match find_char(t, '}') {
        Some(b) => b,
        None => {
            return r;
        },
    };
    proof {
        let a2 = choose|x: int| first_index_of(t@, '{', x);
        let b2 = choose|x: int| first_index_of(t@, '}', x);
        crate::text::lemma_first_index_unique(t@, '{', a as int, a2);
        crate::text::lemma_first_index_unique(t@, '}', b as int, b2);
        assert(a < b);
    }
    let left = trim_chars(slice_chars(t, 0, a).as_slice());
    let parts = split_words(left.as_slice());
    if parts.len() == 0 {
        return r;
    }
    let mods = split_chars(parts[0].as_slice(), '+');
    let ghost ms = split_on(words(trimmed(t@.subrange(0, a as int)))[0], '+');
    proof {
        assert(mods@.map_values(|m: Vec<char>| m@) =~= ms);
        crate::text::lemma_split_nonempty(words(trimmed(t@.subrange(0, a as int)))[0], '+');
    }
    let last = to_lowercase(mods[mods.len() - 1].as_slice());
    proof {
        assert(mods@[mods@.len() - 1]@ == ms.last());
    }
    let key = match key_of_name(last.as_slice()) {
        Some(k) => k,
        None => {
            return r;
        },
    };
    let right = trim_chars(slice_chars(t, a + 1, b).as_slice());
    let acts = split_words(right.as_slice());
    if acts.len() == 0 {
        return r;
    }
    let raw = strip_trailing_chars(acts[0].as_slice(), ';');
    let act = match config_action(raw.as_slice()) {
        Some(x) => x,
        None => {
            return r;
        },
    };
    let ctrl = mods_contain(&mods, "Ctrl");
    let shift = mods_contain(&mods, "Shift");
    let alt = mods_contain(&mods, "Alt");
    let logo = mods_contain(&mods, "Logo") || mods_contain(&mods, "Super");
    if mods_contain(&mods, "Mod") {
        r.push((KeyCombo { ctrl, shift, alt: true, logo: false, key }, act));
        r.push((KeyCombo { ctrl, shift, alt: false, logo: true, key }, act));
    } else {
        r.push((KeyCombo { ctrl, shift, alt, logo, key }, act));
    }
    proof {
        assert(r@ =~= line_binds(t@));
    }
    r
}

/// Whether a binding line can be read: its first `}` does not come before
/// its first `{`.
pub fn line_is_readable(t: &[char]) -> (r: bool)
    ensures
        r == line_readable(t@),
{
    match (find_char(t, '{'), find_char(t, '}')) {
        (Some(a), Some(b)) => {
            proof {
                assert forall|x: int, y: int| first_index_of(t@, '{', x) && first_index_of(t@, '}', y) implies x == a && y == b by {
                    crate::text::lemma_first_index_unique(t@, '{', a as int, x);
                    crate::text::lemma_first_index_unique(t@, '}', b as int, y);
                }
            }
            a < b
        },
        (None, _) => {
            proof {
                assert forall|x: int| !first_index_of(t@, '{', x) by {
                    if first_index_of(t@, '{', x) {
                        assert(t@[x] == '{');
                    }
                }
            }
            true
        },
        (_, None) => {
            proof {
                assert forall|y: int| !first_index_of(t@, '}', y) by {
                    if first_index_of(t@, '}', y) {
                        assert(t@[y] == '}');
                    }
                }
            }
            true
        },
    }
}

/// Whether every binding line of a configuration, given as its lines, can
/// be read.
pub fn config_is_readable(lines: &Vec<String>) -> (r: bool)
    ensures
        r == config_readable(lines@.map_values(|l: String| l@)),
{
    let ghost ls = lines@.map_values(|l: String| l@);
    let mut in_binds = false;
    let mut i: usize = 0;
    while i < lines.len()
        invariant
            ls == lines@.map_values(|l: String| l@),
            i <= ls.len(),
            in_binds == config_run(ls.subrange(0, i as int)).0,
            config_readable(ls.subrange(0, i as int)),
        decreases ls.len() - i,
    {
        let ghost pre = ls.subrange(0, i as int);
        let ghost next = ls.subrange(0, i + 1);
        proof {
            assert(next.drop_last() =~= pre);
            assert(next.last() == ls[i as int]);
            assert forall|k: int| 0 <= k < i implies #[trigger] next.subrange(0, k) == pre.subrange(0, k) by {
                assert(next.subrange(0, k) =~= pre.subrange(0, k));
            }
        }
        let line = chars_of(lines[i].as_str());
        let t = trim_chars(line.as_slice());
        if chars_begin_with(t.as_slice(), "binds {") {
            in_binds = true;
        } else if in_binds && chars_are(t.as_slice(), "}") {
            in_binds = false;
        } else if in_binds {
            if !line_is_readable(t.as_slice()) {
                proof {
                    assert(next.subrange(0, i as int) =~= pre);
                    assert(ls.subrange(0, i as int) == pre);
                    assert(!config_readable(ls)) by {
                        assert(ls.subrange(0, i as int) == pre);
                        assert(ls[i as int] == line@);
                    }
                }
                return false;
            }
        }
        proof {
            assert(next.subrange(0, i as int) =~= pre);
            assert forall|k: int| 0 <= k < next.len() implies {
                let st = #[trigger] config_run(next.subrange(0, k));
                let tt = trimmed(next[k]);
                (st.0 && !begins_with(tt, "binds {"@) && tt != "}"@) ==> line_readable(tt)
            } by {
                if k < i {
                    assert(next[k] == pre[k]);
                    assert(next.subrange(0, k) == pre.subrange(0, k));
                } else {
                    assert(next.subrange(0, k) =~= pre);
                    assert(next[k] == line@);
                }
            }
        }
        i = i + 1;
    }
    proof {
        assert(ls.subrange(0, i as int) =~= ls);
    }
    true
}

/// Reads the key bindings of a configuration, given as its lines: the
/// bindings of the `binds` blocks, in order.
pub fn load_binds(lines: &Vec<String>) -> (r: BindTable)
    requires
        config_readable(lines@.map_values(|l: String| l@)),
    ensures
        r@ == config_run(lines@.map_values(|l: String| l@)).1,
{
    let ghost ls = lines@.map_values(|l: String| l@);
    let mut table = BindTable::new();
    let mut in_binds = false;
    let mut i: usize = 0;
    while i < lines.len()
        invariant
            ls == lines@.map_values(|l: String| l@),
            config_readable(ls),
            i <= ls.len(),
            (in_binds, table@) == config_run(ls.subrange(0, i as int)),
        decreases ls.len() - i,
    {
        proof {
            assert(ls.subrange(0, i + 1).drop_last() =~= ls.subrange(0, i as int));
            assert(ls.subrange(0, i + 1).last() == ls[i as int]);
        }
        let line = chars_of(lines[i].as_str());
        let t = trim_chars(line.as_slice());
        if chars_begin_with(t.as_slice(), "binds {") {
            in_binds = true;
        } else if in_binds && chars_are(t.as_slice(), "}") {
            in_binds = false;
        } else if in_binds {
            proof {
                let st = config_run(ls.subrange(0, i as int));
                assert(ls[i as int] == line@);
            }
            let found = bind_line(t.as_slice());
            let mut k: usize = 0;
            let ghost start = table@;
            while k < found.len()
                invariant
                    k <= found@.len(),
                    table@ == start + found@.subrange(0, k as int),
                decreases found@.len() - k,
            {
                table.insert(found[k].0, found[k].1);
                proof {
                    assert(table@ =~= start + found@.subrange(0, k + 1));
                }
                k = k + 1;
            }
            proof {
                assert(found@.subrange(0, k as int) =~= found@);
            }
        }
        i = i + 1;
    }
    proof {
        assert(ls.subrange(0, i as int) =~= ls);
    }
    table
}

// ---------------------------------------------------------------------------
// Key events
// ---------------------------------------------------------------------------

/// The modifiers held during a key event.
#[derive(Debug, Clone, Copy, PartialEq, Eq, Structural)]
pub struct Modifiers {
    pub ctrl: bool,
    pub shift: bool,
    pub alt: bool,
    pub logo: bool,
}

/// What a key event leads to.
#[derive(Debug, Clone, Copy, PartialEq, Eq, Structural)]
pub enum KeyDecision {
    /// The event goes on to the focused client.
    Forward,
    /// The named action is carried out; the event is intercepted.
    Perform(ActionName),
    /// The depth switcher is shown (if it is not yet) and steps forward or
    /// backward; the event is intercepted.
    DepthSwitch { forward: bool },
    /// The depth switcher closes, restoring the tiling mode it replaced; the
    /// event is intercepted.
    EndDepthSwitch,
}

/// The built-in shortcut of a key pressed with `Logo` or `Alt` held, and
/// without `Shift`.
pub open spec fn spec_plain_shortcut(key: Key) -> Option<ActionName> {
    match key {
        Key::Left | Key::H => Some(ActionName::FocusLeft),
        Key::Right | Key::L => Some(ActionName::FocusRight),
        Key::Up | Key::K => Some(ActionName::FocusUp),
        Key::Down | Key::J => Some(ActionName::FocusDown),
        Key::C => Some(ActionName::ToggleTab),
        Key::Q => Some(ActionName::CloseWindow),
        Key::D => Some(ActionName::TilingModeDepth),
        Key::G => Some(ActionName::TilingModeGrid),
        Key::F => Some(ActionName::TilingModeFloat),
        Key::A => Some(ActionName::TilingModeDiagonal),
        Key::O => Some(ActionName::TilingModeOverview),
        Key::Return => Some(ActionName::SpawnTerminal),
        Key::Digit1 => Some(ActionName::Workspace(1)),
        Key::Digit2 => Some(ActionName::Workspace(2)),
        Key::Digit3 => Some(ActionName::Workspace(3)),
        Key::Digit4 => Some(ActionName::Workspace(4)),
        Key::Digit5 => Some(ActionName::Workspace(5)),
        _ => None,
    }
}

/// The built-in shortcut of a key pressed with `Logo` or `Alt` and `Shift`
/// held.
pub open spec fn spec_shift_shortcut(key: Key) -> Option<ActionName> {
    match key {
        Key::Left | Key::H => Some(ActionName::MoveLeft),
        Key::Right | Key::L => Some(ActionName::MoveRight),
        Key::Up | Key::K => Some(ActionName::MoveUp),
        Key::Down | Key::J => Some(ActionName::MoveDown),
        Key::UpperQ => Some(ActionName::Quit),
        _ => None,
    }
}

/// What a key event leads to. A press first looks up the configured
/// bindings; then, with `Logo` or `Alt` held, `z` steps the depth switcher
/// (backward with `Shift`) and the built-in shortcuts apply. A release of
/// `Logo` and `Alt` while the depth switcher is shown closes it.
pub open spec fn spec_key_decision(
    pressed: bool,
    mods: Modifiers,
    key: Option<Key>,
    binds: Seq<(KeyCombo, ActionName)>,
    switcher_active: bool,
) -> KeyDecision {
    let bound_action = match key {
        Some(k) => bound(binds, KeyCombo { ctrl: mods.ctrl, shift: mods.shift, alt: mods.alt, logo: mods.logo, key: k }),
        None => None,
    };
    if pressed && bound_action is Some {
        KeyDecision::Perform(bound_action->0)
    } else if pressed && (mods.logo || mods.alt) && (key == Some(Key::Z) || key == Some(Key::UpperZ)) {
        KeyDecision::DepthSwitch { forward: !mods.shift }
    } else if pressed && (mods.logo || mods.alt) && key is Some && mods.shift && spec_shift_shortcut(key->0) is Some {
        KeyDecision::Perform(spec_shift_shortcut(key->0)->0)
    } else if pressed && (mods.logo || mods.alt) && key is Some && !mods.shift && spec_plain_shortcut(key->0) is Some {
        KeyDecision::Perform(spec_plain_shortcut(key->0)->0)
    } else if !pressed && switcher_active && !mods.logo && !mods.alt {
        KeyDecision::EndDepthSwitch
    } else {
        KeyDecision::Forward
    }
}

fn plain_shortcut(key: Key) -> (r: Option<ActionName>)
    ensures
        r == spec_plain_shortcut(key),
{
    match key {
        Key::Left | Key::H => Some(ActionName::FocusLeft),
        Key::Right | Key::L => Some(ActionName::FocusRight),
        Key::Up | Key::K => Some(ActionName::FocusUp),
        Key::Down | Key::J => Some(ActionName::FocusDown),
        Key::C => Some(ActionName::ToggleTab),
        Key::Q => Some(ActionName::CloseWindow),
        Key::D => Some(ActionName::TilingModeDepth),
        Key::G => Some(ActionName::TilingModeGrid),
        Key::F => Some(ActionName::TilingModeFloat),
        Key::A => Some(ActionName::TilingModeDiagonal),
        Key::O => Some(ActionName::TilingModeOverview),
        Key::Return => Some(ActionName::SpawnTerminal),
        Key::Digit1 => Some(ActionName::Workspace(1)),
        Key::Digit2 => Some(ActionName::Workspace(2)),
        Key::Digit3 => Some(ActionName::Workspace(3)),
        Key::Digit4 => Some(ActionName::Workspace(4)),
        Key::Digit5 => Some(ActionName::Workspace(5)),
        _ => None,
    }
}

fn shift_shortcut(key: Key) -> (r: Option<ActionName>)
    ensures
        r == spec_shift_shortcut(key),
{
    match key {
        Key::Left | Key::H => Some(ActionName::MoveLeft),
        Key::Right | Key::L => Some(ActionName::MoveRight),
        Key::Up | Key::K => Some(ActionName::MoveUp),
        Key::Down | Key::J => Some(ActionName::MoveDown),
        Key::UpperQ => Some(ActionName::Quit),
        _ => None,
    }
}

/// Decides what a key event leads to.
pub fn key_decision(
    pressed: bool,
    mods: Modifiers,
    key: Option<Key>,
    binds: &BindTable,
    switcher_active: bool,
) -> (r: KeyDecision)
    ensures
        r == spec_key_decision(pressed, mods, key, binds@, switcher_active),
{
    if pressed {
        match key {
            Some(k) => {
                let combo = KeyCombo { ctrl: mods.ctrl, shift: mods.shift, alt: mods.alt, logo: mods.logo, key: k };
                match binds.get(combo) {
                    Some(a) => {
                        return KeyDecision::Perform(a);
                    },
                    None => {},
                }
                if mods.logo || mods.alt {
                    if k == Key::Z || k == Key::UpperZ {
                        return KeyDecision::DepthSwitch { forward: !mods.shift };
                    }
                    if mods.shift {
                        match shift_shortcut(k) {
                            Some(a) => {
                                return KeyDecision::Perform(a);
                            },
                            None => {},
                        }
                    } else {
                        match plain_shortcut(k) {
                            Some(a) => {
                                return KeyDecision::Perform(a);
                            },
                            None => {},
                        }
                    }
                }
            },
            None => {},
        }
        KeyDecision::Forward
    } else if switcher_active && !mods.logo && !mods.alt {
        KeyDecision::EndDepthSwitch
    } else {
        KeyDecision::Forward
    }
}

/// The depth switcher: whether it is shown, and the tiling mode it
/// replaced while it is.
#[derive(Debug, Clone, Copy)]
pub struct DepthSwitcher {
    pub active: bool,
    pub previous_mode: Option<TilingMode>,
}

impl DepthSwitcher {
    /// The switcher once it is asked to show over tiling mode `mode`: where
    /// it is closed it opens and remembers `mode`; where it is open it stays
    /// as it is.
    pub open spec fn opened(self, mode: TilingMode) -> DepthSwitcher {
        if self.active {
            self
        } else {
            DepthSwitcher { active: true, previous_mode: Some(mode) }
        }
    }

    /// The tiling mode that the switcher gives back when it closes: the one
    /// it replaced, or the grid where it remembers none.
    pub open spec fn restored_mode(self) -> TilingMode {
        match self.previous_mode {
            Some(m) => m,
            None => TilingMode::Grid,
        }
    }

    /// A closed switcher that remembers no mode.
    pub fn new() -> (s: Self)
        ensures
            !s.active,
            s.previous_mode is None,
    {
        DepthSwitcher { active: false, previous_mode: None }
    }

    /// Shows the switcher over the current tiling mode `mode`. Returns the
    /// tiling mode to show from now on, and whether the switcher has just
    /// opened (then the carousel starts again from its front).
    pub fn open(&mut self, mode: TilingMode) -> (r: (TilingMode, bool))
        ensures
            *final(self) == old(self).opened(mode),
            r.1 == !old(self).active,
            r.0 == (if old(self).active { mode } else { TilingMode::Depth }),
    {
        if self.active {
            (mode, false)
        } else {
            self.active = true;
            self.previous_mode = Some(mode);
            (TilingMode::Depth, true)
        }
    }

    /// Closes the switcher. Returns the tiling mode to restore.
    pub fn close(&mut self) -> (r: TilingMode)
        ensures
            !final(self).active,
            final(self).previous_mode is None,
            r == old(self).restored_mode(),
    {
        let r = match self.previous_mode {
            Some(m) => m,
            None => TilingMode::Grid,
        };
        self.active = false;
        self.previous_mode = None;
        r
    }
}

/// Closing the depth switcher gives back the tiling mode that was shown when
/// it opened, however often it was asked to show in between.
pub proof fn law_depth_switcher_restores_mode(s: DepthSwitcher, mode: TilingMode, later: Seq<TilingMode>)
    requires
        !s.active,
    ensures
        later.fold_left(s.opened(mode), |acc: DepthSwitcher, m: TilingMode| acc.opened(m)).restored_mode() == mode,
    decreases later.len(),
{
    if later.len() > 0 {
        law_depth_switcher_restores_mode(s, mode, later.drop_last());
        let f = |acc: DepthSwitcher, m: TilingMode| acc.opened(m);
        assert(later.drop_last().fold_left(s.opened(mode), f).active);
    }
}

/// A key pressed with `Logo` or `Alt` held, where no configured binding
/// claims it, performs the built-in shortcut: without `Shift` the arrows
/// and `h`/`j`/`k`/`l` move the focus that way (left, down, up, right),
/// `c` toggles tabs, `q` closes the window, `d`/`g`/`f`/`a`/`o` choose a
/// tiling mode, `Return` spawns a terminal and `1` to `5` pick a
/// workspace; with `Shift` the arrows and `h`/`j`/`k`/`l` move the focused
/// column or window that way and `Q` quits.
pub proof fn law_builtin_shortcuts(mods: Modifiers, k: Key, binds: Seq<(KeyCombo, ActionName)>, switcher_active: bool)
    requires
        mods.logo || mods.alt,
        bound(binds, KeyCombo { ctrl: mods.ctrl, shift: mods.shift, alt: mods.alt, logo: mods.logo, key: k }) is None,
    ensures
        ({
            let d = spec_key_decision(true, mods, Some(k), binds, switcher_active);
            let plain = |a: ActionName| !mods.shift ==> d == KeyDecision::Perform(a);
            let shifted = |a: ActionName| mods.shift ==> d == KeyDecision::Perform(a);
            &&& (k == Key::Left || k == Key::H) ==> plain(ActionName::FocusLeft) && shifted(ActionName::MoveLeft)
            &&& (k == Key::Right || k == Key::L) ==> plain(ActionName::FocusRight) && shifted(ActionName::MoveRight)
            &&& (k == Key::Up || k == Key::K) ==> plain(ActionName::FocusUp) && shifted(ActionName::MoveUp)
            &&& (k == Key::Down || k == Key::J) ==> plain(ActionName::FocusDown) && shifted(ActionName::MoveDown)
            &&& k == Key::C ==> plain(ActionName::ToggleTab)
            &&& k == Key::Q ==> plain(ActionName::CloseWindow)
            &&& k == Key::UpperQ ==> shifted(ActionName::Quit)
            &&& k == Key::D ==> plain(ActionName::TilingModeDepth)
            &&& k == Key::G ==> plain(ActionName::TilingModeGrid)
            &&& k == Key::F ==> plain(ActionName::TilingModeFloat)
            &&& k == Key::A ==> plain(ActionName::TilingModeDiagonal)
            &&& k == Key::O ==> plain(ActionName::TilingModeOverview)
            &&& k == Key::Return ==> plain(ActionName::SpawnTerminal)
            &&& k == Key::Digit1 ==> plain(ActionName::Workspace(1))
            &&& k == Key::Digit2 ==> plain(ActionName::Workspace(2))
            &&& k == Key::Digit3 ==> plain(ActionName::Workspace(3))
            &&& k == Key::Digit4 ==> plain(ActionName::Workspace(4))
            &&& k == Key::Digit5 ==> plain(ActionName::Workspace(5))
        }),
{
}

/// A configured binding of a pressed combination is performed, whatever the
/// built-in shortcuts say; `z` with `Logo` or `Alt` (and no binding) steps
/// the depth switcher, backward with `Shift`; a press without `Logo` or
/// `Alt` and without binding goes on to the client; a release of both
/// `Logo` and `Alt` while the switcher is shown closes it, and any other
/// release goes on to the client.
pub proof fn law_key_decision_order(mods: Modifiers, k: Key, binds: Seq<(KeyCombo, ActionName)>, switcher_active: bool)
    ensures
        ({
            let combo = KeyCombo { ctrl: mods.ctrl, shift: mods.shift, alt: mods.alt, logo: mods.logo, key: k };
            let d = spec_key_decision(true, mods, Some(k), binds, switcher_active);
            &&& bound(binds, combo) matches Some(a) ==> d == KeyDecision::Perform(a)
            &&& bound(binds, combo) is None && (mods.logo || mods.alt) && (k == Key::Z || k == Key::UpperZ)
                ==> d == (KeyDecision::DepthSwitch { forward: !mods.shift })
            &&& bound(binds, combo) is None && !mods.logo && !mods.alt ==> d == KeyDecision::Forward
        }),
        ({
            let d = spec_key_decision(false, mods, Some(k), binds, switcher_active);
            &&& switcher_active && !mods.logo && !mods.alt ==> d == KeyDecision::EndDepthSwitch
            &&& !(switcher_active && !mods.logo && !mods.alt) ==> d == KeyDecision::Forward
        }),
{
}

} // verus!
