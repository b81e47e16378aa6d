//! Window decorations: the borders drawn around windows, the tab indicators
//! of tabbed columns, and the highlight colours the control socket names.

use vstd::prelude::*;
use crate::layout::{LayoutEngine, LayoutModel, TilingMode, WindowId};
use crate::text::{chars_are, chars_of, lowercase, slice_chars, to_lowercase};

verus! {

/// The colour of a window's border.
#[derive(Debug, Clone, Copy, PartialEq, Eq, Structural)]
pub enum BorderColor {
    /// The window is highlighted: its highlight colour.
    Highlight,
    /// The window has the focus.
    Focused,
    /// Any other visible window.
    Inactive,
}

/// The border of tab `t` of column `c` of workspace `w` (whose window is
/// `id`), or none where the window is not visible. Every window is visible
/// when the view is scaled out; otherwise only those of the active
/// workspace, and of each column only the focused tab, except in depth mode
/// where all tabs are.
pub open spec fn spec_border<W>(
    m: LayoutModel<W>,
    w: int,
    c: int,
    t: int,
    id: WindowId,
    scaled: bool,
    highlighted: Option<WindowId>,
) -> Option<BorderColor> {
    let col = m.workspaces[w].columns[c];
    let visible = scaled || (m.active == w && (m.mode == TilingMode::Depth || col.focused == t));
    let focused = m.active == w && m.workspaces[w].focused == c && col.focused == t;
    if !visible {
        None
    } else if highlighted == Some(id) {
        Some(BorderColor::Highlight)
    } else if focused {
        Some(BorderColor::Focused)
    } else {
        Some(BorderColor::Inactive)
    }
}

/// Tab indicators are drawn above the focused tab of a tabbed column,
/// except in depth mode.
pub open spec fn spec_tab_indicators<W>(m: LayoutModel<W>, w: int, c: int, t: int) -> bool {
    let col = m.workspaces[w].columns[c];
    col.windows.len() > 1 && col.focused == t && m.mode != TilingMode::Depth
}

impl<W> LayoutEngine<W> {
    /// The border of tab `t` of column `c` of workspace `w`, or none where
    /// that window is not visible.
    pub fn border(&self, w: usize, c: usize, t: usize, scaled: bool, highlighted: Option<WindowId>) -> (r: Option<
        BorderColor,
    >)
        requires
            w < self@.workspaces.len(),
            c < self@.workspaces[w as int].columns.len(),
            t < self@.workspaces[w as int].columns[c as int].windows.len(),
        ensures
            r == spec_border(self@, w as int, c as int, t as int, self@.workspaces[w as int].columns[c as int].windows[t as int].id, scaled, highlighted),
    {
        let ws = &self.workspaces[w];
        let col = &ws.columns[c];
        let id = col.windows[t].id;
        let visible = scaled || (self.active_workspace_idx == w && (self.tiling_mode == TilingMode::Depth
            || col.focused_window_idx == t));
        let focused = self.active_workspace_idx == w && ws.focused_column_idx == c && col.focused_window_idx == t;
        if !visible {
            None
        } else if highlighted == Some(id) {
            Some(BorderColor::Highlight)
        } else if focused {
            Some(BorderColor::Focused)
        } else {
            Some(BorderColor::Inactive)
        }
    }

    /// Whether tab indicators are drawn above tab `t` of column `c` of
    /// workspace `w`.
    pub fn tab_indicators(&self, w: usize, c: usize, t: usize) -> (r: bool)
        requires
            w < self@.workspaces.len(),
            c < self@.workspaces[w as int].columns.len(),
        ensures
            r == spec_tab_indicators(self@, w as int, c as int, t as int),
    {
        let col = &self.workspaces[w].columns[c];
        col.windows.len() > 1 && col.focused_window_idx == t && self.tiling_mode != TilingMode::Depth
    }
}

/// A highlight colour.
#[derive(Debug, Clone, Copy, PartialEq, Eq, Structural)]
pub enum HighlightColor {
    Red,
    Green,
    Blue,
    Yellow,
    Orange,
    Magenta,
    Cyan,
    White,
    /// Red, green and blue components out of 255.
    Rgb(u8, u8, u8),
}

/// The value of a hexadecimal digit.
pub open spec fn hex_value(c: char) -> Option<u8> {
    if '0' <= c <= '9' {
        Some(((c as u32) - 48) as u8)
    } else if 'a' <= c <= 'f' {
        Some(((c as u32) - 87) as u8)
    } else if 'A' <= c <= 'F' {
        Some(((c as u32) - 55) as u8)
    } else {
        None
    }
}

/// A colour component written as two characters, read as a hexadecimal
/// `u8` is read (an optional `+`, then digits); 255 where it is none.
pub open spec fn spec_hex_pair(c0: char, c1: char) -> u8 {
    if c0 == '+' {
        match hex_value(c1) {
            Some(v) => v,
            None => 255,
        }
    } else {
        match (hex_value(c0), hex_value(c1)) {
            (Some(a), Some(b)) => (a * 16 + b) as u8,
            _ => 255,
        }
    }
}

fn hex_digit(c: char) -> (r: Option<u8>)
    ensures
        r == hex_value(c),
{
    if '0' <= c && c <= '9' {
        Some((c as u32 - 48) as u8)
    } else if 'a' <= c && c <= 'f' {
        Some((c as u32 - 87) as u8)
    } else if 'A' <= c && c <= 'F' {
        Some((c as u32 - 55) as u8)
    } else {
        None
    }
}

fn hex_pair(c0: char, c1: char) -> (r: u8)
    ensures
        r == spec_hex_pair(c0, c1),
{
    if c0 == '+' {
        match hex_digit(c1) {
            Some(v) => v,
            None => 255,
        }
    } else {
        match (hex_digit(c0), hex_digit(c1)) {
            (Some(a), Some(b)) => a * 16 + b,
            _ => 255,
        }
    }
}

/// The number of bytes of `c` in UTF-8.
pub open spec fn utf8_len(c: char) -> nat {
    if (c as u32) < 0x80 {
        1
    } else if (c as u32) < 0x800 {
        2
    } else if (c as u32) < 0x10000 {
        3
    } else {
        4
    }
}

/// The number of bytes of `s` in UTF-8.
pub open spec fn utf8_size(s: Seq<char>) -> nat
    decreases s.len(),
{
    if s.len() == 0 {
        0
    } else {
        utf8_len(s[0]) + utf8_size(s.drop_first())
    }
}

/// The components that the UTF-8 bytes of `s` give when read two bytes at
/// a time: two one-byte characters are read as a hexadecimal pair, a
/// two-byte character (no hexadecimal number) gives 255; none where a
/// two-byte piece would split a character.
pub open spec fn byte_pairs(s: Seq<char>) -> Option<Seq<u8>>
    decreases s.len(),
{
    if s.len() == 0 {
        Some(Seq::empty())
    } else if utf8_len(s[0]) == 2 {
        match byte_pairs(s.drop_first()) {
            Some(r) => Some(seq![255u8] + r),
            None => None,
        }
    } else if utf8_len(s[0]) == 1 && s.len() >= 2 && utf8_len(s[1]) == 1 {
        match byte_pairs(s.subrange(2, s.len() as int)) {
            Some(r) => Some(seq![spec_hex_pair(s[0], s[1])] + r),
            None => None,
        }
    } else {
        None
    }
}

/// A colour word written `#` and six bytes of hexadecimal pairs.
pub open spec fn hex_color_word(lower: Seq<char>) -> bool {
    lower.len() > 0 && lower[0] == '#' && utf8_size(lower) == 7
}

/// A colour word can be read: where it is `#` and six bytes, reading those
/// bytes two at a time splits no character.
pub open spec fn color_readable(lower: Seq<char>) -> bool {
    hex_color_word(lower) ==> byte_pairs(lower.drop_first()) is Some
}

/// The highlight colour a lowercased colour word names: one of eight
/// colour names, or `#` and six bytes of hexadecimal component pairs; red
/// for anything else.
pub open spec fn spec_parse_color(lower: Seq<char>) -> HighlightColor {
    if lower == "red"@ {
        HighlightColor::Red
    } else if lower == "green"@ {
        HighlightColor::Green
    } else if lower == "blue"@ {
        HighlightColor::Blue
    } else if lower == "yellow"@ {
        HighlightColor::Yellow
    } else if lower == "orange"@ {
        HighlightColor::Orange
    } else if lower == "magenta"@ {
        HighlightColor::Magenta
    } else if lower == "cyan"@ {
        HighlightColor::Cyan
    } else if lower == "white"@ {
        HighlightColor::White
    } else if hex_color_word(lower) && byte_pairs(lower.drop_first()) is Some {
        let p = byte_pairs(lower.drop_first()).unwrap();
        HighlightColor::Rgb(p[0], p[1], p[2])
    } else {
        HighlightColor::Red
    }
}

fn char_bytes(c: char) -> (r: usize)
    ensures
        r == utf8_len(c),
{
    let v = c as u32;
    if v < 0x80 {
        1
    } else if v < 0x800 {
        2
    } else if v < 0x10000 {
        3
    } else {
        4
    }
}

proof fn lemma_utf8_size_positive(s: Seq<char>)
    requires
        s.len() > 0,
    ensures
        utf8_size(s) >= utf8_len(s[0]) >= 1,
{
}

/// Whether the UTF-8 bytes of `s` number exactly `n`.
fn has_utf8_size(s: &[char], n: usize) -> (r: bool)
    ensures
        r == (utf8_size(s@) == n),
{
    let len = s.len();
    let mut total: usize = 0;
    let mut i: usize = 0;
    proof {
        assert(s@.subrange(0, len as int) =~= s@);
    }
    while i < len
        invariant
            len == s@.len(),
            i <= len,
            total <= n,
            total + utf8_size(s@.subrange(i as int, len as int)) == utf8_size(s@),
        decreases len - i,
    {
        let ghost rest = s@.subrange(i as int, len as int);
        proof {
            assert(rest.drop_first() =~= s@.subrange(i + 1, len as int));
            assert(rest[0] == s@[i as int]);
        }
        let b = char_bytes(s[i]);
        if b > n - total {
            proof {
                lemma_utf8_size_positive(rest);
            }
            return false;
        }
        total = total + b;
        i = i + 1;
    }
    proof {
        assert(s@.subrange(len as int, len as int) =~= Seq::<char>::empty());
    }
    total == n
}

proof fn lemma_byte_pairs_len(s: Seq<char>)
    requires
        byte_pairs(s) is Some,
    ensures
        2 * byte_pairs(s).unwrap().len() == utf8_size(s),
    decreases s.len(),
{
    if s.len() > 0 {
        if utf8_len(s[0]) == 2 {
            lemma_byte_pairs_len(s.drop_first());
        } else {
            let rest = s.subrange(2, s.len() as int);
            assert(s.drop_first().drop_first() =~= rest);
            assert(s.drop_first()[0] == s[1]);
            assert(utf8_size(s.drop_first()) == utf8_len(s.drop_first()[0]) + utf8_size(s.drop_first().drop_first()));
            lemma_byte_pairs_len(rest);
        }
    }
}

/// The components of the UTF-8 bytes of `s`, two bytes at a time.
fn read_byte_pairs(s: &[char]) -> (r: Option<Vec<u8>>)
    ensures
        match byte_pairs(s@) {
            Some(p) => r is Some && r.unwrap()@ == p,
            None => r is None,
        },
{
    let len = s.len();
    let mut acc: Vec<u8> = Vec::new();
    let mut i: usize = 0;
    proof {
        assert(s@.subrange(0, len as int) =~= s@);
        assert(Seq::<u8>::empty() + Seq::<u8>::empty() =~= Seq::<u8>::empty());
    }
    while i < len
        invariant
            len == s@.len(),
            i <= len,
            match byte_pairs(s@.subrange(i as int, len as int)) {
                Some(r) => byte_pairs(s@) == Some(acc@ + r),
                None => byte_pairs(s@) is None,
            },
        decreases len - i,
    {
        let ghost rest = s@.subrange(i as int, len as int);
        proof {
            assert(rest[0] == s@[i as int]);
        }
        let b0 = char_bytes(s[i]);
        if b0 == 2 {
            proof {
                assert(rest.drop_first() =~= s@.subrange(i + 1, len as int));
                match byte_pairs(s@.subrange(i + 1, len as int)) {
                    Some(r) => {
                        assert(acc@ + (seq![255u8] + r) =~= acc@.push(255u8) + r);
                    },
                    None => {},
                }
            }
            acc.push(255u8);
            i = i + 1;
        } else if b0 == 1 && i + 1 < len && char_bytes(s[i + 1]) == 1 {
            let v = hex_pair(s[i], s[i + 1]);
            proof {
                assert(rest[1] == s@[i + 1]);
                assert(rest.subrange(2, rest.len() as int) =~= s@.subrange(i + 2, len as int));
                match byte_pairs(s@.subrange(i + 2, len as int)) {
                    Some(r) => {
                        assert(acc@ + (seq![v] + r) =~= acc@.push(v) + r);
                    },
                    None => {},
                }
            }
            acc.push(v);
            i = i + 2;
        } else {
            return None;
        }
    }
    proof {
        assert(s@.subrange(len as int, len as int) =~= Seq::<char>::empty());
        assert(acc@ + Seq::<u8>::empty() =~= acc@);
    }
    Some(acc)
}

/// The highlight colour a lowercased colour word names.
pub fn parse_color(lower: &[char]) -> (r: HighlightColor)
    requires
        color_readable(lower@),
    ensures
        r == spec_parse_color(lower@),
{
    if chars_are(lower, "red") {
        HighlightColor::Red
    } else if chars_are(lower, "green") {
        HighlightColor::Green
    } else if chars_are(lower, "blue") {
        HighlightColor::Blue
    } else if chars_are(lower, "yellow") {
        HighlightColor::Yellow
    } else if chars_are(lower, "orange") {
        HighlightColor::Orange
    } else if chars_are(lower, "magenta") {
        HighlightColor::Magenta
    } else if chars_are(lower, "cyan") {
        HighlightColor::Cyan
    } else if chars_are(lower, "white") {
        HighlightColor::White
    } else if lower.len() > 0 && lower[0] == '#' && has_utf8_size(lower, 7) {
        let rest = slice_chars(lower, 1, lower.len());
        proof {
            assert(rest@ =~= lower@.drop_first());
        }
        match read_byte_pairs(rest.as_slice()) {
            Some(p) => {
                proof {
                    lemma_byte_pairs_len(lower@.drop_first());
                }
                HighlightColor::Rgb(p[0], p[1], p[2])
            },
            None => HighlightColor::Red,
        }
    } else {
        HighlightColor::Red
    }
}

/// Whether a lowercased colour word can be read.
pub fn color_word_readable(lower: &[char]) -> (r: bool)
    ensures
        r == color_readable(lower@),
{
    if lower.len() > 0 && lower[0] == '#' && has_utf8_size(lower, 7) {
        let rest = slice_chars(lower, 1, lower.len());
        proof {
            assert(rest@ =~= lower@.drop_first());
        }
        read_byte_pairs(rest.as_slice()).is_some()
    } else {
        true
    }
}

/// The highlight colour a colour word names, case aside; none where the
/// word is `#` and six bytes whose reading two at a time would split a
/// character.
pub fn color_of_word(word: &[char]) -> (r: Option<HighlightColor>)
    ensures
        r == (if color_readable(lowercase(word@)) {
            Some(spec_parse_color(lowercase(word@)))
        } else {
            None
        }),
{
    let lower = to_lowercase(word);
    if color_word_readable(lower.as_slice()) {
        Some(parse_color(lower.as_slice()))
    } else {
        None
    }
}

} // verus!
