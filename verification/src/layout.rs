//! Columns, tabs and workspaces of the scrollable tiling layout.
//!
//! A column's width is carried as an opaque value of the type parameter `W`:
//! the structure never computes with it, it only keeps it with its column.

use vstd::arithmetic::div_mod::{
    lemma_add_mod_noop_right, lemma_mod_add_multiples_vanish, lemma_mod_self_0, lemma_small_mod,
};
use vstd::prelude::*;

verus! {

/// Unique identifier for a window.
#[derive(Debug, Clone, Copy, PartialEq, Eq, Structural, Hash, PartialOrd, Ord)]
pub struct WindowId(pub u32);

/// A client application window.
#[derive(Debug, Clone)]
pub struct Window {
    pub id: WindowId,
    pub title: String,
}

/// Tiling mode of the layout.
#[derive(Debug, Clone, Copy, PartialEq, Eq, Structural)]
pub enum TilingMode {
    Diagonal,
    Grid,
    Float,
    Depth,
    Overview,
}

/// The direction of a scroll: the sign of its amount.
#[derive(Debug, Clone, Copy, PartialEq, Eq, Structural)]
pub enum ScrollSign {
    Negative,
    Zero,
    Positive,
}

/// What a scroll of the wheel is taken for.
#[derive(Debug, Clone, Copy, PartialEq, Eq, Structural)]
pub enum WheelScroll {
    /// It goes on to the client under the pointer.
    Client,
    /// It stepped the tabs of the focused column.
    Tabs,
    /// It scrolls the depth carousel (shown by the depth switcher).
    Carousel,
}

/// A container in the horizontal strip: a single window, or a stack of
/// tabbed windows.
#[derive(Debug, Clone)]
pub struct Column<W> {
    pub windows: Vec<Window>,
    pub focused_window_idx: usize,
    pub width: W,
}

/// A horizontal strip of columns. Workspaces are stacked vertically.
#[derive(Debug, Clone)]
pub struct Workspace<W> {
    pub columns: Vec<Column<W>>,
    pub focused_column_idx: usize,
}

/// The discrete state of the layout: workspaces, focus, tiling mode and the
/// ordering of windows in the depth carousel.
#[derive(Debug, Clone)]
pub struct LayoutEngine<W> {
    pub workspaces: Vec<Workspace<W>>,
    pub active_workspace_idx: usize,
    pub tiling_mode: TilingMode,
    /// The tiling mode that windows keep underneath the overview.
    pub underlying_tiling_mode: TilingMode,
    /// Whether the overview of all workspaces is open.
    pub overview_open: bool,
    /// Window identifiers in the order of the depth carousel.
    pub windows: Vec<WindowId>,
}

// ---------------------------------------------------------------------------
// Mathematical model
// ---------------------------------------------------------------------------

/// Model of a column.
pub struct ColumnModel<W> {
    pub windows: Seq<Window>,
    pub focused: int,
    pub width: W,
}

/// Model of a workspace.
pub struct WorkspaceModel<W> {
    pub columns: Seq<ColumnModel<W>>,
    pub focused: int,
}

/// Model of the whole layout.
pub struct LayoutModel<W> {
    pub workspaces: Seq<WorkspaceModel<W>>,
    pub active: int,
    pub mode: TilingMode,
    pub underlying_mode: TilingMode,
    pub overview_open: bool,
    pub depth_order: Seq<WindowId>,
}

/// `w` renamed to `title` where it is the window `id` under another title.
pub open spec fn retitled(w: Window, id: WindowId, title: String) -> Window {
    if is_stale(w, id, title) {
        Window { id: w.id, title }
    } else {
        w
    }
}

/// `w` is the window `id` under a title other than `title`.
pub open spec fn is_stale(w: Window, id: WindowId, title: String) -> bool {
    w.id == id && w.title@ != title@
}

/// The predicate "is not `id`".
pub open spec fn other_than(id: WindowId) -> spec_fn(WindowId) -> bool {
    |x: WindowId| x != id
}

/// A column holding one window.
pub open spec fn single_column<W>(window: Window, width: W) -> ColumnModel<W> {
    ColumnModel { windows: seq![window], focused: 0, width }
}

/// The width a column takes when `width` is asked for: `minimum` where the
/// request lies below it, the request itself otherwise.
pub open spec fn clamped_width<W>(width: W, minimum: W, below_minimum: bool) -> W {
    if below_minimum { minimum } else { width }
}

impl<W> ColumnModel<W> {
    /// A column holds at least one window, and its focus points at one of them.
    pub open spec fn wf(self) -> bool {
        &&& self.windows.len() > 0
        &&& 0 <= self.focused < self.windows.len()
    }

    /// The column once the tab at `t` is taken out; the focus moves onto the
    /// last tab if it pointed past the end.
    pub open spec fn without_tab(self, t: int) -> ColumnModel<W> {
        let rest = self.windows.remove(t);
        ColumnModel {
            windows: rest,
            focused: if self.focused >= rest.len() { rest.len() - 1 } else { self.focused },
            width: self.width,
        }
    }

    /// Every tab of the column holding `id` under a title other than `title`
    /// renamed to `title`.
    pub open spec fn retitle(self, id: WindowId, title: String) -> ColumnModel<W> {
        ColumnModel { windows: self.windows.map_values(|w: Window| retitled(w, id, title)), ..self }
    }

    /// Whether some tab of the column holds `id` under a title other than
    /// `title`.
    pub open spec fn stale_title(self, id: WindowId, title: String) -> bool {
        exists|t: int| 0 <= t < self.windows.len() && #[trigger] is_stale(self.windows[t], id, title)
    }

    /// Whether some tab of the column holds `id`.
    pub open spec fn holds(self, id: WindowId) -> bool {
        exists|t: int| 0 <= t < self.windows.len() && #[trigger] self.windows[t].id == id
    }
}

impl<W> WorkspaceModel<W> {
    pub open spec fn wf(self) -> bool {
        &&& forall|c: int| 0 <= c < self.columns.len() ==> #[trigger] self.columns[c].wf()
        &&& self.columns.len() > 0 ==> 0 <= self.focused < self.columns.len()
        &&& self.columns.len() == 0 ==> self.focused == 0
    }

    /// Places `col` right of the focused column (or as the only column) and
    /// focuses it.
    pub open spec fn insert_after_focus(self, col: ColumnModel<W>) -> WorkspaceModel<W> {
        if self.columns.len() == 0 {
            WorkspaceModel { columns: seq![col], focused: 0 }
        } else {
            WorkspaceModel {
                columns: self.columns.insert(self.focused + 1, col),
                focused: self.focused + 1,
            }
        }
    }

    /// The workspace once the window at tab `t` of column `c` is taken out.
    /// A column left empty is removed, and the focus is pulled back onto the
    /// last column if it pointed past the end.
    pub open spec fn without_window(self, c: int, t: int) -> WorkspaceModel<W> {
        let col = self.columns[c].without_tab(t);
        if col.windows.len() == 0 {
            let cols = self.columns.remove(c);
            WorkspaceModel {
                columns: cols,
                focused: if self.focused >= cols.len() && cols.len() > 0 {
                    cols.len() - 1
                } else {
                    self.focused
                },
            }
        } else {
            WorkspaceModel { columns: self.columns.update(c, col), focused: self.focused }
        }
    }

    /// Focus moved one column left, if there is one.
    pub open spec fn focus_left(self) -> WorkspaceModel<W> {
        if self.focused > 0 {
            WorkspaceModel { focused: self.focused - 1, ..self }
        } else {
            self
        }
    }

    /// Focus moved one column right, if there is one.
    pub open spec fn focus_right(self) -> WorkspaceModel<W> {
        if self.focused + 1 < self.columns.len() {
            WorkspaceModel { focused: self.focused + 1, ..self }
        } else {
            self
        }
    }

    /// The focused column replaced by `col`.
    pub open spec fn with_focused_column(self, col: ColumnModel<W>) -> WorkspaceModel<W> {
        WorkspaceModel { columns: self.columns.update(self.focused, col), ..self }
    }

    /// Whether the focus points at a column.
    pub open spec fn has_focused_column(self) -> bool {
        0 <= self.focused < self.columns.len()
    }

    /// Focus moved to the tab above in the focused column, wrapping from the
    /// first tab to the last.
    pub open spec fn focus_tab_up(self) -> WorkspaceModel<W> {
        if self.has_focused_column() && self.columns[self.focused].windows.len() > 0 {
            let col = self.columns[self.focused];
            let f = if col.focused > 0 { col.focused - 1 } else { col.windows.len() - 1 };
            self.with_focused_column(ColumnModel { focused: f, ..col })
        } else {
            self
        }
    }

    /// Focus moved to the tab below in the focused column, wrapping from the
    /// last tab to the first.
    pub open spec fn focus_tab_down(self) -> WorkspaceModel<W> {
        if self.has_focused_column() && self.columns[self.focused].windows.len() > 0 {
            let col = self.columns[self.focused];
            self.with_focused_column(ColumnModel { focused: (col.focused + 1) % (col.windows.len() as int), ..col })
        } else {
            self
        }
    }

    /// The focused column swapped with its left neighbour, keeping the focus
    /// on it.
    pub open spec fn move_column_left(self) -> WorkspaceModel<W> {
        let f = self.focused;
        if f > 0 {
            WorkspaceModel {
                columns: self.columns.update(f, self.columns[f - 1]).update(f - 1, self.columns[f]),
                focused: f - 1,
            }
        } else {
            self
        }
    }

    /// The focused column swapped with its right neighbour, keeping the focus
    /// on it.
    pub open spec fn move_column_right(self) -> WorkspaceModel<W> {
        let f = self.focused;
        if f + 1 < self.columns.len() {
            WorkspaceModel {
                columns: self.columns.update(f, self.columns[f + 1]).update(f + 1, self.columns[f]),
                focused: f + 1,
            }
        } else {
            self
        }
    }

    /// Tab grouping toggled on the focused column. A tabbed column expels its
    /// focused tab into a new column of the same width right of it, which
    /// takes the focus; a single-window column takes in the windows of the
    /// column right of it as tabs and focuses the first of them.
    pub open spec fn toggle_tab_group(self) -> WorkspaceModel<W> {
        let f = self.focused;
        let col = self.columns[f];
        if self.columns.len() == 0 {
            self
        } else if col.windows.len() > 1 {
            WorkspaceModel {
                columns: self.columns.update(f, col.without_tab(col.focused)).insert(
                    f + 1,
                    single_column(col.windows[col.focused], col.width),
                ),
                focused: f + 1,
            }
        } else if f + 1 < self.columns.len() {
            let merged = ColumnModel {
                windows: col.windows + self.columns[f + 1].windows,
                focused: col.windows.len() as int,
                width: col.width,
            };
            WorkspaceModel { columns: self.columns.remove(f + 1).update(f, merged), focused: f }
        } else {
            self
        }
    }

    /// Every window `id` of the workspace renamed to `title`.
    pub open spec fn retitle(self, id: WindowId, title: String) -> WorkspaceModel<W> {
        WorkspaceModel { columns: self.columns.map_values(|c: ColumnModel<W>| c.retitle(id, title)), ..self }
    }

    /// Whether some window `id` of the workspace has a title other than
    /// `title`.
    pub open spec fn stale_title(self, id: WindowId, title: String) -> bool {
        exists|c: int| 0 <= c < self.columns.len() && #[trigger] self.columns[c].stale_title(id, title)
    }

    /// Focus set on tab `t` of column `c`.
    pub open spec fn focus_at(self, c: int, t: int) -> WorkspaceModel<W> {
        WorkspaceModel {
            columns: self.columns.update(c, ColumnModel { focused: t, ..self.columns[c] }),
            focused: c,
        }
    }

    /// The first place of `id` (meaningful where the workspace holds it).
    pub open spec fn place_of(self, id: WindowId) -> (int, int) {
        choose|c: int, t: int| self.first_place(id, c, t)
    }

    /// Focus set on the first place of `id`; a workspace that does not hold
    /// `id` stays as it is.
    pub open spec fn focus_window(self, id: WindowId) -> WorkspaceModel<W> {
        if self.holds(id) {
            self.focus_at(self.place_of(id).0, self.place_of(id).1)
        } else {
            self
        }
    }

    /// `win` placed by explicit position: as the only column of an empty
    /// workspace, as a new last column when `col_idx` is at or past the end,
    /// or else as tab `min(tile_idx, tabs)` of column `col_idx`. Either way
    /// it takes the focus.
    pub open spec fn place_window(self, win: Window, width: W, col_idx: int, tile_idx: int) -> WorkspaceModel<W> {
        if self.columns.len() == 0 {
            WorkspaceModel { columns: seq![single_column(win, width)], focused: 0 }
        } else if col_idx >= self.columns.len() {
            WorkspaceModel {
                columns: self.columns.push(single_column(win, width)),
                focused: self.columns.len() as int,
            }
        } else {
            let col = self.columns[col_idx];
            let t = if tile_idx < col.windows.len() { tile_idx } else { col.windows.len() as int };
            WorkspaceModel {
                columns: self.columns.update(col_idx, ColumnModel { windows: col.windows.insert(t, win), focused: t, ..col }),
                focused: col_idx,
            }
        }
    }

    /// `win` restored into saved column `col_idx` as its last tab, focused
    /// there, or into a new last column of width `width` where the workspace
    /// has no such column; the workspace focus is pulled back onto the last
    /// column if it pointed past the end.
    pub open spec fn restore_window(self, win: Window, col_idx: int, width: W) -> WorkspaceModel<W> {
        let cols = if col_idx < self.columns.len() {
            let col = self.columns[col_idx];
            self.columns.update(col_idx, ColumnModel {
                windows: col.windows.push(win),
                focused: col.windows.len() as int,
                ..col
            })
        } else {
            self.columns.push(single_column(win, width))
        };
        WorkspaceModel {
            columns: cols,
            focused: if self.focused < cols.len() - 1 { self.focused } else { cols.len() - 1 },
        }
    }

    /// `(c, t)` is the first place of `id` in the workspace, columns taken
    /// left to right and tabs top to bottom.
    pub open spec fn first_place(self, id: WindowId, c: int, t: int) -> bool {
        &&& 0 <= c < self.columns.len()
        &&& 0 <= t < self.columns[c].windows.len()
        &&& self.columns[c].windows[t].id == id
        &&& forall|c2: int| 0 <= c2 < c ==> !(#[trigger] self.columns[c2].holds(id))
        &&& forall|t2: int| 0 <= t2 < t ==> #[trigger] self.columns[c].windows[t2].id != id
    }

    /// Whether some column of the workspace holds `id`.
    pub open spec fn holds(self, id: WindowId) -> bool {
        exists|c: int| 0 <= c < self.columns.len() && #[trigger] self.columns[c].holds(id)
    }
}

impl<W> LayoutModel<W> {
    pub open spec fn wf(self) -> bool {
        &&& 0 <= self.active < self.workspaces.len()
        &&& forall|w: int| 0 <= w < self.workspaces.len() ==> #[trigger] self.workspaces[w].wf()
    }

    pub open spec fn active_ws(self) -> WorkspaceModel<W> {
        self.workspaces[self.active]
    }

    /// The layout with the active workspace replaced by `ws`.
    pub open spec fn with_active(self, ws: WorkspaceModel<W>) -> LayoutModel<W> {
        LayoutModel { workspaces: self.workspaces.update(self.active, ws), ..self }
    }

    /// The layout with `n` empty workspaces, the first one active.
    pub open spec fn initial(n: nat) -> LayoutModel<W> {
        LayoutModel {
            workspaces: Seq::new(n, |i: int| WorkspaceModel { columns: Seq::empty(), focused: 0 }),
            active: 0,
            mode: TilingMode::Grid,
            underlying_mode: TilingMode::Grid,
            overview_open: false,
            depth_order: Seq::empty(),
        }
    }

    /// `(w, c, t)` is the first place of `id` in the layout, workspaces taken
    /// top to bottom.
    pub open spec fn first_place(self, id: WindowId, w: int, c: int, t: int) -> bool {
        &&& 0 <= w < self.workspaces.len()
        &&& self.workspaces[w].first_place(id, c, t)
        &&& forall|w2: int| 0 <= w2 < w ==> !(#[trigger] self.workspaces[w2].holds(id))
    }

    /// Whether some workspace of the layout holds `id`.
    pub open spec fn holds(self, id: WindowId) -> bool {
        exists|w: int| 0 <= w < self.workspaces.len() && #[trigger] self.workspaces[w].holds(id)
    }

    /// The first place of `id` (meaningful where the layout holds it).
    pub open spec fn place_of(self, id: WindowId) -> (int, int, int) {
        choose|w: int, c: int, t: int| self.first_place(id, w, c, t)
    }

    /// The layout once the window at `(w, c, t)` is taken out.
    pub open spec fn without_window(self, w: int, c: int, t: int) -> LayoutModel<W> {
        LayoutModel { workspaces: self.workspaces.update(w, self.workspaces[w].without_window(c, t)), ..self }
    }

    /// The layout once the window `id` is closed: its first place is
    /// emptied and every entry of `id` leaves the depth ordering. A layout
    /// that does not hold `id` stays as it is.
    pub open spec fn close(self, id: WindowId) -> LayoutModel<W> {
        if self.holds(id) {
            let p = self.place_of(id);
            LayoutModel {
                depth_order: self.depth_order.filter(other_than(id)),
                ..self.without_window(p.0, p.1, p.2)
            }
        } else {
            self
        }
    }

    /// Focus moved one column left in the active workspace.
    pub open spec fn focus_left(self) -> LayoutModel<W> {
        self.with_active(self.active_ws().focus_left())
    }

    /// Focus moved one column right in the active workspace.
    pub open spec fn focus_right(self) -> LayoutModel<W> {
        self.with_active(self.active_ws().focus_right())
    }

    /// Focus moved one tab up in the focused column of the active workspace.
    pub open spec fn focus_tab_up(self) -> LayoutModel<W> {
        self.with_active(self.active_ws().focus_tab_up())
    }

    /// Focus moved one tab down in the focused column of the active workspace.
    pub open spec fn focus_tab_down(self) -> LayoutModel<W> {
        self.with_active(self.active_ws().focus_tab_down())
    }

    /// The focused column of the active workspace swapped leftwards.
    pub open spec fn move_column_left(self) -> LayoutModel<W> {
        self.with_active(self.active_ws().move_column_left())
    }

    /// The focused column of the active workspace swapped rightwards.
    pub open spec fn move_column_right(self) -> LayoutModel<W> {
        self.with_active(self.active_ws().move_column_right())
    }

    /// Tab grouping toggled on the focused column of the active workspace.
    pub open spec fn toggle_tab_group(self) -> LayoutModel<W> {
        self.with_active(self.active_ws().toggle_tab_group())
    }

    /// Focus moved to the workspace above, if there is one.
    pub open spec fn focus_workspace_up(self) -> LayoutModel<W> {
        if self.active > 0 {
            LayoutModel { active: self.active - 1, ..self }
        } else {
            self
        }
    }

    /// Focus moved to the workspace below, if there is one.
    pub open spec fn focus_workspace_down(self) -> LayoutModel<W> {
        if self.active + 1 < self.workspaces.len() {
            LayoutModel { active: self.active + 1, ..self }
        } else {
            self
        }
    }

    /// The focused window of the active workspace moved into a new column of
    /// the same width right of the focused column of workspace `target`,
    /// which it then focuses there. The active workspace stays active. An
    /// active workspace without columns leaves the layout as it is.
    pub open spec fn move_focused_window_to(self, target: int) -> LayoutModel<W> {
        let ws = self.active_ws();
        if ws.columns.len() == 0 {
            self
        } else {
            let col = ws.columns[ws.focused];
            let win = col.windows[col.focused];
            let wss = self.workspaces.update(self.active, ws.without_window(ws.focused, col.focused));
            LayoutModel {
                workspaces: wss.update(target, wss[target].insert_after_focus(single_column(win, col.width))),
                ..self
            }
        }
    }

    /// The focused window moved to the workspace above, if there is one.
    pub open spec fn move_window_workspace_up(self) -> LayoutModel<W> {
        if self.active > 0 {
            self.move_focused_window_to(self.active - 1)
        } else {
            self
        }
    }

    /// The focused window moved to the workspace below, if there is one.
    pub open spec fn move_window_workspace_down(self) -> LayoutModel<W> {
        if self.active + 1 < self.workspaces.len() {
            self.move_focused_window_to(self.active + 1)
        } else {
            self
        }
    }

    /// Focus set on the first place of `id`, its workspace made active; a
    /// layout that does not hold `id` stays as it is.
    pub open spec fn focus_window(self, id: WindowId) -> LayoutModel<W> {
        if self.holds(id) {
            let p = self.place_of(id);
            LayoutModel {
                workspaces: self.workspaces.update(p.0, self.workspaces[p.0].focus_at(p.1, p.2)),
                active: p.0,
                ..self
            }
        } else {
            self
        }
    }

    /// Every window `id` of the layout renamed to `title`.
    pub open spec fn retitle(self, id: WindowId, title: String) -> LayoutModel<W> {
        LayoutModel { workspaces: self.workspaces.map_values(|ws: WorkspaceModel<W>| ws.retitle(id, title)), ..self }
    }

    /// Whether some window `id` of the layout has a title other than `title`.
    pub open spec fn stale_title(self, id: WindowId, title: String) -> bool {
        exists|w: int| 0 <= w < self.workspaces.len() && #[trigger] self.workspaces[w].stale_title(id, title)
    }

    /// The window at position `idx` of the depth ordering focused in the
    /// active workspace (where the active workspace holds it).
    pub open spec fn focus_depth(self, idx: int) -> LayoutModel<W> {
        if 0 <= idx < self.depth_order.len() {
            self.with_active(self.active_ws().focus_window(self.depth_order[idx]))
        } else {
            self
        }
    }

    /// The first workspace made active, with the focus on its first column
    /// and that column's first tab.
    pub open spec fn reset_to_first(self) -> LayoutModel<W> {
        let ws = self.workspaces[0];
        let cols = if ws.columns.len() > 0 {
            ws.columns.update(0, ColumnModel { focused: 0, ..ws.columns[0] })
        } else {
            ws.columns
        };
        LayoutModel {
            workspaces: self.workspaces.update(0, WorkspaceModel { columns: cols, focused: 0 }),
            active: 0,
            ..self
        }
    }

    /// A window re-mapped into the saved slot `(ws_idx, col_idx)`: restored
    /// there by `restore_window` and appended to the depth ordering.
    pub open spec fn restore(self, window: Window, ws_idx: int, col_idx: int, width: W) -> LayoutModel<W> {
        LayoutModel {
            workspaces: self.workspaces.update(ws_idx, self.workspaces[ws_idx].restore_window(window, col_idx, width)),
            depth_order: self.depth_order.push(window.id),
            ..self
        }
    }

    /// The tabs of the focused column stepped by a scroll of direction
    /// `sign`: down for a positive amount, up for a negative one.
    pub open spec fn scroll_tabs(self, sign: ScrollSign) -> LayoutModel<W> {
        match sign {
            ScrollSign::Positive => self.focus_tab_down(),
            ScrollSign::Negative => self.focus_tab_up(),
            ScrollSign::Zero => self,
        }
    }

    /// The layout after a scroll along the depth axis of direction `sign`:
    /// where a nested compositor took it (`forwarded`) nothing changes here;
    /// in depth mode it scrolls the carousel, which is not the layout's;
    /// otherwise it steps the tabs of the focused column.
    pub open spec fn depth_axis_scroll(self, forwarded: bool, sign: ScrollSign) -> LayoutModel<W> {
        if forwarded || self.mode == TilingMode::Depth {
            self
        } else {
            self.scroll_tabs(sign)
        }
    }

    /// Whether the focused column of the active workspace holds several
    /// windows as tabs.
    pub open spec fn focused_column_tabbed(self) -> bool {
        let ws = self.active_ws();
        ws.has_focused_column() && ws.columns[ws.focused].windows.len() > 1
    }

    /// What a scroll of the wheel of direction `sign` is taken for, with
    /// `Logo` or `Alt` held or not: nothing is taken without an amount; a
    /// tabbed focused column takes it without those modifiers; with them
    /// the depth carousel takes it; otherwise the client does.
    pub open spec fn wheel_decision(self, sign: ScrollSign, logo_or_alt: bool) -> WheelScroll {
        if sign == ScrollSign::Zero {
            WheelScroll::Client
        } else if self.focused_column_tabbed() && !logo_or_alt {
            WheelScroll::Tabs
        } else if logo_or_alt {
            WheelScroll::Carousel
        } else {
            WheelScroll::Client
        }
    }

    /// The focused window of the active workspace, if any.
    pub open spec fn focused_window_id(self) -> Option<WindowId> {
        let ws = self.active_ws();
        if ws.has_focused_column() && 0 <= ws.columns[ws.focused].focused < ws.columns[ws.focused].windows.len() {
            Some(ws.columns[ws.focused].windows[ws.columns[ws.focused].focused].id)
        } else {
            None
        }
    }

    /// The window `id` moved to an explicit position: taken out of its first
    /// place, then placed by `place_window` in workspace
    /// `min(ws_idx, workspaces - 1)` with the width of the column it left. A
    /// layout that does not hold `id` stays as it is.
    pub open spec fn relocate(self, id: WindowId, ws_idx: int, col_idx: int, tile_idx: int) -> LayoutModel<W> {
        if self.holds(id) {
            let p = self.place_of(id);
            let col = self.workspaces[p.0].columns[p.1];
            let mid = self.without_window(p.0, p.1, p.2);
            let target = if ws_idx < self.workspaces.len() { ws_idx } else { self.workspaces.len() - 1 };
            LayoutModel {
                workspaces: mid.workspaces.update(
                    target,
                    mid.workspaces[target].place_window(col.windows[p.2], col.width, col_idx, tile_idx),
                ),
                ..mid
            }
        } else {
            self
        }
    }

    /// A new window in its own column right of the focused column of the
    /// active workspace, focused, and last in the depth carousel.
    pub open spec fn spawn(self, window: Window, width: W) -> LayoutModel<W> {
        LayoutModel {
            depth_order: self.depth_order.push(window.id),
            ..self.with_active(self.active_ws().insert_after_focus(single_column(window, width)))
        }
    }
}

// ---------------------------------------------------------------------------
// Facts about the model
// ---------------------------------------------------------------------------

/// A workspace holds each window at one first place only.
pub proof fn lemma_workspace_first_place_unique<W>(
    ws: WorkspaceModel<W>,
    id: WindowId,
    c: int,
    t: int,
    c2: int,
    t2: int,
)
    requires
        ws.first_place(id, c, t),
        ws.first_place(id, c2, t2),
    ensures
        c == c2 && t == t2,
{
    if c < c2 {
        assert(ws.columns[c].holds(id));
    } else if c2 < c {
        assert(ws.columns[c2].holds(id));
    } else if t < t2 {
        assert(ws.columns[c].windows[t].id == id);
    } else if t2 < t {
        assert(ws.columns[c].windows[t2].id == id);
    }
}

/// The first place of a window is the place that `place_of` names.
pub proof fn lemma_place_of<W>(m: LayoutModel<W>, id: WindowId, w: int, c: int, t: int)
    requires
        m.first_place(id, w, c, t),
    ensures
        m.holds(id),
        m.place_of(id) == (w, c, t),
{
    assert(m.workspaces[w].columns[c].holds(id));
    assert(m.workspaces[w].holds(id));
    let p = m.place_of(id);
    assert(m.first_place(id, p.0, p.1, p.2));
    if p.0 < w {
        assert(m.workspaces[p.0].columns[p.1].holds(id));
        assert(m.workspaces[p.0].holds(id));
    } else if w < p.0 {
        assert(m.workspaces[w].holds(id));
    }
    lemma_workspace_first_place_unique(m.workspaces[w], id, c, t, p.1, p.2);
}

/// The first place of a window in a workspace is the place that
/// `place_of` names.
pub proof fn lemma_workspace_place_of<W>(ws: WorkspaceModel<W>, id: WindowId, c: int, t: int)
    requires
        ws.first_place(id, c, t),
    ensures
        ws.holds(id),
        ws.place_of(id) == (c, t),
{
    assert(ws.columns[c].holds(id));
    let p = ws.place_of(id);
    lemma_workspace_first_place_unique(ws, id, c, t, p.0, p.1);
}

/// Focusing an existing place of a well-formed workspace keeps it well
/// formed.
pub proof fn lemma_focus_at_wf<W>(ws: WorkspaceModel<W>, c: int, t: int)
    requires
        ws.wf(),
        0 <= c < ws.columns.len(),
        0 <= t < ws.columns[c].windows.len(),
    ensures
        ws.focus_at(c, t).wf(),
{
    let r = ws.focus_at(c, t);
    assert forall|k: int| 0 <= k < r.columns.len() implies #[trigger] r.columns[k].wf() by {
        if k != c {
            assert(r.columns[k] == ws.columns[k]);
        }
    }
}

/// Taking a window out of a well-formed workspace leaves it well formed.
pub proof fn lemma_without_window_wf<W>(ws: WorkspaceModel<W>, c: int, t: int)
    requires
        ws.wf(),
        0 <= c < ws.columns.len(),
        0 <= t < ws.columns[c].windows.len(),
    ensures
        ws.without_window(c, t).wf(),
{
    let r = ws.without_window(c, t);
    assert(ws.columns[c].wf());
    assert forall|k: int| 0 <= k < r.columns.len() implies #[trigger] r.columns[k].wf() by {
        if ws.columns[c].without_tab(t).windows.len() == 0 {
            if k < c {
                assert(r.columns[k] == ws.columns[k]);
            } else {
                assert(r.columns[k] == ws.columns[k + 1]);
            }
        } else if k != c {
            assert(r.columns[k] == ws.columns[k]);
        }
    }
}

/// Placing a well-formed column into a well-formed workspace keeps it well
/// formed.
pub proof fn lemma_insert_after_focus_wf<W>(ws: WorkspaceModel<W>, col: ColumnModel<W>)
    requires
        ws.wf(),
        col.wf(),
    ensures
        ws.insert_after_focus(col).wf(),
{
    let r = ws.insert_after_focus(col);
    assert forall|c: int| 0 <= c < r.columns.len() implies #[trigger] r.columns[c].wf() by {
        if ws.columns.len() > 0 {
            let f = ws.focused;
            if c < f + 1 {
                assert(r.columns[c] == ws.columns[c]);
            } else if c > f + 1 {
                assert(r.columns[c] == ws.columns[c - 1]);
            }
        }
    }
}

/// Replacing a workspace of a well-formed layout by a well-formed one keeps
/// the layout well formed.
pub proof fn lemma_update_wf<W>(m: LayoutModel<W>, w: int, ws: WorkspaceModel<W>)
    requires
        m.wf(),
        0 <= w < m.workspaces.len(),
        ws.wf(),
    ensures
        (LayoutModel { workspaces: m.workspaces.update(w, ws), ..m }).wf(),
{
    let r = LayoutModel { workspaces: m.workspaces.update(w, ws), ..m };
    assert forall|k: int| 0 <= k < r.workspaces.len() implies #[trigger] r.workspaces[k].wf() by {
        if k != w {
            assert(r.workspaces[k] == m.workspaces[k]);
        }
    }
}

// ---------------------------------------------------------------------------
// Views
// ---------------------------------------------------------------------------

impl<W> View for Column<W> {
    type V = ColumnModel<W>;

    open spec fn view(&self) -> ColumnModel<W> {
        ColumnModel {
            windows: self.windows@,
            focused: self.focused_window_idx as int,
            width: self.width,
        }
    }
}

impl<W> View for Workspace<W> {
    type V = WorkspaceModel<W>;

    open spec fn view(&self) -> WorkspaceModel<W> {
        WorkspaceModel {
            columns: self.columns@.map_values(|c: Column<W>| c@),
            focused: self.focused_column_idx as int,
        }
    }
}

impl<W> View for LayoutEngine<W> {
    type V = LayoutModel<W>;

    open spec fn view(&self) -> LayoutModel<W> {
        LayoutModel {
            workspaces: self.workspaces@.map_values(|w: Workspace<W>| w@),
            active: self.active_workspace_idx as int,
            mode: self.tiling_mode,
            underlying_mode: self.underlying_tiling_mode,
            overview_open: self.overview_open,
            depth_order: self.windows@,
        }
    }
}

// ---------------------------------------------------------------------------
// Columns
// ---------------------------------------------------------------------------

impl<W> Column<W> {
    /// A column holding the single window `window`.
    pub fn new(window: Window, width: W) -> (r: Self)
        ensures
            r@ == single_column(window, width),
    {
        let mut windows = Vec::new();
        windows.push(window);
        proof {
            assert(windows@ =~= seq![window]);
        }
        Column { windows, focused_window_idx: 0, width }
    }

    /// The focused window of this column.
    pub fn focused_window(&self) -> (r: Option<&Window>)
        ensures
            r == (if 0 <= self@.focused < self@.windows.len() {
                Some(&self@.windows[self@.focused])
            } else {
                None
            }),
    {
        if self.focused_window_idx < self.windows.len() {
            Some(&self.windows[self.focused_window_idx])
        } else {
            None
        }
    }

    /// Renames every tab holding `id` to `title`. Returns whether some such
    /// tab had another title.
    fn retitle(&mut self, id: WindowId, title: &String) -> (r: bool)
        ensures
            final(self)@ == old(self)@.retitle(id, *title),
            r == old(self)@.stale_title(id, *title),
    {
        let ghost before = self@;
        let mut changed = false;
        let mut t: usize = 0;
        while t < self.windows.len()
            invariant
                self.windows@.len() == before.windows.len(),
                self.focused_window_idx == before.focused,
                self.width == before.width,
                t <= before.windows.len(),
                forall|k: int| 0 <= k < t ==> #[trigger] self.windows@[k] == retitled(before.windows[k], id, *title),
                forall|k: int| t <= k < before.windows.len() ==> #[trigger] self.windows@[k] == before.windows[k],
                changed == exists|k: int| 0 <= k < t && #[trigger] is_stale(before.windows[k], id, *title),
            decreases before.windows.len() - t,
        {
            let stale = self.windows[t].id == id && !(self.windows[t].title == *title);
            proof {
                assert(stale == is_stale(before.windows[t as int], id, *title));
            }
            if stale {
                self.windows[t].title = title.clone();
                changed = true;
            }
            t = t + 1;
        }
        proof {
            assert(self@.windows =~= before.retitle(id, *title).windows);
        }
        changed
    }

    /// Whether this column has several windows stacked as tabs.
    pub fn is_tabbed(&self) -> (r: bool)
        ensures
            r == (self@.windows.len() > 1),
    {
        self.windows.len() > 1
    }
}

// ---------------------------------------------------------------------------
// Workspaces
// ---------------------------------------------------------------------------

impl<W: Copy> Workspace<W> {
    /// An empty workspace.
    pub fn new() -> (r: Self)
        ensures
            r@ == (WorkspaceModel::<W> { columns: Seq::empty(), focused: 0 }),
    {
        let r = Workspace { columns: Vec::new(), focused_column_idx: 0 };
        proof {
            assert(r@.columns =~= Seq::<ColumnModel<W>>::empty());
        }
        r
    }

    /// The focused column.
    pub fn focused_column(&self) -> (r: Option<&Column<W>>)
        ensures
            r == (if self@.focused < self.columns@.len() {
                Some(&self.columns@[self@.focused])
            } else {
                None
            }),
    {
        if self.focused_column_idx < self.columns.len() {
            Some(&self.columns[self.focused_column_idx])
        } else {
            None
        }
    }

    /// The focused column, for changing it.
    pub fn focused_column_mut(&mut self) -> (r: Option<&mut Column<W>>)
        ensures
            match r {
                Some(col) => {
                    &&& old(self)@.focused < old(self).columns@.len()
                    &&& *col == old(self).columns@[old(self)@.focused]
                    &&& final(self).columns@ == old(self).columns@.update(old(self)@.focused, *final(col))
                    &&& final(self).focused_column_idx == old(self).focused_column_idx
                },
                None => {
                    &&& old(self)@.focused >= old(self).columns@.len()
                    &&& *final(self) == *old(self)
                },
            },
    {
        let idx = self.focused_column_idx;
        if idx < self.columns.len() {
            Some(&mut self.columns[idx])
        } else {
            None
        }
    }

    /// The first place of a window in this workspace, as `(column, tab)`.
    pub fn find_window(&self, id: WindowId) -> (r: Option<(usize, usize)>)
        ensures
            match r {
                Some((c, t)) => self@.first_place(id, c as int, t as int),
                None => !self@.holds(id),
            },
    {
        let mut c: usize = 0;
        while c < self.columns.len()
            invariant
                c <= self.columns@.len(),
                forall|c2: int| 0 <= c2 < c ==> !(#[trigger] self@.columns[c2].holds(id)),
            decreases self.columns@.len() - c,
        {
            let col = &self.columns[c];
            let mut t: usize = 0;
            while t < col.windows.len()
                invariant
                    c < self.columns@.len(),
                    col == self.columns@[c as int],
                    t <= col.windows@.len(),
                    forall|c2: int| 0 <= c2 < c ==> !(#[trigger] self@.columns[c2].holds(id)),
                    forall|t2: int| 0 <= t2 < t ==> #[trigger] col.windows@[t2].id != id,
                decreases col.windows@.len() - t,
            {
                if col.windows[t].id == id {
                    return Some((c, t));
                }
                t = t + 1;
            }
            proof {
                assert(!self@.columns[c as int].holds(id));
            }
            c = c + 1;
        }
        None
    }

    /// Places `col` right of the focused column, or as the only column of an
    /// empty workspace, and focuses it.
    fn insert_after_focus(&mut self, col: Column<W>)
        requires
            old(self)@.columns.len() > 0 ==> old(self)@.focused < old(self)@.columns.len(),
        ensures
            final(self)@ == old(self)@.insert_after_focus(col@),
    {
        if self.columns.len() == 0 {
            self.columns.push(col);
            self.focused_column_idx = 0;
            proof {
                assert(self@.columns =~= seq![col@]);
            }
        } else {
            let i = self.focused_column_idx + 1;
            self.columns.insert(i, col);
            self.focused_column_idx = i;
            proof {
                assert(self@.columns =~= old(self)@.columns.insert(i as int, col@));
            }
        }
    }

    /// Takes the window at tab `t` of column `c` out of the workspace.
    fn take_window(&mut self, c: usize, t: usize) -> (r: Window)
        requires
            c < old(self)@.columns.len(),
            t < old(self)@.columns[c as int].windows.len(),
        ensures
            r == old(self)@.columns[c as int].windows[t as int],
            final(self)@ == old(self)@.without_window(c as int, t as int),
    {
        let ghost before = self@;
        let r;
        let empty;
        {
            let col = &mut self.columns[c];
            r = col.windows.remove(t);
            empty = col.windows.len() == 0;
            if !empty && col.focused_window_idx >= col.windows.len() {
                col.focused_window_idx = col.windows.len() - 1;
            }
        }
        if empty {
            self.columns.remove(c);
            if self.focused_column_idx >= self.columns.len() && self.columns.len() > 0 {
                self.focused_column_idx = self.columns.len() - 1;
            }
            proof {
                assert(self@.columns =~= before.columns.remove(c as int));
            }
        } else {
            proof {
                assert(self@.columns =~= before.columns.update(c as int, before.columns[c as int].without_tab(t as int)));
            }
        }
        r
    }

    /// Moves the focus one column left. Returns whether it moved.
    fn focus_left(&mut self) -> (r: bool)
        requires
            old(self)@.wf(),
        ensures
            final(self)@ == old(self)@.focus_left(),
            final(self)@.wf(),
            r == (old(self)@.focused > 0),
    {
        if self.focused_column_idx > 0 {
            self.focused_column_idx = self.focused_column_idx - 1;
            true
        } else {
            false
        }
    }

    /// Moves the focus one column right. Returns whether it moved.
    fn focus_right(&mut self) -> (r: bool)
        requires
            old(self)@.wf(),
        ensures
            final(self)@ == old(self)@.focus_right(),
            final(self)@.wf(),
            r == (old(self)@.focused + 1 < old(self)@.columns.len()),
    {
        if self.focused_column_idx < self.columns.len() && self.focused_column_idx + 1 < self.columns.len() {
            self.focused_column_idx = self.focused_column_idx + 1;
            true
        } else {
            false
        }
    }

    fn focus_tab_up(&mut self)
        requires
            old(self)@.wf(),
        ensures
            final(self)@ == old(self)@.focus_tab_up(),
            final(self)@.wf(),
    {
        let ghost before = self@;
        let f = self.focused_column_idx;
        if f < self.columns.len() && self.columns[f].windows.len() > 0 {
            let col = &mut self.columns[f];
            if col.focused_window_idx > 0 {
                col.focused_window_idx = col.focused_window_idx - 1;
            } else {
                col.focused_window_idx = col.windows.len() - 1;
            }
            proof {
                assert(self@.columns =~= before.focus_tab_up().columns);
                assert(before.columns[f as int].wf());
            }
        }
    }

    fn focus_tab_down(&mut self)
        requires
            old(self)@.wf(),
        ensures
            final(self)@ == old(self)@.focus_tab_down(),
            final(self)@.wf(),
    {
        let ghost before = self@;
        let f = self.focused_column_idx;
        if f < self.columns.len() && self.columns[f].windows.len() > 0 {
            let col = &mut self.columns[f];
            proof {
                assert(before.columns[f as int].wf());
            }
            col.focused_window_idx = (col.focused_window_idx + 1) % col.windows.len();
            proof {
                assert(self@.columns =~= before.focus_tab_down().columns);
            }
        }
    }

    /// Swaps the focused column with its left neighbour. Returns whether it
    /// moved.
    fn move_column_left(&mut self) -> (r: bool)
        requires
            old(self)@.wf(),
        ensures
            final(self)@ == old(self)@.move_column_left(),
            final(self)@.wf(),
            r == (old(self)@.focused > 0),
    {
        let ghost before = self@;
        let idx = self.focused_column_idx;
        if idx > 0 {
            let col = self.columns.remove(idx);
            self.columns.insert(idx - 1, col);
            self.focused_column_idx = idx - 1;
            proof {
                assert(self@.columns =~= before.move_column_left().columns);
                let a = self@;
                assert forall|k: int| 0 <= k < a.columns.len() implies #[trigger] a.columns[k].wf() by {
                    if k == idx - 1 {
                        assert(a.columns[k] == before.columns[idx as int]);
                    } else if k == idx {
                        assert(a.columns[k] == before.columns[idx - 1]);
                    } else {
                        assert(a.columns[k] == before.columns[k]);
                    }
                }
            }
            true
        } else {
            false
        }
    }

    /// Swaps the focused column with its right neighbour. Returns whether it
    /// moved.
    fn move_column_right(&mut self) -> (r: bool)
        requires
            old(self)@.wf(),
        ensures
            final(self)@ == old(self)@.move_column_right(),
            final(self)@.wf(),
            r == (old(self)@.focused + 1 < old(self)@.columns.len()),
    {
        let ghost before = self@;
        let idx = self.focused_column_idx;
        if idx < self.columns.len() && idx + 1 < self.columns.len() {
            let col = self.columns.remove(idx);
            self.columns.insert(idx + 1, col);
            self.focused_column_idx = idx + 1;
            proof {
                assert(self@.columns =~= before.move_column_right().columns);
                let a = self@;
                assert forall|k: int| 0 <= k < a.columns.len() implies #[trigger] a.columns[k].wf() by {
                    if k == idx + 1 {
                        assert(a.columns[k] == before.columns[idx as int]);
                    } else if k == idx {
                        assert(a.columns[k] == before.columns[idx + 1]);
                    } else {
                        assert(a.columns[k] == before.columns[k]);
                    }
                }
            }
            true
        } else {
            false
        }
    }

    fn toggle_tab_group(&mut self)
        requires
            old(self)@.wf(),
        ensures
            final(self)@ == old(self)@.toggle_tab_group(),
            final(self)@.wf(),
    {
        let ghost before = self@;
        if self.columns.len() == 0 {
            return;
        }
        let idx = self.focused_column_idx;
        proof {
            assert(before.columns[idx as int].wf());
        }
        if self.columns[idx].windows.len() > 1 {
            let window;
            let width;
            {
                let col = &mut self.columns[idx];
                let a = col.focused_window_idx;
                window = col.windows.remove(a);
                if col.focused_window_idx >= col.windows.len() {
                    col.focused_window_idx = col.windows.len() - 1;
                }
                width = col.width;
            }
            let ghost mid = self@;
            self.columns.insert(idx + 1, Column::new(window, width));
            self.focused_column_idx = idx + 1;
            proof {
                let c = before.columns[idx as int];
                assert(mid.columns =~= before.columns.update(idx as int, c.without_tab(c.focused)));
                assert(self@.columns =~= before.toggle_tab_group().columns);
                let a = self@;
                assert forall|k: int| 0 <= k < a.columns.len() implies #[trigger] a.columns[k].wf() by {
                    if k < idx {
                        assert(a.columns[k] == before.columns[k]);
                    } else if k > idx + 1 {
                        assert(a.columns[k] == before.columns[k - 1]);
                    }
                }
            }
        } else if idx + 1 < self.columns.len() {
            let mut right = self.columns.remove(idx + 1);
            let ghost mid = self@;
            let col = &mut self.columns[idx];
            let old_len = col.windows.len();
            col.windows.append(&mut right.windows);
            col.focused_window_idx = old_len;
            proof {
                assert(self@.columns =~= before.toggle_tab_group().columns);
                let a = self@;
                assert(before.columns[idx + 1].wf());
                assert forall|k: int| 0 <= k < a.columns.len() implies #[trigger] a.columns[k].wf() by {
                    if k < idx {
                        assert(a.columns[k] == before.columns[k]);
                    } else if k > idx {
                        assert(a.columns[k] == before.columns[k + 1]);
                    }
                }
            }
        }
    }

    /// Sets the width of the focused column to `width`. Returns whether there
    /// is one.
    fn set_focused_column_width(&mut self, width: W) -> (r: bool)
        ensures
            r == old(self)@.has_focused_column(),
            final(self)@ == (if r {
                old(self)@.with_focused_column(
                    ColumnModel { width, ..old(self)@.columns[old(self)@.focused] },
                )
            } else {
                old(self)@
            }),
    {
        let ghost before = self@;
        let f = self.focused_column_idx;
        if f < self.columns.len() {
            self.columns[f].width = width;
            proof {
                assert(self@.columns =~= before.with_focused_column(
                    ColumnModel { width, ..before.columns[before.focused] },
                ).columns);
            }
            true
        } else {
            false
        }
    }

    /// Focuses the first place of `id` in this workspace. Returns whether
    /// the workspace holds it.
    fn focus_window(&mut self, id: WindowId) -> (r: bool)
        requires
            old(self)@.wf(),
        ensures
            r == old(self)@.holds(id),
            final(self)@ == old(self)@.focus_window(id),
            final(self)@.wf(),
    {
        let ghost before = self@;
        match self.find_window(id) {
            Some((c, t)) => {
                proof {
                    lemma_workspace_place_of(before, id, c as int, t as int);
                    lemma_focus_at_wf(before, c as int, t as int);
                }
                self.focused_column_idx = c;
                self.columns[c].focused_window_idx = t;
                proof {
                    assert(self@.columns =~= before.focus_at(c as int, t as int).columns);
                }
                true
            },
            None => false,
        }
    }

    fn place_window(&mut self, win: Window, width: W, col_idx: usize, tile_idx: usize)
        requires
            old(self)@.wf(),
        ensures
            final(self)@ == old(self)@.place_window(win, width, col_idx as int, tile_idx as int),
            final(self)@.wf(),
    {
        let ghost before = self@;
        let n = self.columns.len();
        if n == 0 {
            self.columns.push(Column::new(win, width));
            self.focused_column_idx = 0;
            proof {
                assert(self@.columns =~= seq![single_column(win, width)]);
            }
        } else if col_idx >= n {
            self.columns.push(Column::new(win, width));
            self.focused_column_idx = n;
            proof {
                let a = self@;
                assert(a.columns =~= before.columns.push(single_column(win, width)));
                assert forall|k: int| 0 <= k < a.columns.len() implies #[trigger] a.columns[k].wf() by {
                    if k < n {
                        assert(a.columns[k] == before.columns[k]);
                    }
                }
            }
        } else {
            proof {
                assert(before.columns[col_idx as int].wf());
            }
            let col = &mut self.columns[col_idx];
            let t = if tile_idx < col.windows.len() { tile_idx } else { col.windows.len() };
            col.windows.insert(t, win);
            col.focused_window_idx = t;
            self.focused_column_idx = col_idx;
            proof {
                let a = self@;
                assert(a.columns =~= before.place_window(win, width, col_idx as int, tile_idx as int).columns);
                assert forall|k: int| 0 <= k < a.columns.len() implies #[trigger] a.columns[k].wf() by {
                    if k != col_idx {
                        assert(a.columns[k] == before.columns[k]);
                    }
                }
            }
        }
    }

    fn restore_window(&mut self, win: Window, col_idx: usize, width: W)
        requires
            old(self)@.wf(),
        ensures
            final(self)@ == old(self)@.restore_window(win, col_idx as int, width),
            final(self)@.wf(),
    {
        let ghost before = self@;
        if col_idx < self.columns.len() {
            proof {
                assert(before.columns[col_idx as int].wf());
            }
            let col = &mut self.columns[col_idx];
            col.windows.push(win);
            col.focused_window_idx = col.windows.len() - 1;
        } else {
            self.columns.push(Column::new(win, width));
        }
        let last = self.columns.len() - 1;
        if self.focused_column_idx >= last {
            self.focused_column_idx = last;
        }
        proof {
            let a = self@;
            assert(a.columns =~= before.restore_window(win, col_idx as int, width).columns);
            assert forall|k: int| 0 <= k < a.columns.len() implies #[trigger] a.columns[k].wf() by {
                if k < before.columns.len() && k != col_idx {
                    assert(a.columns[k] == before.columns[k]);
                }
            }
        }
    }

    fn retitle(&mut self, id: WindowId, title: &String) -> (r: bool)
        ensures
            final(self)@ == old(self)@.retitle(id, *title),
            r == old(self)@.stale_title(id, *title),
    {
        let ghost before = self@;
        let mut changed = false;
        let mut c: usize = 0;
        while c < self.columns.len()
            invariant
                self@.columns.len() == before.columns.len(),
                self.focused_column_idx == before.focused,
                c <= before.columns.len(),
                forall|k: int| 0 <= k < c ==> #[trigger] self@.columns[k] == before.columns[k].retitle(id, *title),
                forall|k: int| c <= k < before.columns.len() ==> #[trigger] self@.columns[k] == before.columns[k],
                changed == exists|k: int| 0 <= k < c && #[trigger] before.columns[k].stale_title(id, *title),
            decreases before.columns.len() - c,
        {
            let ghost prev = self@;
            let ch = self.columns[c].retitle(id, title);
            proof {
                assert(prev.columns[c as int] == before.columns[c as int]);
                assert(self.columns@[c as int]@ == before.columns[c as int].retitle(id, *title));
                assert(self.columns@.len() == prev.columns.len());
                assert forall|k: int| 0 <= k < self.columns@.len() && k != c implies self.columns@[k]@ == prev.columns[k] by {}
                assert(self@.columns =~= prev.columns.update(c as int, before.columns[c as int].retitle(id, *title)));
            }
            changed = changed || ch;
            c = c + 1;
        }
        proof {
            assert(self@.columns =~= before.retitle(id, *title).columns);
        }
        changed
    }
}

// ---------------------------------------------------------------------------
// The layout engine
// ---------------------------------------------------------------------------

impl<W: Copy> LayoutEngine<W> {
    /// A layout of `num_workspaces` empty workspaces in grid mode, the first
    /// one active.
    pub fn new(num_workspaces: usize) -> (r: Self)
        ensures
            r@ == LayoutModel::<W>::initial(num_workspaces as nat),
            num_workspaces > 0 ==> r@.wf(),
    {
        let mut workspaces: Vec<Workspace<W>> = Vec::new();
        let mut i: usize = 0;
        while i < num_workspaces
            invariant
                i <= num_workspaces,
                workspaces@.len() == i,
                forall|k: int| 0 <= k < i ==> #[trigger] workspaces@[k]@ == (WorkspaceModel::<W> { columns: Seq::empty(), focused: 0 }),
            decreases num_workspaces - i,
        {
            workspaces.push(Workspace::new());
            i = i + 1;
        }
        let r = LayoutEngine {
            workspaces,
            active_workspace_idx: 0,
            tiling_mode: TilingMode::Grid,
            underlying_tiling_mode: TilingMode::Grid,
            overview_open: false,
            windows: Vec::new(),
        };
        proof {
            assert(r@.workspaces =~= LayoutModel::<W>::initial(num_workspaces as nat).workspaces);
            assert(r@.depth_order =~= Seq::<WindowId>::empty());
        }
        r
    }

    /// The active workspace.
    pub fn active_workspace(&self) -> (r: &Workspace<W>)
        requires
            self@.wf(),
        ensures
            r@ == self@.active_ws(),
    {
        &self.workspaces[self.active_workspace_idx]
    }

    /// The active workspace, for changing it.
    pub fn active_workspace_mut(&mut self) -> (r: &mut Workspace<W>)
        requires
            old(self)@.wf(),
        ensures
            *r == old(self).workspaces@[old(self)@.active],
            final(self).workspaces@ == old(self).workspaces@.update(old(self)@.active, *final(r)),
            final(self).active_workspace_idx == old(self).active_workspace_idx,
            final(self).tiling_mode == old(self).tiling_mode,
            final(self).underlying_tiling_mode == old(self).underlying_tiling_mode,
            final(self).overview_open == old(self).overview_open,
            final(self).windows == old(self).windows,
    {
        let a = self.active_workspace_idx;
        &mut self.workspaces[a]
    }

    /// Adds a window in a new column of width `width` right of the focused
    /// column of the active workspace (or as its first column), focuses it,
    /// and appends it to the depth ordering.
    pub fn spawn_window(&mut self, window_id: WindowId, title: String, width: W)
        requires
            old(self)@.wf(),
        ensures
            final(self)@ == old(self)@.spawn(Window { id: window_id, title }, width),
            final(self)@.wf(),
    {
        let ghost before = self@;
        let window = Window { id: window_id, title };
        let column = Column::new(window, width);
        self.windows.push(window_id);
        let a = self.active_workspace_idx;
        assert(self.workspaces@[a as int]@ == before.workspaces[a as int]);
        assert(before.workspaces[a as int].wf());
        self.workspaces[a].insert_after_focus(column);
        proof {
            let ws2 = before.active_ws().insert_after_focus(single_column(window, width));
            assert(self@.workspaces =~= before.workspaces.update(a as int, ws2));
            lemma_insert_after_focus_wf(before.active_ws(), single_column(window, width));
            lemma_update_wf(before, a as int, ws2);
        }
    }

    /// Closes the window `id`: takes it out of its first place in the layout
    /// (dropping the column if it was the column's last window) and out of
    /// the depth ordering. Returns whether the layout held it, which is when
    /// the camera must be recentred.
    pub fn close_window(&mut self, id: WindowId) -> (r: bool)
        requires
            old(self)@.wf(),
        ensures
            r == old(self)@.holds(id),
            final(self)@ == old(self)@.close(id),
            final(self)@.wf(),
    {
        let ghost before = self@;
        let mut w: usize = 0;
        while w < self.workspaces.len()
            invariant
                self@ == before,
                before == old(self)@,
                before.wf(),
                w <= before.workspaces.len(),
                forall|w2: int| 0 <= w2 < w ==> !(#[trigger] before.workspaces[w2].holds(id)),
            decreases before.workspaces.len() - w,
        {
            match self.workspaces[w].find_window(id) {
                Some((c, t)) => {
                    proof {
                        lemma_place_of(before, id, w as int, c as int, t as int);
                        assert(before.workspaces[w as int].wf());
                        lemma_without_window_wf(before.workspaces[w as int], c as int, t as int);
                    }
                    self.workspaces[w].take_window(c, t);
                    self.remove_from_depth_order(id);
                    proof {
                        assert(self@.workspaces =~= before.without_window(w as int, c as int, t as int).workspaces);
                    }
                    return true;
                }
                None => {}
            }
            w = w + 1;
        }
        false
    }

    /// Removes every entry of `id` from the depth ordering.
    fn remove_from_depth_order(&mut self, id: WindowId)
        ensures
            final(self)@ == (LayoutModel { depth_order: old(self)@.depth_order.filter(other_than(id)), ..old(self)@ }),
    {
        let mut kept: Vec<WindowId> = Vec::new();
        let mut i: usize = 0;
        while i < self.windows.len()
            invariant
                i <= self.windows@.len(),
                kept@ == self.windows@.subrange(0, i as int).filter(other_than(id)),
            decreases self.windows@.len() - i,
        {
            let x = self.windows[i];
            proof {
                reveal(Seq::filter);
                assert(self.windows@.subrange(0, i + 1).drop_last() =~= self.windows@.subrange(0, i as int));
            }
            if x != id {
                kept.push(x);
            }
            i = i + 1;
        }
        proof {
            assert(self.windows@.subrange(0, i as int) =~= self.windows@);
        }
        self.windows = kept;
    }

    /// Moves the focus one column left in the active workspace. Returns whether
    /// it moved, which is when the camera must be recentred.
    pub fn focus_left(&mut self) -> (r: bool)
        requires
            old(self)@.wf(),
        ensures
            final(self)@ == old(self)@.focus_left(),
            final(self)@.wf(),
            r == (old(self)@.active_ws().focused > 0),
    {
        let ghost before = self@;
        let a = self.active_workspace_idx;
        proof {
            assert(before.workspaces[a as int].wf());
        }
        let r = self.workspaces[a].focus_left();
        proof {
            assert(self@.workspaces =~= before.workspaces.update(a as int, before.active_ws().focus_left()));
            lemma_update_wf(before, a as int, before.active_ws().focus_left());
        }
        r
    }

    /// Moves the focus one column right in the active workspace. Returns
    /// whether it moved, which is when the camera must be recentred.
    pub fn focus_right(&mut self) -> (r: bool)
        requires
            old(self)@.wf(),
        ensures
            final(self)@ == old(self)@.focus_right(),
            final(self)@.wf(),
            r == (old(self)@.active_ws().focused + 1 < old(self)@.active_ws().columns.len()),
    {
        let ghost before = self@;
        let a = self.active_workspace_idx;
        proof {
            assert(before.workspaces[a as int].wf());
        }
        let r = self.workspaces[a].focus_right();
        proof {
            assert(self@.workspaces =~= before.workspaces.update(a as int, before.active_ws().focus_right()));
            lemma_update_wf(before, a as int, before.active_ws().focus_right());
        }
        r
    }

    /// Focuses the tab above in the focused column of the active workspace,
    /// wrapping from the first tab to the last.
    pub fn focus_tab_up(&mut self)
        requires
            old(self)@.wf(),
        ensures
            final(self)@ == old(self)@.focus_tab_up(),
            final(self)@.wf(),
    {
        let ghost before = self@;
        let a = self.active_workspace_idx;
        proof {
            assert(before.workspaces[a as int].wf());
        }
        self.workspaces[a].focus_tab_up();
        proof {
            assert(self@.workspaces =~= before.workspaces.update(a as int, before.active_ws().focus_tab_up()));
            lemma_update_wf(before, a as int, before.active_ws().focus_tab_up());
        }
    }

    /// Focuses the tab below in the focused column of the active workspace,
    /// wrapping from the last tab to the first.
    pub fn focus_tab_down(&mut self)
        requires
            old(self)@.wf(),
        ensures
            final(self)@ == old(self)@.focus_tab_down(),
            final(self)@.wf(),
    {
        let ghost before = self@;
        let a = self.active_workspace_idx;
        proof {
            assert(before.workspaces[a as int].wf());
        }
        self.workspaces[a].focus_tab_down();
        proof {
            assert(self@.workspaces =~= before.workspaces.update(a as int, before.active_ws().focus_tab_down()));
            lemma_update_wf(before, a as int, before.active_ws().focus_tab_down());
        }
    }

    /// Swaps the focused column of the active workspace with its left
    /// neighbour. Returns whether it moved, which is when the camera must be
    /// recentred.
    pub fn move_column_left(&mut self) -> (r: bool)
        requires
            old(self)@.wf(),
        ensures
            final(self)@ == old(self)@.move_column_left(),
            final(self)@.wf(),
            r == (old(self)@.active_ws().focused > 0),
    {
        let ghost before = self@;
        let a = self.active_workspace_idx;
        proof {
            assert(before.workspaces[a as int].wf());
        }
        let r = self.workspaces[a].move_column_left();
        proof {
            assert(self@.workspaces =~= before.workspaces.update(a as int, before.active_ws().move_column_left()));
            lemma_update_wf(before, a as int, before.active_ws().move_column_left());
        }
        r
    }

    /// Swaps the focused column of the active workspace with its right
    /// neighbour. Returns whether it moved, which is when the camera must be
    /// recentred.
    pub fn move_column_right(&mut self) -> (r: bool)
        requires
            old(self)@.wf(),
        ensures
            final(self)@ == old(self)@.move_column_right(),
            final(self)@.wf(),
            r == (old(self)@.active_ws().focused + 1 < old(self)@.active_ws().columns.len()),
    {
        let ghost before = self@;
        let a = self.active_workspace_idx;
        proof {
            assert(before.workspaces[a as int].wf());
        }
        let r = self.workspaces[a].move_column_right();
        proof {
            assert(self@.workspaces =~= before.workspaces.update(a as int, before.active_ws().move_column_right()));
            lemma_update_wf(before, a as int, before.active_ws().move_column_right());
        }
        r
    }

    /// Toggles tab grouping on the focused column of the active workspace: a
    /// tabbed column expels its focused tab into a new column right of it; a
    /// single-window column takes in the column right of it as tabs. Returns
    /// whether the workspace has columns, which is when the camera must be
    /// recentred.
    pub fn toggle_tab_group(&mut self) -> (r: bool)
        requires
            old(self)@.wf(),
        ensures
            final(self)@ == old(self)@.toggle_tab_group(),
            final(self)@.wf(),
            r == (old(self)@.active_ws().columns.len() > 0),
    {
        let ghost before = self@;
        let a = self.active_workspace_idx;
        proof {
            assert(before.workspaces[a as int].wf());
        }
        let nonempty = self.workspaces[a].columns.len() > 0;
        self.workspaces[a].toggle_tab_group();
        proof {
            assert(self@.workspaces =~= before.workspaces.update(a as int, before.active_ws().toggle_tab_group()));
            lemma_update_wf(before, a as int, before.active_ws().toggle_tab_group());
        }
        nonempty
    }

    /// Activates the workspace above, if there is one. Returns whether it
    /// changed, which is when the camera must be recentred.
    pub fn focus_workspace_up(&mut self) -> (r: bool)
        requires
            old(self)@.wf(),
        ensures
            final(self)@ == old(self)@.focus_workspace_up(),
            final(self)@.wf(),
            r == (old(self)@.active > 0),
    {
        if self.active_workspace_idx > 0 {
            self.active_workspace_idx = self.active_workspace_idx - 1;
            true
        } else {
            false
        }
    }

    /// Activates the workspace below, if there is one. Returns whether it
    /// changed, which is when the camera must be recentred.
    pub fn focus_workspace_down(&mut self) -> (r: bool)
        requires
            old(self)@.wf(),
        ensures
            final(self)@ == old(self)@.focus_workspace_down(),
            final(self)@.wf(),
            r == (old(self)@.active + 1 < old(self)@.workspaces.len()),
    {
        assert(self.active_workspace_idx < self.workspaces.len());
        if self.active_workspace_idx + 1 < self.workspaces.len() {
            self.active_workspace_idx = self.active_workspace_idx + 1;
            true
        } else {
            false
        }
    }

    /// Moves the focused window of the active workspace into a new column of
    /// workspace `target`. Returns whether the active workspace had columns,
    /// which is when the camera must be recentred.
    pub fn move_focused_window_to_workspace(&mut self, target: usize) -> (r: bool)
        requires
            old(self)@.wf(),
            target < old(self)@.workspaces.len(),
            target != old(self)@.active,
        ensures
            final(self)@ == old(self)@.move_focused_window_to(target as int),
            final(self)@.wf(),
            r == (old(self)@.active_ws().columns.len() > 0),
    {
        let ghost before = self@;
        let cur = self.active_workspace_idx;
        if self.workspaces[cur].columns.len() == 0 {
            return false;
        }
        let c = self.workspaces[cur].focused_column_idx;
        proof {
            assert(before.workspaces[cur as int].wf());
            assert(before.workspaces[cur as int].columns[c as int].wf());
        }
        let t = self.workspaces[cur].columns[c].focused_window_idx;
        let width = self.workspaces[cur].columns[c].width;
        let window = self.workspaces[cur].take_window(c, t);
        let ghost mid = self@;
        proof {
            let ws = before.active_ws();
            assert(mid.workspaces =~= before.workspaces.update(cur as int, ws.without_window(c as int, t as int)));
            lemma_without_window_wf(ws, c as int, t as int);
            lemma_update_wf(before, cur as int, ws.without_window(c as int, t as int));
            assert(mid.workspaces[target as int].wf());
        }
        self.workspaces[target].insert_after_focus(Column::new(window, width));
        proof {
            let col = single_column(window, width);
            let tws = mid.workspaces[target as int].insert_after_focus(col);
            assert(self@.workspaces =~= mid.workspaces.update(target as int, tws));
            lemma_insert_after_focus_wf(mid.workspaces[target as int], col);
            lemma_update_wf(mid, target as int, tws);
        }
        true
    }

    /// Moves the focused window into a new column of the workspace above,
    /// if there is one. Returns whether the camera must be recentred.
    pub fn move_window_workspace_up(&mut self) -> (r: bool)
        requires
            old(self)@.wf(),
        ensures
            final(self)@ == old(self)@.move_window_workspace_up(),
            final(self)@.wf(),
            r == (old(self)@.active > 0 && old(self)@.active_ws().columns.len() > 0),
    {
        if self.active_workspace_idx > 0 {
            let target = self.active_workspace_idx - 1;
            self.move_focused_window_to_workspace(target)
        } else {
            false
        }
    }

    /// Moves the focused window into a new column of the workspace below,
    /// if there is one. Returns whether the camera must be recentred.
    pub fn move_window_workspace_down(&mut self) -> (r: bool)
        requires
            old(self)@.wf(),
        ensures
            final(self)@ == old(self)@.move_window_workspace_down(),
            final(self)@.wf(),
            r == (old(self)@.active + 1 < old(self)@.workspaces.len() && old(self)@.active_ws().columns.len() > 0),
    {
        assert(self.active_workspace_idx < self.workspaces.len());
        if self.active_workspace_idx + 1 < self.workspaces.len() {
            let target = self.active_workspace_idx + 1;
            self.move_focused_window_to_workspace(target)
        } else {
            false
        }
    }

    /// A scroll along the depth axis of direction `sign`, which a nested
    /// compositor took or not (`forwarded`). Outside depth mode it steps
    /// the tabs of the focused column, wrapping at the ends. Returns whether
    /// the depth carousel must scroll instead, which is in depth mode.
    pub fn scroll_depth_axis(&mut self, forwarded: bool, sign: ScrollSign) -> (carousel: bool)
        requires
            old(self)@.wf(),
        ensures
            final(self)@ == old(self)@.depth_axis_scroll(forwarded, sign),
            final(self)@.wf(),
            carousel == (!forwarded && old(self)@.mode == TilingMode::Depth),
    {
        if forwarded {
            return false;
        }
        if self.tiling_mode == TilingMode::Depth {
            return true;
        }
        match sign {
            ScrollSign::Positive => self.focus_tab_down(),
            ScrollSign::Negative => self.focus_tab_up(),
            ScrollSign::Zero => {},
        }
        false
    }

    /// A scroll of the wheel of direction `sign`, with `Logo` or `Alt` held
    /// or not. Returns what it is taken for; where that is the tabs, they
    /// have stepped as `scroll_tabs` does.
    pub fn scroll_wheel(&mut self, sign: ScrollSign, logo_or_alt: bool) -> (r: WheelScroll)
        requires
            old(self)@.wf(),
        ensures
            r == old(self)@.wheel_decision(sign, logo_or_alt),
            final(self)@ == (if r == WheelScroll::Tabs { old(self)@.scroll_tabs(sign) } else { old(self)@ }),
            final(self)@.wf(),
    {
        if sign == ScrollSign::Zero {
            return WheelScroll::Client;
        }
        let tabbed = match self.active_workspace().focused_column() {
            Some(col) => col.is_tabbed(),
            None => false,
        };
        if tabbed && !logo_or_alt {
            match sign {
                ScrollSign::Positive => self.focus_tab_down(),
                _ => self.focus_tab_up(),
            }
            WheelScroll::Tabs
        } else if logo_or_alt {
            WheelScroll::Carousel
        } else {
            WheelScroll::Client
        }
    }

    /// Sets the width of the focused column of the active workspace, never
    /// below `minimum`: a request below it stores `minimum` in its place.
    /// Widths are opaque to the layout, so whether `width` lies below
    /// `minimum` is told by `below_minimum`, which the caller computes with
    /// the width type's own order. Returns whether there is a focused
    /// column, which is when the camera must be recentred.
    pub fn set_focused_column_width(&mut self, width: W, minimum: W, below_minimum: bool) -> (r: bool)
        requires
            old(self)@.wf(),
        ensures
            r == old(self)@.active_ws().has_focused_column(),
            final(self)@ == (if r {
                old(self)@.with_active(old(self)@.active_ws().with_focused_column(
                    ColumnModel {
                        width: clamped_width(width, minimum, below_minimum),
                        ..old(self)@.active_ws().columns[old(self)@.active_ws().focused]
                    },
                ))
            } else {
                old(self)@
            }),
            final(self)@.wf(),
    {
        let ghost before = self@;
        let a = self.active_workspace_idx;
        proof {
            assert(before.workspaces[a as int].wf());
        }
        let stored = if below_minimum { minimum } else { width };
        let r = self.workspaces[a].set_focused_column_width(stored);
        proof {
            let width = stored;
            let ws = before.active_ws();
            if r {
                let ws2 = ws.with_focused_column(ColumnModel { width, ..ws.columns[ws.focused] });
                assert(self@.workspaces =~= before.workspaces.update(a as int, ws2));
                assert(ws.columns[ws.focused].wf());
                assert forall|k: int| 0 <= k < ws2.columns.len() implies #[trigger] ws2.columns[k].wf() by {
                    if k != ws.focused {
                        assert(ws2.columns[k] == ws.columns[k]);
                    }
                }
                lemma_update_wf(before, a as int, ws2);
            } else {
                assert(self@.workspaces =~= before.workspaces);
            }
        }
        r
    }

    /// The first place of a window in the layout, as
    /// `(workspace, column, tab)`.
    pub fn locate_window(&self, id: WindowId) -> (r: Option<(usize, usize, usize)>)
        ensures
            match r {
                Some((w, c, t)) => self@.first_place(id, w as int, c as int, t as int),
                None => !self@.holds(id),
            },
    {
        let mut w: usize = 0;
        while w < self.workspaces.len()
            invariant
                w <= self@.workspaces.len(),
                forall|w2: int| 0 <= w2 < w ==> !(#[trigger] self@.workspaces[w2].holds(id)),
            decreases self@.workspaces.len() - w,
        {
            match self.workspaces[w].find_window(id) {
                Some((c, t)) => {
                    return Some((w, c, t));
                },
                None => {},
            }
            w = w + 1;
        }
        None
    }

    /// The focused window of the active workspace, if any.
    pub fn focused_window_id(&self) -> (r: Option<WindowId>)
        requires
            self@.wf(),
        ensures
            r == self@.focused_window_id(),
    {
        let ws = self.active_workspace();
        match ws.focused_column() {
            Some(col) => match col.focused_window() {
                Some(win) => Some(win.id),
                None => None,
            },
            None => None,
        }
    }

    /// Focuses the first place of `id` and activates its workspace. Returns
    /// whether the layout holds it.
    pub fn focus_window_by_id(&mut self, id: WindowId) -> (r: bool)
        requires
            old(self)@.wf(),
        ensures
            r == old(self)@.holds(id),
            final(self)@ == old(self)@.focus_window(id),
            final(self)@.wf(),
    {
        let ghost before = self@;
        match self.locate_window(id) {
            Some((w, c, t)) => {
                proof {
                    lemma_place_of(before, id, w as int, c as int, t as int);
                    assert(before.workspaces[w as int].wf());
                    lemma_focus_at_wf(before.workspaces[w as int], c as int, t as int);
                }
                self.active_workspace_idx = w;
                let ws = &mut self.workspaces[w];
                ws.focused_column_idx = c;
                ws.columns[c].focused_window_idx = t;
                proof {
                    let ws2 = before.workspaces[w as int].focus_at(c as int, t as int);
                    assert(self@.workspaces[w as int].columns =~= ws2.columns);
                    assert(self@.workspaces =~= before.workspaces.update(w as int, ws2));
                    lemma_update_wf(before, w as int, ws2);
                }
                true
            },
            None => false,
        }
    }

    /// Focuses, in the active workspace, the window at position `idx` of the
    /// depth ordering. Returns that window, if the position exists.
    pub fn focus_depth_index(&mut self, idx: usize) -> (r: Option<WindowId>)
        requires
            old(self)@.wf(),
        ensures
            r == (if idx < old(self)@.depth_order.len() {
                Some(old(self)@.depth_order[idx as int])
            } else {
                None
            }),
            final(self)@ == old(self)@.focus_depth(idx as int),
            final(self)@.wf(),
    {
        let ghost before = self@;
        if idx < self.windows.len() {
            let id = self.windows[idx];
            let a = self.active_workspace_idx;
            proof {
                assert(before.workspaces[a as int].wf());
            }
            self.workspaces[a].focus_window(id);
            proof {
                let ws2 = before.active_ws().focus_window(id);
                assert(self@.workspaces =~= before.workspaces.update(a as int, ws2));
                lemma_update_wf(before, a as int, ws2);
            }
            Some(id)
        } else {
            None
        }
    }

    /// Activates the first workspace and focuses its first column and that
    /// column's first tab.
    pub fn restore_nest_zero(&mut self)
        requires
            old(self)@.wf(),
        ensures
            final(self)@ == old(self)@.reset_to_first(),
            final(self)@.wf(),
    {
        let ghost before = self@;
        self.active_workspace_idx = 0;
        let ws = &mut self.workspaces[0];
        ws.focused_column_idx = 0;
        if ws.columns.len() > 0 {
            ws.columns[0].focused_window_idx = 0;
        }
        proof {
            let ws0 = before.workspaces[0];
            assert(ws0.wf());
            let ws2 = before.reset_to_first().workspaces[0];
            assert(self@.workspaces[0].columns =~= ws2.columns);
            assert(self@.workspaces =~= before.workspaces.update(0, ws2));
            if ws0.columns.len() > 0 {
                assert(ws0.columns[0].wf());
                lemma_focus_at_wf(ws0, 0, 0);
                assert(ws2 == ws0.focus_at(0, 0));
            }
            lemma_update_wf(before, 0, ws2);
        }
    }

    /// Activates workspace `idx`.
    pub fn select_workspace(&mut self, idx: usize)
        requires
            old(self)@.wf(),
            idx < old(self)@.workspaces.len(),
        ensures
            final(self)@ == (LayoutModel { active: idx as int, ..old(self)@ }),
            final(self)@.wf(),
    {
        self.active_workspace_idx = idx;
    }

    /// Moves the window `id` to an explicit position: tab `tile_idx` of
    /// column `col_idx` of workspace `ws_idx`, each clamped to what exists.
    /// Returns whether the layout holds the window.
    pub fn relocate_window(&mut self, id: WindowId, ws_idx: usize, col_idx: usize, tile_idx: usize) -> (r: bool)
        requires
            old(self)@.wf(),
        ensures
            r == old(self)@.holds(id),
            final(self)@ == old(self)@.relocate(id, ws_idx as int, col_idx as int, tile_idx as int),
            final(self)@.wf(),
    {
        let ghost before = self@;
        match self.locate_window(id) {
            Some((w, c, t)) => {
                proof {
                    lemma_place_of(before, id, w as int, c as int, t as int);
                    assert(before.workspaces[w as int].wf());
                    lemma_without_window_wf(before.workspaces[w as int], c as int, t as int);
                    lemma_update_wf(before, w as int, before.workspaces[w as int].without_window(c as int, t as int));
                }
                let width = self.workspaces[w].columns[c].width;
                let window = self.workspaces[w].take_window(c, t);
                let ghost mid = self@;
                proof {
                    assert(mid.workspaces =~= before.without_window(w as int, c as int, t as int).workspaces);
                }
                let n = self.workspaces.len();
                let target = if ws_idx < n { ws_idx } else { n - 1 };
                proof {
                    assert(mid.workspaces[target as int].wf());
                }
                self.workspaces[target].place_window(window, width, col_idx, tile_idx);
                proof {
                    let tws = mid.workspaces[target as int].place_window(window, width, col_idx as int, tile_idx as int);
                    assert(self@.workspaces =~= mid.workspaces.update(target as int, tws));
                    lemma_update_wf(mid, target as int, tws);
                }
                true
            },
            None => false,
        }
    }

    /// Re-maps a window into the saved slot `(ws_idx, col_idx)`, appending
    /// it to the depth ordering.
    pub fn restore_window(&mut self, window_id: WindowId, title: String, ws_idx: usize, col_idx: usize, width: W)
        requires
            old(self)@.wf(),
            ws_idx < old(self)@.workspaces.len(),
        ensures
            final(self)@ == old(self)@.restore(Window { id: window_id, title }, ws_idx as int, col_idx as int, width),
            final(self)@.wf(),
    {
        let ghost before = self@;
        self.windows.push(window_id);
        proof {
            assert(before.workspaces[ws_idx as int].wf());
        }
        let window = Window { id: window_id, title };
        self.workspaces[ws_idx].restore_window(window, col_idx, width);
        proof {
            let ws2 = before.workspaces[ws_idx as int].restore_window(window, col_idx as int, width);
            assert(self@.workspaces =~= before.workspaces.update(ws_idx as int, ws2));
            lemma_update_wf(before, ws_idx as int, ws2);
        }
    }

    /// The first position of `id` in the depth ordering.
    pub fn depth_position(&self, id: WindowId) -> (r: Option<usize>)
        ensures
            match r {
                Some(i) => i < self@.depth_order.len() && self@.depth_order[i as int] == id
                    && forall|j: int| 0 <= j < i ==> self@.depth_order[j] != id,
                None => !self@.depth_order.contains(id),
            },
    {
        let mut i: usize = 0;
        while i < self.windows.len()
            invariant
                i <= self.windows@.len(),
                forall|j: int| 0 <= j < i ==> self.windows@[j] != id,
            decreases self.windows@.len() - i,
        {
            if self.windows[i] == id {
                return Some(i);
            }
            i = i + 1;
        }
        None
    }

    /// Renames every window `id` to `title`. Returns whether some such window
    /// had another title.
    pub fn rename_window(&mut self, id: WindowId, title: &String) -> (r: bool)
        requires
            old(self)@.wf(),
        ensures
            final(self)@ == old(self)@.retitle(id, *title),
            r == old(self)@.stale_title(id, *title),
            final(self)@.wf(),
    {
        let ghost before = self@;
        let mut changed = false;
        let mut w: usize = 0;
        while w < self.workspaces.len()
            invariant
                self@.workspaces.len() == before.workspaces.len(),
                self.active_workspace_idx == before.active,
                self.tiling_mode == before.mode,
                self.underlying_tiling_mode == before.underlying_mode,
                self.overview_open == before.overview_open,
                self.windows@ == before.depth_order,
                w <= before.workspaces.len(),
                forall|k: int| 0 <= k < w ==> #[trigger] self@.workspaces[k] == before.workspaces[k].retitle(id, *title),
                forall|k: int| w <= k < before.workspaces.len() ==> #[trigger] self@.workspaces[k] == before.workspaces[k],
                changed == exists|k: int| 0 <= k < w && #[trigger] before.workspaces[k].stale_title(id, *title),
            decreases before.workspaces.len() - w,
        {
            let ghost prev = self@;
            let ch = self.workspaces[w].retitle(id, title);
            proof {
                assert(prev.workspaces[w as int] == before.workspaces[w as int]);
                assert(self.workspaces@[w as int]@ == before.workspaces[w as int].retitle(id, *title));
                assert forall|k: int| 0 <= k < self.workspaces@.len() && k != w implies self.workspaces@[k]@ == prev.workspaces[k] by {}
                assert(self@.workspaces =~= prev.workspaces.update(w as int, before.workspaces[w as int].retitle(id, *title)));
            }
            changed = changed || ch;
            w = w + 1;
        }
        proof {
            assert(self@.workspaces =~= before.retitle(id, *title).workspaces);
            let a = self@;
            assert forall|k: int| 0 <= k < a.workspaces.len() implies #[trigger] a.workspaces[k].wf() by {
                let ws = before.workspaces[k];
                assert(ws.wf());
                let ws2 = a.workspaces[k];
                assert forall|c: int| 0 <= c < ws2.columns.len() implies #[trigger] ws2.columns[c].wf() by {
                    assert(ws.columns[c].wf());
                }
            }
        }
        changed
    }
}

/// The next (or, going backwards, the previous) position of a depth carousel
/// of `len` windows, wrapping around at both ends.
pub fn cycle_depth_index(current: usize, len: usize, forward: bool) -> (r: usize)
    requires
        len > 0,
    ensures
        r == (if forward { (current + 1) % (len as int) } else { (current + len - 1) % (len as int) }),
{
    let c = current % len;
    proof {
        lemma_add_mod_noop_right(1, current as int, len as int);
        lemma_add_mod_noop_right(len - 1, current as int, len as int);
        if c + 1 < len {
            lemma_small_mod((c + 1) as nat, len as nat);
        } else {
            lemma_mod_self_0(len as int);
        }
        if c == 0 {
            lemma_small_mod((len - 1) as nat, len as nat);
        } else {
            lemma_mod_add_multiples_vanish(c - 1, len as int);
            lemma_small_mod((c - 1) as nat, len as nat);
        }
    }
    if forward {
        if c + 1 == len { 0 } else { c + 1 }
    } else {
        if c == 0 { len - 1 } else { c - 1 }
    }
}

} // verus!
