//! Laws of the layout: what its operations undo, keep and establish.

use vstd::multiset::Multiset;
use vstd::prelude::*;
use crate::action::{spec_effect, spec_perform, ActionEffect, LayoutAction};
use crate::layout::{
    lemma_place_of, lemma_update_wf, lemma_without_window_wf,
    is_stale, other_than, retitled, single_column, ColumnModel, LayoutModel, ScrollSign, TilingMode, Window, WindowId,
    WorkspaceModel,
};

verus! {

// ---------------------------------------------------------------------------
// The windows a layout holds
// ---------------------------------------------------------------------------

/// The sum of `f` over the items of `s`.
pub open spec fn msum<A, B>(s: Seq<A>, f: spec_fn(A) -> Multiset<B>) -> Multiset<B>
    decreases s.len(),
{
    if s.len() == 0 {
        Multiset::empty()
    } else {
        msum(s.drop_last(), f).add(f(s.last()))
    }
}

/// The windows of a column.
pub open spec fn column_windows<W>() -> spec_fn(ColumnModel<W>) -> Multiset<Window> {
    |c: ColumnModel<W>| c.windows.to_multiset()
}

/// The windows of a workspace, tabs of every column counted.
pub open spec fn workspace_windows<W>(ws: WorkspaceModel<W>) -> Multiset<Window> {
    msum(ws.columns, column_windows())
}

/// The windows of a workspace, as a function.
pub open spec fn workspace_windows_fn<W>() -> spec_fn(WorkspaceModel<W>) -> Multiset<Window> {
    |ws: WorkspaceModel<W>| workspace_windows(ws)
}

/// Every window of the layout, counted once per tab that holds it.
pub open spec fn layout_windows<W>(m: LayoutModel<W>) -> Multiset<Window> {
    msum(m.workspaces, workspace_windows_fn())
}

pub proof fn lemma_msum_push<A, B>(s: Seq<A>, x: A, f: spec_fn(A) -> Multiset<B>)
    ensures
        msum(s.push(x), f) == msum(s, f).add(f(x)),
{
    assert(s.push(x).drop_last() =~= s);
}

pub proof fn lemma_msum_insert<A, B>(s: Seq<A>, i: int, x: A, f: spec_fn(A) -> Multiset<B>)
    requires
        0 <= i <= s.len(),
    ensures
        msum(s.insert(i, x), f) =~= msum(s, f).add(f(x)),
    decreases s.len(),
{
    broadcast use vstd::multiset::group_multiset_axioms;
    if i == s.len() {
        assert(s.insert(i, x) =~= s.push(x));
        lemma_msum_push(s, x, f);
    } else {
        let t = s.insert(i, x);
        assert(t.drop_last() =~= s.drop_last().insert(i, x));
        assert(t.last() == s.last());
        lemma_msum_insert(s.drop_last(), i, x, f);
    }
}

pub proof fn lemma_msum_remove<A, B>(s: Seq<A>, i: int, f: spec_fn(A) -> Multiset<B>)
    requires
        0 <= i < s.len(),
    ensures
        msum(s, f) =~= msum(s.remove(i), f).add(f(s[i])),
{
    assert(s.remove(i).insert(i, s[i]) =~= s);
    lemma_msum_insert(s.remove(i), i, s[i], f);
}

pub proof fn lemma_msum_update<A, B>(s: Seq<A>, i: int, x: A, f: spec_fn(A) -> Multiset<B>)
    requires
        0 <= i < s.len(),
    ensures
        msum(s.update(i, x), f).add(f(s[i])) =~= msum(s, f).add(f(x)),
{
    broadcast use vstd::multiset::group_multiset_axioms;
    assert(s.update(i, x) =~= s.remove(i).insert(i, x));
    lemma_msum_insert(s.remove(i), i, x, f);
    lemma_msum_remove(s, i, f);
}

proof fn lemma_msum_update_same<A, B>(s: Seq<A>, i: int, x: A, f: spec_fn(A) -> Multiset<B>)
    requires
        0 <= i < s.len(),
        f(x) == f(s[i]),
    ensures
        msum(s.update(i, x), f) =~= msum(s, f),
{
    broadcast use vstd::multiset::group_multiset_axioms;
    lemma_msum_update(s, i, x, f);
    assert(msum(s.update(i, x), f).add(f(x)) =~= msum(s, f).add(f(x)));
    assert forall|v: B| msum(s.update(i, x), f).count(v) == msum(s, f).count(v) by {
        assert(msum(s.update(i, x), f).add(f(x)).count(v) == msum(s, f).add(f(x)).count(v));
    }
}

/// Taking a window out of a workspace takes exactly that window out of its
/// windows.
proof fn lemma_without_window_windows<W>(ws: WorkspaceModel<W>, c: int, t: int)
    requires
        0 <= c < ws.columns.len(),
        0 <= t < ws.columns[c].windows.len(),
    ensures
        workspace_windows(ws) =~= workspace_windows(ws.without_window(c, t)).insert(ws.columns[c].windows[t]),
{
    broadcast use vstd::multiset::group_multiset_axioms;
    broadcast use vstd::seq_lib::to_multiset_remove;
    let f = column_windows::<W>();
    let col = ws.columns[c];
    let win = col.windows[t];
    let col2 = col.without_tab(t);
    assert(col2.windows.to_multiset() == col.windows.to_multiset().remove(win));
    assert(col.windows.to_multiset().count(win) > 0) by {
        vstd::seq_lib::to_multiset_contains(col.windows, win);
        assert(col.windows[t] == win);
    }
    if col2.windows.len() == 0 {
        lemma_msum_remove(ws.columns, c, f);
        let e = Seq::<Window>::empty();
        assert(col.windows =~= e.push(win));
        vstd::seq_lib::to_multiset_build(e, win);
        vstd::seq_lib::to_multiset_len(e);
        assert(e.to_multiset() =~= Multiset::empty());
        assert(ws.without_window(c, t).columns == ws.columns.remove(c));
        assert(f(col) =~= Multiset::empty().insert(win));
    } else {
        lemma_msum_update(ws.columns, c, col2, f);
        assert(ws.without_window(c, t).columns == ws.columns.update(c, col2));
        let a = msum(ws.columns.update(c, col2), f);
        assert forall|v: Window| #[trigger] msum(ws.columns, f).count(v) == a.insert(win).count(v) by {
            assert(a.add(f(col)).count(v) == msum(ws.columns, f).add(f(col2)).count(v));
        }
    }
}

/// Placing a column into a workspace adds exactly its windows.
proof fn lemma_insert_after_focus_windows<W>(ws: WorkspaceModel<W>, col: ColumnModel<W>)
    requires
        ws.wf(),
    ensures
        workspace_windows(ws.insert_after_focus(col)) =~= workspace_windows(ws).add(col.windows.to_multiset()),
{
    broadcast use vstd::multiset::group_multiset_axioms;
    let f = column_windows::<W>();
    if ws.columns.len() == 0 {
        assert(seq![col] =~= ws.columns.push(col));
        lemma_msum_push(ws.columns, col, f);
    } else {
        lemma_msum_insert(ws.columns, ws.focused + 1, col, f);
    }
}

/// Replacing workspace `w` changes the layout's windows as it changes that
/// workspace's windows.
proof fn lemma_update_workspace_windows<W>(m: LayoutModel<W>, w: int, ws: WorkspaceModel<W>)
    requires
        0 <= w < m.workspaces.len(),
    ensures
        layout_windows(LayoutModel { workspaces: m.workspaces.update(w, ws), ..m }).add(workspace_windows(m.workspaces[w]))
            =~= layout_windows(m).add(workspace_windows(ws)),
{
    lemma_msum_update(m.workspaces, w, ws, workspace_windows_fn());
}

/// A change that keeps the windows of workspace `w` keeps the layout's.
proof fn lemma_update_workspace_same_windows<W>(m: LayoutModel<W>, w: int, ws: WorkspaceModel<W>)
    requires
        0 <= w < m.workspaces.len(),
        workspace_windows(ws) == workspace_windows(m.workspaces[w]),
    ensures
        layout_windows(LayoutModel { workspaces: m.workspaces.update(w, ws), ..m }) =~= layout_windows(m),
{
    lemma_msum_update_same(m.workspaces, w, ws, workspace_windows_fn());
}

/// A workspace change that keeps the active workspace's windows keeps the
/// layout's.
proof fn lemma_active_same_windows<W>(m: LayoutModel<W>, ws: WorkspaceModel<W>)
    requires
        m.wf(),
        workspace_windows(ws) == workspace_windows(m.active_ws()),
    ensures
        layout_windows(m.with_active(ws)) =~= layout_windows(m),
{
    lemma_update_workspace_same_windows(m, m.active, ws);
}

/// The column holding one window holds exactly that window.
proof fn lemma_single_column_windows<W>(win: Window, width: W)
    ensures
        single_column(win, width).windows.to_multiset() =~= Multiset::empty().insert(win),
{
    broadcast use vstd::multiset::group_multiset_axioms;
    let e = Seq::<Window>::empty();
    assert(seq![win] =~= e.push(win));
    vstd::seq_lib::to_multiset_build(e, win);
    vstd::seq_lib::to_multiset_len(e);
    assert(e.to_multiset() =~= Multiset::empty());
}

/// Steps of navigation and rearrangement within the active workspace keep
/// its windows.
proof fn lemma_workspace_steps_keep_windows<W>(ws: WorkspaceModel<W>)
    requires
        ws.wf(),
    ensures
        workspace_windows(ws.focus_left()) == workspace_windows(ws),
        workspace_windows(ws.focus_right()) == workspace_windows(ws),
        workspace_windows(ws.focus_tab_up()) == workspace_windows(ws),
        workspace_windows(ws.focus_tab_down()) == workspace_windows(ws),
        workspace_windows(ws.move_column_left()) == workspace_windows(ws),
        workspace_windows(ws.move_column_right()) == workspace_windows(ws),
        workspace_windows(ws.toggle_tab_group()) == workspace_windows(ws),
{
    broadcast use vstd::multiset::group_multiset_axioms;
    let f = column_windows::<W>();
    let s = ws.columns;
    let fc = ws.focused;
    if ws.has_focused_column() {
        let col = s[fc];
        lemma_msum_update_same(s, fc, ColumnModel { focused: 0, ..col }, f);
        if col.windows.len() > 0 {
            let up = if col.focused > 0 { col.focused - 1 } else { col.windows.len() - 1 };
            lemma_msum_update_same(s, fc, ColumnModel { focused: up, ..col }, f);
            lemma_msum_update_same(s, fc, ColumnModel { focused: (col.focused + 1) % (col.windows.len() as int), ..col }, f);
        }
    }
    if fc > 0 {
        let s1 = s.update(fc, s[fc - 1]);
        lemma_msum_update(s, fc, s[fc - 1], f);
        lemma_msum_update(s1, fc - 1, s[fc], f);
        let s2 = s1.update(fc - 1, s[fc]);
        assert(s2 == ws.move_column_left().columns);
        assert forall|v: Window| msum(s2, f).count(v) == msum(s, f).count(v) by {
            assert(msum(s1, f).add(f(s[fc])).count(v) == msum(s, f).add(f(s[fc - 1])).count(v));
            assert(msum(s2, f).add(f(s1[fc - 1])).count(v) == msum(s1, f).add(f(s[fc])).count(v));
        }
        assert(msum(s2, f) =~= msum(s, f));
    }
    if fc + 1 < s.len() {
        let s1 = s.update(fc, s[fc + 1]);
        lemma_msum_update(s, fc, s[fc + 1], f);
        lemma_msum_update(s1, fc + 1, s[fc], f);
        let s2 = s1.update(fc + 1, s[fc]);
        assert(s2 == ws.move_column_right().columns);
        assert forall|v: Window| msum(s2, f).count(v) == msum(s, f).count(v) by {
            assert(msum(s1, f).add(f(s[fc])).count(v) == msum(s, f).add(f(s[fc + 1])).count(v));
            assert(msum(s2, f).add(f(s1[fc + 1])).count(v) == msum(s1, f).add(f(s[fc])).count(v));
        }
        assert(msum(s2, f) =~= msum(s, f));
    }
    if s.len() > 0 {
        let col = s[fc];
        assert(col.wf());
        if col.windows.len() > 1 {
            let win = col.windows[col.focused];
            let col2 = col.without_tab(col.focused);
            let s1 = s.update(fc, col2);
            let s2 = s1.insert(fc + 1, single_column(win, col.width));
            assert(s2 == ws.toggle_tab_group().columns);
            lemma_msum_update(s, fc, col2, f);
            lemma_msum_insert(s1, fc + 1, single_column(win, col.width), f);
            lemma_single_column_windows(win, col.width);
            vstd::seq_lib::to_multiset_remove(col.windows, col.focused);
            vstd::seq_lib::to_multiset_contains(col.windows, win);
            assert forall|v: Window| msum(s2, f).count(v) == msum(s, f).count(v) by {
                assert(msum(s1, f).add(f(col)).count(v) == msum(s, f).add(f(col2)).count(v));
            }
            assert(msum(s2, f) =~= msum(s, f));
        } else if fc + 1 < s.len() {
            let right = s[fc + 1];
            let merged = ColumnModel {
                windows: col.windows + right.windows,
                focused: col.windows.len() as int,
                width: col.width,
            };
            let s1 = s.remove(fc + 1);
            let s2 = s1.update(fc, merged);
            assert(s2 == ws.toggle_tab_group().columns);
            lemma_msum_remove(s, fc + 1, f);
            lemma_msum_update(s1, fc, merged, f);
            vstd::seq_lib::lemma_multiset_commutative(col.windows, right.windows);
            assert(s1[fc] == col);
            assert forall|v: Window| msum(s2, f).count(v) == msum(s, f).count(v) by {
                assert(msum(s2, f).add(f(col)).count(v) == msum(s1, f).add(f(merged)).count(v));
            }
            assert(msum(s2, f) =~= msum(s, f));
        }
    }
}

/// Navigation, tab focus, column moves and tab grouping keep every window of
/// the layout: none is lost and none is duplicated.
pub proof fn law_rearranging_keeps_windows<W>(m: LayoutModel<W>)
    requires
        m.wf(),
    ensures
        layout_windows(m.focus_left()) =~= layout_windows(m),
        layout_windows(m.focus_right()) =~= layout_windows(m),
        layout_windows(m.focus_tab_up()) =~= layout_windows(m),
        layout_windows(m.focus_tab_down()) =~= layout_windows(m),
        layout_windows(m.move_column_left()) =~= layout_windows(m),
        layout_windows(m.move_column_right()) =~= layout_windows(m),
        layout_windows(m.toggle_tab_group()) =~= layout_windows(m),
        layout_windows(m.focus_workspace_up()) =~= layout_windows(m),
        layout_windows(m.focus_workspace_down()) =~= layout_windows(m),
{
    let ws = m.active_ws();
    assert(ws.wf());
    lemma_workspace_steps_keep_windows(ws);
    lemma_active_same_windows(m, ws.focus_left());
    lemma_active_same_windows(m, ws.focus_right());
    lemma_active_same_windows(m, ws.focus_tab_up());
    lemma_active_same_windows(m, ws.focus_tab_down());
    lemma_active_same_windows(m, ws.move_column_left());
    lemma_active_same_windows(m, ws.move_column_right());
    lemma_active_same_windows(m, ws.toggle_tab_group());
}

/// Spawning a window adds exactly that window to the layout.
pub proof fn law_spawn_adds_window<W>(m: LayoutModel<W>, window: Window, width: W)
    requires
        m.wf(),
    ensures
        layout_windows(m.spawn(window, width)) =~= layout_windows(m).insert(window),
{
    broadcast use vstd::multiset::group_multiset_axioms;
    let ws = m.active_ws();
    assert(ws.wf());
    let col = single_column(window, width);
    lemma_insert_after_focus_windows(ws, col);
    lemma_single_column_windows(window, width);
    let ws2 = ws.insert_after_focus(col);
    lemma_update_workspace_windows(m, m.active, ws2);
    let m2 = m.with_active(ws2);
    assert(layout_windows(m.spawn(window, width)) == layout_windows(m2));
    assert forall|v: Window| layout_windows(m2).count(v) == layout_windows(m).insert(window).count(v) by {
        assert(layout_windows(m2).add(workspace_windows(ws)).count(v) == layout_windows(m).add(workspace_windows(ws2)).count(v));
    }
}

/// Closing a window the layout holds takes exactly that window (at its
/// first place) out of the layout.
pub proof fn law_close_removes_window<W>(m: LayoutModel<W>, id: WindowId)
    requires
        m.wf(),
        m.holds(id),
    ensures
        ({
            let p = m.place_of(id);
            let win = m.workspaces[p.0].columns[p.1].windows[p.2];
            &&& win.id == id
            &&& layout_windows(m) =~= layout_windows(m.close(id)).insert(win)
        }),
{
    broadcast use vstd::multiset::group_multiset_axioms;
    lemma_first_place_exists(m, id);
    let p = m.place_of(id);
    assert(m.first_place(id, p.0, p.1, p.2));
    let ws = m.workspaces[p.0];
    let win = ws.columns[p.1].windows[p.2];
    lemma_without_window_windows(ws, p.1, p.2);
    let ws2 = ws.without_window(p.1, p.2);
    lemma_update_workspace_windows(m, p.0, ws2);
    let m2 = m.without_window(p.0, p.1, p.2);
    assert(layout_windows(m.close(id)) == layout_windows(m2));
    assert forall|v: Window| layout_windows(m).count(v) == layout_windows(m2).insert(win).count(v) by {
        assert(layout_windows(m2).add(workspace_windows(ws)).count(v) == layout_windows(m).add(workspace_windows(ws2)).count(v));
    }
}

/// Placing a window by explicit position adds exactly that window.
proof fn lemma_place_window_windows<W>(ws: WorkspaceModel<W>, win: Window, width: W, c: int, t: int)
    requires
        ws.wf(),
        c >= 0,
        t >= 0,
    ensures
        workspace_windows(ws.place_window(win, width, c, t)) =~= workspace_windows(ws).insert(win),
{
    broadcast use vstd::multiset::group_multiset_axioms;
    let f = column_windows::<W>();
    let s = ws.columns;
    lemma_single_column_windows(win, width);
    if s.len() == 0 {
        assert(seq![single_column(win, width)] =~= s.push(single_column(win, width)));
        lemma_msum_push(s, single_column(win, width), f);
    } else if c >= s.len() {
        lemma_msum_push(s, single_column(win, width), f);
    } else {
        let col = s[c];
        let tt = if t < col.windows.len() { t } else { col.windows.len() as int };
        let col2 = ColumnModel { windows: col.windows.insert(tt, win), focused: tt, ..col };
        lemma_msum_update(s, c, col2, f);
        vstd::seq_lib::to_multiset_insert(col.windows, tt, win);
        let a = msum(s.update(c, col2), f);
        assert forall|v: Window| a.count(v) == msum(s, f).insert(win).count(v) by {
            assert(a.add(f(col)).count(v) == msum(s, f).add(f(col2)).count(v));
        }
    }
}

/// Moving the focused window to another workspace keeps every window of
/// the layout.
pub proof fn law_move_window_keeps_windows<W>(m: LayoutModel<W>)
    requires
        m.wf(),
    ensures
        layout_windows(m.move_window_workspace_up()) =~= layout_windows(m),
        layout_windows(m.move_window_workspace_down()) =~= layout_windows(m),
{
    if m.active > 0 {
        law_move_window_to_workspace_keeps_windows(m, m.active - 1);
    }
    if m.active + 1 < m.workspaces.len() {
        law_move_window_to_workspace_keeps_windows(m, m.active + 1);
    }
}

/// Moving the focused window to any other workspace keeps every window of
/// the layout, the active workspace and the depth carousel; where the active
/// workspace has a column, the target workspace gains exactly the window
/// that had the focus.
pub proof fn law_move_window_to_workspace_keeps_windows<W>(m: LayoutModel<W>, target: int)
    requires
        m.wf(),
        0 <= target < m.workspaces.len(),
        target != m.active,
    ensures
        layout_windows(m.move_focused_window_to(target)) =~= layout_windows(m),
        m.move_focused_window_to(target).active == m.active,
        m.move_focused_window_to(target).depth_order == m.depth_order,
        m.active_ws().columns.len() > 0 ==> workspace_windows(m.move_focused_window_to(target).workspaces[target])
            =~= workspace_windows(m.workspaces[target]).insert(
                m.active_ws().columns[m.active_ws().focused].windows[m.active_ws().columns[m.active_ws().focused].focused],
            ),
{
    broadcast use vstd::multiset::group_multiset_axioms;
    let ws = m.active_ws();
    assert(ws.wf());
    if ws.columns.len() > 0 {
        let col = ws.columns[ws.focused];
        assert(col.wf());
        let win = col.windows[col.focused];
        let ws1 = ws.without_window(ws.focused, col.focused);
        lemma_without_window_windows(ws, ws.focused, col.focused);
        lemma_update_workspace_windows(m, m.active, ws1);
        let m1 = LayoutModel { workspaces: m.workspaces.update(m.active, ws1), ..m };
        assert(m1.workspaces[target] == m.workspaces[target]);
        assert(m.workspaces[target].wf());
        let single = single_column(win, col.width);
        let ws2 = m1.workspaces[target].insert_after_focus(single);
        lemma_insert_after_focus_windows(m1.workspaces[target], single);
        lemma_single_column_windows(win, col.width);
        lemma_update_workspace_windows(m1, target, ws2);
        let m2 = LayoutModel { workspaces: m1.workspaces.update(target, ws2), ..m1 };
        assert(m.move_focused_window_to(target) == m2);
        assert forall|v: Window| layout_windows(m2).count(v) == layout_windows(m).count(v) by {
            assert(layout_windows(m1).add(workspace_windows(ws)).count(v) == layout_windows(m).add(workspace_windows(ws1)).count(v));
            assert(layout_windows(m2).add(workspace_windows(m1.workspaces[target])).count(v)
                == layout_windows(m1).add(workspace_windows(ws2)).count(v));
        }
    }
}

/// Moving a window to an explicit position keeps every window of the
/// layout.
pub proof fn law_relocate_keeps_windows<W>(m: LayoutModel<W>, id: WindowId, ws_idx: int, col_idx: int, tile_idx: int)
    requires
        m.wf(),
        ws_idx >= 0,
        col_idx >= 0,
        tile_idx >= 0,
    ensures
        layout_windows(m.relocate(id, ws_idx, col_idx, tile_idx)) =~= layout_windows(m),
{
    broadcast use vstd::multiset::group_multiset_axioms;
    if m.holds(id) {
        lemma_first_place_exists(m, id);
        let p = m.place_of(id);
        assert(m.first_place(id, p.0, p.1, p.2));
        let ws = m.workspaces[p.0];
        assert(ws.wf());
        let col = ws.columns[p.1];
        let win = col.windows[p.2];
        let ws1 = ws.without_window(p.1, p.2);
        lemma_without_window_windows(ws, p.1, p.2);
        lemma_update_workspace_windows(m, p.0, ws1);
        let m1 = m.without_window(p.0, p.1, p.2);
        lemma_without_window_wf(ws, p.1, p.2);
        lemma_update_wf(m, p.0, ws1);
        let target = if ws_idx < m.workspaces.len() { ws_idx } else { m.workspaces.len() - 1 };
        assert(m1.workspaces[target].wf());
        let ws2 = m1.workspaces[target].place_window(win, col.width, col_idx, tile_idx);
        lemma_place_window_windows(m1.workspaces[target], win, col.width, col_idx, tile_idx);
        lemma_update_workspace_windows(m1, target, ws2);
        let m2 = LayoutModel { workspaces: m1.workspaces.update(target, ws2), ..m1 };
        assert(m.relocate(id, ws_idx, col_idx, tile_idx) == m2);
        assert forall|v: Window| layout_windows(m2).count(v) == layout_windows(m).count(v) by {
            assert(layout_windows(m1).add(workspace_windows(ws)).count(v) == layout_windows(m).add(workspace_windows(ws1)).count(v));
            assert(layout_windows(m2).add(workspace_windows(m1.workspaces[target])).count(v)
                == layout_windows(m1).add(workspace_windows(ws2)).count(v));
        }
    }
}

/// Focusing a window by its identifier keeps every window of the layout.
pub proof fn law_focus_window_keeps_windows<W>(m: LayoutModel<W>, id: WindowId)
    requires
        m.wf(),
    ensures
        layout_windows(m.focus_window(id)) =~= layout_windows(m),
{
    if m.holds(id) {
        lemma_first_place_exists(m, id);
        let p = m.place_of(id);
        assert(m.first_place(id, p.0, p.1, p.2));
        let ws = m.workspaces[p.0];
        let col = ws.columns[p.1];
        lemma_msum_update_same(ws.columns, p.1, ColumnModel { focused: p.2, ..col }, column_windows());
        let ws2 = ws.focus_at(p.1, p.2);
        lemma_update_workspace_same_windows(m, p.0, ws2);
        assert(m.focus_window(id) == LayoutModel { active: p.0, ..LayoutModel { workspaces: m.workspaces.update(p.0, ws2), ..m } });
    }
}

/// A depth ordering without `id` is left as it is by dropping `id`.
proof fn lemma_filter_absent(d: Seq<WindowId>, id: WindowId)
    requires
        !d.contains(id),
    ensures
        d.filter(other_than(id)) == d,
    decreases d.len(),
{
    reveal(Seq::filter);
    if d.len() > 0 {
        assert(!d.drop_last().contains(id)) by {
            if d.drop_last().contains(id) {
                let i = choose|i: int| 0 <= i < d.drop_last().len() && d.drop_last()[i] == id;
                assert(d[i] == id);
            }
        }
        lemma_filter_absent(d.drop_last(), id);
        assert(d.last() != id) by {
            assert(d[d.len() - 1] == d.last());
        }
        assert(d.drop_last().push(d.last()) =~= d);
    }
}

/// Spawning a window under a new identifier and closing it again restores
/// every column of every workspace, the active workspace and the depth
/// ordering.
pub proof fn law_spawn_then_close_restores_columns<W>(m: LayoutModel<W>, window: Window, width: W)
    requires
        m.wf(),
        !m.holds(window.id),
        !m.depth_order.contains(window.id),
    ensures
        ({
            let r = m.spawn(window, width).close(window.id);
            &&& r.workspaces.len() == m.workspaces.len()
            &&& forall|w: int| 0 <= w < m.workspaces.len() ==> #[trigger] r.workspaces[w].columns == m.workspaces[w].columns
            &&& r.active == m.active
            &&& r.mode == m.mode
            &&& r.depth_order == m.depth_order
        }),
{
    let id = window.id;
    let ws = m.active_ws();
    assert(ws.wf());
    let m1 = m.spawn(window, width);
    let c0 = if ws.columns.len() == 0 { 0 } else { ws.focused + 1 };
    let ws1 = m1.workspaces[m.active];
    assert(ws1 == ws.insert_after_focus(single_column(window, width)));
    assert(ws1.columns[c0] == single_column(window, width));
    assert forall|c2: int| 0 <= c2 < c0 implies !(#[trigger] ws1.columns[c2].holds(id)) by {
        assert(ws1.columns[c2] == ws.columns[c2]);
        if ws1.columns[c2].holds(id) {
            assert(ws.holds(id));
            assert(m.holds(id));
        }
    }
    assert forall|w2: int| 0 <= w2 < m.active implies !(#[trigger] m1.workspaces[w2].holds(id)) by {
        assert(m1.workspaces[w2] == m.workspaces[w2]);
    }
    assert(ws1.first_place(id, c0, 0));
    assert(m1.first_place(id, m.active, c0, 0));
    lemma_place_of(m1, id, m.active, c0, 0);
    let r = m1.close(id);
    assert(r.workspaces[m.active].columns =~= ws.columns);
    assert forall|w: int| 0 <= w < m.workspaces.len() implies #[trigger] r.workspaces[w].columns == m.workspaces[w].columns by {
        if w != m.active {
            assert(r.workspaces[w] == m.workspaces[w]);
        }
    }
    reveal(Seq::filter);
    assert(m.depth_order.push(id).drop_last() =~= m.depth_order);
    lemma_filter_absent(m.depth_order, id);
}

/// Moving the focus left and then right again returns to the same layout.
pub proof fn law_focus_left_then_right<W>(m: LayoutModel<W>)
    requires
        m.wf(),
        m.active_ws().focused > 0,
    ensures
        m.focus_left().focus_right() == m,
{
    assert(m.active_ws().wf());
    assert(m.focus_left().focus_right().workspaces =~= m.workspaces);
}

/// Moving the focus right and then left again returns to the same layout.
pub proof fn law_focus_right_then_left<W>(m: LayoutModel<W>)
    requires
        m.wf(),
        m.active_ws().focused + 1 < m.active_ws().columns.len(),
    ensures
        m.focus_right().focus_left() == m,
{
    assert(m.active_ws().wf());
    assert(m.focus_right().focus_left().workspaces =~= m.workspaces);
}

/// Focusing the tab below and then the tab above returns to the same layout,
/// wrapping included.
pub proof fn law_tab_down_then_up<W>(m: LayoutModel<W>)
    requires
        m.wf(),
    ensures
        m.focus_tab_down().focus_tab_up() == m,
{
    let ws = m.active_ws();
    assert(ws.wf());
    if ws.has_focused_column() {
        let col = ws.columns[ws.focused];
        assert(col.wf());
        let ws1 = ws.focus_tab_down();
        assert(ws1.columns[ws.focused].focused == (col.focused + 1) % (col.windows.len() as int));
        if col.focused + 1 < col.windows.len() {
            vstd::arithmetic::div_mod::lemma_small_mod((col.focused + 1) as nat, col.windows.len());
        } else {
            vstd::arithmetic::div_mod::lemma_mod_self_0(col.windows.len() as int);
        }
        assert(ws1.focus_tab_up().columns =~= ws.columns);
    }
    assert(m.focus_tab_down().focus_tab_up().workspaces =~= m.workspaces);
}

/// Focusing the tab above and then the tab below returns to the same layout,
/// wrapping included.
pub proof fn law_tab_up_then_down<W>(m: LayoutModel<W>)
    requires
        m.wf(),
    ensures
        m.focus_tab_up().focus_tab_down() == m,
{
    let ws = m.active_ws();
    assert(ws.wf());
    if ws.has_focused_column() {
        let col = ws.columns[ws.focused];
        assert(col.wf());
        let ws1 = ws.focus_tab_up();
        let f1 = ws1.columns[ws.focused].focused;
        if col.focused > 0 {
            vstd::arithmetic::div_mod::lemma_small_mod((f1 + 1) as nat, col.windows.len());
        } else {
            vstd::arithmetic::div_mod::lemma_mod_self_0(col.windows.len() as int);
        }
        assert(ws1.focus_tab_down().columns =~= ws.columns);
    }
    assert(m.focus_tab_up().focus_tab_down().workspaces =~= m.workspaces);
}

/// Moving a column left and then right again returns to the same layout.
pub proof fn law_move_column_left_then_right<W>(m: LayoutModel<W>)
    requires
        m.wf(),
        m.active_ws().focused > 0,
    ensures
        m.move_column_left().move_column_right() == m,
{
    let ws = m.active_ws();
    assert(ws.wf());
    assert(ws.move_column_left().move_column_right().columns =~= ws.columns);
    assert(m.move_column_left().move_column_right().workspaces =~= m.workspaces);
}

/// Moving a column right and then left again returns to the same layout.
pub proof fn law_move_column_right_then_left<W>(m: LayoutModel<W>)
    requires
        m.wf(),
        m.active_ws().focused + 1 < m.active_ws().columns.len(),
    ensures
        m.move_column_right().move_column_left() == m,
{
    let ws = m.active_ws();
    assert(ws.wf());
    assert(ws.move_column_right().move_column_left().columns =~= ws.columns);
    assert(m.move_column_right().move_column_left().workspaces =~= m.workspaces);
}

/// Activating the workspace above and then the one below returns to the
/// same layout.
pub proof fn law_workspace_up_then_down<W>(m: LayoutModel<W>)
    requires
        m.wf(),
        m.active > 0,
    ensures
        m.focus_workspace_up().focus_workspace_down() == m,
{
}

/// Activating the workspace below and then the one above returns to the
/// same layout.
pub proof fn law_workspace_down_then_up<W>(m: LayoutModel<W>)
    requires
        m.wf(),
        m.active + 1 < m.workspaces.len(),
    ensures
        m.focus_workspace_down().focus_workspace_up() == m,
{
}

/// A spawned window is the focused window.
pub proof fn law_spawn_focuses_new_window<W>(m: LayoutModel<W>, window: Window, width: W)
    requires
        m.wf(),
    ensures
        m.spawn(window, width).focused_window_id() == Some(window.id),
{
    assert(m.active_ws().wf());
}

/// Focusing a window by its identifier makes it the focused window.
pub proof fn law_focus_window_focuses_it<W>(m: LayoutModel<W>, id: WindowId)
    requires
        m.wf(),
        m.holds(id),
    ensures
        m.focus_window(id).focused_window_id() == Some(id),
{
    let w = choose|w: int| 0 <= w < m.workspaces.len() && #[trigger] m.workspaces[w].holds(id);
    let c = choose|c: int| 0 <= c < m.workspaces[w].columns.len() && #[trigger] m.workspaces[w].columns[c].holds(id);
    lemma_first_place_exists(m, id);
    let p = m.place_of(id);
    assert(m.first_place(id, p.0, p.1, p.2));
}

/// A layout holding a window has a first place for it.
proof fn lemma_first_place_exists<W>(m: LayoutModel<W>, id: WindowId)
    requires
        m.holds(id),
    ensures
        exists|w: int, c: int, t: int| m.first_place(id, w, c, t),
{
    let w = lemma_first_workspace(m, id, m.workspaces.len() as int);
    let ws = m.workspaces[w];
    let c = lemma_first_column(ws, id, ws.columns.len() as int);
    let col = ws.columns[c];
    let t = lemma_first_tab(col, id, col.windows.len() as int);
    assert(m.first_place(id, w, c, t));
}

proof fn lemma_first_workspace<W>(m: LayoutModel<W>, id: WindowId, n: int) -> (w: int)
    requires
        0 <= n <= m.workspaces.len(),
        exists|w: int| 0 <= w < n && #[trigger] m.workspaces[w].holds(id),
    ensures
        0 <= w < n,
        m.workspaces[w].holds(id),
        forall|w2: int| 0 <= w2 < w ==> !(#[trigger] m.workspaces[w2].holds(id)),
    decreases n,
{
    if exists|w: int| 0 <= w < n - 1 && #[trigger] m.workspaces[w].holds(id) {
        lemma_first_workspace(m, id, n - 1)
    } else {
        n - 1
    }
}

proof fn lemma_first_column<W>(ws: WorkspaceModel<W>, id: WindowId, n: int) -> (c: int)
    requires
        0 <= n <= ws.columns.len(),
        exists|c: int| 0 <= c < n && #[trigger] ws.columns[c].holds(id),
    ensures
        0 <= c < n,
        ws.columns[c].holds(id),
        forall|c2: int| 0 <= c2 < c ==> !(#[trigger] ws.columns[c2].holds(id)),
    decreases n,
{
    if exists|c: int| 0 <= c < n - 1 && #[trigger] ws.columns[c].holds(id) {
        lemma_first_column(ws, id, n - 1)
    } else {
        n - 1
    }
}

proof fn lemma_first_tab<W>(col: ColumnModel<W>, id: WindowId, n: int) -> (t: int)
    requires
        0 <= n <= col.windows.len(),
        exists|t: int| 0 <= t < n && #[trigger] col.windows[t].id == id,
    ensures
        0 <= t < n,
        col.windows[t].id == id,
        forall|t2: int| 0 <= t2 < t ==> #[trigger] col.windows[t2].id != id,
    decreases n,
{
    if exists|t: int| 0 <= t < n - 1 && #[trigger] col.windows[t].id == id {
        lemma_first_tab(col, id, n - 1)
    } else {
        n - 1
    }
}

/// A closed window leaves the depth ordering entirely.
pub proof fn law_close_clears_depth_order<W>(m: LayoutModel<W>, id: WindowId)
    requires
        m.holds(id),
    ensures
        !m.close(id).depth_order.contains(id),
{
    let d = m.close(id).depth_order;
    if d.contains(id) {
        let i = choose|i: int| 0 <= i < d.len() && d[i] == id;
        m.depth_order.lemma_filter_pred(other_than(id), i);
    }
}

/// Renaming leaves no window of that identifier under another title.
pub proof fn law_rename_leaves_no_stale_title<W>(m: LayoutModel<W>, id: WindowId, title: String)
    ensures
        !m.retitle(id, title).stale_title(id, title),
{
    let r = m.retitle(id, title);
    if r.stale_title(id, title) {
        let w = choose|w: int| 0 <= w < r.workspaces.len() && #[trigger] r.workspaces[w].stale_title(id, title);
        let c = choose|c: int| 0 <= c < r.workspaces[w].columns.len() && #[trigger] r.workspaces[w].columns[c].stale_title(id, title);
        let t = choose|t: int| 0 <= t < r.workspaces[w].columns[c].windows.len() && #[trigger] is_stale(r.workspaces[w].columns[c].windows[t], id, title);
        assert(r.workspaces[w].columns[c].windows[t] == retitled(m.workspaces[w].columns[c].windows[t], id, title));
    }
}

/// Cycling the depth carousel forward and then backward returns to the
/// position it started from.
pub proof fn law_depth_cycle_round_trip(c: int, n: int)
    requires
        c >= 0,
        n > 0,
    ensures
        ((c + 1) % n + n - 1) % n == c % n,
{
    vstd::arithmetic::div_mod::lemma_add_mod_noop(c + 1, n - 1, n);
    vstd::arithmetic::div_mod::lemma_mod_twice(c + 1, n);
    vstd::arithmetic::div_mod::lemma_add_mod_noop_right(c + 1, n - 1, n);
    assert(c + 1 + (n - 1) == c + n);
    vstd::arithmetic::div_mod::lemma_mod_add_multiples_vanish(c, n);
    vstd::arithmetic::div_mod::lemma_small_mod((n - 1) as nat, n as nat);
}

/// Moving the focused window to another workspace `target`: an active
/// workspace without columns leaves the layout as it is. Otherwise the
/// window leaves its column (a column left empty is removed, and the focus
/// is pulled back where it pointed past the end), and a new column holding
/// only it, of its old column's width, enters `target` right of the focused
/// column there (first, where `target` was empty) and takes the focus. No
/// other workspace changes, and the active workspace stays active.
pub proof fn law_move_window_to_workspace_places_window<W>(m: LayoutModel<W>, target: int)
    requires
        m.wf(),
        0 <= target < m.workspaces.len(),
        target != m.active,
    ensures
        m.active_ws().columns.len() == 0 ==> m.move_focused_window_to(target) == m,
        m.active_ws().columns.len() > 0 ==> {
            let ws = m.active_ws();
            let col = ws.columns[ws.focused];
            let win = col.windows[col.focused];
            let dst = m.workspaces[target];
            let pos = if dst.columns.len() == 0 { 0 } else { dst.focused + 1 };
            let r = m.move_focused_window_to(target);
            &&& r.workspaces.len() == m.workspaces.len()
            &&& r.workspaces[m.active] == ws.without_window(ws.focused, col.focused)
            &&& r.workspaces[target].columns == dst.columns.insert(pos, single_column(win, col.width))
            &&& r.workspaces[target].focused == pos
            &&& forall|k: int| 0 <= k < m.workspaces.len() && k != m.active && k != target
                ==> #[trigger] r.workspaces[k] == m.workspaces[k]
            &&& r.active == m.active
            &&& r.mode == m.mode
            &&& r.underlying_mode == m.underlying_mode
            &&& r.overview_open == m.overview_open
            &&& r.depth_order == m.depth_order
        },
{
    let ws = m.active_ws();
    if ws.columns.len() > 0 {
        let dst = m.workspaces[target];
        let col = ws.columns[ws.focused];
        let win = col.windows[col.focused];
        if dst.columns.len() == 0 {
            assert(dst.columns.insert(0, single_column(win, col.width)) =~= seq![single_column(win, col.width)]);
        }
    }
}

/// A scroll along the depth axis outside depth mode: where a nested
/// compositor took it, the layout stays as it is; otherwise the focus of
/// the focused column moves one tab down for a positive amount and one tab
/// up for a negative one, wrapping at the ends, and nothing else changes.
pub proof fn law_depth_axis_scroll_cycles_tabs<W>(m: LayoutModel<W>, forwarded: bool, sign: ScrollSign)
    requires
        m.wf(),
        m.mode != TilingMode::Depth,
        m.active_ws().has_focused_column(),
    ensures
        forwarded ==> m.depth_axis_scroll(forwarded, sign) == m,
        !forwarded ==> {
            let ws = m.active_ws();
            let col = ws.columns[ws.focused];
            let n = col.windows.len() as int;
            let i = col.focused;
            let next = match sign {
                ScrollSign::Positive => (i + 1) % n,
                ScrollSign::Negative => (i + n - 1) % n,
                ScrollSign::Zero => i,
            };
            m.depth_axis_scroll(forwarded, sign) == m.with_active(ws.with_focused_column(ColumnModel { focused: next, ..col }))
        },
{
    let ws = m.active_ws();
    assert(ws.wf());
    let col = ws.columns[ws.focused];
    assert(col.wf());
    let n = col.windows.len() as int;
    let i = col.focused;
    if !forwarded {
        match sign {
            ScrollSign::Negative => {
                if i > 0 {
                    vstd::arithmetic::div_mod::lemma_small_mod((i - 1) as nat, n as nat);
                    vstd::arithmetic::div_mod::lemma_mod_multiples_vanish(1, i - 1, n);
                    assert(n * 1 + (i - 1) == i + n - 1);
                } else {
                    vstd::arithmetic::div_mod::lemma_small_mod((n - 1) as nat, n as nat);
                }
            },
            ScrollSign::Zero => {
                assert(ColumnModel { focused: i, ..col } == col);
                assert(ws.columns.update(ws.focused, col) =~= ws.columns);
                assert(ws.with_focused_column(col) == ws);
                assert(m.workspaces.update(m.active, ws) =~= m.workspaces);
            },
            ScrollSign::Positive => {},
        }
    }
}

/// `MoveUp` carries the focused window of the active workspace into the
/// workspace above, `MoveDown` into the one below; no workspace but those
/// two changes, the active one stays active, and the camera is recentred.
/// Where there is no workspace in that direction, or the active workspace
/// has no column, the layout stays as it is.
pub proof fn law_move_actions_go_up_and_down<W>(m: LayoutModel<W>)
    requires
        m.wf(),
    ensures
        m.active_ws().columns.len() > 0 && m.active > 0 ==> {
            let ws = m.active_ws();
            let win = ws.columns[ws.focused].windows[ws.columns[ws.focused].focused];
            let r = spec_perform(m, LayoutAction::MoveUp);
            &&& workspace_windows(r.workspaces[m.active - 1]) =~= workspace_windows(m.workspaces[m.active - 1]).insert(win)
            &&& r.workspaces.len() == m.workspaces.len()
            &&& forall|k: int| 0 <= k < m.workspaces.len() && k != m.active && k != m.active - 1
                ==> #[trigger] r.workspaces[k] == m.workspaces[k]
            &&& r.active == m.active
            &&& spec_effect(m, LayoutAction::MoveUp) == (ActionEffect::Rearranged { recenter: true })
        },
        m.active_ws().columns.len() > 0 && m.active + 1 < m.workspaces.len() ==> {
            let ws = m.active_ws();
            let win = ws.columns[ws.focused].windows[ws.columns[ws.focused].focused];
            let r = spec_perform(m, LayoutAction::MoveDown);
            &&& workspace_windows(r.workspaces[m.active + 1]) =~= workspace_windows(m.workspaces[m.active + 1]).insert(win)
            &&& r.workspaces.len() == m.workspaces.len()
            &&& forall|k: int| 0 <= k < m.workspaces.len() && k != m.active && k != m.active + 1
                ==> #[trigger] r.workspaces[k] == m.workspaces[k]
            &&& r.active == m.active
            &&& spec_effect(m, LayoutAction::MoveDown) == (ActionEffect::Rearranged { recenter: true })
        },
        m.active_ws().columns.len() == 0 || m.active == 0 ==> spec_perform(m, LayoutAction::MoveUp) == m,
        m.active_ws().columns.len() == 0 || m.active + 1 >= m.workspaces.len()
            ==> spec_perform(m, LayoutAction::MoveDown) == m,
{
    if m.active > 0 {
        law_move_window_to_workspace_keeps_windows(m, m.active - 1);
        law_move_window_to_workspace_places_window(m, m.active - 1);
    }
    if m.active + 1 < m.workspaces.len() {
        law_move_window_to_workspace_keeps_windows(m, m.active + 1);
        law_move_window_to_workspace_places_window(m, m.active + 1);
    }
}

/// Taking out a window whose column lies right of the focused column keeps
/// the focus where it was: the focused column index and that column stay as
/// they are, whether the window's column empties and goes or not.
pub proof fn law_taking_window_right_of_focus_keeps_focus<W>(ws: WorkspaceModel<W>, c: int, t: int)
    requires
        ws.wf(),
        0 <= ws.focused < c < ws.columns.len(),
        0 <= t < ws.columns[c].windows.len(),
    ensures
        ws.without_window(c, t).focused == ws.focused,
        ws.without_window(c, t).columns[ws.focused] == ws.columns[ws.focused],
        ws.without_window(c, t).columns.len() == ws.columns.len()
            - (if ws.columns[c].windows.len() == 1 { 1int } else { 0 }),
{
    assert(ws.columns[c].wf());
}

/// Closing a window of the active workspace whose first place lies right of
/// the focused column leaves the focus on the window that had it.
pub proof fn law_close_right_of_focus_keeps_focus<W>(m: LayoutModel<W>, id: WindowId, c: int, t: int)
    requires
        m.wf(),
        m.first_place(id, m.active, c, t),
        c > m.active_ws().focused,
    ensures
        m.close(id).active == m.active,
        m.close(id).active_ws().focused == m.active_ws().focused,
        m.close(id).focused_window_id() == m.focused_window_id(),
{
    lemma_place_of(m, id, m.active, c, t);
    let ws = m.active_ws();
    assert(ws.wf());
    law_taking_window_right_of_focus_keeps_focus(ws, c, t);
}

/// Renaming window `id` changes no window but `id`, which takes the new
/// title, and moves nothing: every workspace, column and tab stays in its
/// place.
pub proof fn law_rename_touches_only_that_window<W>(m: LayoutModel<W>, id: WindowId, title: String)
    ensures
        m.retitle(id, title).workspaces.len() == m.workspaces.len(),
        m.retitle(id, title).active == m.active,
        m.retitle(id, title).depth_order == m.depth_order,
        forall|w: int| 0 <= w < m.workspaces.len() ==> {
            &&& (#[trigger] m.retitle(id, title).workspaces[w]).focused == m.workspaces[w].focused
            &&& m.retitle(id, title).workspaces[w].columns.len() == m.workspaces[w].columns.len()
        },
        forall|w: int, c: int| 0 <= w < m.workspaces.len() && 0 <= c < m.workspaces[w].columns.len() ==> {
            let old_col = m.workspaces[w].columns[c];
            let new_col = #[trigger] m.retitle(id, title).workspaces[w].columns[c];
            &&& new_col.focused == old_col.focused
            &&& new_col.width == old_col.width
            &&& new_col.windows.len() == old_col.windows.len()
        },
        forall|w: int, c: int, k: int|
            0 <= w < m.workspaces.len() && 0 <= c < m.workspaces[w].columns.len()
                && 0 <= k < m.workspaces[w].columns[c].windows.len() ==> {
                let old_win = m.workspaces[w].columns[c].windows[k];
                let new_win = #[trigger] m.retitle(id, title).workspaces[w].columns[c].windows[k];
                &&& new_win.id == old_win.id
                &&& old_win.id != id ==> new_win == old_win
                &&& old_win.id == id ==> new_win.title@ == title@
            },
{
}

/// The focus actions move the focus one step the way they are named, and
/// the column moves swap the focused column with its neighbour that way,
/// the focus going along; at the edge nothing changes. Focus moves change
/// no workspace's contents, and none of these actions changes another
/// workspace.
pub proof fn law_directional_actions<W>(m: LayoutModel<W>)
    requires
        m.wf(),
    ensures
        ({
            let ws = m.active_ws();
            let f = ws.focused;
            let n = ws.columns.len();
            let left = spec_perform(m, LayoutAction::FocusLeft);
            let right = spec_perform(m, LayoutAction::FocusRight);
            &&& left.active == m.active && right.active == m.active
            &&& left.active_ws().columns == ws.columns && right.active_ws().columns == ws.columns
            &&& left.active_ws().focused == (if f > 0 { f - 1 } else { f })
            &&& right.active_ws().focused == (if f + 1 < n { f + 1 } else { f })
            &&& left.workspaces.len() == m.workspaces.len() && right.workspaces.len() == m.workspaces.len()
            &&& forall|k: int| 0 <= k < m.workspaces.len() && k != m.active
                ==> #[trigger] left.workspaces[k] == m.workspaces[k] && right.workspaces[k] == m.workspaces[k]
        }),
        ({
            let up = spec_perform(m, LayoutAction::FocusWorkspaceUp);
            let down = spec_perform(m, LayoutAction::FocusWorkspaceDown);
            &&& up.workspaces == m.workspaces && down.workspaces == m.workspaces
            &&& up.active == (if m.active > 0 { m.active - 1 } else { m.active })
            &&& down.active == (if m.active + 1 < m.workspaces.len() { m.active + 1 } else { m.active })
        }),
        ({
            let ws = m.active_ws();
            let f = ws.focused;
            let n = ws.columns.len();
            let ml = spec_perform(m, LayoutAction::MoveLeft);
            let mr = spec_perform(m, LayoutAction::MoveRight);
            &&& ml.active == m.active && mr.active == m.active
            &&& ml.active_ws().columns.len() == n && mr.active_ws().columns.len() == n
            &&& f > 0 && f < n ==> {
                &&& ml.active_ws().focused == f - 1
                &&& ml.active_ws().columns[f - 1] == ws.columns[f]
                &&& ml.active_ws().columns[f] == ws.columns[f - 1]
                &&& forall|k: int| 0 <= k < n && k != f && k != f - 1 ==> #[trigger] ml.active_ws().columns[k] == ws.columns[k]
            }
            &&& f == 0 ==> ml == m
            &&& f + 1 < n ==> {
                &&& mr.active_ws().focused == f + 1
                &&& mr.active_ws().columns[f + 1] == ws.columns[f]
                &&& mr.active_ws().columns[f] == ws.columns[f + 1]
                &&& forall|k: int| 0 <= k < n && k != f && k != f + 1 ==> #[trigger] mr.active_ws().columns[k] == ws.columns[k]
            }
            &&& f + 1 >= n ==> mr == m
            &&& forall|k: int| 0 <= k < m.workspaces.len() && k != m.active
                ==> #[trigger] ml.workspaces[k] == m.workspaces[k] && mr.workspaces[k] == m.workspaces[k]
        }),
        forall|n: usize| 1 <= n <= m.workspaces.len() ==> {
            let r = #[trigger] spec_perform(m, LayoutAction::Workspace(n));
            &&& r.active == n - 1
            &&& r.workspaces == m.workspaces
        },
{
    let ws = m.active_ws();
    assert(ws.wf());
    assert(m.workspaces.update(m.active, ws) =~= m.workspaces);
}

/// Outside depth mode, focusing the tab below or above steps the focus of
/// the focused column one tab that way, wrapping at the ends, and changes
/// nothing else; in depth mode the layout stays as it is (the carousel
/// steps instead).
pub proof fn law_tab_focus_actions<W>(m: LayoutModel<W>)
    requires
        m.wf(),
        m.active_ws().has_focused_column(),
    ensures
        m.mode == TilingMode::Depth ==> spec_perform(m, LayoutAction::FocusUp) == m
            && spec_perform(m, LayoutAction::FocusDown) == m,
        m.mode != TilingMode::Depth ==> {
            let ws = m.active_ws();
            let col = ws.columns[ws.focused];
            let n = col.windows.len() as int;
            let i = col.focused;
            &&& spec_perform(m, LayoutAction::FocusDown)
                == m.with_active(ws.with_focused_column(ColumnModel { focused: (i + 1) % n, ..col }))
            &&& spec_perform(m, LayoutAction::FocusUp)
                == m.with_active(ws.with_focused_column(ColumnModel { focused: (i + n - 1) % n, ..col }))
        },
{
    if m.mode != TilingMode::Depth {
        law_depth_axis_scroll_cycles_tabs(m, false, ScrollSign::Positive);
        law_depth_axis_scroll_cycles_tabs(m, false, ScrollSign::Negative);
    }
}

/// Taking a window out moves the focused column index only where it would
/// point past the last column, and then onto the last column; the window
/// taken out is the only one that leaves the workspace.
pub proof fn law_taking_window_keeps_focus_index<W>(ws: WorkspaceModel<W>, c: int, t: int)
    requires
        ws.wf(),
        0 <= c < ws.columns.len(),
        0 <= t < ws.columns[c].windows.len(),
    ensures
        ({
            let r = ws.without_window(c, t);
            &&& ws.focused < r.columns.len() ==> r.focused == ws.focused
            &&& ws.focused >= r.columns.len() && r.columns.len() > 0 ==> r.focused == r.columns.len() - 1
            &&& r.columns.len() > 0 ==> 0 <= r.focused < r.columns.len()
            &&& workspace_windows(ws) =~= workspace_windows(r).insert(ws.columns[c].windows[t])
        }),
{
    assert(ws.columns[c].wf());
    lemma_without_window_windows(ws, c, t);
}

} // verus!
