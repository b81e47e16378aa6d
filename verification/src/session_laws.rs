//! Laws of sessions: what restoring does with the live windows.

use vstd::multiset::Multiset;
use vstd::prelude::*;
use crate::layout::{ColumnModel, LayoutModel, Window, WindowId, WorkspaceModel};
use crate::text::occurs_in;
use crate::layout_laws::{
    column_windows, layout_windows, lemma_msum_push, lemma_msum_remove, lemma_msum_update, msum, workspace_windows,
    workspace_windows_fn,
};
use crate::session::{
    col_bound, first_fit, group_column, group_keys, group_windows, in_group, leftover_column, lemma_first_fit,
    lemma_run_round_frame, matching, restored, restored_columns, round_step, run_round, session_places, tab_at,
    target_of, window_of, workspace_places, fits, column_places, details_of, opt_text, records_layout, group_head,
    column_at, LiveWindow, SavedColumn, SavedSession, SavedWindow, SavedWorkspace, WindowDetails,
};

verus! {

/// A live window, counted once.
pub open spec fn live_windows() -> spec_fn(LiveWindow) -> Multiset<Window> {
    |w: LiveWindow| Multiset::singleton(Window { id: w.id, title: w.title })
}

/// The window a saved tab found, counted once, or nothing.
pub open spec fn found_windows() -> spec_fn(Option<(WindowId, String)>) -> Multiset<Window> {
    |m: Option<(WindowId, String)>| if m is Some {
        Multiset::singleton(window_of(m))
    } else {
        Multiset::empty()
    }
}

// ---------------------------------------------------------------------------
// Matching moves windows out of the pool and into the tabs
// ---------------------------------------------------------------------------

proof fn lemma_round_keeps<W>(
    round: int,
    session: SavedSession<W>,
    places: Seq<(int, int, int)>,
    matches: Seq<Option<(WindowId, String)>>,
    pool: Seq<LiveWindow>,
    n: nat,
)
    requires
        n <= matches.len(),
    ensures
        msum(run_round(round, session, places, matches, pool, n).0, found_windows()).add(
            msum(run_round(round, session, places, matches, pool, n).1, live_windows()),
        ) == msum(matches, found_windows()).add(msum(pool, live_windows())),
    decreases n,
{
    broadcast use vstd::multiset::group_multiset_axioms;
    if n > 0 {
        let f = found_windows();
        let g = live_windows();
        lemma_round_keeps(round, session, places, matches, pool, (n - 1) as nat);
        lemma_run_round_frame(round, session, places, matches, pool, (n - 1) as nat);
        let prev = run_round(round, session, places, matches, pool, (n - 1) as nat);
        let saved = tab_at(session, places[n - 1]);
        let step = round_step(round, saved, prev.0[n - 1], prev.1);
        let next = prev.0.update(n - 1, step.0);
        if prev.0[n - 1] is None {
            lemma_first_fit(round, saved, prev.1);
            match first_fit(round, saved, prev.1) {
                Some(i) => {
                    lemma_msum_update(prev.0, n - 1, step.0, f);
                    lemma_msum_remove(prev.1, i, g);
                    assert(f(step.0) == g(prev.1[i]));
                    assert(f(prev.0[n - 1]) =~= Multiset::<Window>::empty());
                    assert(step.1 == prev.1.remove(i));
                    assert(next == prev.0.update(n - 1, step.0));
                    assert(msum(next, f) =~= msum(prev.0, f).add(f(step.0)));
                    assert(msum(next, f).add(msum(step.1, g)) =~= msum(prev.0, f).add(msum(prev.1, g)));
                },
                None => {
                    assert(next =~= prev.0);
                },
            }
        } else {
            assert(next =~= prev.0);
        }
    }
}

proof fn lemma_no_matches(n: nat)
    ensures
        msum(Seq::new(n, |i: int| None::<(WindowId, String)>), found_windows()) == Multiset::<Window>::empty(),
    decreases n,
{
    broadcast use vstd::multiset::group_multiset_axioms;
    if n > 0 {
        let s = Seq::new(n, |i: int| None::<(WindowId, String)>);
        assert(s.drop_last() =~= Seq::new((n - 1) as nat, |i: int| None::<(WindowId, String)>));
        lemma_no_matches((n - 1) as nat);
        assert(msum(s, found_windows()) =~= Multiset::<Window>::empty());
    }
}

/// The windows found by the tabs and the windows left over are the live
/// windows, each counted once.
proof fn lemma_matching_keeps<W>(session: SavedSession<W>, pool: Seq<LiveWindow>)
    ensures
        msum(matching(session, pool).0, found_windows()).add(msum(matching(session, pool).1, live_windows()))
            == msum(pool, live_windows()),
{
    broadcast use vstd::multiset::group_multiset_axioms;
    let places = session_places(session.workspaces@);
    let n = places.len();
    let none = Seq::new(n, |i: int| None::<(WindowId, String)>);
    lemma_no_matches(n);
    let r1 = run_round(1, session, places, none, pool, n);
    lemma_round_keeps(1, session, places, none, pool, n);
    lemma_run_round_frame(1, session, places, none, pool, n);
    let r2 = run_round(2, session, places, r1.0, r1.1, n);
    lemma_round_keeps(2, session, places, r1.0, r1.1, n);
    lemma_run_round_frame(2, session, places, r1.0, r1.1, n);
    let r3 = run_round(3, session, places, r2.0, r2.1, n);
    lemma_round_keeps(3, session, places, r2.0, r2.1, n);
    lemma_run_round_frame(3, session, places, r2.0, r2.1, n);
    lemma_round_keeps(4, session, places, r3.0, r3.1, n);
    assert(msum(none, found_windows()).add(msum(pool, live_windows())) =~= msum(pool, live_windows()));
}


// ---------------------------------------------------------------------------
// Rebuilding puts every found window into exactly one column
// ---------------------------------------------------------------------------

/// The windows of the column keys below `b` of workspace `t`, after the
/// first `upto` tabs.
pub open spec fn key_sum(
    places: Seq<(int, int, int)>,
    matches: Seq<Option<(WindowId, String)>>,
    n: int,
    t: int,
    b: nat,
    upto: nat,
) -> Multiset<Window>
    decreases b,
{
    if b == 0 {
        Multiset::empty()
    } else {
        key_sum(places, matches, n, t, (b - 1) as nat, upto).add(
            group_windows(places, matches, n, t, b - 1, upto).to_multiset(),
        )
    }
}

/// The windows of the column keys below `b` of the workspaces below `c`,
/// after the first `upto` tabs.
pub open spec fn grid_sum(
    places: Seq<(int, int, int)>,
    matches: Seq<Option<(WindowId, String)>>,
    n: int,
    c: nat,
    b: nat,
    upto: nat,
) -> Multiset<Window>
    decreases c,
{
    if c == 0 {
        Multiset::empty()
    } else {
        grid_sum(places, matches, n, (c - 1) as nat, b, upto).add(key_sum(places, matches, n, (c - 1) as int, b, upto))
    }
}

/// Tab `i` found a window for a workspace below `c` and a key below `b`.
pub open spec fn in_grid(
    places: Seq<(int, int, int)>,
    matches: Seq<Option<(WindowId, String)>>,
    n: int,
    c: int,
    b: int,
    i: int,
) -> bool {
    &&& matches[i] is Some
    &&& 0 <= target_of(places[i], n) < c
    &&& 0 <= places[i].1 < b
}

proof fn lemma_group_step(
    places: Seq<(int, int, int)>,
    matches: Seq<Option<(WindowId, String)>>,
    n: int,
    t: int,
    k: int,
    u: nat,
)
    ensures
        group_windows(places, matches, n, t, k, u + 1).to_multiset() == group_windows(places, matches, n, t, k, u).to_multiset().add(
            if in_group(places, matches, n, u as int, t, k) {
                Multiset::singleton(window_of(matches[u as int]))
            } else {
                Multiset::empty()
            },
        ),
{
    broadcast use vstd::multiset::group_multiset_axioms;
    let prev = group_windows(places, matches, n, t, k, u);
    if in_group(places, matches, n, u as int, t, k) {
        vstd::seq_lib::to_multiset_build(prev, window_of(matches[u as int]));
        assert(prev.push(window_of(matches[u as int])).to_multiset() =~= prev.to_multiset().add(
            Multiset::singleton(window_of(matches[u as int])),
        ));
    } else {
        assert(prev.to_multiset().add(Multiset::empty()) =~= prev.to_multiset());
    }
}

proof fn lemma_key_step(
    places: Seq<(int, int, int)>,
    matches: Seq<Option<(WindowId, String)>>,
    n: int,
    t: int,
    b: nat,
    u: nat,
)
    ensures
        key_sum(places, matches, n, t, b, u + 1) == key_sum(places, matches, n, t, b, u).add(
            if matches[u as int] is Some && target_of(places[u as int], n) == t && 0 <= places[u as int].1 < b {
                Multiset::singleton(window_of(matches[u as int]))
            } else {
                Multiset::empty()
            },
        ),
    decreases b,
{
    broadcast use vstd::multiset::group_multiset_axioms;
    if b > 0 {
        lemma_key_step(places, matches, n, t, (b - 1) as nat, u);
        lemma_group_step(places, matches, n, t, b - 1, u);
        let lhs = key_sum(places, matches, n, t, b, u + 1);
        let rhs = key_sum(places, matches, n, t, b, u).add(
            if matches[u as int] is Some && target_of(places[u as int], n) == t && 0 <= places[u as int].1 < b {
                Multiset::singleton(window_of(matches[u as int]))
            } else {
                Multiset::empty()
            },
        );
        assert(lhs =~= rhs);
    } else {
        assert(key_sum(places, matches, n, t, b, u).add(Multiset::empty()) =~= key_sum(places, matches, n, t, b, u));
    }
}

proof fn lemma_grid_step(
    places: Seq<(int, int, int)>,
    matches: Seq<Option<(WindowId, String)>>,
    n: int,
    c: nat,
    b: nat,
    u: nat,
)
    ensures
        grid_sum(places, matches, n, c, b, u + 1) == grid_sum(places, matches, n, c, b, u).add(
            if in_grid(places, matches, n, c as int, b as int, u as int) {
                Multiset::singleton(window_of(matches[u as int]))
            } else {
                Multiset::empty()
            },
        ),
    decreases c,
{
    broadcast use vstd::multiset::group_multiset_axioms;
    if c > 0 {
        lemma_grid_step(places, matches, n, (c - 1) as nat, b, u);
        lemma_key_step(places, matches, n, (c - 1) as int, b, u);
        let lhs = grid_sum(places, matches, n, c, b, u + 1);
        let rhs = grid_sum(places, matches, n, c, b, u).add(
            if in_grid(places, matches, n, c as int, b as int, u as int) {
                Multiset::singleton(window_of(matches[u as int]))
            } else {
                Multiset::empty()
            },
        );
        assert(lhs =~= rhs);
    } else {
        assert(grid_sum(places, matches, n, c, b, u).add(Multiset::empty()) =~= grid_sum(places, matches, n, c, b, u));
    }
}

/// Where every found window lies in the grid, the grid holds exactly the
/// found windows.
proof fn lemma_grid_total(
    places: Seq<(int, int, int)>,
    matches: Seq<Option<(WindowId, String)>>,
    n: int,
    c: nat,
    b: nat,
    u: nat,
)
    requires
        u <= matches.len(),
        forall|i: int| 0 <= i < u && (#[trigger] matches[i]) is Some ==> in_grid(places, matches, n, c as int, b as int, i),
    ensures
        grid_sum(places, matches, n, c, b, u) == msum(matches.take(u as int), found_windows()),
    decreases u,
{
    broadcast use vstd::multiset::group_multiset_axioms;
    if u == 0 {
        lemma_grid_zero(places, matches, n, c, b);
        assert(matches.take(0) =~= Seq::<Option<(WindowId, String)>>::empty());
    } else {
        let v = (u - 1) as nat;
        lemma_grid_total(places, matches, n, c, b, v);
        lemma_grid_step(places, matches, n, c, b, v);
        assert(matches.take(u as int).drop_last() =~= matches.take(v as int));
        assert(matches.take(u as int).last() == matches[v as int]);
        if matches[v as int] is Some {
            assert(in_grid(places, matches, n, c as int, b as int, v as int));
        }
        assert(grid_sum(places, matches, n, c, b, u) =~= msum(matches.take(u as int), found_windows()));
    }
}

proof fn lemma_key_zero(places: Seq<(int, int, int)>, matches: Seq<Option<(WindowId, String)>>, n: int, t: int, b: nat)
    ensures
        key_sum(places, matches, n, t, b, 0) == Multiset::<Window>::empty(),
    decreases b,
{
    broadcast use vstd::multiset::group_multiset_axioms;
    if b > 0 {
        lemma_key_zero(places, matches, n, t, (b - 1) as nat);
        let e = group_windows(places, matches, n, t, b - 1, 0);
        vstd::seq_lib::to_multiset_len(e);
        assert(e.to_multiset() =~= Multiset::<Window>::empty());
        assert(key_sum(places, matches, n, t, b, 0) =~= Multiset::<Window>::empty());
    }
}

proof fn lemma_grid_zero(places: Seq<(int, int, int)>, matches: Seq<Option<(WindowId, String)>>, n: int, c: nat, b: nat)
    ensures
        grid_sum(places, matches, n, c, b, 0) == Multiset::<Window>::empty(),
    decreases c,
{
    broadcast use vstd::multiset::group_multiset_axioms;
    if c > 0 {
        lemma_grid_zero(places, matches, n, (c - 1) as nat, b);
        lemma_key_zero(places, matches, n, (c - 1) as int, b);
        assert(grid_sum(places, matches, n, c, b, 0) =~= Multiset::<Window>::empty());
    }
}


proof fn lemma_msum_concat<A, B>(a: Seq<A>, b: Seq<A>, f: spec_fn(A) -> Multiset<B>)
    ensures
        msum(a + b, f) == msum(a, f).add(msum(b, f)),
    decreases b.len(),
{
    broadcast use vstd::multiset::group_multiset_axioms;
    if b.len() == 0 {
        assert(a + b =~= a);
        assert(msum(a, f).add(msum(b, f)) =~= msum(a, f));
    } else {
        lemma_msum_concat(a, b.drop_last(), f);
        assert((a + b).drop_last() =~= a + b.drop_last());
        assert((a + b).last() == b.last());
        assert(msum(a + b, f) =~= msum(a, f).add(msum(b, f)));
    }
}

proof fn lemma_leftover_windows<W>(rest: Seq<LiveWindow>, width: W)
    ensures
        msum(rest.map_values(|w: LiveWindow| leftover_column(w, width)), column_windows::<W>()) == msum(rest, live_windows()),
    decreases rest.len(),
{
    broadcast use vstd::multiset::group_multiset_axioms;
    if rest.len() > 0 {
        let cols = rest.map_values(|w: LiveWindow| leftover_column(w, width));
        lemma_leftover_windows(rest.drop_last(), width);
        assert(cols.drop_last() =~= rest.drop_last().map_values(|w: LiveWindow| leftover_column(w, width)));
        let w = rest.last();
        let win = Window { id: w.id, title: w.title };
        let e = Seq::<Window>::empty();
        vstd::seq_lib::to_multiset_build(e, win);
        vstd::seq_lib::to_multiset_len(e);
        assert(e.to_multiset() =~= Multiset::<Window>::empty());
        assert(seq![win] =~= e.push(win));
        assert(column_windows::<W>()(cols.last()) =~= live_windows()(w));
    }
}

proof fn lemma_keys_windows<W>(
    session: SavedSession<W>,
    places: Seq<(int, int, int)>,
    matches: Seq<Option<(WindowId, String)>>,
    n: int,
    t: int,
    b: nat,
)
    ensures
        msum(
            group_keys(places, matches, n, t, b).map_values(|k: int| group_column(session, places, matches, n, t, k)),
            column_windows::<W>(),
        ) == key_sum(places, matches, n, t, b, places.len()),
    decreases b,
{
    broadcast use vstd::multiset::group_multiset_axioms;
    let g = |k: int| group_column(session, places, matches, n, t, k);
    if b > 0 {
        lemma_keys_windows(session, places, matches, n, t, (b - 1) as nat);
        let prev = group_keys(places, matches, n, t, (b - 1) as nat);
        let wins = group_windows(places, matches, n, t, b - 1, places.len());
        if wins.len() > 0 {
            assert(prev.push(b - 1).map_values(g) =~= prev.map_values(g).push(g(b - 1)));
            lemma_msum_push(prev.map_values(g), g(b - 1), column_windows::<W>());
        } else {
            vstd::seq_lib::to_multiset_len(wins);
            assert(wins.to_multiset() =~= Multiset::<Window>::empty());
            assert(key_sum(places, matches, n, t, b, places.len()) =~= key_sum(
                places,
                matches,
                n,
                t,
                (b - 1) as nat,
                places.len(),
            ));
        }
    } else {
        assert(group_keys(places, matches, n, t, b).map_values(g) =~= Seq::<crate::layout::ColumnModel<W>>::empty());
    }
}

proof fn lemma_workspaces_windows<W>(m: LayoutModel<W>, session: SavedSession<W>, pool: Seq<LiveWindow>, width: W, c: nat)
    requires
        0 < c <= m.workspaces.len(),
    ensures
        msum(restored(m, session, pool, width).workspaces.take(c as int), workspace_windows_fn::<W>()) == grid_sum(
            session_places(session.workspaces@),
            matching(session, pool).0,
            m.workspaces.len() as int,
            c,
            col_bound(session.workspaces@),
            session_places(session.workspaces@).len(),
        ).add(msum(matching(session, pool).1, live_windows())),
    decreases c,
{
    broadcast use vstd::multiset::group_multiset_axioms;
    let places = session_places(session.workspaces@);
    let found = matching(session, pool);
    let n = m.workspaces.len() as int;
    let b = col_bound(session.workspaces@);
    let wss = restored(m, session, pool, width).workspaces;
    let t = c - 1;
    let keys = group_keys(places, found.0, n, t, b);
    let groups = keys.map_values(|k: int| group_column(session, places, found.0, n, t, k));
    lemma_keys_windows(session, places, found.0, n, t, b);
    assert(wss.take(c as int).drop_last() =~= wss.take(t));
    assert(wss.take(c as int).last() == wss[t]);
    assert(wss[t].columns == restored_columns(session, pool, n, t, width));
    if c == 1 {
        let left = found.1.map_values(|w: LiveWindow| leftover_column(w, width));
        lemma_msum_concat(groups, left, column_windows::<W>());
        lemma_leftover_windows(found.1, width);
        assert(wss.take(0) =~= Seq::<WorkspaceModel<W>>::empty());
        assert(workspace_windows(wss[t]) == msum(groups + left, column_windows::<W>()));
        assert(grid_sum(places, found.0, n, 0, b, places.len()) == Multiset::<Window>::empty());
        assert(msum(wss.take(0), workspace_windows_fn::<W>()) == Multiset::<Window>::empty());
        lemma_msum_push(wss.take(0), wss[t], workspace_windows_fn::<W>());
        assert(wss.take(0).push(wss[t]) =~= wss.take(c as int));
        assert(msum(wss.take(c as int), workspace_windows_fn::<W>()) =~= grid_sum(places, found.0, n, c, b, places.len()).add(
            msum(found.1, live_windows()),
        ));
    } else {
        lemma_workspaces_windows(m, session, pool, width, (c - 1) as nat);
        assert(workspace_windows(wss[t]) == msum(groups, column_windows::<W>()));
        assert(msum(wss.take(c as int), workspace_windows_fn::<W>()) =~= grid_sum(places, found.0, n, c, b, places.len()).add(
            msum(found.1, live_windows()),
        ));
    }
}


proof fn lemma_workspace_places_in<W>(w: int, cols: Seq<crate::session::SavedColumn<W>>)
    ensures
        forall|i: int|
            0 <= i < workspace_places(w, cols).len() ==> {
                let p = #[trigger] workspace_places(w, cols)[i];
                p.0 == w && 0 <= p.1 < cols.len() && 0 <= p.2 < cols[p.1].windows@.len()
            },
    decreases cols.len(),
{
    if cols.len() > 0 {
        lemma_workspace_places_in(w, cols.drop_last());
        let a = workspace_places(w, cols.drop_last());
        let c = column_places(w, cols.len() - 1, cols.last().windows@.len());
        assert forall|i: int| 0 <= i < workspace_places(w, cols).len() implies {
            let p = #[trigger] workspace_places(w, cols)[i];
            p.0 == w && 0 <= p.1 < cols.len() && 0 <= p.2 < cols[p.1].windows@.len()
        } by {
            if i < a.len() {
                assert(workspace_places(w, cols)[i] == a[i]);
                assert(cols.drop_last()[a[i].1] == cols[a[i].1]);
            } else {
                assert(workspace_places(w, cols)[i] == c[i - a.len()]);
            }
        }
    }
}

/// Every place of a session names a workspace of it and a column of that
/// workspace.
proof fn lemma_places_in<W>(wss: Seq<SavedWorkspace<W>>)
    ensures
        forall|i: int|
            0 <= i < session_places(wss).len() ==> {
                let p = #[trigger] session_places(wss)[i];
                0 <= p.0 < wss.len() && 0 <= p.1 < wss[p.0].columns@.len() && 0 <= p.2 < wss[p.0].columns@[p.1].windows@.len()
            },
    decreases wss.len(),
{
    if wss.len() > 0 {
        let front = wss.drop_last();
        lemma_places_in(front);
        let w = wss.len() - 1;
        lemma_workspace_places_in(w, wss.last().columns@);
        let a = session_places(front);
        let c = workspace_places(w, wss.last().columns@);
        assert forall|i: int| 0 <= i < session_places(wss).len() implies {
            let p = #[trigger] session_places(wss)[i];
            0 <= p.0 < wss.len() && 0 <= p.1 < wss[p.0].columns@.len() && 0 <= p.2 < wss[p.0].columns@[p.1].windows@.len()
        } by {
            if i < a.len() {
                assert(session_places(wss)[i] == a[i]);
                assert(front[a[i].0] == wss[a[i].0]);
            } else {
                assert(session_places(wss)[i] == c[i - a.len()]);
            }
        }
    }
}

proof fn lemma_col_bound<W>(wss: Seq<SavedWorkspace<W>>, w: int)
    requires
        0 <= w < wss.len(),
    ensures
        wss[w].columns@.len() <= col_bound(wss),
    decreases wss.len(),
{
    if w < wss.len() - 1 {
        lemma_col_bound(wss.drop_last(), w);
        assert(wss.drop_last()[w] == wss[w]);
    }
}

proof fn lemma_matching_len<W>(session: SavedSession<W>, pool: Seq<LiveWindow>)
    ensures
        matching(session, pool).0.len() == session_places(session.workspaces@).len(),
{
    let places = session_places(session.workspaces@);
    let n = places.len();
    let none = Seq::new(n, |i: int| None::<(WindowId, String)>);
    lemma_run_round_frame(1, session, places, none, pool, n);
    let r1 = run_round(1, session, places, none, pool, n);
    lemma_run_round_frame(2, session, places, r1.0, r1.1, n);
    let r2 = run_round(2, session, places, r1.0, r1.1, n);
    lemma_run_round_frame(3, session, places, r2.0, r2.1, n);
    let r3 = run_round(3, session, places, r2.0, r2.1, n);
    lemma_run_round_frame(4, session, places, r3.0, r3.1, n);
}

/// Restoring a session places every live window in the layout exactly
/// once: the windows of the restored layout are the live windows, whatever
/// the session holds.
pub proof fn law_restore_places_every_live_window<W>(
    m: LayoutModel<W>,
    session: SavedSession<W>,
    pool: Seq<LiveWindow>,
    width: W,
)
    requires
        m.wf(),
    ensures
        layout_windows(restored(m, session, pool, width)) == msum(pool, live_windows()),
{
    broadcast use vstd::multiset::group_multiset_axioms;
    let places = session_places(session.workspaces@);
    let found = matching(session, pool);
    let n = m.workspaces.len() as int;
    let b = col_bound(session.workspaces@);
    let len = places.len();
    lemma_matching_keeps(session, pool);
    lemma_matching_len(session, pool);
    lemma_places_in(session.workspaces@);
    assert forall|i: int| 0 <= i < len && (#[trigger] found.0[i]) is Some implies in_grid(
        places,
        found.0,
        n,
        n,
        b as int,
        i,
    ) by {
        let p = places[i];
        lemma_col_bound(session.workspaces@, p.0);
    }
    lemma_grid_total(places, found.0, n, n as nat, b, len);
    assert(found.0.take(len as int) =~= found.0);
    lemma_workspaces_windows(m, session, pool, width, n as nat);
    let wss = restored(m, session, pool, width).workspaces;
    assert(wss.take(n) =~= wss);
    assert(layout_windows(restored(m, session, pool, width)) =~= msum(pool, live_windows()));
}


// ---------------------------------------------------------------------------
// Saving then restoring gives the layout back
// ---------------------------------------------------------------------------

/// The window of `m` at place `p`.
pub open spec fn tab_of<W>(m: LayoutModel<W>, p: (int, int, int)) -> Window {
    m.workspaces[p.0].columns[p.1].windows[p.2]
}

/// The windows of `m` at `places`, in order.
pub open spec fn tabs_at<W>(m: LayoutModel<W>, places: Seq<(int, int, int)>) -> Seq<Window> {
    places.map_values(|p: (int, int, int)| tab_of(m, p))
}

/// Every place found the window that `m` has there.
pub open spec fn all_found<W>(m: LayoutModel<W>, places: Seq<(int, int, int)>) -> Seq<Option<(WindowId, String)>> {
    places.map_values(|p: (int, int, int)| Some((tab_of(m, p).id, tab_of(m, p).title)))
}

/// The title and application id by which the first matching round knows a
/// window.
pub open spec fn match_key(w: Window, details: Seq<WindowDetails>) -> (Seq<char>, Option<Seq<char>>) {
    (w.title@, details_of(details, w.id).0)
}

/// A window's match key, counted once.
pub open spec fn key_once(details: Seq<WindowDetails>) -> spec_fn(Window) -> Multiset<(Seq<char>, Option<Seq<char>>)> {
    |w: Window| Multiset::singleton(match_key(w, details))
}

/// A window, counted once.
pub open spec fn window_once() -> spec_fn(Window) -> Multiset<Window> {
    |w: Window| Multiset::singleton(w)
}

/// The sum of `f` over the tabs of a column.
pub open spec fn column_sum<W, X>(f: spec_fn(Window) -> Multiset<X>) -> spec_fn(ColumnModel<W>) -> Multiset<X> {
    |c: ColumnModel<W>| msum(c.windows, f)
}

/// The sum of `f` over the tabs of a workspace.
pub open spec fn workspace_sum<W, X>(f: spec_fn(Window) -> Multiset<X>) -> spec_fn(WorkspaceModel<W>) -> Multiset<X> {
    |ws: WorkspaceModel<W>| msum(ws.columns, column_sum::<W, X>(f))
}

/// The sum of `f` over every tab of `m`.
pub open spec fn tab_sum<W, X>(m: LayoutModel<W>, f: spec_fn(Window) -> Multiset<X>) -> Multiset<X> {
    msum(m.workspaces, workspace_sum::<W, X>(f))
}

/// The layout `m` with every workspace focused on its first column.
pub open spec fn first_columns_focused<W>(m: LayoutModel<W>) -> LayoutModel<W> {
    LayoutModel {
        workspaces: m.workspaces.map_values(|ws: WorkspaceModel<W>| WorkspaceModel { columns: ws.columns, focused: 0 }),
        ..m
    }
}

/// The saved session has the shape of `m`: as many workspaces, columns and
/// tabs.
pub open spec fn same_shape<W>(saved: SavedSession<W>, m: LayoutModel<W>) -> bool {
    &&& saved.workspaces@.len() == m.workspaces.len()
    &&& forall|w: int| 0 <= w < m.workspaces.len() ==> #[trigger] saved.workspaces@[w].columns@.len() == m.workspaces[w].columns.len()
    &&& forall|w: int, c: int|
        0 <= w < m.workspaces.len() && 0 <= c < m.workspaces[w].columns.len() ==> #[trigger] saved.workspaces@[w].columns@[c].windows@.len()
            == m.workspaces[w].columns[c].windows.len()
}

proof fn lemma_records_shape<W>(saved: SavedSession<W>, m: LayoutModel<W>, details: Seq<WindowDetails>)
    requires
        records_layout(saved, m, details),
    ensures
        same_shape(saved, m),
{
    assert forall|w: int, c: int|
        0 <= w < m.workspaces.len() && 0 <= c < m.workspaces[w].columns.len() implies #[trigger] saved.workspaces@[w].columns@[c].windows@.len()
            == m.workspaces[w].columns[c].windows.len() by {
        assert(crate::session::records_workspace(saved.workspaces@[w], m.workspaces[w], details));
        assert(crate::session::records_column(saved.workspaces@[w].columns@[c], m.workspaces[w].columns[c], details));
    }
    assert forall|w: int| 0 <= w < m.workspaces.len() implies #[trigger] saved.workspaces@[w].columns@.len()
        == m.workspaces[w].columns.len() by {
        assert(crate::session::records_workspace(saved.workspaces@[w], m.workspaces[w], details));
    }
}

proof fn lemma_msum_congruent<A, B>(s: Seq<A>, f: spec_fn(A) -> Multiset<B>, g: spec_fn(A) -> Multiset<B>)
    requires
        forall|i: int| 0 <= i < s.len() ==> f(#[trigger] s[i]) == g(s[i]),
    ensures
        msum(s, f) == msum(s, g),
    decreases s.len(),
{
    if s.len() > 0 {
        assert forall|i: int| 0 <= i < s.drop_last().len() implies f(#[trigger] s.drop_last()[i]) == g(s.drop_last()[i]) by {
            assert(s.drop_last()[i] == s[i]);
        }
        lemma_msum_congruent(s.drop_last(), f, g);
        assert(f(s.last()) == g(s[s.len() - 1]));
    }
}

proof fn lemma_msum_once<A>(s: Seq<A>)
    ensures
        msum(s, |a: A| Multiset::singleton(a)) == s.to_multiset(),
    decreases s.len(),
{
    broadcast use vstd::multiset::group_multiset_axioms;
    if s.len() == 0 {
        vstd::seq_lib::to_multiset_len(s);
        assert(s.to_multiset() =~= Multiset::<A>::empty());
    } else {
        lemma_msum_once(s.drop_last());
        vstd::seq_lib::to_multiset_build(s.drop_last(), s.last());
        assert(s.drop_last().push(s.last()) =~= s);
        assert(msum(s, |a: A| Multiset::singleton(a)) =~= s.to_multiset());
    }
}

proof fn lemma_map_concat<A, B>(a: Seq<A>, b: Seq<A>, f: spec_fn(A) -> B)
    ensures
        (a + b).map_values(f) == a.map_values(f) + b.map_values(f),
{
    assert((a + b).map_values(f) =~= a.map_values(f) + b.map_values(f));
}

proof fn lemma_workspace_tab_sum<W, X>(
    m: LayoutModel<W>,
    saved: SavedSession<W>,
    w: int,
    j: int,
    f: spec_fn(Window) -> Multiset<X>,
)
    requires
        same_shape(saved, m),
        0 <= w < m.workspaces.len(),
        0 <= j <= m.workspaces[w].columns.len(),
    ensures
        msum(tabs_at(m, workspace_places(w, saved.workspaces@[w].columns@.take(j))), f) == msum(
            m.workspaces[w].columns.take(j),
            column_sum::<W, X>(f),
        ),
    decreases j,
{
    broadcast use vstd::multiset::group_multiset_axioms;
    let cols = saved.workspaces@[w].columns@;
    let mcols = m.workspaces[w].columns;
    assert(cols.len() == mcols.len());
    if j == 0 {
        assert(cols.take(0) =~= Seq::<SavedColumn<W>>::empty());
        assert(tabs_at(m, workspace_places(w, cols.take(0))) =~= Seq::<Window>::empty());
        assert(mcols.take(0) =~= Seq::<ColumnModel<W>>::empty());
    } else {
        lemma_workspace_tab_sum(m, saved, w, j - 1, f);
        let front = workspace_places(w, cols.take(j - 1));
        assert(cols.take(j).drop_last() =~= cols.take(j - 1));
        assert(cols.take(j).last() == cols[j - 1]);
        let n = cols[j - 1].windows@.len();
        assert(n == mcols[j - 1].windows.len());
        let cp = column_places(w, j - 1, n);
        assert(workspace_places(w, cols.take(j)) == front + cp);
        let g = |p: (int, int, int)| tab_of(m, p);
        lemma_map_concat(front, cp, g);
        assert(tabs_at(m, cp) =~= mcols[j - 1].windows);
        lemma_msum_concat(tabs_at(m, front), tabs_at(m, cp), f);
        assert(mcols.take(j).drop_last() =~= mcols.take(j - 1));
        assert(mcols.take(j).last() == mcols[j - 1]);
    }
}

proof fn lemma_session_tab_sum<W, X>(m: LayoutModel<W>, saved: SavedSession<W>, k: int, f: spec_fn(Window) -> Multiset<X>)
    requires
        same_shape(saved, m),
        0 <= k <= m.workspaces.len(),
    ensures
        msum(tabs_at(m, session_places(saved.workspaces@.take(k))), f) == msum(m.workspaces.take(k), workspace_sum::<W, X>(f)),
    decreases k,
{
    broadcast use vstd::multiset::group_multiset_axioms;
    let wss = saved.workspaces@;
    if k == 0 {
        assert(wss.take(0) =~= Seq::<SavedWorkspace<W>>::empty());
        assert(tabs_at(m, session_places(wss.take(0))) =~= Seq::<Window>::empty());
        assert(m.workspaces.take(0) =~= Seq::<WorkspaceModel<W>>::empty());
    } else {
        lemma_session_tab_sum(m, saved, k - 1, f);
        assert(wss.take(k).drop_last() =~= wss.take(k - 1));
        assert(wss.take(k).last() == wss[k - 1]);
        let front = session_places(wss.take(k - 1));
        let cols = wss[k - 1].columns@;
        let wp = workspace_places(k - 1, cols);
        assert(session_places(wss.take(k)) == front + wp);
        lemma_map_concat(front, wp, |p: (int, int, int)| tab_of(m, p));
        lemma_msum_concat(tabs_at(m, front), tabs_at(m, wp), f);
        lemma_workspace_tab_sum(m, saved, k - 1, m.workspaces[k - 1].columns.len() as int, f);
        assert(cols.take(cols.len() as int) =~= cols);
        assert(m.workspaces[k - 1].columns.take(m.workspaces[k - 1].columns.len() as int) =~= m.workspaces[k - 1].columns);
        assert(m.workspaces.take(k).drop_last() =~= m.workspaces.take(k - 1));
        assert(m.workspaces.take(k).last() == m.workspaces[k - 1]);
    }
}

/// Summing over the saved places of a session shaped like `m` sums over
/// the tabs of `m`.
proof fn lemma_places_sum<W, X>(m: LayoutModel<W>, saved: SavedSession<W>, f: spec_fn(Window) -> Multiset<X>)
    requires
        same_shape(saved, m),
    ensures
        msum(tabs_at(m, session_places(saved.workspaces@)), f) == tab_sum(m, f),
{
    lemma_session_tab_sum(m, saved, m.workspaces.len() as int, f);
    assert(saved.workspaces@.take(m.workspaces.len() as int) =~= saved.workspaces@);
    assert(m.workspaces.take(m.workspaces.len() as int) =~= m.workspaces);
}

/// The tabs of `m`, counted once each, are its windows.
proof fn lemma_tab_sum_windows<W>(m: LayoutModel<W>)
    ensures
        tab_sum(m, window_once()) == layout_windows(m),
{
    assert forall|w: int| 0 <= w < m.workspaces.len() implies workspace_sum::<W, Window>(window_once())(
        #[trigger] m.workspaces[w],
    ) == workspace_windows_fn::<W>()(m.workspaces[w]) by {
        let ws = m.workspaces[w];
        assert forall|c: int| 0 <= c < ws.columns.len() implies column_sum::<W, Window>(window_once())(#[trigger] ws.columns[c])
            == column_windows::<W>()(ws.columns[c]) by {
            lemma_msum_once(ws.columns[c].windows);
            assert(window_once() == |a: Window| Multiset::singleton(a));
        }
        lemma_msum_congruent(ws.columns, column_sum::<W, Window>(window_once()), column_windows::<W>());
    }
    lemma_msum_congruent(m.workspaces, workspace_sum::<W, Window>(window_once()), workspace_windows_fn::<W>());
}


proof fn lemma_group_prefix(
    p1: Seq<(int, int, int)>,
    m1: Seq<Option<(WindowId, String)>>,
    p2: Seq<(int, int, int)>,
    m2: Seq<Option<(WindowId, String)>>,
    n: int,
    t: int,
    k: int,
    u: nat,
)
    requires
        forall|i: int| 0 <= i < u ==> p1[i] == p2[i] && m1[i] == m2[i],
    ensures
        group_windows(p1, m1, n, t, k, u) == group_windows(p2, m2, n, t, k, u),
    decreases u,
{
    if u > 0 {
        lemma_group_prefix(p1, m1, p2, m2, n, t, k, (u - 1) as nat);
        assert(p1[u - 1] == p2[u - 1] && m1[u - 1] == m2[u - 1]);
    }
}

proof fn lemma_group_concat(
    a: Seq<(int, int, int)>,
    ma: Seq<Option<(WindowId, String)>>,
    b: Seq<(int, int, int)>,
    mb: Seq<Option<(WindowId, String)>>,
    n: int,
    t: int,
    k: int,
    j: nat,
)
    requires
        ma.len() == a.len(),
        mb.len() == b.len(),
        j <= b.len(),
    ensures
        group_windows(a + b, ma + mb, n, t, k, a.len() + j) == group_windows(a, ma, n, t, k, a.len()) + group_windows(
            b,
            mb,
            n,
            t,
            k,
            j,
        ),
    decreases j,
{
    if j == 0 {
        assert forall|i: int| 0 <= i < a.len() implies (a + b)[i] == a[i] && (ma + mb)[i] == ma[i] by {}
        lemma_group_prefix(a + b, ma + mb, a, ma, n, t, k, a.len());
        assert(group_windows(a, ma, n, t, k, a.len()) + Seq::<Window>::empty() =~= group_windows(a, ma, n, t, k, a.len()));
    } else {
        lemma_group_concat(a, ma, b, mb, n, t, k, (j - 1) as nat);
        let i = a.len() + j - 1;
        assert((a + b)[i] == b[j - 1]);
        assert((ma + mb)[i] == mb[j - 1]);
        let front = group_windows(a, ma, n, t, k, a.len());
        let back = group_windows(b, mb, n, t, k, (j - 1) as nat);
        if in_group(b, mb, n, j - 1, t, k) {
            assert((front + back).push(window_of(mb[j - 1])) =~= front + back.push(window_of(mb[j - 1])));
        }
    }
}

proof fn lemma_column_group<W>(m: LayoutModel<W>, w: int, c: int, len: nat, n: int, t: int, k: int, u: nat)
    requires
        0 <= w < n,
        u <= len,
    ensures
        group_windows(column_places(w, c, len), all_found(m, column_places(w, c, len)), n, t, k, u) == (if t == w && k == c {
            tabs_at(m, column_places(w, c, len)).take(u as int)
        } else {
            Seq::<Window>::empty()
        }),
    decreases u,
{
    let cp = column_places(w, c, len);
    if u == 0 {
        assert(tabs_at(m, cp).take(0) =~= Seq::<Window>::empty());
    } else {
        lemma_column_group(m, w, c, len, n, t, k, (u - 1) as nat);
        let i = u - 1;
        assert(cp[i] == (w, c, i));
        assert(target_of(cp[i], n) == w);
        let tab = tab_of(m, cp[i]);
        assert(window_of(all_found(m, cp)[i]) == tab);
        if t == w && k == c {
            assert(tabs_at(m, cp).take(i).push(tab) =~= tabs_at(m, cp).take(u as int));
        }
    }
}

proof fn lemma_workspace_group<W>(m: LayoutModel<W>, saved: SavedSession<W>, w: int, j: int, t: int, k: int)
    requires
        same_shape(saved, m),
        0 <= w < m.workspaces.len(),
        0 <= j <= m.workspaces[w].columns.len(),
    ensures
        ({
            let wp = workspace_places(w, saved.workspaces@[w].columns@.take(j));
            group_windows(wp, all_found(m, wp), m.workspaces.len() as int, t, k, wp.len()) == (if t == w && 0 <= k < j {
                m.workspaces[w].columns[k].windows
            } else {
                Seq::<Window>::empty()
            })
        }),
    decreases j,
{
    let n = m.workspaces.len() as int;
    let cols = saved.workspaces@[w].columns@;
    if j == 0 {
        assert(cols.take(0) =~= Seq::<SavedColumn<W>>::empty());
    } else {
        lemma_workspace_group(m, saved, w, j - 1, t, k);
        assert(cols.take(j).drop_last() =~= cols.take(j - 1));
        assert(cols.take(j).last() == cols[j - 1]);
        let front = workspace_places(w, cols.take(j - 1));
        let len = cols[j - 1].windows@.len();
        assert(len == m.workspaces[w].columns[j - 1].windows.len());
        let cp = column_places(w, j - 1, len);
        assert(workspace_places(w, cols.take(j)) == front + cp);
        lemma_map_concat(front, cp, |p: (int, int, int)| Some((tab_of(m, p).id, tab_of(m, p).title)));
        lemma_group_concat(front, all_found(m, front), cp, all_found(m, cp), n, t, k, len);
        lemma_column_group(m, w, j - 1, len, n, t, k, len);
        assert(tabs_at(m, cp).take(len as int) =~= m.workspaces[w].columns[j - 1].windows);
    }
}

proof fn lemma_session_group<W>(m: LayoutModel<W>, saved: SavedSession<W>, kk: int, t: int, k: int)
    requires
        same_shape(saved, m),
        0 <= kk <= m.workspaces.len(),
    ensures
        ({
            let sp = session_places(saved.workspaces@.take(kk));
            group_windows(sp, all_found(m, sp), m.workspaces.len() as int, t, k, sp.len()) == (if 0 <= t < kk && 0 <= k
                < m.workspaces[t].columns.len() {
                m.workspaces[t].columns[k].windows
            } else {
                Seq::<Window>::empty()
            })
        }),
    decreases kk,
{
    let n = m.workspaces.len() as int;
    let wss = saved.workspaces@;
    if kk == 0 {
        assert(wss.take(0) =~= Seq::<SavedWorkspace<W>>::empty());
    } else {
        lemma_session_group(m, saved, kk - 1, t, k);
        assert(wss.take(kk).drop_last() =~= wss.take(kk - 1));
        assert(wss.take(kk).last() == wss[kk - 1]);
        let front = session_places(wss.take(kk - 1));
        let cols = wss[kk - 1].columns@;
        let wp = workspace_places(kk - 1, cols);
        assert(session_places(wss.take(kk)) == front + wp);
        lemma_map_concat(front, wp, |p: (int, int, int)| Some((tab_of(m, p).id, tab_of(m, p).title)));
        lemma_group_concat(front, all_found(m, front), wp, all_found(m, wp), n, t, k, wp.len());
        lemma_workspace_group(m, saved, kk - 1, m.workspaces[kk - 1].columns.len() as int, t, k);
        assert(cols.take(cols.len() as int) =~= cols);
        if 0 <= t < kk - 1 && 0 <= k < m.workspaces[t].columns.len() {
            assert(m.workspaces[t].columns[k].windows + Seq::<Window>::empty() =~= m.workspaces[t].columns[k].windows);
        } else {
            assert(Seq::<Window>::empty() + Seq::<Window>::empty() =~= Seq::<Window>::empty());
        }
    }
}

proof fn lemma_group_head(
    places: Seq<(int, int, int)>,
    matches: Seq<Option<(WindowId, String)>>,
    n: int,
    t: int,
    k: int,
    u: nat,
)
    ensures
        (group_windows(places, matches, n, t, k, u).len() > 0) == (group_head(places, matches, n, t, k, u) is Some),
        group_head(places, matches, n, t, k, u) is Some ==> {
            let h = group_head(places, matches, n, t, k, u).unwrap();
            0 <= h < u && in_group(places, matches, n, h, t, k)
        },
    decreases u,
{
    if u > 0 {
        lemma_group_head(places, matches, n, t, k, (u - 1) as nat);
    }
}


proof fn lemma_once_member<A, B>(s: Seq<A>, f: spec_fn(A) -> Multiset<B>, g: spec_fn(A) -> B, x: B)
    requires
        forall|i: int| 0 <= i < s.len() ==> f(#[trigger] s[i]) == Multiset::singleton(g(s[i])),
        msum(s, f).count(x) > 0,
    ensures
        exists|i: int| 0 <= i < s.len() && g(#[trigger] s[i]) == x,
    decreases s.len(),
{
    broadcast use vstd::multiset::group_multiset_axioms;
    if s.len() > 0 {
        let last = s.len() - 1;
        assert(f(s[last]) == Multiset::singleton(g(s[last])));
        if g(s[last]) != x {
            assert forall|i: int| 0 <= i < s.drop_last().len() implies f(#[trigger] s.drop_last()[i]) == Multiset::singleton(
                g(s.drop_last()[i]),
            ) by {
                assert(s.drop_last()[i] == s[i]);
            }
            lemma_once_member(s.drop_last(), f, g, x);
            let i = choose|i: int| 0 <= i < s.drop_last().len() && g(#[trigger] s.drop_last()[i]) == x;
            assert(s.drop_last()[i] == s[i]);
        }
    }
}

proof fn lemma_once_count<A, B>(s: Seq<A>, f: spec_fn(A) -> Multiset<B>, g: spec_fn(A) -> B, i: int)
    requires
        forall|q: int| 0 <= q < s.len() ==> f(#[trigger] s[q]) == Multiset::singleton(g(s[q])),
        0 <= i < s.len(),
    ensures
        msum(s, f).count(g(s[i])) >= 1,
    decreases s.len(),
{
    broadcast use vstd::multiset::group_multiset_axioms;
    let last = s.len() - 1;
    assert(f(s[last]) == Multiset::singleton(g(s[last])));
    if i < last {
        assert forall|q: int| 0 <= q < s.drop_last().len() implies f(#[trigger] s.drop_last()[q]) == Multiset::singleton(
            g(s.drop_last()[q]),
        ) by {
            assert(s.drop_last()[q] == s[q]);
        }
        lemma_once_count(s.drop_last(), f, g, i);
        assert(s.drop_last()[i] == s[i]);
    }
}

proof fn lemma_twice_count<A, B>(s: Seq<A>, f: spec_fn(A) -> Multiset<B>, g: spec_fn(A) -> B, i: int, j: int)
    requires
        forall|q: int| 0 <= q < s.len() ==> f(#[trigger] s[q]) == Multiset::singleton(g(s[q])),
        0 <= i < j < s.len(),
        g(s[i]) == g(s[j]),
    ensures
        msum(s, f).count(g(s[i])) >= 2,
    decreases s.len(),
{
    broadcast use vstd::multiset::group_multiset_axioms;
    let last = s.len() - 1;
    assert(f(s[last]) == Multiset::singleton(g(s[last])));
    assert forall|q: int| 0 <= q < s.drop_last().len() implies f(#[trigger] s.drop_last()[q]) == Multiset::singleton(
        g(s.drop_last()[q]),
    ) by {
        assert(s.drop_last()[q] == s[q]);
    }
    assert(s.drop_last()[i] == s[i]);
    if j < last {
        assert(s.drop_last()[j] == s[j]);
        lemma_twice_count(s.drop_last(), f, g, i, j);
    } else {
        lemma_once_count(s.drop_last(), f, g, i);
    }
}

proof fn lemma_once_empty<A, B>(s: Seq<A>, f: spec_fn(A) -> Multiset<B>, g: spec_fn(A) -> B)
    requires
        forall|q: int| 0 <= q < s.len() ==> f(#[trigger] s[q]) == Multiset::singleton(g(s[q])),
        msum(s, f) == Multiset::<B>::empty(),
    ensures
        s.len() == 0,
{
    broadcast use vstd::multiset::group_multiset_axioms;
    if s.len() > 0 {
        lemma_once_count(s, f, g, 0);
    }
}

/// A live window as a window.
pub open spec fn as_window() -> spec_fn(LiveWindow) -> Window {
    |w: LiveWindow| Window { id: w.id, title: w.title }
}

/// No tabs at two places share a match key.
pub open spec fn keys_distinct(tabs: Seq<Window>, details: Seq<WindowDetails>) -> bool {
    forall|i: int, j: int| 0 <= i < j < tabs.len() ==> match_key(#[trigger] tabs[i], details) != match_key(#[trigger] tabs[j], details)
}

/// Every live window's application id is the one `details` knows.
pub open spec fn ids_known(pool: Seq<LiveWindow>, details: Seq<WindowDetails>) -> bool {
    forall|j: int| 0 <= j < pool.len() ==> opt_text(#[trigger] pool[j].app_id) == details_of(details, pool[j].id).0
}

/// No tab found a window yet.
pub open spec fn nones(n: nat) -> Seq<Option<(WindowId, String)>> {
    Seq::new(n, |i: int| None::<(WindowId, String)>)
}

proof fn lemma_tab_records<W>(m: LayoutModel<W>, saved: SavedSession<W>, details: Seq<WindowDetails>, i: int)
    requires
        records_layout(saved, m, details),
        0 <= i < session_places(saved.workspaces@).len(),
    ensures
        crate::session::records_window(
            tab_at(saved, session_places(saved.workspaces@)[i]),
            tab_of(m, session_places(saved.workspaces@)[i]),
            details,
        ),
{
    lemma_places_in(saved.workspaces@);
    let p = session_places(saved.workspaces@)[i];
    assert(crate::session::records_workspace(saved.workspaces@[p.0], m.workspaces[p.0], details));
    assert(crate::session::records_column(saved.workspaces@[p.0].columns@[p.1], m.workspaces[p.0].columns[p.1], details));
}

proof fn lemma_first_round<W>(
    m: LayoutModel<W>,
    saved: SavedSession<W>,
    details: Seq<WindowDetails>,
    pool: Seq<LiveWindow>,
    k: nat,
)
    requires
        records_layout(saved, m, details),
        k <= session_places(saved.workspaces@).len(),
        msum(pool, live_windows()) == msum(tabs_at(m, session_places(saved.workspaces@)), window_once()),
        ids_known(pool, details),
        keys_distinct(tabs_at(m, session_places(saved.workspaces@)), details),
    ensures
        run_round(
            1,
            saved,
            session_places(saved.workspaces@),
            nones(session_places(saved.workspaces@).len()),
            pool,
            k,
        ).0 == all_found(m, session_places(saved.workspaces@)).take(k as int) + nones(
            (session_places(saved.workspaces@).len() - k) as nat,
        ),
        msum(
            run_round(1, saved, session_places(saved.workspaces@), nones(session_places(saved.workspaces@).len()), pool, k).1,
            live_windows(),
        ) == msum(tabs_at(m, session_places(saved.workspaces@)).skip(k as int), window_once()),
        ids_known(
            run_round(1, saved, session_places(saved.workspaces@), nones(session_places(saved.workspaces@).len()), pool, k).1,
            details,
        ),
    decreases k,
{
    broadcast use vstd::multiset::group_multiset_axioms;
    let places = session_places(saved.workspaces@);
    let len = places.len();
    let tabs = tabs_at(m, places);
    let found = all_found(m, places);
    if k == 0 {
        assert(found.take(0) + nones(len) =~= nones(len));
        assert(tabs.skip(0) =~= tabs);
    } else {
        let j = (k - 1) as nat;
        lemma_first_round(m, saved, details, pool, j);
        let prev = run_round(1, saved, places, nones(len), pool, j);
        let pl = prev.1;
        assert(prev.0[j as int] == (found.take(j as int) + nones((len - j) as nat))[j as int]);
        assert(prev.0[j as int] is None);
        let st = tab_at(saved, places[j as int]);
        let x = tabs[j as int];
        lemma_tab_records(m, saved, details, j as int);
        let lw = as_window();
        let idw = |w: Window| w;
        assert forall|q: int| 0 <= q < pl.len() implies live_windows()(#[trigger] pl[q]) == Multiset::singleton(lw(pl[q])) by {}
        let rest = tabs.skip(j as int);
        assert forall|q: int| 0 <= q < rest.len() implies window_once()(#[trigger] rest[q]) == Multiset::singleton(idw(rest[q])) by {}
        assert(rest[0] == x);
        lemma_once_count(rest, window_once(), idw, 0);
        lemma_once_member(pl, live_windows(), lw, x);
        let q = choose|q: int| 0 <= q < pl.len() && lw(#[trigger] pl[q]) == x;
        assert(fits(1, st, pl[q]));
        lemma_first_fit(1, st, pl);
        let p = first_fit(1, st, pl).unwrap();
        let y = lw(pl[p]);
        assert(match_key(y, details) == match_key(x, details));
        lemma_once_count(pl, live_windows(), lw, p);
        lemma_once_member(rest, window_once(), idw, y);
        let i2 = choose|i2: int| 0 <= i2 < rest.len() && idw(#[trigger] rest[i2]) == y;
        assert(rest[i2] == tabs[j + i2]);
        if i2 > 0 {
            assert(match_key(tabs[j as int], details) != match_key(tabs[j + i2], details));
        }
        assert(y == x);
        let step = round_step(1, st, prev.0[j as int], pl);
        assert(step.0 == found[j as int]);
        let next = prev.0.update(j as int, step.0);
        assert(next =~= found.take(k as int) + nones((len - k) as nat));
        lemma_msum_remove(pl, p, live_windows());
        lemma_msum_remove(rest, 0, window_once());
        assert(rest.remove(0) =~= tabs.skip(k as int));
        assert(msum(step.1, live_windows()) =~= msum(tabs.skip(k as int), window_once())) by {
            assert forall|v: Window| msum(step.1, live_windows()).count(v) == msum(tabs.skip(k as int), window_once()).count(v) by {
                assert(msum(step.1, live_windows()).add(live_windows()(pl[p])).count(v) == msum(rest, window_once()).count(v));
                assert(msum(tabs.skip(k as int), window_once()).add(window_once()(rest[0])).count(v) == msum(rest, window_once()).count(v));
            }
        }
        assert forall|q2: int| 0 <= q2 < step.1.len() implies opt_text(#[trigger] step.1[q2].app_id) == details_of(
            details,
            step.1[q2].id,
        ).0 by {
            if q2 < p {
                assert(step.1[q2] == pl[q2]);
            } else {
                assert(step.1[q2] == pl[q2 + 1]);
            }
        }
    }
}


proof fn lemma_round_idle<W>(
    round: int,
    session: SavedSession<W>,
    places: Seq<(int, int, int)>,
    matches: Seq<Option<(WindowId, String)>>,
    pool: Seq<LiveWindow>,
    n: nat,
)
    requires
        n <= matches.len(),
        forall|i: int| 0 <= i < n ==> (#[trigger] matches[i]) is Some,
    ensures
        run_round(round, session, places, matches, pool, n) == (matches, pool),
    decreases n,
{
    if n > 0 {
        lemma_round_idle(round, session, places, matches, pool, (n - 1) as nat);
        assert(matches[n - 1] is Some);
        assert(matches.update(n - 1, matches[n - 1]) =~= matches);
    }
}

/// When the live windows are the layout's own windows, each with the
/// application id it was saved with, and no two windows share title and
/// application id, every saved tab finds its own window in the first round
/// and no live window is left over.
proof fn lemma_matching_finds_all<W>(
    m: LayoutModel<W>,
    saved: SavedSession<W>,
    details: Seq<WindowDetails>,
    pool: Seq<LiveWindow>,
)
    requires
        records_layout(saved, m, details),
        msum(pool, live_windows()) == msum(tabs_at(m, session_places(saved.workspaces@)), window_once()),
        ids_known(pool, details),
        keys_distinct(tabs_at(m, session_places(saved.workspaces@)), details),
    ensures
        matching(saved, pool) == (all_found(m, session_places(saved.workspaces@)), Seq::<LiveWindow>::empty()),
{
    broadcast use vstd::multiset::group_multiset_axioms;
    let places = session_places(saved.workspaces@);
    let len = places.len();
    let tabs = tabs_at(m, places);
    let found = all_found(m, places);
    lemma_first_round(m, saved, details, pool, len);
    let r1 = run_round(1, saved, places, nones(len), pool, len);
    assert(found.take(len as int) + nones(0) =~= found);
    assert(nones(len) =~= Seq::new(len, |i: int| None::<(WindowId, String)>));
    assert(tabs.skip(len as int) =~= Seq::<Window>::empty());
    assert(msum(tabs.skip(len as int), window_once()) == Multiset::<Window>::empty());
    let lw = as_window();
    assert forall|q: int| 0 <= q < r1.1.len() implies live_windows()(#[trigger] r1.1[q]) == Multiset::singleton(lw(r1.1[q])) by {}
    lemma_once_empty(r1.1, live_windows(), lw);
    assert(r1.1 =~= Seq::<LiveWindow>::empty());
    assert forall|i: int| 0 <= i < len implies (#[trigger] found[i]) is Some by {}
    lemma_round_idle(2, saved, places, found, r1.1, len);
    lemma_round_idle(3, saved, places, found, r1.1, len);
    lemma_round_idle(4, saved, places, found, r1.1, len);
}


proof fn lemma_keys_all<W>(m: LayoutModel<W>, saved: SavedSession<W>, t: int, b: nat)
    requires
        m.wf(),
        same_shape(saved, m),
        0 <= t < m.workspaces.len(),
    ensures
        group_keys(
            session_places(saved.workspaces@),
            all_found(m, session_places(saved.workspaces@)),
            m.workspaces.len() as int,
            t,
            b,
        ) == Seq::new(
            if b < m.workspaces[t].columns.len() {
                b
            } else {
                m.workspaces[t].columns.len()
            },
            |k: int| k,
        ),
    decreases b,
{
    let places = session_places(saved.workspaces@);
    let found = all_found(m, places);
    let n = m.workspaces.len() as int;
    let cols = m.workspaces[t].columns.len();
    if b == 0 {
        assert(Seq::new(0, |k: int| k) =~= Seq::<int>::empty());
    } else {
        lemma_keys_all(m, saved, t, (b - 1) as nat);
        lemma_session_group(m, saved, n, t, b - 1);
        assert(saved.workspaces@.take(n) =~= saved.workspaces@);
        let prev_len: nat = if b - 1 < cols { (b - 1) as nat } else { cols };
        if b - 1 < cols {
            assert(m.workspaces[t].wf());
            assert(m.workspaces[t].columns[b - 1].wf());
            assert(group_windows(places, found, n, t, b - 1, places.len()).len() > 0);
            assert(Seq::new(prev_len, |k: int| k).push(b - 1) =~= Seq::new(b, |k: int| k));
        } else {
            assert(group_windows(places, found, n, t, b - 1, places.len()).len() == 0);
        }
    }
}

proof fn lemma_group_column_is_column<W>(
    m: LayoutModel<W>,
    saved: SavedSession<W>,
    details: Seq<WindowDetails>,
    t: int,
    k: int,
)
    requires
        m.wf(),
        records_layout(saved, m, details),
        0 <= t < m.workspaces.len(),
        0 <= k < m.workspaces[t].columns.len(),
    ensures
        group_column(
            saved,
            session_places(saved.workspaces@),
            all_found(m, session_places(saved.workspaces@)),
            m.workspaces.len() as int,
            t,
            k,
        ) == m.workspaces[t].columns[k],
{
    let places = session_places(saved.workspaces@);
    let found = all_found(m, places);
    let n = m.workspaces.len() as int;
    lemma_records_shape(saved, m, details);
    lemma_session_group(m, saved, n, t, k);
    assert(saved.workspaces@.take(n) =~= saved.workspaces@);
    let col = m.workspaces[t].columns[k];
    assert(m.workspaces[t].wf());
    assert(col.wf());
    lemma_group_head(places, found, n, t, k, places.len());
    let h = group_head(places, found, n, t, k, places.len()).unwrap();
    lemma_places_in(saved.workspaces@);
    let p = places[h];
    assert(0 <= p.0 < n);
    assert(target_of(p, n) == p.0);
    assert(p.0 == t && p.1 == k);
    assert(crate::session::records_workspace(saved.workspaces@[t], m.workspaces[t], details));
    assert(crate::session::records_column(saved.workspaces@[t].columns@[k], col, details));
    assert(column_at(saved, p) == saved.workspaces@[t].columns@[k]);
}

/// Saving a layout and laying the saved session onto the same windows gives
/// the layout back, every workspace focused on its first column, where the
/// live windows are the layout's own windows (each counted once per tab),
/// each with the application id that was saved for it, and no two tabs share
/// both title and application id.
pub proof fn law_save_then_restore<W>(
    m: LayoutModel<W>,
    saved: SavedSession<W>,
    details: Seq<WindowDetails>,
    pool: Seq<LiveWindow>,
    width: W,
)
    requires
        m.wf(),
        records_layout(saved, m, details),
        msum(pool, live_windows()) == layout_windows(m),
        ids_known(pool, details),
        forall|key: (Seq<char>, Option<Seq<char>>)| #[trigger] tab_sum(m, key_once(details)).count(key) <= 1,
    ensures
        restored(m, saved, pool, width) == first_columns_focused(m),
{
    broadcast use vstd::multiset::group_multiset_axioms;
    let places = session_places(saved.workspaces@);
    let tabs = tabs_at(m, places);
    let found = all_found(m, places);
    let n = m.workspaces.len() as int;
    lemma_records_shape(saved, m, details);
    lemma_places_sum(m, saved, window_once());
    lemma_tab_sum_windows(m);
    lemma_places_sum(m, saved, key_once(details));
    let keyf = |w: Window| match_key(w, details);
    assert forall|q: int| 0 <= q < tabs.len() implies key_once(details)(#[trigger] tabs[q]) == Multiset::singleton(keyf(tabs[q])) by {}
    assert forall|i: int, j: int| 0 <= i < j < tabs.len() implies match_key(#[trigger] tabs[i], details) != match_key(
        #[trigger] tabs[j],
        details,
    ) by {
        if match_key(tabs[i], details) == match_key(tabs[j], details) {
            lemma_twice_count(tabs, key_once(details), keyf, i, j);
            assert(tab_sum(m, key_once(details)).count(match_key(tabs[i], details)) <= 1);
        }
    }
    lemma_matching_finds_all(m, saved, details, pool);
    let b = col_bound(saved.workspaces@);
    let r = restored(m, saved, pool, width);
    let goal = first_columns_focused(m);
    assert forall|t: int| 0 <= t < n implies #[trigger] r.workspaces[t] == goal.workspaces[t] by {
        let cols = m.workspaces[t].columns;
        lemma_col_bound(saved.workspaces@, t);
        lemma_keys_all(m, saved, t, b);
        let keys = group_keys(places, found, n, t, b);
        assert(keys =~= Seq::new(cols.len(), |k: int| k));
        let groups = keys.map_values(|k: int| group_column(saved, places, found, n, t, k));
        assert forall|k: int| 0 <= k < cols.len() implies groups[k] == cols[k] by {
            lemma_group_column_is_column(m, saved, details, t, k);
        }
        assert(groups =~= cols);
        let left = Seq::<LiveWindow>::empty().map_values(|w: LiveWindow| leftover_column(w, width));
        assert(groups + left =~= groups);
        assert(restored_columns(saved, pool, n, t, width) == cols);
    }
    assert(r.workspaces =~= goal.workspaces);
}

/// The matching rounds of a restore: the first takes a live window with the
/// saved tab's title and application id (both absent counting as equal),
/// the second one whose title contains the saved title or is contained in
/// it, the third one that has an application id, the saved tab's, and the
/// fourth any window.
pub proof fn law_matching_rounds(saved: SavedWindow, w: LiveWindow)
    ensures
        fits(1, saved, w) <==> (w.title@ == saved.title@ && match (w.app_id, saved.app_id) {
            (Some(a), Some(b)) => a@ == b@,
            (None, None) => true,
            _ => false,
        }),
        fits(2, saved, w) <==> (occurs_in(w.title@, saved.title@) || occurs_in(saved.title@, w.title@)),
        fits(3, saved, w) <==> (match (w.app_id, saved.app_id) {
            (Some(a), Some(b)) => a@ == b@,
            _ => false,
        }),
        fits(4, saved, w),
{
}

/// In each round a saved tab takes the first window of the pool that the
/// round accepts; in the third round that is the first window carrying the
/// tab's own application id, and no window without it.
pub proof fn law_third_round_takes_first_same_app_id(saved: SavedWindow, pool: Seq<LiveWindow>)
    ensures
        match first_fit(3, saved, pool) {
            Some(i) => {
                &&& 0 <= i < pool.len()
                &&& pool[i].app_id is Some
                &&& saved.app_id is Some
                &&& pool[i].app_id->0@ == saved.app_id->0@
                &&& forall|k: int| 0 <= k < i ==> !(#[trigger] pool[k].app_id is Some && saved.app_id is Some
                    && pool[k].app_id->0@ == saved.app_id->0@)
            },
            None => forall|k: int| 0 <= k < pool.len() ==> !(#[trigger] pool[k].app_id is Some && saved.app_id is Some
                && pool[k].app_id->0@ == saved.app_id->0@),
        },
{
    lemma_first_fit(3, saved, pool);
    match first_fit(3, saved, pool) {
        Some(i) => {
            assert forall|k: int| 0 <= k < i implies !(#[trigger] pool[k].app_id is Some && saved.app_id is Some
                && pool[k].app_id->0@ == saved.app_id->0@) by {
                assert(!fits(3, saved, pool[k]));
            }
        },
        None => {
            assert forall|k: int| 0 <= k < pool.len() implies !(#[trigger] pool[k].app_id is Some && saved.app_id is Some
                && pool[k].app_id->0@ == saved.app_id->0@) by {
                assert(!fits(3, saved, pool[k]));
            }
        },
    }
}

} // verus!
