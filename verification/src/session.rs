//! Saving the layout as a session and laying a saved session back onto the
//! windows that are mapped now.
//!
//! A session records, for every workspace, column and tab, the window's
//! title, application id and command line. Restoring matches the saved tabs
//! against the live windows in four rounds of decreasing strictness, rebuilds
//! the workspaces from the matches, and leaves a pending restore behind for
//! every saved tab that found no window, so that a window mapped later can
//! take its place.

use crate::layout::{single_column, Column, ColumnModel, LayoutEngine, LayoutModel, Window, WindowId, Workspace, WorkspaceModel};
use crate::text::{chars_contain, chars_of, occurs_in};
use vstd::prelude::*;
use vstd::string::StringExecFns;

verus! {

/// A tab of a saved column.
#[derive(Debug, Clone)]
pub struct SavedWindow {
    pub title: String,
    pub app_id: Option<String>,
    pub cmdline: Option<Vec<String>>,
}

/// A saved column.
#[derive(Debug, Clone)]
pub struct SavedColumn<W> {
    pub width: W,
    pub focused_window_idx: usize,
    pub windows: Vec<SavedWindow>,
}

/// A saved workspace.
#[derive(Debug, Clone)]
pub struct SavedWorkspace<W> {
    pub focused_column_idx: usize,
    pub columns: Vec<SavedColumn<W>>,
}

/// A saved layout.
#[derive(Debug, Clone)]
pub struct SavedSession<W> {
    pub active_workspace_idx: usize,
    pub workspaces: Vec<SavedWorkspace<W>>,
}

/// What is known of a mapped window besides its layout entry.
#[derive(Debug, Clone)]
pub struct WindowDetails {
    pub id: WindowId,
    pub app_id: Option<String>,
    pub cmdline: Option<Vec<String>>,
}

/// A window that is mapped at the time a session is restored.
#[derive(Debug, Clone)]
pub struct LiveWindow {
    pub id: WindowId,
    pub title: String,
    pub app_id: Option<String>,
}

/// A saved tab that found no window: the slot a window mapped later with a
/// fitting title or application id is put into.
#[derive(Debug, Clone)]
pub struct PendingRestore<W> {
    pub title: String,
    pub app_id: Option<String>,
    pub ws_idx: usize,
    pub col_idx: usize,
    pub col_width: W,
    pub col_focused_idx: usize,
}

// ---------------------------------------------------------------------------
// Text values
// ---------------------------------------------------------------------------

/// The characters of an optional string.
pub open spec fn opt_text(o: Option<String>) -> Option<Seq<char>> {
    match o {
        Some(s) => Some(s@),
        None => None,
    }
}

/// The characters of each word of an optional command line.
pub open spec fn opt_words(o: Option<Vec<String>>) -> Option<Seq<Seq<char>>> {
    match o {
        Some(v) => Some(v@.map_values(|s: String| s@)),
        None => None,
    }
}

/// Whether two optional strings are equal.
pub fn opt_text_eq(a: &Option<String>, b: &Option<String>) -> (r: bool)
    ensures
        r == (opt_text(*a) == opt_text(*b)),
{
    match (a, b) {
        (Some(x), Some(y)) => *x == *y,
        (None, None) => true,
        _ => false,
    }
}

fn clone_opt_text(o: &Option<String>) -> (r: Option<String>)
    ensures
        r == *o,
{
    match o {
        Some(s) => Some(s.clone()),
        None => None,
    }
}

fn clone_words(v: &Vec<String>) -> (r: Vec<String>)
    ensures
        r@.map_values(|s: String| s@) == v@.map_values(|s: String| s@),
{
    let mut r: Vec<String> = Vec::new();
    let mut i: usize = 0;
    while i < v.len()
        invariant
            i <= v@.len(),
            r@.len() == i,
            forall|k: int| 0 <= k < i ==> #[trigger] r@[k]@ == v@[k]@,
        decreases v@.len() - i,
    {
        r.push(v[i].clone());
        i = i + 1;
    }
    assert(r@.map_values(|s: String| s@) =~= v@.map_values(|s: String| s@));
    r
}

fn clone_opt_words(o: &Option<Vec<String>>) -> (r: Option<Vec<String>>)
    ensures
        opt_words(r) == opt_words(*o),
{
    match o {
        Some(v) => Some(clone_words(v)),
        None => None,
    }
}

// ---------------------------------------------------------------------------
// Saving
// ---------------------------------------------------------------------------

/// The application id and command line known of `id`: those of the first
/// entry of `details` for it, or none.
pub open spec fn details_of(details: Seq<WindowDetails>, id: WindowId) -> (Option<Seq<char>>, Option<Seq<Seq<char>>>)
    decreases details.len(),
{
    if details.len() == 0 {
        (None, None)
    } else if details[0].id == id {
        (opt_text(details[0].app_id), opt_words(details[0].cmdline))
    } else {
        details_of(details.drop_first(), id)
    }
}

/// `s` records the window `w` with what `details` knows of it.
pub open spec fn records_window(s: SavedWindow, w: Window, details: Seq<WindowDetails>) -> bool {
    &&& s.title@ == w.title@
    &&& opt_text(s.app_id) == details_of(details, w.id).0
    &&& opt_words(s.cmdline) == details_of(details, w.id).1
}

/// `s` records the column `col`: its width, focus and tabs in order.
pub open spec fn records_column<W>(s: SavedColumn<W>, col: ColumnModel<W>, details: Seq<WindowDetails>) -> bool {
    &&& s.width == col.width
    &&& s.focused_window_idx == col.focused
    &&& s.windows@.len() == col.windows.len()
    &&& forall|t: int| 0 <= t < col.windows.len() ==> records_window(#[trigger] s.windows@[t], col.windows[t], details)
}

/// `s` records the workspace `ws`: its focus and columns in order.
pub open spec fn records_workspace<W>(s: SavedWorkspace<W>, ws: WorkspaceModel<W>, details: Seq<WindowDetails>) -> bool {
    &&& s.focused_column_idx == ws.focused
    &&& s.columns@.len() == ws.columns.len()
    &&& forall|c: int| 0 <= c < ws.columns.len() ==> records_column(#[trigger] s.columns@[c], ws.columns[c], details)
}

/// `s` records the layout `m`: its active workspace and workspaces in order.
pub open spec fn records_layout<W>(s: SavedSession<W>, m: LayoutModel<W>, details: Seq<WindowDetails>) -> bool {
    &&& s.active_workspace_idx == m.active
    &&& s.workspaces@.len() == m.workspaces.len()
    &&& forall|w: int| 0 <= w < m.workspaces.len() ==> records_workspace(#[trigger] s.workspaces@[w], m.workspaces[w], details)
}

/// Looks up what `details` knows of the window `id`.
fn lookup_details(details: &Vec<WindowDetails>, id: WindowId) -> (r: (Option<String>, Option<Vec<String>>))
    ensures
        (opt_text(r.0), opt_words(r.1)) == details_of(details@, id),
{
    let mut i: usize = 0;
    assert(details@.subrange(0, details@.len() as int) =~= details@);
    while i < details.len()
        invariant
            i <= details@.len(),
            details_of(details@, id) == details_of(details@.subrange(i as int, details@.len() as int), id),
        decreases details@.len() - i,
    {
        let ghost rest = details@.subrange(i as int, details@.len() as int);
        assert(rest.drop_first() =~= details@.subrange(i + 1, details@.len() as int));
        if details[i].id == id {
            return (clone_opt_text(&details[i].app_id), clone_opt_words(&details[i].cmdline));
        }
        i = i + 1;
    }
    (None, None)
}

fn snapshot_column<W: Copy>(col: &Column<W>, details: &Vec<WindowDetails>) -> (r: SavedColumn<W>)
    ensures
        records_column(r, col@, details@),
{
    let mut windows: Vec<SavedWindow> = Vec::new();
    let mut t: usize = 0;
    while t < col.windows.len()
        invariant
            t <= col.windows@.len(),
            windows@.len() == t,
            forall|k: int| 0 <= k < t ==> records_window(#[trigger] windows@[k], col.windows@[k], details@),
        decreases col.windows@.len() - t,
    {
        let win = &col.windows[t];
        let (app_id, cmdline) = lookup_details(details, win.id);
        windows.push(SavedWindow { title: win.title.clone(), app_id, cmdline });
        t = t + 1;
    }
    SavedColumn { width: col.width, focused_window_idx: col.focused_window_idx, windows }
}

fn snapshot_workspace<W: Copy>(ws: &Workspace<W>, details: &Vec<WindowDetails>) -> (r: SavedWorkspace<W>)
    ensures
        records_workspace(r, ws@, details@),
{
    let mut columns: Vec<SavedColumn<W>> = Vec::new();
    let mut c: usize = 0;
    while c < ws.columns.len()
        invariant
            c <= ws.columns@.len(),
            columns@.len() == c,
            forall|k: int| 0 <= k < c ==> records_column(#[trigger] columns@[k], ws.columns@[k]@, details@),
        decreases ws.columns@.len() - c,
    {
        columns.push(snapshot_column(&ws.columns[c], details));
        c = c + 1;
    }
    SavedWorkspace { focused_column_idx: ws.focused_column_idx, columns }
}

impl<W: Copy> LayoutEngine<W> {
    /// The session that records this layout, each window with the
    /// application id and command line that `details` gives for it.
    pub fn snapshot_session(&self, details: &Vec<WindowDetails>) -> (r: SavedSession<W>)
        ensures
            records_layout(r, self@, details@),
    {
        let mut workspaces: Vec<SavedWorkspace<W>> = Vec::new();
        let mut w: usize = 0;
        while w < self.workspaces.len()
            invariant
                w <= self.workspaces@.len(),
                workspaces@.len() == w,
                forall|k: int| 0 <= k < w ==> records_workspace(#[trigger] workspaces@[k], self.workspaces@[k]@, details@),
            decreases self.workspaces@.len() - w,
        {
            workspaces.push(snapshot_workspace(&self.workspaces[w], details));
            w = w + 1;
        }
        SavedSession { active_workspace_idx: self.active_workspace_idx, workspaces }
    }
}


// ---------------------------------------------------------------------------
// Matching saved tabs with live windows
// ---------------------------------------------------------------------------

/// The places `(workspace, column, tab)` of the tabs of saved column `c` of
/// saved workspace `w`.
pub open spec fn column_places(w: int, c: int, n: nat) -> Seq<(int, int, int)> {
    Seq::new(n, |t: int| (w, c, t))
}

/// The places of the tabs of the saved columns `cols` of saved workspace
/// `w`, columns left to right and tabs top to bottom.
pub open spec fn workspace_places<W>(w: int, cols: Seq<SavedColumn<W>>) -> Seq<(int, int, int)>
    decreases cols.len(),
{
    if cols.len() == 0 {
        Seq::empty()
    } else {
        workspace_places(w, cols.drop_last()) + column_places(w, cols.len() - 1, cols.last().windows@.len())
    }
}

/// The places of all saved tabs, workspace by workspace.
pub open spec fn session_places<W>(wss: Seq<SavedWorkspace<W>>) -> Seq<(int, int, int)>
    decreases wss.len(),
{
    if wss.len() == 0 {
        Seq::empty()
    } else {
        session_places(wss.drop_last()) + workspace_places(wss.len() - 1, wss.last().columns@)
    }
}

/// The saved tab at place `p`.
pub open spec fn tab_at<W>(session: SavedSession<W>, p: (int, int, int)) -> SavedWindow {
    session.workspaces@[p.0].columns@[p.1].windows@[p.2]
}

/// The saved column holding place `p`.
pub open spec fn column_at<W>(session: SavedSession<W>, p: (int, int, int)) -> SavedColumn<W> {
    session.workspaces@[p.0].columns@[p.1]
}

/// Places with machine integers, taken as mathematical ones.
pub open spec fn int_places(ps: Seq<(usize, usize, usize)>) -> Seq<(int, int, int)> {
    ps.map_values(|p: (usize, usize, usize)| (p.0 as int, p.1 as int, p.2 as int))
}

/// `p` names a tab of the session.
pub open spec fn valid_place<W>(session: SavedSession<W>, p: (usize, usize, usize)) -> bool {
    &&& p.0 < session.workspaces@.len()
    &&& p.1 < session.workspaces@[p.0 as int].columns@.len()
    &&& p.2 < session.workspaces@[p.0 as int].columns@[p.1 as int].windows@.len()
}

fn places_of<W>(session: &SavedSession<W>) -> (r: Vec<(usize, usize, usize)>)
    ensures
        int_places(r@) == session_places(session.workspaces@),
        forall|i: int| 0 <= i < r@.len() ==> #[trigger] valid_place(*session, r@[i]),
{
    let mut r: Vec<(usize, usize, usize)> = Vec::new();
    let mut w: usize = 0;
    while w < session.workspaces.len()
        invariant
            w <= session.workspaces@.len(),
            int_places(r@) == session_places(session.workspaces@.take(w as int)),
            forall|i: int| 0 <= i < r@.len() ==> #[trigger] valid_place(*session, r@[i]),
        decreases session.workspaces@.len() - w,
    {
        let cols = &session.workspaces[w].columns;
        let ghost before = r@;
        let mut c: usize = 0;
        while c < cols.len()
            invariant
                w < session.workspaces@.len(),
                cols == session.workspaces@[w as int].columns,
                c <= cols@.len(),
                int_places(r@) == int_places(before) + workspace_places(w as int, cols@.take(c as int)),
                forall|i: int| 0 <= i < r@.len() ==> #[trigger] valid_place(*session, r@[i]),
            decreases cols@.len() - c,
        {
            let n = cols[c].windows.len();
            let ghost mid = r@;
            let mut t: usize = 0;
            while t < n
                invariant
                    w < session.workspaces@.len(),
                    cols == session.workspaces@[w as int].columns,
                    c < cols@.len(),
                    n == cols@[c as int].windows@.len(),
                    t <= n,
                    int_places(r@) == int_places(mid) + column_places(w as int, c as int, t as nat),
                    forall|i: int| 0 <= i < r@.len() ==> #[trigger] valid_place(*session, r@[i]),
                decreases n - t,
            {
                let ghost prev = r@;
                r.push((w, c, t));
                proof {
                    assert(int_places(r@) =~= int_places(prev).push((w as int, c as int, t as int)));
                    assert(int_places(r@) =~= int_places(mid) + column_places(w as int, c as int, (t + 1) as nat));
                }
                t = t + 1;
            }
            proof {
                let cs = cols@.take(c + 1);
                assert(cs.drop_last() =~= cols@.take(c as int));
                assert(int_places(r@) =~= int_places(before) + workspace_places(w as int, cs));
            }
            c = c + 1;
        }
        proof {
            let ws = session.workspaces@.take(w + 1);
            assert(ws.drop_last() =~= session.workspaces@.take(w as int));
            assert(cols@.take(cols@.len() as int) =~= cols@);
            assert(int_places(r@) =~= session_places(ws));
        }
        w = w + 1;
    }
    proof {
        assert(session.workspaces@.take(session.workspaces@.len() as int) =~= session.workspaces@);
    }
    r
}

/// Whether the live window `w` fits the saved tab `saved` in matching round
/// `round`: 1 wants the same title and application id, 2 a title that
/// contains the other, 3 the same application id, and 4 takes any window.
pub open spec fn fits(round: int, saved: SavedWindow, w: LiveWindow) -> bool {
    if round == 1 {
        w.title@ == saved.title@ && opt_text(w.app_id) == opt_text(saved.app_id)
    } else if round == 2 {
        occurs_in(w.title@, saved.title@) || occurs_in(saved.title@, w.title@)
    } else if round == 3 {
        w.app_id is Some && opt_text(w.app_id) == opt_text(saved.app_id)
    } else {
        true
    }
}

/// The position of the first window of `pool` that fits `saved` in `round`.
pub open spec fn first_fit(round: int, saved: SavedWindow, pool: Seq<LiveWindow>) -> Option<int>
    decreases pool.len(),
{
    if pool.len() == 0 {
        None
    } else if fits(round, saved, pool[0]) {
        Some(0)
    } else {
        match first_fit(round, saved, pool.drop_first()) {
            Some(i) => Some(i + 1),
            None => None,
        }
    }
}

/// One saved tab's turn in a round: a tab still without a window takes the
/// first fitting window out of the pool.
pub open spec fn round_step(
    round: int,
    saved: SavedWindow,
    m: Option<(WindowId, String)>,
    pool: Seq<LiveWindow>,
) -> (Option<(WindowId, String)>, Seq<LiveWindow>) {
    if m is Some {
        (m, pool)
    } else {
        match first_fit(round, saved, pool) {
            Some(i) => (Some((pool[i].id, pool[i].title)), pool.remove(i)),
            None => (None, pool),
        }
    }
}

/// The matches and the pool after the first `n` tabs had their turn in
/// `round`.
pub open spec fn run_round<W>(
    round: int,
    session: SavedSession<W>,
    places: Seq<(int, int, int)>,
    matches: Seq<Option<(WindowId, String)>>,
    pool: Seq<LiveWindow>,
    n: nat,
) -> (Seq<Option<(WindowId, String)>>, Seq<LiveWindow>)
    decreases n,
{
    if n == 0 {
        (matches, pool)
    } else {
        let prev = run_round(round, session, places, matches, pool, (n - 1) as nat);
        let step = round_step(round, tab_at(session, places[n - 1]), prev.0[n - 1], prev.1);
        (prev.0.update(n - 1, step.0), step.1)
    }
}

/// The window found for each saved tab, and the live windows left over,
/// after the four rounds.
pub open spec fn matching<W>(session: SavedSession<W>, pool: Seq<LiveWindow>) -> (
    Seq<Option<(WindowId, String)>>,
    Seq<LiveWindow>,
) {
    let places = session_places(session.workspaces@);
    let n = places.len();
    let none = Seq::new(n, |i: int| None::<(WindowId, String)>);
    let r1 = run_round(1, session, places, none, pool, n);
    let r2 = run_round(2, session, places, r1.0, r1.1, n);
    let r3 = run_round(3, session, places, r2.0, r2.1, n);
    run_round(4, session, places, r3.0, r3.1, n)
}

pub proof fn lemma_first_fit(round: int, saved: SavedWindow, pool: Seq<LiveWindow>)
    ensures
        match first_fit(round, saved, pool) {
            Some(i) => {
                &&& 0 <= i < pool.len()
                &&& fits(round, saved, pool[i])
                &&& forall|k: int| 0 <= k < i ==> !fits(round, saved, #[trigger] pool[k])
            },
            None => forall|k: int| 0 <= k < pool.len() ==> !fits(round, saved, #[trigger] pool[k]),
        },
    decreases pool.len(),
{
    if pool.len() > 0 {
        let rest = pool.drop_first();
        lemma_first_fit(round, saved, rest);
        if !fits(round, saved, pool[0]) {
            assert forall|k: int| 1 <= k < pool.len() implies pool[k] == rest[k - 1] by {}
        }
    }
}

pub proof fn lemma_run_round_frame<W>(
    round: int,
    session: SavedSession<W>,
    places: Seq<(int, int, int)>,
    matches: Seq<Option<(WindowId, String)>>,
    pool: Seq<LiveWindow>,
    n: nat,
)
    requires
        n <= matches.len(),
    ensures
        run_round(round, session, places, matches, pool, n).0.len() == matches.len(),
        forall|k: int| n <= k < matches.len() ==> #[trigger] run_round(round, session, places, matches, pool, n).0[k] == matches[k],
    decreases n,
{
    if n > 0 {
        lemma_run_round_frame(round, session, places, matches, pool, (n - 1) as nat);
    }
}

fn fits_now(round: u8, saved: &SavedWindow, w: &LiveWindow) -> (r: bool)
    ensures
        r == fits(round as int, *saved, *w),
{
    if round == 1 {
        w.title == saved.title && opt_text_eq(&w.app_id, &saved.app_id)
    } else if round == 2 {
        let live = chars_of(w.title.as_str());
        let kept = chars_of(saved.title.as_str());
        chars_contain(live.as_slice(), kept.as_slice()) || chars_contain(kept.as_slice(), live.as_slice())
    } else if round == 3 {
        w.app_id.is_some() && opt_text_eq(&w.app_id, &saved.app_id)
    } else {
        true
    }
}

fn find_fit(round: u8, saved: &SavedWindow, pool: &Vec<LiveWindow>) -> (r: Option<usize>)
    ensures
        match first_fit(round as int, *saved, pool@) {
            Some(i) => 0 <= i < pool@.len() && r is Some && r.unwrap() as int == i,
            None => r is None,
        },
{
    let mut j: usize = 0;
    while j < pool.len()
        invariant
            j <= pool@.len(),
            forall|k: int| 0 <= k < j ==> !fits(round as int, *saved, #[trigger] pool@[k]),
        decreases pool@.len() - j,
    {
        if fits_now(round, saved, &pool[j]) {
            proof {
                lemma_first_fit(round as int, *saved, pool@);
                match first_fit(round as int, *saved, pool@) {
                    Some(i) => {
                        if i < j {
                            assert(!fits(round as int, *saved, pool@[i]));
                        }
                        if i > j {
                            assert(!fits(round as int, *saved, pool@[j as int]));
                        }
                    },
                    None => {
                        assert(!fits(round as int, *saved, pool@[j as int]));
                    },
                }
            }
            return Some(j);
        }
        j = j + 1;
    }
    proof {
        lemma_first_fit(round as int, *saved, pool@);
        match first_fit(round as int, *saved, pool@) {
            Some(i) => {
                assert(fits(round as int, *saved, pool@[i]));
            },
            None => {},
        }
    }
    None
}

fn match_round<W>(
    round: u8,
    session: &SavedSession<W>,
    places: &Vec<(usize, usize, usize)>,
    matches: &mut Vec<Option<(WindowId, String)>>,
    pool: &mut Vec<LiveWindow>,
)
    requires
        old(matches)@.len() == places@.len(),
        forall|i: int| 0 <= i < places@.len() ==> #[trigger] valid_place(*session, places@[i]),
    ensures
        (final(matches)@, final(pool)@) == run_round(
            round as int,
            *session,
            int_places(places@),
            old(matches)@,
            old(pool)@,
            places@.len(),
        ),
        final(matches)@.len() == old(matches)@.len(),
{
    let ghost m0 = matches@;
    let ghost p0 = pool@;
    let ghost ps = int_places(places@);
    let mut i: usize = 0;
    while i < places.len()
        invariant
            i <= places@.len(),
            m0.len() == places@.len(),
            ps == int_places(places@),
            forall|k: int| 0 <= k < places@.len() ==> #[trigger] valid_place(*session, places@[k]),
            (matches@, pool@) == run_round(round as int, *session, ps, m0, p0, i as nat),
        decreases places@.len() - i,
    {
        proof {
            lemma_run_round_frame(round as int, *session, ps, m0, p0, i as nat);
            assert(valid_place(*session, places@[i as int]));
        }
        let (w, c, t) = places[i];
        let saved = &session.workspaces[w].columns[c].windows[t];
        let ghost prev = run_round(round as int, *session, ps, m0, p0, i as nat);
        let ghost step = round_step(round as int, tab_at(*session, ps[i as int]), prev.0[i as int], prev.1);
        proof {
            assert(*saved == tab_at(*session, ps[i as int]));
            assert(run_round(round as int, *session, ps, m0, p0, (i + 1) as nat) == (prev.0.update(i as int, step.0), step.1));
        }
        if matches[i].is_none() {
            match find_fit(round, saved, pool) {
                Some(pos) => {
                    let found = pool.remove(pos);
                    matches.set(i, Some((found.id, found.title)));
                },
                None => {
                    proof {
                        assert(matches@ =~= matches@.update(i as int, None));
                    }
                },
            }
        } else {
            proof {
                assert(matches@ =~= matches@.update(i as int, matches@[i as int]));
            }
        }
        i = i + 1;
    }
    proof {
        lemma_run_round_frame(round as int, *session, ps, m0, p0, i as nat);
    }
}


// ---------------------------------------------------------------------------
// Rebuilding the workspaces
// ---------------------------------------------------------------------------

/// The window a match stands for.
pub open spec fn window_of(m: Option<(WindowId, String)>) -> Window {
    Window { id: m.unwrap().0, title: m.unwrap().1 }
}

/// The workspace that a tab saved at place `p` goes to when the layout has
/// `n` workspaces: its own, or the last one where it has fewer.
pub open spec fn target_of(p: (int, int, int), n: int) -> int {
    if p.0 < n - 1 {
        p.0
    } else {
        n - 1
    }
}

/// Tab `i` found a window and goes to column key `k` of workspace `t`.
pub open spec fn in_group(
    places: Seq<(int, int, int)>,
    matches: Seq<Option<(WindowId, String)>>,
    n: int,
    i: int,
    t: int,
    k: int,
) -> bool {
    &&& matches[i] is Some
    &&& target_of(places[i], n) == t
    &&& places[i].1 == k
}

/// The windows that the first `upto` tabs bring to column key `k` of
/// workspace `t`, in the order of the tabs.
pub open spec fn group_windows(
    places: Seq<(int, int, int)>,
    matches: Seq<Option<(WindowId, String)>>,
    n: int,
    t: int,
    k: int,
    upto: nat,
) -> Seq<Window>
    decreases upto,
{
    if upto == 0 {
        Seq::empty()
    } else {
        let prev = group_windows(places, matches, n, t, k, (upto - 1) as nat);
        if in_group(places, matches, n, upto - 1, t, k) {
            prev.push(window_of(matches[upto - 1]))
        } else {
            prev
        }
    }
}

/// The first of the first `upto` tabs that brings a window to column key
/// `k` of workspace `t`.
pub open spec fn group_head(
    places: Seq<(int, int, int)>,
    matches: Seq<Option<(WindowId, String)>>,
    n: int,
    t: int,
    k: int,
    upto: nat,
) -> Option<int>
    decreases upto,
{
    if upto == 0 {
        None
    } else {
        match group_head(places, matches, n, t, k, (upto - 1) as nat) {
            Some(h) => Some(h),
            None => if in_group(places, matches, n, upto - 1, t, k) {
                Some(upto - 1)
            } else {
                None
            },
        }
    }
}

/// The column rebuilt for key `k` of workspace `t`: the windows brought to
/// it, with the width and focus saved for the column of its first tab, the
/// focus pulled back onto the last window where it points past it.
pub open spec fn group_column<W>(
    session: SavedSession<W>,
    places: Seq<(int, int, int)>,
    matches: Seq<Option<(WindowId, String)>>,
    n: int,
    t: int,
    k: int,
) -> ColumnModel<W> {
    let wins = group_windows(places, matches, n, t, k, places.len());
    let col = column_at(session, places[group_head(places, matches, n, t, k, places.len()).unwrap()]);
    ColumnModel {
        windows: wins,
        focused: if col.focused_window_idx < wins.len() - 1 {
            col.focused_window_idx as int
        } else {
            wins.len() - 1
        },
        width: col.width,
    }
}

/// The column keys below `b` that some tab brings a window to in workspace
/// `t`, ascending.
pub open spec fn group_keys(
    places: Seq<(int, int, int)>,
    matches: Seq<Option<(WindowId, String)>>,
    n: int,
    t: int,
    b: nat,
) -> Seq<int>
    decreases b,
{
    if b == 0 {
        Seq::empty()
    } else {
        let prev = group_keys(places, matches, n, t, (b - 1) as nat);
        if group_windows(places, matches, n, t, b - 1, places.len()).len() > 0 {
            prev.push(b - 1)
        } else {
            prev
        }
    }
}

/// The largest number of columns of a saved workspace.
pub open spec fn col_bound<W>(wss: Seq<SavedWorkspace<W>>) -> nat
    decreases wss.len(),
{
    if wss.len() == 0 {
        0
    } else {
        let b = col_bound(wss.drop_last());
        if b < wss.last().columns@.len() {
            wss.last().columns@.len()
        } else {
            b
        }
    }
}

/// A live window left over after matching, in a column of its own.
pub open spec fn leftover_column<W>(w: LiveWindow, width: W) -> ColumnModel<W> {
    single_column(Window { id: w.id, title: w.title }, width)
}

/// The columns of workspace `t` after restoring: the rebuilt columns in the
/// order of their keys, and on the first workspace then the live windows
/// left over, each in a column of width `width`.
pub open spec fn restored_columns<W>(
    session: SavedSession<W>,
    pool: Seq<LiveWindow>,
    n: int,
    t: int,
    width: W,
) -> Seq<ColumnModel<W>> {
    let places = session_places(session.workspaces@);
    let found = matching(session, pool);
    let keys = group_keys(places, found.0, n, t, col_bound(session.workspaces@));
    let groups = keys.map_values(|k: int| group_column(session, places, found.0, n, t, k));
    if t == 0 {
        groups + found.1.map_values(|w: LiveWindow| leftover_column(w, width))
    } else {
        groups
    }
}

/// The layout `m` with `session` laid onto the live windows `pool`: every
/// workspace rebuilt and focused on its first column, the saved active
/// workspace made active (the last one where the layout has fewer).
pub open spec fn restored<W>(m: LayoutModel<W>, session: SavedSession<W>, pool: Seq<LiveWindow>, width: W) -> LayoutModel<W> {
    let n = m.workspaces.len() as int;
    LayoutModel {
        workspaces: Seq::new(
            m.workspaces.len(),
            |t: int| WorkspaceModel { columns: restored_columns(session, pool, n, t, width), focused: 0 },
        ),
        active: if session.active_workspace_idx < n - 1 {
            session.active_workspace_idx as int
        } else {
            n - 1
        },
        ..m
    }
}

/// The pending restore left for the saved tab at place `p`.
pub open spec fn pending_for<W>(session: SavedSession<W>, p: (int, int, int)) -> PendingRestore<W> {
    PendingRestore {
        title: tab_at(session, p).title,
        app_id: tab_at(session, p).app_id,
        ws_idx: p.0 as usize,
        col_idx: p.1 as usize,
        col_width: column_at(session, p).width,
        col_focused_idx: column_at(session, p).focused_window_idx,
    }
}

/// The pending restores of the first `upto` tabs that found no window.
pub open spec fn unmatched_pending<W>(
    session: SavedSession<W>,
    places: Seq<(int, int, int)>,
    matches: Seq<Option<(WindowId, String)>>,
    upto: nat,
) -> Seq<PendingRestore<W>>
    decreases upto,
{
    if upto == 0 {
        Seq::empty()
    } else {
        let prev = unmatched_pending(session, places, matches, (upto - 1) as nat);
        if matches[upto - 1] is None {
            prev.push(pending_for(session, places[upto - 1]))
        } else {
            prev
        }
    }
}

/// The command lines, not empty, saved for the first `upto` tabs that found
/// no window.
pub open spec fn unmatched_launches<W>(
    session: SavedSession<W>,
    places: Seq<(int, int, int)>,
    matches: Seq<Option<(WindowId, String)>>,
    upto: nat,
) -> Seq<Seq<Seq<char>>>
    decreases upto,
{
    if upto == 0 {
        Seq::empty()
    } else {
        let prev = unmatched_launches(session, places, matches, (upto - 1) as nat);
        let tab = tab_at(session, places[upto - 1]);
        if matches[upto - 1] is None && tab.cmdline is Some && tab.cmdline.unwrap()@.len() > 0 {
            prev.push(opt_words(tab.cmdline).unwrap())
        } else {
            prev
        }
    }
}

fn column_bound<W>(session: &SavedSession<W>) -> (r: usize)
    ensures
        r == col_bound(session.workspaces@),
{
    let mut b: usize = 0;
    let mut w: usize = 0;
    while w < session.workspaces.len()
        invariant
            w <= session.workspaces@.len(),
            b == col_bound(session.workspaces@.take(w as int)),
        decreases session.workspaces@.len() - w,
    {
        proof {
            assert(session.workspaces@.take(w + 1).drop_last() =~= session.workspaces@.take(w as int));
        }
        let len = session.workspaces[w].columns.len();
        if b < len {
            b = len;
        }
        w = w + 1;
    }
    proof {
        assert(session.workspaces@.take(w as int) =~= session.workspaces@);
    }
    b
}

fn target_now(w: usize, n: usize) -> (r: usize)
    requires
        n > 0,
    ensures
        r as int == target_of((w as int, 0, 0), n as int),
{
    if w < n - 1 {
        w
    } else {
        n - 1
    }
}

fn group_column_now<W: Copy>(
    session: &SavedSession<W>,
    places: &Vec<(usize, usize, usize)>,
    matches: &Vec<Option<(WindowId, String)>>,
    n: usize,
    t: usize,
    k: usize,
) -> (r: Option<Column<W>>)
    requires
        n > 0,
        matches@.len() == places@.len(),
        forall|i: int| 0 <= i < places@.len() ==> #[trigger] valid_place(*session, places@[i]),
    ensures
        match r {
            Some(col) => {
                &&& group_windows(int_places(places@), matches@, n as int, t as int, k as int, places@.len()).len() > 0
                &&& col@ == group_column(*session, int_places(places@), matches@, n as int, t as int, k as int)
                &&& col@.wf()
            },
            None => group_windows(int_places(places@), matches@, n as int, t as int, k as int, places@.len()).len() == 0,
        },
{
    let ghost ps = int_places(places@);
    let mut windows: Vec<Window> = Vec::new();
    let mut head: Option<usize> = None;
    let mut i: usize = 0;
    while i < places.len()
        invariant
            n > 0,
            ps == int_places(places@),
            matches@.len() == places@.len(),
            i <= places@.len(),
            windows@ == group_windows(ps, matches@, n as int, t as int, k as int, i as nat),
            head is Some <==> windows@.len() > 0,
            match head {
                Some(h) => group_head(ps, matches@, n as int, t as int, k as int, i as nat) == Some(h as int) && h < i,
                None => group_head(ps, matches@, n as int, t as int, k as int, i as nat) is None,
            },
        decreases places@.len() - i,
    {
        let (w, c, _t) = places[i];
        let target = target_now(w, n);
        if target == t && c == k {
            match &matches[i] {
                Some((id, title)) => {
                    windows.push(Window { id: *id, title: title.clone() });
                    if head.is_none() {
                        head = Some(i);
                    }
                },
                None => {},
            }
        }
        i = i + 1;
    }
    match head {
        Some(h) => {
            proof {
                assert(valid_place(*session, places@[h as int]));
            }
            let (w, c, _t) = places[h];
            let col = &session.workspaces[w].columns[c];
            let last = windows.len() - 1;
            let focused = if col.focused_window_idx < last {
                col.focused_window_idx
            } else {
                last
            };
            Some(Column { windows, focused_window_idx: focused, width: col.width })
        },
        None => None,
    }
}

fn group_columns_now<W: Copy>(
    session: &SavedSession<W>,
    places: &Vec<(usize, usize, usize)>,
    matches: &Vec<Option<(WindowId, String)>>,
    n: usize,
    t: usize,
    bound: usize,
) -> (r: Vec<Column<W>>)
    requires
        n > 0,
        matches@.len() == places@.len(),
        forall|i: int| 0 <= i < places@.len() ==> #[trigger] valid_place(*session, places@[i]),
    ensures
        r@.map_values(|c: Column<W>| c@) == group_keys(int_places(places@), matches@, n as int, t as int, bound as nat).map_values(
            |k: int| group_column(*session, int_places(places@), matches@, n as int, t as int, k),
        ),
        forall|j: int| 0 <= j < r@.len() ==> (#[trigger] r@[j])@.wf(),
{
    let ghost ps = int_places(places@);
    let mut r: Vec<Column<W>> = Vec::new();
    let mut k: usize = 0;
    while k < bound
        invariant
            n > 0,
            ps == int_places(places@),
            matches@.len() == places@.len(),
            forall|i: int| 0 <= i < places@.len() ==> #[trigger] valid_place(*session, places@[i]),
            k <= bound,
            r@.map_values(|c: Column<W>| c@) == group_keys(ps, matches@, n as int, t as int, k as nat).map_values(
                |k: int| group_column(*session, ps, matches@, n as int, t as int, k),
            ),
            forall|j: int| 0 <= j < r@.len() ==> (#[trigger] r@[j])@.wf(),
        decreases bound - k,
    {
        let ghost before = r@;
        match group_column_now(session, places, matches, n, t, k) {
            Some(col) => {
                r.push(col);
                proof {
                    let keys = group_keys(ps, matches@, n as int, t as int, k as nat);
                    let f = |k: int| group_column(*session, ps, matches@, n as int, t as int, k);
                    assert(r@.map_values(|c: Column<W>| c@) =~= before.map_values(|c: Column<W>| c@).push(col@));
                    assert(keys.push(k as int).map_values(f) =~= keys.map_values(f).push(f(k as int)));
                }
            },
            None => {},
        }
        k = k + 1;
    }
    r
}


fn leave_pending<W: Copy>(
    session: &SavedSession<W>,
    places: &Vec<(usize, usize, usize)>,
    matches: &Vec<Option<(WindowId, String)>>,
    pending: &mut Vec<PendingRestore<W>>,
) -> (launches: Vec<Vec<String>>)
    requires
        matches@.len() == places@.len(),
        forall|i: int| 0 <= i < places@.len() ==> #[trigger] valid_place(*session, places@[i]),
    ensures
        final(pending)@ == old(pending)@ + unmatched_pending(*session, int_places(places@), matches@, places@.len()),
        launches@.map_values(|v: Vec<String>| v@.map_values(|s: String| s@))
            == unmatched_launches(*session, int_places(places@), matches@, places@.len()),
{
    let ghost ps = int_places(places@);
    let ghost p0 = pending@;
    let mut launches: Vec<Vec<String>> = Vec::new();
    let mut i: usize = 0;
    while i < places.len()
        invariant
            ps == int_places(places@),
            matches@.len() == places@.len(),
            forall|i: int| 0 <= i < places@.len() ==> #[trigger] valid_place(*session, places@[i]),
            i <= places@.len(),
            pending@ == p0 + unmatched_pending(*session, ps, matches@, i as nat),
            launches@.map_values(|v: Vec<String>| v@.map_values(|s: String| s@))
                == unmatched_launches(*session, ps, matches@, i as nat),
        decreases places@.len() - i,
    {
        proof {
            assert(valid_place(*session, places@[i as int]));
        }
        let (w, c, t) = places[i];
        let col = &session.workspaces[w].columns[c];
        let tab = &col.windows[t];
        if matches[i].is_none() {
            let ghost before = pending@;
            pending.push(PendingRestore {
                title: tab.title.clone(),
                app_id: clone_opt_text(&tab.app_id),
                ws_idx: w,
                col_idx: c,
                col_width: col.width,
                col_focused_idx: col.focused_window_idx,
            });
            proof {
                assert(pending@ =~= p0 + unmatched_pending(*session, ps, matches@, (i + 1) as nat));
            }
            match &tab.cmdline {
                Some(cmd) => {
                    if cmd.len() > 0 {
                        let ghost lb = launches@;
                        launches.push(clone_words(cmd));
                        proof {
                            assert(launches@.map_values(|v: Vec<String>| v@.map_values(|s: String| s@)) =~= lb.map_values(
                                |v: Vec<String>| v@.map_values(|s: String| s@),
                            ).push(cmd@.map_values(|s: String| s@)));
                        }
                    }
                },
                None => {},
            }
        }
        i = i + 1;
    }
    launches
}

impl<W: Copy> LayoutEngine<W> {
    /// Lays `session` onto the live windows `pool`. Each saved tab, in the
    /// order of the session, takes a window out of the pool in four rounds:
    /// the first window with its title and application id, then the first
    /// whose title contains its title or is contained in it, then the first
    /// with its application id, then the first left. The workspaces are
    /// rebuilt from the matches as `restored` states; every tab that found
    /// no window leaves a pending restore, appended to `pending`. Returns the
    /// command lines, not empty, saved for those tabs, to be launched.
    pub fn restore_session(
        &mut self,
        session: &SavedSession<W>,
        pool: Vec<LiveWindow>,
        leftover_width: W,
        pending: &mut Vec<PendingRestore<W>>,
    ) -> (launches: Vec<Vec<String>>)
        requires
            old(self)@.wf(),
        ensures
            final(self)@ == restored(old(self)@, *session, pool@, leftover_width),
            final(self)@.wf(),
            final(pending)@ == old(pending)@ + unmatched_pending(
                *session,
                session_places(session.workspaces@),
                matching(*session, pool@).0,
                session_places(session.workspaces@).len(),
            ),
            launches@.map_values(|v: Vec<String>| v@.map_values(|s: String| s@)) == unmatched_launches(
                *session,
                session_places(session.workspaces@),
                matching(*session, pool@).0,
                session_places(session.workspaces@).len(),
            ),
    {
        let ghost before = self@;
        let places = places_of(session);
        let ghost ps = int_places(places@);
        let mut matches: Vec<Option<(WindowId, String)>> = Vec::new();
        let mut i: usize = 0;
        while i < places.len()
            invariant
                i <= places@.len(),
                matches@ == Seq::new(i as nat, |j: int| None::<(WindowId, String)>),
            decreases places@.len() - i,
        {
            matches.push(None);
            proof {
                assert(matches@ =~= Seq::new((i + 1) as nat, |j: int| None::<(WindowId, String)>));
            }
            i = i + 1;
        }
        let mut rest = pool;
        match_round(1, session, &places, &mut matches, &mut rest);
        match_round(2, session, &places, &mut matches, &mut rest);
        match_round(3, session, &places, &mut matches, &mut rest);
        match_round(4, session, &places, &mut matches, &mut rest);
        proof {
            assert((matches@, rest@) == matching(*session, pool@));
        }
        let launches = leave_pending(session, &places, &matches, pending);
        let n = self.workspaces.len();
        let bound = column_bound(session);
        let mut workspaces: Vec<Workspace<W>> = Vec::new();
        let mut t: usize = 0;
        while t < n
            invariant
                n == before.workspaces.len(),
                n > 0,
                t <= n,
                ps == int_places(places@),
                ps == session_places(session.workspaces@),
                (matches@, rest@) == matching(*session, pool@),
                matches@.len() == places@.len(),
                bound == col_bound(session.workspaces@),
                forall|i: int| 0 <= i < places@.len() ==> #[trigger] valid_place(*session, places@[i]),
                workspaces@.len() == t,
                forall|j: int| 0 <= j < t ==> (#[trigger] workspaces@[j])@ == (WorkspaceModel {
                    columns: restored_columns(*session, pool@, n as int, j, leftover_width),
                    focused: 0,
                }),
                forall|j: int| 0 <= j < t ==> (#[trigger] workspaces@[j])@.wf(),
            decreases n - t,
        {
            let mut columns = group_columns_now(session, &places, &matches, n, t, bound);
            if t == 0 {
                let ghost groups = columns@;
                let mut j: usize = 0;
                while j < rest.len()
                    invariant
                        t == 0,
                        j <= rest@.len(),
                        columns@.len() == groups.len() + j,
                        forall|q: int| 0 <= q < groups.len() ==> #[trigger] columns@[q] == groups[q],
                        forall|q: int| 0 <= q < j ==> (#[trigger] columns@[groups.len() + q])@ == leftover_column(rest@[q], leftover_width),
                        forall|q: int| 0 <= q < groups.len() ==> (#[trigger] groups[q])@.wf(),
                    decreases rest@.len() - j,
                {
                    let window = Window { id: rest[j].id, title: rest[j].title.clone() };
                    columns.push(Column::new(window, leftover_width));
                    j = j + 1;
                }
                proof {
                    let left = rest@.map_values(|w: LiveWindow| leftover_column(w, leftover_width));
                    assert forall|x: int| groups.len() <= x < columns@.len() implies columns@[x]@ == left[x - groups.len()] by {
                        let q = x - groups.len();
                        assert(columns@[groups.len() + q]@ == leftover_column(rest@[q], leftover_width));
                    }
                    assert(columns@.map_values(|c: Column<W>| c@) =~= groups.map_values(|c: Column<W>| c@) + left);
                }
            }
            let ws = Workspace { columns, focused_column_idx: 0 };
            proof {
                assert(ws@.columns =~= restored_columns(*session, pool@, n as int, t as int, leftover_width));
            }
            workspaces.push(ws);
            t = t + 1;
        }
        self.workspaces = workspaces;
        self.active_workspace_idx = if session.active_workspace_idx < n - 1 {
            session.active_workspace_idx
        } else {
            n - 1
        };
        proof {
            assert(self@.workspaces =~= restored(before, *session, pool@, leftover_width).workspaces);
        }
        launches
    }
}


// ---------------------------------------------------------------------------
// Windows mapped after a restore
// ---------------------------------------------------------------------------

/// Whether a window mapped with title `title` and application id `app_id`
/// claims the pending restore `r`: it has `r`'s application id, or its title
/// equals, contains or is contained in `r`'s.
pub open spec fn claims<W>(r: PendingRestore<W>, title: Seq<char>, app_id: Option<Seq<char>>) -> bool {
    ||| (app_id is Some && opt_text(r.app_id) == app_id)
    ||| r.title@ == title
    ||| occurs_in(title, r.title@)
    ||| occurs_in(r.title@, title)
}

/// The position of the first pending restore that the window claims.
pub open spec fn first_claim<W>(pending: Seq<PendingRestore<W>>, title: Seq<char>, app_id: Option<Seq<char>>) -> Option<int>
    decreases pending.len(),
{
    if pending.len() == 0 {
        None
    } else if claims(pending[0], title, app_id) {
        Some(0)
    } else {
        match first_claim(pending.drop_first(), title, app_id) {
            Some(i) => Some(i + 1),
            None => None,
        }
    }
}

proof fn lemma_first_claim<W>(pending: Seq<PendingRestore<W>>, title: Seq<char>, app_id: Option<Seq<char>>)
    ensures
        match first_claim(pending, title, app_id) {
            Some(i) => {
                &&& 0 <= i < pending.len()
                &&& claims(pending[i], title, app_id)
                &&& forall|k: int| 0 <= k < i ==> !claims(#[trigger] pending[k], title, app_id)
            },
            None => forall|k: int| 0 <= k < pending.len() ==> !claims(#[trigger] pending[k], title, app_id),
        },
    decreases pending.len(),
{
    if pending.len() > 0 {
        let rest = pending.drop_first();
        lemma_first_claim(rest, title, app_id);
        if !claims(pending[0], title, app_id) {
            assert forall|k: int| 1 <= k < pending.len() implies pending[k] == rest[k - 1] by {}
        }
    }
}

/// The position of the first pending restore that a window mapped with
/// title `title` and application id `app_id` claims.
pub fn find_pending<W>(pending: &Vec<PendingRestore<W>>, title: &String, app_id: &Option<String>) -> (r: Option<usize>)
    ensures
        match first_claim(pending@, title@, opt_text(*app_id)) {
            Some(i) => 0 <= i < pending@.len() && r is Some && r.unwrap() as int == i,
            None => r is None,
        },
{
    let live = chars_of(title.as_str());
    let mut j: usize = 0;
    while j < pending.len()
        invariant
            j <= pending@.len(),
            live@ == title@,
            forall|k: int| 0 <= k < j ==> !claims(#[trigger] pending@[k], title@, opt_text(*app_id)),
        decreases pending@.len() - j,
    {
        let r = &pending[j];
        let kept = chars_of(r.title.as_str());
        let claimed = (app_id.is_some() && opt_text_eq(&r.app_id, app_id)) || r.title == *title
            || chars_contain(live.as_slice(), kept.as_slice()) || chars_contain(kept.as_slice(), live.as_slice());
        if claimed {
            proof {
                lemma_first_claim(pending@, title@, opt_text(*app_id));
                match first_claim(pending@, title@, opt_text(*app_id)) {
                    Some(i) => {
                        if i < j {
                            assert(!claims(pending@[i], title@, opt_text(*app_id)));
                        }
                        if i > j {
                            assert(!claims(pending@[j as int], title@, opt_text(*app_id)));
                        }
                    },
                    None => {
                        assert(!claims(pending@[j as int], title@, opt_text(*app_id)));
                    },
                }
            }
            return Some(j);
        }
        j = j + 1;
    }
    proof {
        lemma_first_claim(pending@, title@, opt_text(*app_id));
        match first_claim(pending@, title@, opt_text(*app_id)) {
            Some(i) => {
                assert(claims(pending@[i], title@, opt_text(*app_id)));
            },
            None => {},
        }
    }
    None
}

/// A pending restore that a window claims names a workspace of the layout.
pub open spec fn claim_fits<W>(m: LayoutModel<W>, pending: Seq<PendingRestore<W>>, title: Seq<char>, app_id: Option<Seq<char>>) -> bool {
    match first_claim(pending, title, app_id) {
        Some(i) => pending[i].ws_idx < m.workspaces.len(),
        None => true,
    }
}

impl<W: Copy> LayoutEngine<W> {
    /// Takes a newly mapped window into the layout. Where it claims a
    /// pending restore, the first such restore is taken out of `pending` and
    /// the window is put into its saved slot; otherwise the window is spawned
    /// in a new column of width `width`. Returns whether a restore was used.
    pub fn adopt_window(
        &mut self,
        pending: &mut Vec<PendingRestore<W>>,
        window_id: WindowId,
        title: String,
        app_id: &Option<String>,
        width: W,
    ) -> (restored: bool)
        requires
            old(self)@.wf(),
            claim_fits(old(self)@, old(pending)@, title@, opt_text(*app_id)),
        ensures
            final(self)@.wf(),
            match first_claim(old(pending)@, title@, opt_text(*app_id)) {
                Some(i) => {
                    let r = old(pending)@[i];
                    &&& restored
                    &&& final(pending)@ == old(pending)@.remove(i)
                    &&& final(self)@ == old(self)@.restore(
                        Window { id: window_id, title },
                        r.ws_idx as int,
                        r.col_idx as int,
                        r.col_width,
                    )
                },
                None => {
                    &&& !restored
                    &&& final(pending)@ == old(pending)@
                    &&& final(self)@ == old(self)@.spawn(Window { id: window_id, title }, width)
                },
            },
    {
        match find_pending(pending, &title, app_id) {
            Some(i) => {
                let r = pending.remove(i);
                self.restore_window(window_id, title, r.ws_idx, r.col_idx, r.col_width);
                true
            },
            None => {
                self.spawn_window(window_id, title, width);
                false
            },
        }
    }
}

// ---------------------------------------------------------------------------
// Where sessions are kept
// ---------------------------------------------------------------------------

/// The file a session is kept in: under the cookie's directory in the
/// user's cache where a cookie is set (the home directory taken as
/// `/home/super` where none is known), else in `/tmp`.
pub open spec fn session_file(cookie: Option<Seq<char>>, home: Option<Seq<char>>) -> Seq<char> {
    match cookie {
        Some(c) => {
            let h = match home {
                Some(h) => h,
                None => "/home/super"@,
            };
            h + "/.cache/hier/cookies/"@ + c + "/session.json"@
        },
        None => "/tmp/hier-session.json"@,
    }
}

/// The file a session is kept in, given the session cookie and the home
/// directory as the environment has them.
pub fn session_path(cookie: Option<&str>, home: Option<&str>) -> (r: String)
    ensures
        r@ == session_file(
            match cookie {
                Some(c) => Some(c@),
                None => None,
            },
            match home {
                Some(h) => Some(h@),
                None => None,
            },
        ),
{
    match cookie {
        Some(c) => {
            let mut path = match home {
                Some(h) => String::from_str(h),
                None => String::from_str("/home/super"),
            };
            path.append("/.cache/hier/cookies/");
            path.append(c);
            path.append("/session.json");
            path
        },
        None => String::from_str("/tmp/hier-session.json"),
    }
}

} // verus!
