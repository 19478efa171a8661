//! The window list: windows of a workspace grouped into the columns of the
//! compositor's scrolling layout, and the label shown for each column.
use vstd::prelude::*;
use crate::niri_state::{NiriState, Window, Workspace, opt_view};
use crate::sort::{Key, positions, reorder, reorder_by};
use crate::text::{decimal, lowercase, push_char, push_decimal};
use crate::window_icons::{window_label, window_label_spec};

verus! {

/// A column of the scrolling layout: its windows (positions in the window
/// list), top to bottom, and whether it holds the workspace's active window.
pub struct Column {
    pub tiles: Vec<usize>,
    pub is_workspace_focused: bool,
}

impl View for Column {
    type V = (Seq<usize>, bool);

    open spec fn view(&self) -> (Seq<usize>, bool) {
        (self.tiles@, self.is_workspace_focused)
    }
}

/// The window sits in the scrolling layout (it is not floating).
pub open spec fn is_tiled(w: Window) -> bool {
    w.pos_in_scrolling_layout is Some
}

/// Column index of a tiled window.
pub open spec fn column_of(w: Window) -> usize {
    match w.pos_in_scrolling_layout {
        Some(p) => p.0,
        None => 0,
    }
}

/// Tile index of a tiled window within its column.
pub open spec fn tile_of(w: Window) -> usize {
    match w.pos_in_scrolling_layout {
        Some(p) => p.1,
        None => 0,
    }
}

/// The tiled windows among `sel`, in the order of `sel`.
pub open spec fn tiled_in(wins: Seq<Window>, sel: Seq<usize>) -> Seq<usize> {
    sel.filter(|i: usize| is_tiled(wins[i as int]))
}

/// The floating windows among `sel`, in the order of `sel`.
pub open spec fn floating_in(wins: Seq<Window>, sel: Seq<usize>) -> Seq<usize> {
    sel.filter(|i: usize| !is_tiled(wins[i as int]))
}

/// Layout keys (column, then tile) of windows.
pub open spec fn tile_keys(wins: Seq<Window>, t: Seq<usize>) -> Seq<Key> {
    t.map_values(|i: usize| (column_of(wins[i as int]) as u64, tile_of(wins[i as int]) as u64, 0u64))
}

/// The tiled windows among `sel` ordered by column, then tile, windows in
/// the same place keeping the order of `sel`.
pub open spec fn tiles_in_order(wins: Seq<Window>, sel: Seq<usize>) -> Seq<usize> {
    reorder(tiled_in(wins, sel), tile_keys(wins, tiled_in(wins, sel)))
}

/// `s` cut into maximal runs of windows that share a column index.
pub open spec fn column_runs(wins: Seq<Window>, s: Seq<usize>) -> Seq<Seq<usize>>
    decreases s.len(),
{
    if s.len() == 0 {
        seq![]
    } else {
        let r = column_runs(wins, s.drop_last());
        let x = s.last();
        if r.len() > 0 && column_of(wins[r.last().last() as int]) == column_of(wins[x as int]) {
            r.update(r.len() - 1, r.last().push(x))
        } else {
            r.push(seq![x])
        }
    }
}

/// One of the windows `tiles` is the active window `active`.
pub open spec fn holds_active(wins: Seq<Window>, tiles: Seq<usize>, active: Option<u64>) -> bool {
    exists|j: int| 0 <= j < tiles.len() && active == Some(wins[tiles[j] as int].id)
}

/// The columns of the windows `sel` (a workspace's windows): the tiled
/// columns left to right, then one column for each floating window.
pub open spec fn columns_spec(wins: Seq<Window>, sel: Seq<usize>, active: Option<u64>) -> Seq<(Seq<usize>, bool)> {
    column_runs(wins, tiles_in_order(wins, sel)).map_values(
        |r: Seq<usize>| (r, holds_active(wins, r, active)),
    ) + floating_in(wins, sel).map_values(|i: usize| (seq![i], active == Some(wins[i as int].id)))
}

proof fn lemma_runs_shape(wins: Seq<Window>, s: Seq<usize>)
    ensures
        forall|c: int| 0 <= c < column_runs(wins, s).len() ==> (#[trigger] column_runs(wins, s)[c]).len() > 0,
        s.len() > 0 ==> column_runs(wins, s).len() > 0 && column_runs(wins, s).last().last() == s.last(),
    decreases s.len(),
{
    if s.len() > 0 {
        lemma_runs_shape(wins, s.drop_last());
        let r = column_runs(wins, s.drop_last());
        let x = s.last();
        if r.len() > 0 && column_of(wins[r.last().last() as int]) == column_of(wins[x as int]) {
            let nr = r.update(r.len() - 1, r.last().push(x));
            assert forall|c: int| 0 <= c < nr.len() implies (#[trigger] nr[c]).len() > 0 by {
                if c < r.len() - 1 {
                    assert(nr[c] == r[c]);
                }
            }
        } else {
            let nr = r.push(seq![x]);
            assert forall|c: int| 0 <= c < nr.len() implies (#[trigger] nr[c]).len() > 0 by {
                if c < r.len() {
                    assert(nr[c] == r[c]);
                }
            }
        }
    }
}

fn column_index(w: &Window) -> (c: usize)
    ensures
        c == column_of(*w),
{
    match w.pos_in_scrolling_layout {
        Some(p) => p.0,
        None => 0,
    }
}

/// Groups the windows `sel` (positions in `wins`, the workspace's windows
/// in id order) into columns; `active` is the workspace's active window.
pub fn build_columns(wins: &Vec<Window>, sel: &Vec<usize>, active: Option<u64>) -> (cols: Vec<Column>)
    requires
        forall|k: int| 0 <= k < sel@.len() ==> sel@[k] < wins@.len(),
    ensures
        cols@.map_values(|c: Column| c@) == columns_spec(wins@, sel@, active),
        forall|c: int| 0 <= c < cols@.len() ==> (#[trigger] cols@[c]).tiles@.len() > 0
            && forall|m: int| 0 <= m < cols@[c].tiles@.len() ==> cols@[c].tiles@[m] < wins@.len(),
{
    // Split the windows into tiled and floating ones.
    let mut tiled: Vec<usize> = Vec::new();
    let mut floating: Vec<usize> = Vec::new();
    let mut keys: Vec<Key> = Vec::new();
    let mut i: usize = 0;
    while i < sel.len()
        invariant
            i <= sel@.len(),
            forall|k: int| 0 <= k < sel@.len() ==> sel@[k] < wins@.len(),
            tiled@ == sel@.take(i as int).filter(|x: usize| is_tiled(wins@[x as int])),
            floating@ == sel@.take(i as int).filter(|x: usize| !is_tiled(wins@[x as int])),
            keys@ == tile_keys(wins@, tiled@),
        decreases sel@.len() - i,
    {
        let x = sel[i];
        proof {
            reveal_with_fuel(Seq::filter, 1);
            assert(sel@.take(i + 1).drop_last() =~= sel@.take(i as int));
        }
        match wins[x].pos_in_scrolling_layout {
            Some(p) => {
                tiled.push(x);
                keys.push((p.0 as u64, p.1 as u64, 0u64));
                assert(keys@ =~= tile_keys(wins@, tiled@));
            },
            None => {
                floating.push(x);
            },
        }
        i += 1;
    }
    assert(sel@.take(sel@.len() as int) =~= sel@);
    let ordered = reorder_by(&tiled, &keys);
    assert(ordered@ == tiles_in_order(wins@, sel@));
    proof {
        broadcast use vstd::seq_lib::group_filter_ensures;
        assert forall|k: int| 0 <= k < ordered@.len() implies ordered@[k] < wins@.len() by {
            assert(tiled@.contains(ordered@[k]));
            sel@.lemma_filter_contains_rev(|x: usize| is_tiled(wins@[x as int]), ordered@[k]);
        }
        assert forall|m: int| 0 <= m < floating@.len() implies floating@[m] < wins@.len() by {
            assert(floating@.contains(floating@[m]));
            sel@.lemma_filter_contains_rev(|x: usize| !is_tiled(wins@[x as int]), floating@[m]);
        }
    }
    // Cut the ordered tiles into columns.
    let mut cols: Vec<Column> = Vec::new();
    let mut k: usize = 0;
    while k < ordered.len()
        invariant
            k <= ordered@.len(),
            forall|m: int| 0 <= m < ordered@.len() ==> ordered@[m] < wins@.len(),
            cols@.map_values(|c: Column| c@) == column_runs(wins@, ordered@.take(k as int)).map_values(
                |r: Seq<usize>| (r, holds_active(wins@, r, active)),
            ),
            forall|c: int| 0 <= c < cols@.len() ==> (#[trigger] cols@[c]).tiles@.len() > 0
                && forall|m: int| 0 <= m < cols@[c].tiles@.len() ==> cols@[c].tiles@[m] < wins@.len(),
        decreases ordered@.len() - k,
    {
        let x = ordered[k];
        let ghost prev = ordered@.take(k as int);
        let ghost r = column_runs(wins@, prev);
        let ghost old_cols = cols@;
        proof {
            lemma_runs_shape(wins@, prev);
            assert(ordered@.take(k + 1).drop_last() =~= prev);
            assert(ordered@.take(k + 1).last() == x);
            assert(old_cols.map_values(|c: Column| c@).len() == r.len());
            assert forall|c: int| 0 <= c < r.len() implies (#[trigger] old_cols[c])@ == (r[c], holds_active(wins@, r[c], active)) by {
                assert(old_cols.map_values(|c: Column| c@)[c] == r.map_values(|r: Seq<usize>| (r, holds_active(wins@, r, active)))[c]);
            }
        }
        let n = cols.len();
        let same = if n > 0 {
            let last_tiles = &cols[n - 1].tiles;
            let y = last_tiles[last_tiles.len() - 1];
            column_index(&wins[y]) == column_index(&wins[x])
        } else {
            false
        };
        let ghost nr: Seq<Seq<usize>> = column_runs(wins@, ordered@.take(k + 1));
        if same {
            let hit = active == Some(wins[x].id);
            cols[n - 1].tiles.push(x);
            if hit {
                cols[n - 1].is_workspace_focused = true;
            }
            proof {
                let t = r.last().push(x);
                assert(nr == r.update(r.len() - 1, t));
                if hit {
                    assert(holds_active(wins@, t, active)) by {
                        assert(t[t.len() - 1] == x);
                    }
                } else {
                    assert(holds_active(wins@, t, active) == holds_active(wins@, r.last(), active)) by {
                        if holds_active(wins@, t, active) {
                            let j = choose|j: int| 0 <= j < t.len() && active == Some(wins@[t[j] as int].id);
                            assert(j < t.len() - 1);
                            assert(t[j] == r.last()[j]);
                        }
                        if holds_active(wins@, r.last(), active) {
                            let j = choose|j: int| 0 <= j < r.last().len() && active == Some(wins@[r.last()[j] as int].id);
                            assert(t[j] == r.last()[j]);
                        }
                    }
                }
                assert(cols@[n - 1]@ == (t, holds_active(wins@, t, active)));
                assert forall|c: int| 0 <= c < cols@.len() implies (#[trigger] cols@[c]).tiles@.len() > 0
                    && forall|m: int| 0 <= m < cols@[c].tiles@.len() ==> cols@[c].tiles@[m] < wins@.len() by {
                    if c < n - 1 {
                        assert(cols@[c] == old_cols[c]);
                    } else {
                        assert forall|m: int| 0 <= m < cols@[c].tiles@.len() implies cols@[c].tiles@[m] < wins@.len() by {
                            if m < cols@[c].tiles@.len() - 1 {
                                assert(cols@[c].tiles@[m] == old_cols[c].tiles@[m]);
                            }
                        }
                    }
                }
                assert forall|c: int| 0 <= c < nr.len() implies (#[trigger] cols@[c])@ == (nr[c], holds_active(wins@, nr[c], active)) by {
                    if c < n - 1 {
                        assert(cols@[c] == old_cols[c]);
                    }
                }
            }
        } else {
            let mut tiles: Vec<usize> = Vec::new();
            tiles.push(x);
            let focused = active == Some(wins[x].id);
            cols.push(Column { tiles, is_workspace_focused: focused });
            proof {
                let t = seq![x];
                assert(nr == r.push(t));
                assert(tiles@ =~= t);
                assert(holds_active(wins@, t, active) == focused) by {
                    if focused {
                        assert(t[0] == x);
                    }
                }
                assert forall|c: int| 0 <= c < nr.len() implies (#[trigger] cols@[c])@ == (nr[c], holds_active(wins@, nr[c], active)) by {
                    if c < n {
                        assert(cols@[c] == old_cols[c]);
                    }
                }
                assert forall|c: int| 0 <= c < cols@.len() implies (#[trigger] cols@[c]).tiles@.len() > 0
                    && forall|m: int| 0 <= m < cols@[c].tiles@.len() ==> cols@[c].tiles@[m] < wins@.len() by {
                    if c < n {
                        assert(cols@[c] == old_cols[c]);
                    }
                }
            }
        }
        assert(cols@.map_values(|c: Column| c@) =~= nr.map_values(
            |r: Seq<usize>| (r, holds_active(wins@, r, active)),
        ));
        k += 1;
    }
    assert(ordered@.take(ordered@.len() as int) =~= ordered@);
    let ghost tiled_cols = cols@.map_values(|c: Column| c@);
    // One column for each floating window.
    let mut f: usize = 0;
    while f < floating.len()
        invariant
            f <= floating@.len(),
            floating@ == floating_in(wins@, sel@),
            forall|m: int| 0 <= m < floating@.len() ==> floating@[m] < wins@.len(),
            cols@.map_values(|c: Column| c@) == tiled_cols + floating@.take(f as int).map_values(
                |i: usize| (seq![i], active == Some(wins@[i as int].id)),
            ),
            forall|c: int| 0 <= c < cols@.len() ==> (#[trigger] cols@[c]).tiles@.len() > 0
                && forall|m: int| 0 <= m < cols@[c].tiles@.len() ==> cols@[c].tiles@[m] < wins@.len(),
        decreases floating@.len() - f,
    {
        let x = floating[f];
        let ghost old_cols = cols@;
        let mut tiles: Vec<usize> = Vec::new();
        tiles.push(x);
        let focused = active == Some(wins[x].id);
        cols.push(Column { tiles, is_workspace_focused: focused });
        assert(tiles@ =~= seq![x]);
        assert(floating@.take(f + 1) =~= floating@.take(f as int).push(x));
        assert(cols@.map_values(|c: Column| c@) =~= old_cols.map_values(|c: Column| c@).push((seq![x], focused)));
        assert forall|c: int| 0 <= c < cols@.len() implies (#[trigger] cols@[c]).tiles@.len() > 0
            && forall|m: int| 0 <= m < cols@[c].tiles@.len() ==> cols@[c].tiles@[m] < wins@.len() by {
            if c < cols@.len() - 1 {
                assert(cols@[c] == old_cols[c]);
            }
        }
        assert(cols@.map_values(|c: Column| c@) =~= tiled_cols + floating@.take(f + 1).map_values(
            |i: usize| (seq![i], active == Some(wins@[i as int].id)),
        ));
        f += 1;
    }
    assert(floating@.take(floating@.len() as int) =~= floating@);
    cols
}

} // verus!

verus! {

/// Frame drawn around a column: the accent color marks the focused column
/// of the focused workspace, gray the active column of another workspace.
#[derive(PartialEq, Eq, Structural, Clone, Copy, Debug)]
pub enum FrameColor {
    Accent,
    Gray,
}

/// What the window list shows for one column.
pub struct ColumnLabel {
    pub content: String,
    pub frame: Option<FrameColor>,
}

impl View for ColumnLabel {
    type V = (Seq<char>, Option<FrameColor>);

    open spec fn view(&self) -> (Seq<char>, Option<FrameColor>) {
        (self.content@, self.frame)
    }
}

/// Positions of the workspaces shown on output `out`, in list order.
pub open spec fn ws_on_output(wss: Seq<Workspace>, out: Seq<char>) -> Seq<usize> {
    positions(wss.len()).filter(|k: usize| opt_view(wss[k as int].output) == Some(out))
}

/// Index keys of workspaces.
pub open spec fn ws_idx_keys(wss: Seq<Workspace>, s: Seq<usize>) -> Seq<Key> {
    s.map_values(|k: usize| (wss[k as int].idx as u64, 0u64, 0u64))
}

/// Positions of the workspaces of output `out`, ordered by their index.
pub open spec fn output_workspaces(wss: Seq<Workspace>, out: Seq<char>) -> Seq<usize> {
    reorder(ws_on_output(wss, out), ws_idx_keys(wss, ws_on_output(wss, out)))
}

/// Positions of the windows on workspace `wsid`, in list order.
pub open spec fn wins_on(wins: Seq<Window>, wsid: u64) -> Seq<usize> {
    positions(wins.len()).filter(|j: usize| wins[j as int].workspace_id == Some(wsid))
}

/// Id keys of windows.
pub open spec fn win_id_keys(wins: Seq<Window>, s: Seq<usize>) -> Seq<Key> {
    s.map_values(|j: usize| (wins[j as int].id, 0u64, 0u64))
}

/// Positions of the windows on workspace `wsid`, ordered by id.
pub open spec fn workspace_windows(wins: Seq<Window>, wsid: u64) -> Seq<usize> {
    reorder(wins_on(wins, wsid), win_id_keys(wins, wins_on(wins, wsid)))
}

/// Title shown for a window (`?` when it has none).
pub open spec fn title_text(w: Window) -> Seq<char> {
    match w.title {
        Some(t) => t@,
        None => "?"@,
    }
}

/// Label of one window.
pub open spec fn label_of(w: Window) -> Seq<char> {
    window_label_spec(
        match opt_view(w.app_id) {
            Some(v) => Some(lowercase(v)),
            None => None,
        },
        lowercase(title_text(w)),
    )
}

/// The first of `tiles`, from position `j` on, that is the active window;
/// the top tile when there is none.
pub open spec fn first_active(wins: Seq<Window>, tiles: Seq<usize>, active: Option<u64>, j: int) -> usize
    decreases tiles.len() - j,
{
    if j < 0 || j >= tiles.len() {
        tiles[0]
    } else if active == Some(wins[tiles[j] as int].id) {
        tiles[j]
    } else {
        first_active(wins, tiles, active, j + 1)
    }
}

/// Label and frame of a column of workspace `ws`.
pub open spec fn column_label(wins: Seq<Window>, c: (Seq<usize>, bool), ws: Workspace) -> (Seq<char>, Option<FrameColor>) {
    let frame = if c.1 && ws.is_focused {
        Some(FrameColor::Accent)
    } else if c.1 {
        Some(FrameColor::Gray)
    } else {
        None
    };
    let content = if c.0.len() == 1 {
        label_of(wins[c.0[0] as int])
    } else {
        seq!['\u{f0328}'] + decimal(c.0.len()) + label_of(wins[first_active(wins, c.0, ws.active_window_id, 0) as int])
    };
    (content, frame)
}

/// Column labels of the workspace at position `k` (none unless it is active).
pub open spec fn ws_labels(wins: Seq<Window>, wss: Seq<Workspace>, k: usize) -> Seq<(Seq<char>, Option<FrameColor>)> {
    let ws = wss[k as int];
    let sel = workspace_windows(wins, ws.id);
    if !ws.is_active || sel.len() == 0 {
        seq![]
    } else {
        columns_spec(wins, sel, ws.active_window_id).map_values(|c: (Seq<usize>, bool)| column_label(wins, c, ws))
    }
}

/// Column labels of the workspaces at positions `ks`, one after the other.
pub open spec fn labels_over(wins: Seq<Window>, wss: Seq<Workspace>, ks: Seq<usize>) -> Seq<(Seq<char>, Option<FrameColor>)>
    decreases ks.len(),
{
    if ks.len() == 0 {
        seq![]
    } else {
        labels_over(wins, wss, ks.drop_last()) + ws_labels(wins, wss, ks.last())
    }
}

/// What the window list shows on output `out`: the columns of every active
/// workspace of that output, workspaces in index order.
pub open spec fn window_columns_spec(wins: Seq<Window>, wss: Seq<Workspace>, out: Seq<char>) -> Seq<(Seq<char>, Option<FrameColor>)> {
    labels_over(wins, wss, output_workspaces(wss, out))
}

/// What the workspace list shows on output `out`: for each workspace, in
/// index order, whether it is focused and its label.
pub open spec fn workspace_labels_spec(wss: Seq<Workspace>, out: Seq<char>) -> Seq<(bool, Seq<char>)> {
    output_workspaces(wss, out).map_values(
        |k: usize| (wss[k as int].is_focused, seq![' '] + decimal(wss[k as int].idx as nat) + seq![' ']),
    )
}

/// Positions of the workspaces shown on `out`, ordered by index.
fn select_workspaces(wss: &Vec<Workspace>, out: &String) -> (r: Vec<usize>)
    ensures
        r@ == output_workspaces(wss@, out@),
        forall|m: int| 0 <= m < r@.len() ==> r@[m] < wss@.len(),
{
    let mut sel: Vec<usize> = Vec::new();
    let mut keys: Vec<Key> = Vec::new();
    let mut k: usize = 0;
    while k < wss.len()
        invariant
            k <= wss@.len(),
            sel@ == positions(k as nat).filter(|k: usize| opt_view(wss@[k as int].output) == Some(out@)),
            keys@ == ws_idx_keys(wss@, sel@),
            forall|m: int| 0 <= m < sel@.len() ==> sel@[m] < k,
        decreases wss@.len() - k,
    {
        proof {
            reveal_with_fuel(Seq::filter, 1);
            assert(positions((k + 1) as nat).drop_last() =~= positions(k as nat));
        }
        let shown = match &wss[k].output {
            Some(o) => o.eq(out),
            None => false,
        };
        if shown {
            sel.push(k);
            keys.push((wss[k].idx as u64, 0u64, 0u64));
            assert(keys@ =~= ws_idx_keys(wss@, sel@));
        }
        k += 1;
    }
    assert(positions(wss@.len()) =~= positions(k as nat));
    let r = reorder_by(&sel, &keys);
    assert forall|m: int| 0 <= m < r@.len() implies r@[m] < wss@.len() by {
        assert(sel@.contains(r@[m]));
    }
    r
}

/// Positions of the windows on workspace `wsid`, ordered by id.
fn select_windows(wins: &Vec<Window>, wsid: u64) -> (r: Vec<usize>)
    ensures
        r@ == workspace_windows(wins@, wsid),
        forall|m: int| 0 <= m < r@.len() ==> r@[m] < wins@.len(),
{
    let mut sel: Vec<usize> = Vec::new();
    let mut keys: Vec<Key> = Vec::new();
    let mut j: usize = 0;
    while j < wins.len()
        invariant
            j <= wins@.len(),
            sel@ == positions(j as nat).filter(|j: usize| wins@[j as int].workspace_id == Some(wsid)),
            keys@ == win_id_keys(wins@, sel@),
            forall|m: int| 0 <= m < sel@.len() ==> sel@[m] < j,
        decreases wins@.len() - j,
    {
        proof {
            reveal_with_fuel(Seq::filter, 1);
            assert(positions((j + 1) as nat).drop_last() =~= positions(j as nat));
        }
        if wins[j].workspace_id == Some(wsid) {
            sel.push(j);
            keys.push((wins[j].id, 0u64, 0u64));
            assert(keys@ =~= win_id_keys(wins@, sel@));
        }
        j += 1;
    }
    assert(positions(wins@.len()) =~= positions(j as nat));
    let r = reorder_by(&sel, &keys);
    assert forall|m: int| 0 <= m < r@.len() implies r@[m] < wins@.len() by {
        assert(sel@.contains(r@[m]));
    }
    r
}

/// Label of one window.
fn label_for(w: &Window) -> (r: String)
    ensures
        r@ == label_of(*w),
{
    let app_id = match &w.app_id {
        Some(a) => Some(a.as_str()),
        None => None,
    };
    let title = match &w.title {
        Some(t) => t.as_str(),
        None => "?",
    };
    window_label(app_id, title)
}

/// Label and frame of one column of workspace `ws`.
fn label_column(wins: &Vec<Window>, col: &Column, ws: &Workspace) -> (r: ColumnLabel)
    requires
        col.tiles@.len() > 0,
        forall|m: int| 0 <= m < col.tiles@.len() ==> col.tiles@[m] < wins@.len(),
    ensures
        r@ == column_label(wins@, col@, *ws),
{
    let frame = if col.is_workspace_focused && ws.is_focused {
        Some(FrameColor::Accent)
    } else if col.is_workspace_focused {
        Some(FrameColor::Gray)
    } else {
        None
    };
    let n = col.tiles.len();
    if n == 1 {
        return ColumnLabel { content: label_for(&wins[col.tiles[0]]), frame };
    }
    let mut pick = col.tiles[0];
    let mut j: usize = 0;
    while j < n
        invariant_except_break
            pick == col.tiles@[0],
        invariant
            n == col.tiles@.len(),
            n > 0,
            j <= n,
            forall|m: int| 0 <= m < col.tiles@.len() ==> col.tiles@[m] < wins@.len(),
            first_active(wins@, col.tiles@, ws.active_window_id, 0)
                == first_active(wins@, col.tiles@, ws.active_window_id, j as int),
        ensures
            pick == first_active(wins@, col.tiles@, ws.active_window_id, 0),
            pick < wins@.len(),
        decreases n - j,
    {
        if ws.active_window_id == Some(wins[col.tiles[j]].id) {
            pick = col.tiles[j];
            break;
        }
        j += 1;
    }
    assert(pick == first_active(wins@, col.tiles@, ws.active_window_id, 0));
    let mut content = String::new();
    push_char(&mut content, '\u{f0328}');
    push_decimal(&mut content, n as u64);
    let label = label_for(&wins[pick]);
    crate::text::push_str(&mut content, label.as_str());
    ColumnLabel { content, frame }
}

/// What the window list shows on output `output`: one label per column of
/// every active workspace of that output, workspaces in index order.
pub fn window_columns(state: &NiriState, output: &str) -> (r: Vec<ColumnLabel>)
    ensures
        r@.map_values(|c: ColumnLabel| c@) == window_columns_spec(state.windows@, state.workspaces@, output@),
{
    let out = output.to_owned();
    let wins = &state.windows;
    let wss = &state.workspaces;
    let order = select_workspaces(wss, &out);
    let mut labels: Vec<ColumnLabel> = Vec::new();
    let mut i: usize = 0;
    while i < order.len()
        invariant
            i <= order@.len(),
            order@ == output_workspaces(wss@, out@),
            forall|m: int| 0 <= m < order@.len() ==> order@[m] < wss@.len(),
            labels@.map_values(|c: ColumnLabel| c@) == labels_over(wins@, wss@, order@.take(i as int)),
        decreases order@.len() - i,
    {
        let k = order[i];
        let ws = &wss[k];
        let ghost before = labels@.map_values(|c: ColumnLabel| c@);
        assert(order@.take(i + 1).drop_last() =~= order@.take(i as int));
        if ws.is_active {
            let sel = select_windows(wins, ws.id);
            if sel.len() > 0 {
                let cols = build_columns(wins, &sel, ws.active_window_id);
                let ghost cs = columns_spec(wins@, sel@, ws.active_window_id);
                let mut c: usize = 0;
                while c < cols.len()
                    invariant
                        c <= cols@.len(),
                        cols@.map_values(|c: Column| c@) == cs,
                        forall|c: int| 0 <= c < cols@.len() ==> (#[trigger] cols@[c]).tiles@.len() > 0
                            && forall|m: int| 0 <= m < cols@[c].tiles@.len() ==> cols@[c].tiles@[m] < wins@.len(),
                        labels@.map_values(|c: ColumnLabel| c@) == before + cs.take(c as int).map_values(
                            |c: (Seq<usize>, bool)| column_label(wins@, c, *ws),
                        ),
                    decreases cols@.len() - c,
                {
                    assert(cols@.map_values(|c: Column| c@)[c as int] == cs[c as int]);
                    assert(cols@[c as int]@ == cs[c as int]);
                    let l = label_column(wins, &cols[c], ws);
                    let ghost prev = labels@.map_values(|c: ColumnLabel| c@);
                    labels.push(l);
                    assert(labels@.map_values(|c: ColumnLabel| c@) =~= prev.push(l@));
                    assert(cs.take(c + 1) =~= cs.take(c as int).push(cs[c as int]));
                    assert(labels@.map_values(|c: ColumnLabel| c@) =~= before + cs.take(c + 1).map_values(
                        |c: (Seq<usize>, bool)| column_label(wins@, c, *ws),
                    ));
                    c += 1;
                }
                assert(cs.take(cs.len() as int) =~= cs);
            }
        }
        assert(labels@.map_values(|c: ColumnLabel| c@) =~= labels_over(wins@, wss@, order@.take(i + 1)));
        i += 1;
    }
    assert(order@.take(order@.len() as int) =~= order@);
    labels
}

/// What the workspace list shows on output `output`: for each of its
/// workspaces, in index order, whether it is focused and its label.
pub fn workspace_labels(wss: &Vec<Workspace>, output: &str) -> (r: Vec<(bool, String)>)
    ensures
        r@.map_values(|e: (bool, String)| (e.0, e.1@)) == workspace_labels_spec(wss@, output@),
{
    let out = output.to_owned();
    let order = select_workspaces(wss, &out);
    let mut r: Vec<(bool, String)> = Vec::new();
    let mut i: usize = 0;
    while i < order.len()
        invariant
            i <= order@.len(),
            order@ == output_workspaces(wss@, out@),
            forall|m: int| 0 <= m < order@.len() ==> order@[m] < wss@.len(),
            r@.map_values(|e: (bool, String)| (e.0, e.1@)) == order@.take(i as int).map_values(
                |k: usize| (wss@[k as int].is_focused, seq![' '] + decimal(wss@[k as int].idx as nat) + seq![' ']),
            ),
        decreases order@.len() - i,
    {
        let ws = &wss[order[i]];
        let mut label = String::new();
        push_char(&mut label, ' ');
        push_decimal(&mut label, ws.idx as u64);
        push_char(&mut label, ' ');
        let ghost prev = r@.map_values(|e: (bool, String)| (e.0, e.1@));
        assert(label@ =~= seq![' '] + decimal(ws.idx as nat) + seq![' ']);
        let f = ws.is_focused;
        r.push((f, label));
        assert(r@.map_values(|e: (bool, String)| (e.0, e.1@)) =~= prev.push((f, seq![' '] + decimal(ws.idx as nat) + seq![' '])));
        assert(order@.take(i + 1) =~= order@.take(i as int).push(order@[i as int]));
        assert(r@.map_values(|e: (bool, String)| (e.0, e.1@)) =~= order@.take(i + 1).map_values(
            |k: usize| (wss@[k as int].is_focused, seq![' '] + decimal(wss@[k as int].idx as nat) + seq![' ']),
        ));
        i += 1;
    }
    assert(order@.take(order@.len() as int) =~= order@);
    r
}

} // verus!
