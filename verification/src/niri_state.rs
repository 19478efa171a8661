//! The compositor state that the window and workspace items keep: windows
//! and workspaces as the compositor reports them, and how each event from
//! the compositor's event stream changes them.
use vstd::prelude::*;

verus! {

/// A window as the compositor reports it (the fields the bar reads).
pub struct Window {
    pub id: u64,
    pub title: Option<String>,
    pub app_id: Option<String>,
    pub workspace_id: Option<u64>,
    pub is_focused: bool,
    /// Column and tile index (both 1-based) in the scrolling layout;
    /// `None` for floating windows.
    pub pos_in_scrolling_layout: Option<(usize, usize)>,
}

/// A workspace as the compositor reports it (the fields the bar reads).
pub struct Workspace {
    pub id: u64,
    pub idx: u8,
    pub output: Option<String>,
    pub is_active: bool,
    pub is_focused: bool,
    pub active_window_id: Option<u64>,
}

/// The compositor events that the bar follows; `Other` stands for every
/// event that it ignores.
#[allow(inconsistent_fields)]
pub enum NiriEvent {
    WindowsChanged { windows: Vec<Window> },
    WindowOpenedOrChanged { window: Window },
    WindowClosed { id: u64 },
    WindowFocusChanged { id: Option<u64> },
    WorkspacesChanged { workspaces: Vec<Workspace> },
    WorkspaceActivated { id: u64, focused: bool },
    WindowLayoutsChanged { changes: Vec<(u64, Option<(usize, usize)>)> },
    WorkspaceActiveWindowChanged { workspace_id: u64, active_window_id: Option<u64> },
    Other,
}

/// Windows and workspaces known to the window item.
pub struct NiriState {
    pub windows: Vec<Window>,
    pub workspaces: Vec<Workspace>,
}

/// The text of an optional string.
pub open spec fn opt_view(o: Option<String>) -> Option<Seq<char>> {
    match o {
        Some(s) => Some(s@),
        None => None,
    }
}

/// `i` is the first position of a window with id `id`.
pub open spec fn is_first_window(ws: Seq<Window>, id: u64, i: int) -> bool {
    0 <= i < ws.len() && ws[i].id == id && forall|j: int| 0 <= j < i ==> ws[j].id != id
}

/// Position of the first window with id `id`, if any.
pub open spec fn window_pos(ws: Seq<Window>, id: u64) -> Option<int> {
    if exists|i: int| is_first_window(ws, id, i) {
        Some(choose|i: int| is_first_window(ws, id, i))
    } else {
        None
    }
}

/// `i` is the first position of a workspace with id `id`.
pub open spec fn is_first_workspace(ws: Seq<Workspace>, id: u64, i: int) -> bool {
    0 <= i < ws.len() && ws[i].id == id && forall|j: int| 0 <= j < i ==> ws[j].id != id
}

/// Position of the first workspace with id `id`, if any.
pub open spec fn workspace_pos(ws: Seq<Workspace>, id: u64) -> Option<int> {
    if exists|i: int| is_first_workspace(ws, id, i) {
        Some(choose|i: int| is_first_workspace(ws, id, i))
    } else {
        None
    }
}

proof fn lemma_first_window_unique(ws: Seq<Window>, id: u64, i: int)
    requires
        is_first_window(ws, id, i),
    ensures
        window_pos(ws, id) == Some(i),
{
    let k = choose|k: int| is_first_window(ws, id, k);
    assert(is_first_window(ws, id, k));
    if k < i {
        assert(ws[k].id != id);
    }
    if i < k {
        assert(ws[i].id != id);
    }
}

proof fn lemma_first_workspace_unique(ws: Seq<Workspace>, id: u64, i: int)
    requires
        is_first_workspace(ws, id, i),
    ensures
        workspace_pos(ws, id) == Some(i),
{
    let k = choose|k: int| is_first_workspace(ws, id, k);
    assert(is_first_workspace(ws, id, k));
    if k < i {
        assert(ws[k].id != id);
    }
    if i < k {
        assert(ws[i].id != id);
    }
}

/// Finds the first window with id `id`.
pub fn find_window(ws: &Vec<Window>, id: u64) -> (r: Option<usize>)
    ensures
        match r {
            Some(i) => window_pos(ws@, id) == Some(i as int),
            None => window_pos(ws@, id) is None,
        },
{
    let mut i: usize = 0;
    while i < ws.len()
        invariant
            i <= ws@.len(),
            forall|j: int| 0 <= j < i ==> ws@[j].id != id,
        decreases ws@.len() - i,
    {
        if ws[i].id == id {
            proof {
                lemma_first_window_unique(ws@, id, i as int);
            }
            return Some(i);
        }
        i += 1;
    }
    assert(!exists|k: int| is_first_window(ws@, id, k));
    None
}

/// Finds the first workspace with id `id`.
pub fn find_workspace(ws: &Vec<Workspace>, id: u64) -> (r: Option<usize>)
    ensures
        match r {
            Some(i) => workspace_pos(ws@, id) == Some(i as int),
            None => workspace_pos(ws@, id) is None,
        },
{
    let mut i: usize = 0;
    while i < ws.len()
        invariant
            i <= ws@.len(),
            forall|j: int| 0 <= j < i ==> ws@[j].id != id,
        decreases ws@.len() - i,
    {
        if ws[i].id == id {
            proof {
                lemma_first_workspace_unique(ws@, id, i as int);
            }
            return Some(i);
        }
        i += 1;
    }
    assert(!exists|k: int| is_first_workspace(ws@, id, k));
    None
}

/// Windows after a window was opened or changed: it replaces the first
/// window with its id, or joins the end when there was none.
pub open spec fn opened_or_changed(ws: Seq<Window>, w: Window) -> Seq<Window> {
    match window_pos(ws, w.id) {
        Some(i) => ws.update(i, w),
        None => ws.push(w),
    }
}

/// Windows after the window with id `id` was closed.
pub open spec fn closed(ws: Seq<Window>, id: u64) -> Seq<Window> {
    ws.filter(|w: Window| w.id != id)
}

/// A window whose focus follows the newly focused window id `id`.
pub open spec fn refocused(w: Window, id: Option<u64>) -> Window {
    Window { is_focused: id == Some(w.id), ..w }
}

/// Windows after the window `id` took the focus.
pub open spec fn refocus_all(ws: Seq<Window>, id: Option<u64>) -> Seq<Window> {
    ws.map_values(|w: Window| refocused(w, id))
}

/// Workspaces after the window `id` took the focus: the workspace holding
/// that window (the first of its id) records it as its active window.
pub open spec fn focus_workspaces(wins: Seq<Window>, wss: Seq<Workspace>, id: Option<u64>) -> Seq<Workspace> {
    match id {
        Some(x) => match window_pos(wins, x) {
            Some(i) => match wins[i].workspace_id {
                Some(wsid) => match workspace_pos(wss, wsid) {
                    Some(k) => wss.update(k, Workspace { active_window_id: Some(x), ..wss[k] }),
                    None => wss,
                },
                None => wss,
            },
            None => wss,
        },
        None => wss,
    }
}

/// Output of the workspace `id` (none when it is unknown or has no output).
pub open spec fn activated_output(wss: Seq<Workspace>, id: u64) -> Option<Seq<char>> {
    match workspace_pos(wss, id) {
        Some(k) => opt_view(wss[k].output),
        None => None,
    }
}

/// A workspace after the workspace `id` was activated (and focused, when
/// `focused`) on the output `out`.
pub open spec fn activated(w: Workspace, id: u64, focused: bool, out: Option<Seq<char>>) -> Workspace {
    Workspace {
        is_focused: if focused { w.id == id } else { w.is_focused },
        is_active: if opt_view(w.output) == out { w.id == id } else { w.is_active },
        ..w
    }
}

/// Workspaces after the workspace `id` was activated.
pub open spec fn activate_all(wss: Seq<Workspace>, id: u64, focused: bool) -> Seq<Workspace> {
    wss.map_values(|w: Workspace| activated(w, id, focused, activated_output(wss, id)))
}

/// Windows after the layout of the window `change.0` became `change.1`.
pub open spec fn set_layout(ws: Seq<Window>, change: (u64, Option<(usize, usize)>)) -> Seq<Window> {
    match window_pos(ws, change.0) {
        Some(i) => ws.update(i, Window { pos_in_scrolling_layout: change.1, ..ws[i] }),
        None => ws,
    }
}

/// Windows after a batch of layout changes, applied in order.
pub open spec fn set_layouts(ws: Seq<Window>, changes: Seq<(u64, Option<(usize, usize)>)>) -> Seq<Window>
    decreases changes.len(),
{
    if changes.len() == 0 {
        ws
    } else {
        set_layout(set_layouts(ws, changes.drop_last()), changes.last())
    }
}

/// Workspaces after the active window of workspace `wsid` became `active`.
pub open spec fn set_active_window(wss: Seq<Workspace>, wsid: u64, active: Option<u64>) -> Seq<Workspace> {
    match workspace_pos(wss, wsid) {
        Some(k) => wss.update(k, Workspace { active_window_id: active, ..wss[k] }),
        None => wss,
    }
}

/// Copies an optional string.
pub fn clone_opt_string(o: &Option<String>) -> (r: Option<String>)
    ensures
        r == *o,
{
    match o {
        Some(s) => Some(s.clone()),
        None => None,
    }
}

/// Whether two optional strings hold the same text.
pub fn opt_string_eq(a: &Option<String>, b: &Option<String>) -> (r: bool)
    ensures
        r == (opt_view(*a) == opt_view(*b)),
{
    match (a, b) {
        (Some(x), Some(y)) => x.eq(y),
        (None, None) => true,
        _ => false,
    }
}

/// Activates the workspace `id` (and focuses it, when `focused`): on its
/// output it becomes the one active workspace.
pub fn activate_workspace(wss: &mut Vec<Workspace>, id: u64, focused: bool)
    ensures
        final(wss)@ == activate_all(old(wss)@, id, focused),
{
    let ghost old_w = wss@;
    let output = match find_workspace(wss, id) {
        Some(k) => clone_opt_string(&wss[k].output),
        None => None,
    };
    assert(opt_view(output) == activated_output(old_w, id));
    let n = wss.len();
    let mut i: usize = 0;
    while i < n
        invariant
            n == wss@.len(),
            n == old_w.len(),
            i <= n,
            opt_view(output) == activated_output(old_w, id),
            forall|j: int| 0 <= j < i ==> wss@[j] == activated(old_w[j], id, focused, activated_output(old_w, id)),
            forall|j: int| i <= j < n ==> wss@[j] == old_w[j],
        decreases n - i,
    {
        if focused {
            let f = wss[i].id == id;
            wss[i].is_focused = f;
        }
        if opt_string_eq(&wss[i].output, &output) {
            let a = wss[i].id == id;
            wss[i].is_active = a;
        }
        i += 1;
    }
    assert(wss@ =~= activate_all(old_w, id, focused));
}


/// Updates the workspace list with one compositor event; only workspace
/// replacements and activations are followed, and the result tells whether
/// the list was touched.
pub fn handle_workspace_event(wss: &mut Vec<Workspace>, event: NiriEvent) -> (changed: bool)
    ensures
        match event {
            NiriEvent::WorkspacesChanged { workspaces } => changed && *final(wss) == workspaces,
            NiriEvent::WorkspaceActivated { id, focused } => {
                &&& changed
                &&& final(wss)@ == activate_all(old(wss)@, id, focused)
            },
            _ => !changed && *final(wss) == *old(wss),
        },
{
    match event {
        NiriEvent::WorkspacesChanged { workspaces } => {
            *wss = workspaces;
            true
        },
        NiriEvent::WorkspaceActivated { id, focused } => {
            activate_workspace(wss, id, focused);
            true
        },
        _ => false,
    }
}

/// Closing a window leaves no window with its id, keeps every other
/// window, and closing it again changes nothing.
pub proof fn law_close_removes(ws: Seq<Window>, id: u64)
    ensures
        forall|i: int| 0 <= i < closed(ws, id).len() ==> closed(ws, id)[i].id != id,
        forall|i: int| 0 <= i < ws.len() && ws[i].id != id ==> closed(ws, id).contains(ws[i]),
        closed(closed(ws, id), id) == closed(ws, id),
{
    broadcast use vstd::seq_lib::group_filter_ensures;
    let c = closed(ws, id);
    assert forall|i: int| 0 <= i < c.len() implies c[i].id != id by {
        assert((|w: Window| w.id != id)(c[i]));
    }
    lemma_filter_all_kept(c, id);
}

proof fn lemma_filter_all_kept(s: Seq<Window>, id: u64)
    requires
        forall|i: int| 0 <= i < s.len() ==> s[i].id != id,
    ensures
        closed(s, id) == s,
    decreases s.len(),
{
    reveal_with_fuel(Seq::filter, 1);
    if s.len() > 0 {
        lemma_filter_all_kept(s.drop_last(), id);
        assert(s.drop_last().push(s.last()) =~= s);
    } else {
        assert(closed(s, id) =~= s);
    }
}

/// After a window was opened or changed, looking up its id finds exactly
/// that window.
pub proof fn law_opened_window_is_found(ws: Seq<Window>, w: Window)
    ensures
        window_pos(opened_or_changed(ws, w), w.id) matches Some(i) && opened_or_changed(ws, w)[i] == w,
{
    let r = opened_or_changed(ws, w);
    match window_pos(ws, w.id) {
        Some(i) => {
            assert(is_first_window(ws, w.id, i));
            assert(is_first_window(r, w.id, i));
            lemma_first_window_unique(r, w.id, i);
        },
        None => {
            let n = ws.len() as int;
            assert forall|j: int| 0 <= j < n implies r[j].id != w.id by {
                if ws[j].id == w.id {
                    assert(exists|m: int| 0 <= m < n && ws[m].id == w.id);
                    lemma_some_first_window(ws, w.id, j);
                }
            }
            assert(is_first_window(r, w.id, n));
            lemma_first_window_unique(r, w.id, n);
        },
    }
}

proof fn lemma_some_first_window(ws: Seq<Window>, id: u64, j: int)
    requires
        0 <= j < ws.len(),
        ws[j].id == id,
    ensures
        window_pos(ws, id) is Some,
    decreases j,
{
    if exists|m: int| 0 <= m < j && ws[m].id == id {
        let m = choose|m: int| 0 <= m < j && ws[m].id == id;
        lemma_some_first_window(ws, id, m);
    } else {
        assert(is_first_window(ws, id, j));
    }
}

/// After a focus change, a window is focused exactly when it carries the
/// newly focused id; so when ids are unique, at most one window is focused.
pub proof fn law_focus_is_exclusive(ws: Seq<Window>, id: Option<u64>)
    ensures
        refocus_all(ws, id).len() == ws.len(),
        forall|i: int| 0 <= i < ws.len() ==>
            (#[trigger] refocus_all(ws, id)[i]).is_focused == (id == Some(ws[i].id)),
        (forall|i: int, j: int| 0 <= i < j < ws.len() ==> ws[i].id != ws[j].id) ==>
            forall|i: int, j: int| 0 <= i < j < ws.len()
                && (#[trigger] refocus_all(ws, id)[i]).is_focused
                ==> !(#[trigger] refocus_all(ws, id)[j]).is_focused,
{
}

/// Activating a known workspace makes it the one active workspace of its
/// output, and, when it is focused, the one focused workspace.
pub proof fn law_activation_is_exclusive(wss: Seq<Workspace>, id: u64, focused: bool)
    requires
        workspace_pos(wss, id) is Some,
    ensures
        ({
            let k = workspace_pos(wss, id)->0;
            let r = activate_all(wss, id, focused);
            &&& r[k].is_active
            &&& forall|j: int| 0 <= j < wss.len() && opt_view(wss[j].output) == opt_view(wss[k].output)
                && wss[j].id != id ==> !(#[trigger] r[j]).is_active
            &&& focused ==> forall|j: int| 0 <= j < wss.len() ==> (#[trigger] r[j]).is_focused == (wss[j].id == id)
        }),
{
    let k = workspace_pos(wss, id)->0;
    assert(is_first_workspace(wss, id, k));
}

/// `k` is the last change in `changes` for the window id `id`.
pub open spec fn is_last_change(changes: Seq<(u64, Option<(usize, usize)>)>, id: u64, k: int) -> bool {
    0 <= k < changes.len() && changes[k].0 == id
        && forall|m: int| k < m < changes.len() ==> (#[trigger] changes[m]).0 != id
}

/// A layout change touches only the layout of the first window of its id:
/// every other field and every other window stays, and ids keep their
/// first positions.
proof fn lemma_set_layout(ws: Seq<Window>, c: (u64, Option<(usize, usize)>))
    ensures
        set_layout(ws, c).len() == ws.len(),
        forall|j: int| 0 <= j < ws.len() ==> (#[trigger] set_layout(ws, c)[j])
            == (Window { pos_in_scrolling_layout: set_layout(ws, c)[j].pos_in_scrolling_layout, ..ws[j] }),
        forall|j: int| 0 <= j < ws.len() && is_first_window(ws, c.0, j)
            ==> (#[trigger] set_layout(ws, c)[j]).pos_in_scrolling_layout == c.1,
        forall|j: int| 0 <= j < ws.len() && !is_first_window(ws, c.0, j)
            ==> #[trigger] set_layout(ws, c)[j] == ws[j],
{
    match window_pos(ws, c.0) {
        Some(i) => {
            assert(is_first_window(ws, c.0, i));
            assert forall|j: int| 0 <= j < ws.len() && is_first_window(ws, c.0, j) implies j == i by {
                lemma_first_window_unique(ws, c.0, j);
            }
        },
        None => {},
    }
}

/// A batch of layout changes moves each window that is the first of its id
/// to where the last change for that id puts it, and leaves every other
/// window as it was; no field but the layout position changes, and no
/// window is added or dropped.
pub proof fn law_layout_changes(ws: Seq<Window>, changes: Seq<(u64, Option<(usize, usize)>)>)
    ensures
        set_layouts(ws, changes).len() == ws.len(),
        forall|j: int| 0 <= j < ws.len() ==> (#[trigger] set_layouts(ws, changes)[j])
            == (Window { pos_in_scrolling_layout: set_layouts(ws, changes)[j].pos_in_scrolling_layout, ..ws[j] }),
        forall|j: int, k: int| 0 <= j < ws.len() && is_first_window(ws, ws[j].id, j)
            && is_last_change(changes, ws[j].id, k)
            ==> (#[trigger] set_layouts(ws, changes)[j]).pos_in_scrolling_layout == (#[trigger] changes[k]).1,
        forall|j: int| 0 <= j < ws.len() && (!is_first_window(ws, ws[j].id, j)
            || forall|k: int| 0 <= k < changes.len() ==> (#[trigger] changes[k]).0 != ws[j].id)
            ==> #[trigger] set_layouts(ws, changes)[j] == ws[j],
    decreases changes.len(),
{
    if changes.len() > 0 {
        let pre = changes.drop_last();
        let c = changes.last();
        law_layout_changes(ws, pre);
        let r0 = set_layouts(ws, pre);
        let r = set_layouts(ws, changes);
        lemma_set_layout(r0, c);
        assert(r == set_layout(r0, c));
        // Ids and first positions are the same in `r0` as in `ws`.
        assert forall|j: int| 0 <= j < ws.len() implies #[trigger] r0[j].id == ws[j].id by {
            assert(r0[j] == (Window { pos_in_scrolling_layout: r0[j].pos_in_scrolling_layout, ..ws[j] }));
        }
        assert forall|id: u64, j: int| is_first_window(r0, id, j) == is_first_window(ws, id, j) by {
            if 0 <= j < ws.len() {
                assert(r0[j].id == ws[j].id);
                assert forall|m: int| 0 <= m < j implies (r0[m].id == id) == (ws[m].id == id) by {
                    assert(r0[m].id == ws[m].id);
                }
            }
        }
        assert forall|j: int| 0 <= j < ws.len() implies (#[trigger] r[j])
            == (Window { pos_in_scrolling_layout: r[j].pos_in_scrolling_layout, ..ws[j] }) by {
            assert(r0[j] == (Window { pos_in_scrolling_layout: r0[j].pos_in_scrolling_layout, ..ws[j] }));
        }
        assert forall|j: int, k: int| 0 <= j < ws.len() && is_first_window(ws, ws[j].id, j)
            && is_last_change(changes, ws[j].id, k)
            implies (#[trigger] r[j]).pos_in_scrolling_layout == (#[trigger] changes[k]).1 by {
            if k == changes.len() - 1 {
                assert(is_first_window(r0, c.0, j));
            } else {
                assert(c.0 != ws[j].id);
                assert(!is_first_window(r0, c.0, j));
                assert(is_last_change(pre, ws[j].id, k));
                assert(r0[j].pos_in_scrolling_layout == pre[k].1);
            }
        }
        assert forall|j: int| 0 <= j < ws.len() && (!is_first_window(ws, ws[j].id, j)
            || forall|k: int| 0 <= k < changes.len() ==> (#[trigger] changes[k]).0 != ws[j].id)
            implies #[trigger] r[j] == ws[j] by {
            if !is_first_window(ws, ws[j].id, j) {
                assert(!is_first_window(r0, c.0, j)) by {
                    if c.0 == ws[j].id {
                    } else {
                        assert(r0[j].id != c.0);
                    }
                }
            } else {
                assert(changes[changes.len() - 1].0 != ws[j].id);
                assert(r0[j].id != c.0);
                assert forall|k: int| 0 <= k < pre.len() implies (#[trigger] pre[k]).0 != ws[j].id by {
                    assert(changes[k] == pre[k]);
                }
            }
            assert(r0[j] == ws[j]);
        }
    }
}

impl NiriState {
    /// Updates the state with one compositor event; tells whether anything
    /// that the bar shows may have changed (`false` for ignored events).
    pub fn handle_event(&mut self, event: NiriEvent) -> (changed: bool)
        ensures
            changed == !(event is Other),
            match event {
                NiriEvent::WindowsChanged { windows } => {
                    &&& final(self).windows == windows
                    &&& final(self).workspaces == old(self).workspaces
                },
                NiriEvent::WindowOpenedOrChanged { window } => {
                    &&& final(self).windows@ == opened_or_changed(old(self).windows@, window)
                    &&& final(self).workspaces == old(self).workspaces
                },
                NiriEvent::WindowClosed { id } => {
                    &&& final(self).windows@ == closed(old(self).windows@, id)
                    &&& final(self).workspaces == old(self).workspaces
                },
                NiriEvent::WindowFocusChanged { id } => {
                    &&& final(self).windows@ == refocus_all(old(self).windows@, id)
                    &&& final(self).workspaces@ == focus_workspaces(old(self).windows@, old(self).workspaces@, id)
                },
                NiriEvent::WorkspacesChanged { workspaces } => {
                    &&& final(self).windows == old(self).windows
                    &&& final(self).workspaces == workspaces
                },
                NiriEvent::WorkspaceActivated { id, focused } => {
                    &&& final(self).windows == old(self).windows
                    &&& final(self).workspaces@ == activate_all(old(self).workspaces@, id, focused)
                },
                NiriEvent::WindowLayoutsChanged { changes } => {
                    &&& final(self).windows@ == set_layouts(old(self).windows@, changes@)
                    &&& final(self).workspaces == old(self).workspaces
                },
                NiriEvent::WorkspaceActiveWindowChanged { workspace_id, active_window_id } => {
                    &&& final(self).windows == old(self).windows
                    &&& final(self).workspaces@ == set_active_window(old(self).workspaces@, workspace_id, active_window_id)
                },
                NiriEvent::Other => *final(self) == *old(self),
            },
    {
        match event {
            NiriEvent::WindowsChanged { windows } => {
                self.windows = windows;
                true
            },
            NiriEvent::WindowOpenedOrChanged { window } => {
                match find_window(&self.windows, window.id) {
                    Some(i) => {
                        self.windows.set(i, window);
                    },
                    None => {
                        self.windows.push(window);
                    },
                }
                true
            },
            NiriEvent::WindowClosed { id } => {
                self.close_window(id);
                true
            },
            NiriEvent::WindowFocusChanged { id } => {
                self.focus_window(id);
                true
            },
            NiriEvent::WorkspacesChanged { workspaces } => {
                self.workspaces = workspaces;
                true
            },
            NiriEvent::WorkspaceActivated { id, focused } => {
                activate_workspace(&mut self.workspaces, id, focused);
                true
            },
            NiriEvent::WindowLayoutsChanged { changes } => {
                self.apply_layouts(&changes);
                true
            },
            NiriEvent::WorkspaceActiveWindowChanged { workspace_id, active_window_id } => {
                if let Some(k) = find_workspace(&self.workspaces, workspace_id) {
                    self.workspaces[k].active_window_id = active_window_id;
                }
                true
            },
            NiriEvent::Other => false,
        }
    }

    /// Drops every window with id `id`, keeping the order of the others.
    fn close_window(&mut self, id: u64)
        ensures
            final(self).windows@ == closed(old(self).windows@, id),
            final(self).workspaces == old(self).workspaces,
    {
        let ghost old_w = self.windows@;
        let mut kept: Vec<Window> = Vec::new();
        let mut rest: Vec<Window> = Vec::new();
        std::mem::swap(&mut rest, &mut self.windows);
        let ghost mut k: int = 0;
        while rest.len() > 0
            invariant
                0 <= k <= old_w.len(),
                rest@ == old_w.skip(k),
                kept@ == old_w.take(k).filter(|w: Window| w.id != id),
                self.workspaces == old(self).workspaces,
            decreases rest@.len(),
        {
            let w = rest.remove(0);
            proof {
                assert(old_w.take(k + 1).drop_last() =~= old_w.take(k));
                assert(old_w.take(k + 1).last() == w);
                reveal_with_fuel(Seq::filter, 1);
            }
            if w.id != id {
                kept.push(w);
            }
            proof {
                assert(rest@ =~= old_w.skip(k + 1));
                k = k + 1;
            }
        }
        assert(old_w.take(k) =~= old_w);
        self.windows = kept;
    }

    /// Records the window `id` as focused.
    fn focus_window(&mut self, id: Option<u64>)
        ensures
            final(self).windows@ == refocus_all(old(self).windows@, id),
            final(self).workspaces@ == focus_workspaces(old(self).windows@, old(self).workspaces@, id),
    {
        if let Some(x) = id {
            if let Some(i) = find_window(&self.windows, x) {
                if let Some(wsid) = self.windows[i].workspace_id {
                    if let Some(k) = find_workspace(&self.workspaces, wsid) {
                        self.workspaces[k].active_window_id = Some(x);
                    }
                }
            }
        }
        let ghost old_w = self.windows@;
        let ghost wss = self.workspaces@;
        assert(wss == focus_workspaces(old(self).windows@, old(self).workspaces@, id));
        let n = self.windows.len();
        let mut i: usize = 0;
        while i < n
            invariant
                self.workspaces@ == wss,
                n == self.windows@.len(),
                n == old_w.len(),
                i <= n,
                forall|j: int| 0 <= j < i ==> self.windows@[j] == refocused(old_w[j], id),
                forall|j: int| i <= j < n ==> self.windows@[j] == old_w[j],
            decreases n - i,
        {
            let f = match id {
                Some(x) => self.windows[i].id == x,
                None => false,
            };
            self.windows[i].is_focused = f;
            i += 1;
        }
        assert(self.windows@ =~= refocus_all(old_w, id));
    }

    /// Applies a batch of layout changes in order.
    fn apply_layouts(&mut self, changes: &Vec<(u64, Option<(usize, usize)>)>)
        ensures
            final(self).windows@ == set_layouts(old(self).windows@, changes@),
            final(self).workspaces == old(self).workspaces,
    {
        let ghost old_w = self.windows@;
        let mut i: usize = 0;
        while i < changes.len()
            invariant
                i <= changes@.len(),
                self.windows@ == set_layouts(old_w, changes@.take(i as int)),
                self.workspaces == old(self).workspaces,
            decreases changes@.len() - i,
        {
            let (id, pos) = changes[i];
            if let Some(k) = find_window(&self.windows, id) {
                self.windows[k].pos_in_scrolling_layout = pos;
            }
            assert(changes@.take(i + 1).drop_last() =~= changes@.take(i as int));
            i += 1;
        }
        assert(changes@.take(changes@.len() as int) =~= changes@);
    }
}

} // verus!
