//! The aggregate root: the entity store and its invariant.
//!
//! A [`WindowManager`] owns every monitor, workspace and window, keyed by
//! id, together with the focus state, the pointer-gesture state and the
//! queue of outbound requests. Its well-formedness predicate [`WindowManager::wf`]
//! ties the stores together — ids are unique, every list entry resolves,
//! a window sits in at most one workspace's list, and a spare workspace is
//! always on hand — and every operation of the library preserves it.

use crate::entities::{Gesture, Monitor, Request, Window, WmError, Workspace};
use crate::geometry::{Point, wlr_box};
use crate::id::{Id, IdGenerator};
use crate::limits::{MAX_COORD, MAX_DIM, MAX_WINDOWS, POS_LIMIT};
use crate::surface::Surface;
use vstd::prelude::*;

verus! {

/// The single owner of all window-management state.
#[derive(Debug, Clone)]
pub struct WindowManager {
    pub monitor_id_generator: IdGenerator,
    pub window_id_generator: IdGenerator,
    pub workspace_id_generator: IdGenerator,
    pub monitors: Vec<Monitor>,
    pub windows: Vec<Window>,
    pub workspaces: Vec<Workspace>,
    /// Pointer position after the previous motion event.
    pub old_cursor: Point,
    /// Pointer gesture currently in progress.
    pub gesture: Gesture,
    /// The globally focused window.
    pub active_window: Option<Id>,
    /// The workspace holding focus.
    pub active_workspace: Id,
    /// The workspace new windows are placed into.
    pub new_window_workspace: Id,
    /// Outbound requests not yet handed to the embedder.
    pub pending: Vec<Request>,
}

// ----------------------------------------------------------------------
// Looking entities up in a store, in the spec world. These take the store
// sequence itself, so two managers with equal stores have equal lookups.
// ----------------------------------------------------------------------
pub open spec fn win_has(s: Seq<Window>, id: Id) -> bool {
    exists|i: int| 0 <= i < s.len() && (#[trigger] s[i]).id == id
}

pub open spec fn win_idx(s: Seq<Window>, id: Id) -> int {
    choose|i: int| 0 <= i < s.len() && (#[trigger] s[i]).id == id
}

pub open spec fn win_at(s: Seq<Window>, id: Id) -> Window {
    s[win_idx(s, id)]
}

pub open spec fn ws_has(s: Seq<Workspace>, id: Id) -> bool {
    exists|i: int| 0 <= i < s.len() && (#[trigger] s[i]).id == id
}

pub open spec fn ws_idx(s: Seq<Workspace>, id: Id) -> int {
    choose|i: int| 0 <= i < s.len() && (#[trigger] s[i]).id == id
}

pub open spec fn ws_at(s: Seq<Workspace>, id: Id) -> Workspace {
    s[ws_idx(s, id)]
}

pub open spec fn mon_has(s: Seq<Monitor>, id: Id) -> bool {
    exists|i: int| 0 <= i < s.len() && (#[trigger] s[i]).id == id
}

pub open spec fn mon_idx(s: Seq<Monitor>, id: Id) -> int {
    choose|i: int| 0 <= i < s.len() && (#[trigger] s[i]).id == id
}

pub open spec fn mon_at(s: Seq<Monitor>, id: Id) -> Monitor {
    s[mon_idx(s, id)]
}

/// Position of `x` in `s`; meaningful when `s` contains `x`, and unique
/// when `s` has no duplicates.
pub open spec fn pos_of(s: Seq<Id>, x: Id) -> int {
    choose|i: int| 0 <= i < s.len() && s[i] == x
}

/// The ids of `ids` whose windows exist in the store `ws` and take part in
/// tiling, in their original order.
pub open spec fn tiled_filter(ws: Seq<Window>, ids: Seq<Id>) -> Seq<Id>
    decreases ids.len(),
{
    if ids.len() == 0 {
        Seq::empty()
    } else {
        let rest = tiled_filter(ws, ids.drop_last());
        if win_has(ws, ids.last()) && win_at(ws, ids.last()).spec_is_tiled() {
            rest.push(ids.last())
        } else {
            rest
        }
    }
}

/// What the tiled subsequence holds: exactly the tiled ids of the list, in
/// order, without duplicates when the list has none.
pub proof fn lemma_tiled_filter_props(ws: Seq<Window>, ids: Seq<Id>)
    ensures
        tiled_filter(ws, ids).len() <= ids.len(),
        forall|k: int|
            0 <= k < tiled_filter(ws, ids).len() ==> {
                &&& ids.contains(#[trigger] tiled_filter(ws, ids)[k])
                &&& win_has(ws, tiled_filter(ws, ids)[k])
                &&& win_at(ws, tiled_filter(ws, ids)[k]).spec_is_tiled()
            },
        forall|x: Id|
            ids.contains(x) && win_has(ws, x) && win_at(ws, x).spec_is_tiled()
                ==> #[trigger] tiled_filter(ws, ids).contains(x),
        ids.no_duplicates() ==> tiled_filter(ws, ids).no_duplicates(),
    decreases ids.len(),
{
    if ids.len() > 0 {
        let pre = ids.drop_last();
        lemma_tiled_filter_props(ws, pre);
        let t = tiled_filter(ws, ids);
        let tp = tiled_filter(ws, pre);
        assert forall|k: int| 0 <= k < t.len() implies {
            &&& ids.contains(#[trigger] t[k])
            &&& win_has(ws, t[k])
            &&& win_at(ws, t[k]).spec_is_tiled()
        } by {
            if k < tp.len() {
                assert(t[k] == tp[k]);
                assert(pre.contains(tp[k]));
                let j = choose|j: int| 0 <= j < pre.len() && pre[j] == tp[k];
                assert(ids[j] == tp[k]);
            } else {
                assert(t[k] == ids.last());
                assert(ids[ids.len() - 1] == ids.last());
            }
        }
        assert forall|x: Id|
            ids.contains(x) && win_has(ws, x) && win_at(ws, x).spec_is_tiled() implies #[trigger] t
            .contains(x) by {
            let j = choose|j: int| 0 <= j < ids.len() && ids[j] == x;
            if j < ids.len() - 1 {
                assert(pre[j] == x);
                assert(pre.contains(x));
                assert(tp.contains(x));
                let k = choose|k: int| 0 <= k < tp.len() && tp[k] == x;
                assert(t[k] == x);
            } else {
                assert(ids.last() == x);
                assert(t[t.len() - 1] == x);
            }
        }
        if ids.no_duplicates() {
            assert(pre.no_duplicates());
            if win_has(ws, ids.last()) && win_at(ws, ids.last()).spec_is_tiled() {
                assert(!tp.contains(ids.last())) by {
                    if tp.contains(ids.last()) {
                        let k = choose|k: int| 0 <= k < tp.len() && tp[k] == ids.last();
                        assert(pre.contains(tp[k]));
                        let j = choose|j: int| 0 <= j < pre.len() && pre[j] == tp[k];
                        assert(ids[j] == ids[ids.len() - 1]);
                    }
                }
                assert forall|p: int, q: int| 0 <= p < q < t.len() implies t[p] != t[q] by {
                    if q < t.len() - 1 {
                        assert(t[p] == tp[p] && t[q] == tp[q]);
                    } else {
                        assert(t[p] == tp[p] && t[q] == ids.last());
                        assert(tp.contains(tp[p]));
                    }
                }
            }
        }
    }
}

/// Two window stores with the same ids position for position have the same
/// id lookups.
pub proof fn lemma_win_lookup_congruent(ws1: Seq<Window>, ws2: Seq<Window>)
    requires
        ws1.len() == ws2.len(),
        forall|i: int| 0 <= i < ws1.len() ==> (#[trigger] ws1[i]).id == (#[trigger] ws2[i]).id,
        forall|i: int, j: int|
            0 <= i < j < ws1.len() ==> (#[trigger] ws1[i]).id != (#[trigger] ws1[j]).id,
    ensures
        forall|id: Id| win_has(ws1, id) == win_has(ws2, id),
        forall|id: Id|
            #[trigger] win_has(ws1, id) ==> win_idx(ws1, id) == win_idx(ws2, id) && win_at(
                ws2,
                id,
            ) == ws2[win_idx(ws1, id)],
{
    assert forall|id: Id| win_has(ws1, id) == win_has(ws2, id) by {
        if win_has(ws1, id) {
            let i = win_idx(ws1, id);
            assert(ws1[i].id == id);
            assert(ws2[i].id == id);
        }
        if win_has(ws2, id) {
            let i = win_idx(ws2, id);
            assert(ws2[i].id == id);
            assert(ws1[i].id == id);
        }
    }
    assert forall|id: Id| #[trigger] win_has(ws1, id) implies win_idx(ws1, id) == win_idx(
        ws2,
        id,
    ) && win_at(ws2, id) == ws2[win_idx(ws1, id)] by {
        let i = win_idx(ws1, id);
        assert(ws1[i].id == id);
        assert(ws2[i].id == id);
        assert(win_has(ws2, id));
        let j = win_idx(ws2, id);
        assert(ws2[j].id == id);
        if i != j {
            assert(ws1[j].id == id);
            assert(ws1[i].id != ws1[j].id);
        }
    }
}

/// Two window stores with the same ids and the same tiling verdict for
/// each id filter any id list identically.
pub proof fn lemma_tiled_filter_congruent(ws1: Seq<Window>, ws2: Seq<Window>, ids: Seq<Id>)
    requires
        forall|id: Id| #[trigger] win_has(ws1, id) == win_has(ws2, id),
        forall|id: Id|
            #[trigger] win_has(ws1, id) ==> win_at(ws1, id).spec_is_tiled() == win_at(
                ws2,
                id,
            ).spec_is_tiled(),
    ensures
        tiled_filter(ws1, ids) == tiled_filter(ws2, ids),
    decreases ids.len(),
{
    if ids.len() > 0 {
        lemma_tiled_filter_congruent(ws1, ws2, ids.drop_last());
    }
}

/// A duplicate-free list whose every entry is a stored window id cannot be
/// longer than the window store.
pub proof fn lemma_list_len_bounded(ws: Seq<Window>, ids: Seq<Id>)
    requires
        ids.no_duplicates(),
        forall|k: int| 0 <= k < ids.len() ==> win_has(ws, #[trigger] ids[k]),
        forall|i: int, j: int|
            0 <= i < j < ws.len() ==> (#[trigger] ws[i]).id != (#[trigger] ws[j]).id,
    ensures
        ids.len() <= ws.len(),
{
    let idxs = Seq::new(ids.len(), |k: int| win_idx(ws, ids[k]));
    assert forall|k: int| 0 <= k < idxs.len() implies 0 <= #[trigger] idxs[k] < ws.len() by {
        assert(win_has(ws, ids[k]));
        assert(ws[win_idx(ws, ids[k])].id == ids[k]);
    }
    assert(idxs.no_duplicates()) by {
        assert forall|k: int, l: int|
            0 <= k < idxs.len() && 0 <= l < idxs.len() && k != l implies idxs[k] != idxs[l] by {
            assert(win_has(ws, ids[k]));
            assert(win_has(ws, ids[l]));
            assert(ws[win_idx(ws, ids[k])].id == ids[k]);
            assert(ws[win_idx(ws, ids[l])].id == ids[l]);
            assert(ids[k] != ids[l]);
        }
    }
    idxs.unique_seq_to_set();
    assert(idxs.to_set().subset_of(vstd::set_lib::set_int_range(0, ws.len() as int))) by {
        assert forall|x: int| idxs.to_set().contains(x) implies vstd::set_lib::set_int_range(
            0,
            ws.len() as int,
        ).contains(x) by {
            let k = choose|k: int| 0 <= k < idxs.len() && idxs[k] == x;
            assert(0 <= idxs[k] < ws.len());
        }
    }
    vstd::set_lib::lemma_int_range(0, ws.len() as int);
    vstd::set_lib::lemma_len_subset(
        idxs.to_set(),
        vstd::set_lib::set_int_range(0, ws.len() as int),
    );
}

impl Window {
    /// Asks the client to close the window. Closing is not wired up to
    /// the compositor yet, so nothing happens.
    pub fn ask_client_to_close(&self, wm: &WindowManager) {
        let _ = wm;
        let _ = self;
    }
}

impl Workspace {
    /// The ids of this workspace's windows that take part in tiling, in
    /// tiling order.
    pub fn get_tiled_windows(&self, wm: &WindowManager) -> (r: Vec<Id>)
        requires
            wm.wf(),
        ensures
            r@ == tiled_filter(wm.windows@, self.windows@),
    {
        let mut out: Vec<Id> = Vec::new();
        let mut i: usize = 0;
        while i < self.windows.len()
            invariant
                wm.wf(),
                i <= self.windows@.len(),
                out@ == tiled_filter(wm.windows@, self.windows@.subrange(0, i as int)),
            decreases self.windows@.len() - i,
        {
            proof {
                assert(self.windows@.subrange(0, i + 1).drop_last() =~= self.windows@.subrange(
                    0,
                    i as int,
                ));
                assert(self.windows@.subrange(0, i + 1).last() == self.windows@[i as int]);
            }
            let id = self.windows[i];
            match wm.get_window(id) {
                Some(w) => {
                    if w.is_tiled() {
                        out.push(id);
                    }
                },
                None => {},
            }
            i = i + 1;
        }
        proof {
            assert(self.windows@.subrange(0, self.windows@.len() as int) =~= self.windows@);
        }
        out
    }

    /// Index of `window` within the tiled subsequence of this workspace.
    pub fn get_tiled_window_index(&self, wm: &WindowManager, window: Id) -> (r: Option<usize>)
        requires
            wm.wf(),
        ensures
            ({
                let tiled = tiled_filter(wm.windows@, self.windows@);
                match r {
                    Some(i) => i < tiled.len() && tiled[i as int] == window && (forall|j: int|
                        0 <= j < i ==> tiled[j] != window),
                    None => forall|j: int| 0 <= j < tiled.len() ==> tiled[j] != window,
                }
            }),
    {
        let tiled = self.get_tiled_windows(wm);
        let mut i: usize = 0;
        while i < tiled.len()
            invariant
                i <= tiled@.len(),
                tiled@ == tiled_filter(wm.windows@, self.windows@),
                forall|j: int| 0 <= j < i ==> tiled@[j] != window,
            decreases tiled@.len() - i,
        {
            if tiled[i] == window {
                return Some(i);
            }
            i = i + 1;
        }
        None
    }
}

impl WindowManager {
    // ------------------------------------------------------------------
    // The same lookups, on the manager's own stores.
    // ------------------------------------------------------------------
    pub open spec fn has_window(self, id: Id) -> bool {
        win_has(self.windows@, id)
    }

    pub open spec fn window_idx(self, id: Id) -> int {
        win_idx(self.windows@, id)
    }

    /// The stored window with this id; meaningful when `has_window(id)`.
    pub open spec fn window_at(self, id: Id) -> Window {
        win_at(self.windows@, id)
    }

    pub open spec fn has_workspace(self, id: Id) -> bool {
        ws_has(self.workspaces@, id)
    }

    pub open spec fn workspace_idx(self, id: Id) -> int {
        ws_idx(self.workspaces@, id)
    }

    /// The stored workspace with this id; meaningful when `has_workspace(id)`.
    pub open spec fn workspace_at(self, id: Id) -> Workspace {
        ws_at(self.workspaces@, id)
    }

    pub open spec fn has_monitor(self, id: Id) -> bool {
        mon_has(self.monitors@, id)
    }

    pub open spec fn monitor_idx(self, id: Id) -> int {
        mon_idx(self.monitors@, id)
    }

    /// The stored monitor with this id; meaningful when `has_monitor(id)`.
    pub open spec fn monitor_at(self, id: Id) -> Monitor {
        mon_at(self.monitors@, id)
    }

    // ------------------------------------------------------------------
    // The well-formedness invariant, by part.
    // ------------------------------------------------------------------
    /// Window ids are unique, the store is bounded, every window's data is
    /// within the layout limits and its owning workspace exists.
    pub open spec fn wf_windows(self) -> bool {
        &&& self.windows@.len() <= MAX_WINDOWS
        &&& forall|i: int, j: int|
            0 <= i < j < self.windows@.len() ==> (#[trigger] self.windows@[i]).id != (
            #[trigger] self.windows@[j]).id
        &&& forall|i: int| 0 <= i < self.windows@.len() ==> (#[trigger] self.windows@[i]).wf()
        &&& forall|i: int|
            0 <= i < self.windows@.len() ==> self.has_workspace(
                (#[trigger] self.windows@[i]).workspace,
            )
    }

    /// Workspace ids increase along the store (so they are unique) and stay
    /// below the generator; scroll offsets are bounded; every id in a
    /// workspace's ordered list resolves to a window that points back at the
    /// workspace; lists hold no duplicates; the active window of a
    /// workspace, when set, is in its list.
    pub open spec fn wf_workspaces(self) -> bool {
        &&& forall|i: int, j: int|
            0 <= i < j < self.workspaces@.len() ==> (#[trigger] self.workspaces@[i]).id < (
            #[trigger] self.workspaces@[j]).id
        &&& forall|i: int|
            0 <= i < self.workspaces@.len() ==> (#[trigger] self.workspaces@[i]).id
                < self.workspace_id_generator.next_id
        &&& forall|i: int|
            0 <= i < self.workspaces@.len() ==> -POS_LIMIT <= (
            #[trigger] self.workspaces@[i]).scroll_left <= POS_LIMIT
        &&& forall|i: int, k: int|
            0 <= i < self.workspaces@.len() && 0 <= k < self.workspaces@[i].windows@.len()
                ==> self.has_window(#[trigger] self.workspaces@[i].windows@[k])
                && self.window_at(self.workspaces@[i].windows@[k]).workspace
                == self.workspaces@[i].id
        &&& forall|i: int, k: int, l: int|
            0 <= i < self.workspaces@.len() && 0 <= k < l < self.workspaces@[i].windows@.len()
                ==> (#[trigger] self.workspaces@[i].windows@[k]) != (
            #[trigger] self.workspaces@[i].windows@[l])
        &&& forall|i: int|
            0 <= i < self.workspaces@.len() ==> match (#[trigger] self.workspaces@[i]).active_window {
                Some(a) => self.workspaces@[i].windows@.contains(a),
                None => true,
            }
    }

    /// Monitor ids increase along the store and stay below the generator;
    /// extents are within the layout limits; each monitor shows an existing
    /// workspace that points back at it.
    pub open spec fn wf_monitors(self) -> bool {
        &&& forall|i: int, j: int|
            0 <= i < j < self.monitors@.len() ==> (#[trigger] self.monitors@[i]).id < (
            #[trigger] self.monitors@[j]).id
        &&& forall|i: int|
            0 <= i < self.monitors@.len() ==> (#[trigger] self.monitors@[i]).id
                < self.monitor_id_generator.next_id
        &&& forall|i: int|
            0 <= i < self.monitors@.len() ==> {
                let e = (#[trigger] self.monitors@[i]).extents;
                0 <= e.x <= MAX_COORD && 0 <= e.y <= MAX_COORD && 0 <= e.width <= MAX_DIM && 0
                    <= e.height <= MAX_DIM
            }
        &&& forall|i: int|
            0 <= i < self.monitors@.len() ==> self.has_workspace(
                (#[trigger] self.monitors@[i]).workspace,
            ) && self.workspace_at(self.monitors@[i].workspace).on_monitor == Some(
                self.monitors@[i].id,
            )
    }

    /// A workspace that claims a monitor is the one that monitor shows.
    pub open spec fn wf_links(self) -> bool {
        forall|i: int|
            0 <= i < self.workspaces@.len() ==> match (#[trigger] self.workspaces@[i]).on_monitor {
                Some(m) => self.has_monitor(m) && self.monitor_at(m).workspace
                    == self.workspaces@[i].id,
                None => true,
            }
    }

    /// At least one workspace is not assigned to any monitor.
    pub open spec fn spare_exists(self) -> bool {
        exists|i: int|
            0 <= i < self.workspaces@.len() && (#[trigger] self.workspaces@[i]).on_monitor is None
    }

    /// The focus fields reference entities that exist.
    pub open spec fn wf_active(self) -> bool {
        &&& match self.active_window {
            Some(a) => self.has_window(a),
            None => true,
        }
        &&& self.has_workspace(self.active_workspace)
        &&& self.has_workspace(self.new_window_workspace)
    }

    /// The remembered cursor position is on-screen.
    pub open spec fn wf_cursor(self) -> bool {
        &&& -MAX_COORD <= self.old_cursor.x <= MAX_COORD
        &&& -MAX_COORD <= self.old_cursor.y <= MAX_COORD
    }

    /// The store invariant every operation preserves.
    pub open spec fn wf(self) -> bool {
        &&& self.wf_windows()
        &&& self.wf_workspaces()
        &&& self.wf_monitors()
        &&& self.wf_links()
        &&& self.spare_exists()
        &&& self.wf_active()
        &&& self.wf_cursor()
    }

    // ------------------------------------------------------------------
    // Bridging store indices and id lookups.
    // ------------------------------------------------------------------
    /// With unique window ids, the id of the window at index `i` looks up
    /// to exactly that window.
    pub proof fn lemma_window_at(self, i: int)
        requires
            forall|p: int, q: int|
                0 <= p < q < self.windows@.len() ==> (#[trigger] self.windows@[p]).id != (
                #[trigger] self.windows@[q]).id,
            0 <= i < self.windows@.len(),
        ensures
            self.has_window(self.windows@[i].id),
            self.window_idx(self.windows@[i].id) == i,
            self.window_at(self.windows@[i].id) == self.windows@[i],
    {
        assert(self.has_window(self.windows@[i].id));
        let j = self.window_idx(self.windows@[i].id);
        if j != i {
            assert(self.windows@[i].id != self.windows@[j].id);
        }
    }

    /// With increasing workspace ids, the id of the workspace at index `i`
    /// looks up to exactly that workspace.
    pub proof fn lemma_workspace_at(self, i: int)
        requires
            forall|p: int, q: int|
                0 <= p < q < self.workspaces@.len() ==> (#[trigger] self.workspaces@[p]).id < (
                #[trigger] self.workspaces@[q]).id,
            0 <= i < self.workspaces@.len(),
        ensures
            self.has_workspace(self.workspaces@[i].id),
            self.workspace_idx(self.workspaces@[i].id) == i,
            self.workspace_at(self.workspaces@[i].id) == self.workspaces@[i],
    {
        assert(self.has_workspace(self.workspaces@[i].id));
        let j = self.workspace_idx(self.workspaces@[i].id);
        if j < i {
            assert(self.workspaces@[j].id < self.workspaces@[i].id);
        } else if j > i {
            assert(self.workspaces@[i].id < self.workspaces@[j].id);
        }
    }

    /// With increasing monitor ids, the id of the monitor at index `i`
    /// looks up to exactly that monitor.
    pub proof fn lemma_monitor_at(self, i: int)
        requires
            forall|p: int, q: int|
                0 <= p < q < self.monitors@.len() ==> (#[trigger] self.monitors@[p]).id < (
                #[trigger] self.monitors@[q]).id,
            0 <= i < self.monitors@.len(),
        ensures
            self.has_monitor(self.monitors@[i].id),
            self.monitor_idx(self.monitors@[i].id) == i,
            self.monitor_at(self.monitors@[i].id) == self.monitors@[i],
    {
        assert(self.has_monitor(self.monitors@[i].id));
        let j = self.monitor_idx(self.monitors@[i].id);
        if j < i {
            assert(self.monitors@[j].id < self.monitors@[i].id);
        } else if j > i {
            assert(self.monitors@[i].id < self.monitors@[j].id);
        }
    }

    // ------------------------------------------------------------------
    // Construction.
    // ------------------------------------------------------------------
    /// A manager with no monitors, no windows, and two fresh workspaces:
    /// one to start on, one spare.
    pub fn new() -> (r: WindowManager)
        ensures
            r.wf(),
            r.windows@.len() == 0,
            r.monitors@.len() == 0,
            r.workspaces@.len() == 2,
            r.workspaces@[0].id == 1 && r.workspaces@[0].on_monitor is None
                && r.workspaces@[0].windows@.len() == 0,
            r.workspaces@[1].id == 2 && r.workspaces@[1].on_monitor is None
                && r.workspaces@[1].windows@.len() == 0,
            r.active_window is None,
            r.active_workspace == 1,
            r.new_window_workspace == 1,
            r.gesture is Idle,
            r.old_cursor == (Point { x: 0, y: 0 }),
            r.pending@.len() == 0,
    {
        let mut workspace_id_generator = IdGenerator::new();
        let first = Workspace::new(&mut workspace_id_generator);
        let second = Workspace::new(&mut workspace_id_generator);
        let first_id = first.id;
        let mut workspaces: Vec<Workspace> = Vec::new();
        workspaces.push(first);
        workspaces.push(second);
        WindowManager {
            monitor_id_generator: IdGenerator::new(),
            window_id_generator: IdGenerator::new(),
            workspace_id_generator,
            monitors: Vec::new(),
            windows: Vec::new(),
            workspaces,
            old_cursor: Point { x: 0, y: 0 },
            gesture: Gesture::Idle,
            active_window: None,
            active_workspace: first_id,
            new_window_workspace: first_id,
            pending: Vec::new(),
        }
    }

    // ------------------------------------------------------------------
    // Lookups.
    // ------------------------------------------------------------------
    /// Index of the window with this id in the store.
    pub(crate) fn window_index(&self, id: Id) -> (r: Option<usize>)
        ensures
            match r {
                Some(i) => i < self.windows@.len() && self.windows@[i as int].id == id,
                None => !self.has_window(id),
            },
    {
        let mut i: usize = 0;
        while i < self.windows.len()
            invariant
                i <= self.windows@.len(),
                forall|j: int| 0 <= j < i ==> (#[trigger] self.windows@[j]).id != id,
            decreases self.windows@.len() - i,
        {
            if self.windows[i].id == id {
                return Some(i);
            }
            i = i + 1;
        }
        None
    }

    /// Index of the workspace with this id in the store.
    pub(crate) fn workspace_index(&self, id: Id) -> (r: Option<usize>)
        ensures
            match r {
                Some(i) => i < self.workspaces@.len() && self.workspaces@[i as int].id == id,
                None => !self.has_workspace(id),
            },
    {
        let mut i: usize = 0;
        while i < self.workspaces.len()
            invariant
                i <= self.workspaces@.len(),
                forall|j: int| 0 <= j < i ==> (#[trigger] self.workspaces@[j]).id != id,
            decreases self.workspaces@.len() - i,
        {
            if self.workspaces[i].id == id {
                return Some(i);
            }
            i = i + 1;
        }
        None
    }

    /// Index of the monitor with this id in the store.
    pub(crate) fn monitor_index(&self, id: Id) -> (r: Option<usize>)
        ensures
            match r {
                Some(i) => i < self.monitors@.len() && self.monitors@[i as int].id == id,
                None => !self.has_monitor(id),
            },
    {
        let mut i: usize = 0;
        while i < self.monitors.len()
            invariant
                i <= self.monitors@.len(),
                forall|j: int| 0 <= j < i ==> (#[trigger] self.monitors@[j]).id != id,
            decreases self.monitors@.len() - i,
        {
            if self.monitors[i].id == id {
                return Some(i);
            }
            i = i + 1;
        }
        None
    }

    /// The window with this id, or `None` when the id is stale.
    pub fn get_window(&self, window_id: Id) -> (r: Option<&Window>)
        requires
            self.wf(),
        ensures
            match r {
                Some(w) => self.has_window(window_id) && *w == self.window_at(window_id),
                None => !self.has_window(window_id),
            },
    {
        match self.window_index(window_id) {
            Some(i) => {
                proof {
                    self.lemma_window_at(i as int);
                }
                Some(&self.windows[i])
            },
            None => None,
        }
    }

    /// The workspace with this id, or `None` when the id is stale.
    pub fn get_workspace(&self, workspace_id: Id) -> (r: Option<&Workspace>)
        requires
            self.wf(),
        ensures
            match r {
                Some(w) => self.has_workspace(workspace_id) && *w == self.workspace_at(
                    workspace_id,
                ),
                None => !self.has_workspace(workspace_id),
            },
    {
        match self.workspace_index(workspace_id) {
            Some(i) => {
                proof {
                    self.lemma_workspace_at(i as int);
                }
                Some(&self.workspaces[i])
            },
            None => None,
        }
    }

    /// The monitor currently showing this workspace, if any.
    pub fn monitor_by_workspace(&self, workspace_id: Id) -> (r: Option<&Monitor>)
        requires
            self.wf(),
        ensures
            match r {
                Some(m) => self.has_workspace(workspace_id) && self.workspace_at(
                    workspace_id,
                ).on_monitor == Some(m.id) && *m == self.monitor_at(m.id),
                None => !self.has_workspace(workspace_id) || self.workspace_at(
                    workspace_id,
                ).on_monitor is None,
            },
    {
        let ws = match self.workspace_index(workspace_id) {
            Some(i) => {
                proof {
                    self.lemma_workspace_at(i as int);
                }
                &self.workspaces[i]
            },
            None => {
                return None;
            },
        };
        match ws.on_monitor {
            Some(monitor_id) => {
                match self.monitor_index(monitor_id) {
                    Some(mi) => {
                        proof {
                            self.lemma_monitor_at(mi as int);
                        }
                        Some(&self.monitors[mi])
                    },
                    None => None,
                }
            },
            None => None,
        }
    }

    /// The monitor showing the workspace this window belongs to, if any.
    pub fn monitor_by_window(&self, window_id: Id) -> (r: Option<&Monitor>)
        requires
            self.wf(),
        ensures
            match r {
                Some(m) => self.has_window(window_id) && self.workspace_at(
                    self.window_at(window_id).workspace,
                ).on_monitor == Some(m.id) && *m == self.monitor_at(m.id),
                None => !self.has_window(window_id) || self.workspace_at(
                    self.window_at(window_id).workspace,
                ).on_monitor is None,
            },
    {
        let workspace_id = match self.window_index(window_id) {
            Some(i) => {
                proof {
                    self.lemma_window_at(i as int);
                }
                self.windows[i].workspace
            },
            None => {
                return None;
            },
        };
        self.monitor_by_window_inner(window_id, workspace_id)
    }

    /// Second half of [`WindowManager::monitor_by_window`], split so the
    /// borrow of the window ends before the monitor is borrowed.
    fn monitor_by_window_inner(&self, window_id: Id, workspace_id: Id) -> (r: Option<&Monitor>)
        requires
            self.wf(),
            self.has_window(window_id),
            workspace_id == self.window_at(window_id).workspace,
        ensures
            match r {
                Some(m) => self.workspace_at(self.window_at(window_id).workspace).on_monitor
                    == Some(m.id) && *m == self.monitor_at(m.id),
                None => self.workspace_at(self.window_at(window_id).workspace).on_monitor is None,
            },
    {
        proof {
            let i = self.window_idx(window_id);
            assert(self.has_workspace(self.windows@[i].workspace));
        }
        self.monitor_by_workspace(workspace_id)
    }

    /// The workspace this window belongs to, if the window exists.
    pub fn get_workspace_by_window(&self, window_id: Id) -> (r: Option<&Workspace>)
        requires
            self.wf(),
        ensures
            match r {
                Some(w) => self.has_window(window_id) && *w == self.workspace_at(
                    self.window_at(window_id).workspace,
                ),
                None => !self.has_window(window_id),
            },
    {
        let workspace_id = match self.window_index(window_id) {
            Some(i) => {
                proof {
                    self.lemma_window_at(i as int);
                    assert(self.has_workspace(self.windows@[i as int].workspace));
                }
                self.windows[i].workspace
            },
            None => {
                return None;
            },
        };
        self.get_workspace(workspace_id)
    }

    /// The id of the workspace this window belongs to.
    pub fn get_workspace_id_by_window(&self, window_id: Id) -> (r: Option<Id>)
        requires
            self.wf(),
        ensures
            match r {
                Some(ws) => self.has_window(window_id) && ws == self.window_at(window_id).workspace,
                None => !self.has_window(window_id),
            },
    {
        match self.window_index(window_id) {
            Some(i) => {
                proof {
                    self.lemma_window_at(i as int);
                }
                Some(self.windows[i].workspace)
            },
            None => None,
        }
    }

    /// Same as [`WindowManager::get_workspace_by_window`], under the name
    /// the monitor-side call path uses.
    pub fn get_monitor_by_window(&self, window_id: Id) -> (r: Option<&Monitor>)
        requires
            self.wf(),
        ensures
            match r {
                Some(m) => self.has_window(window_id) && self.workspace_at(
                    self.window_at(window_id).workspace,
                ).on_monitor == Some(m.id) && *m == self.monitor_at(m.id),
                None => !self.has_window(window_id) || self.workspace_at(
                    self.window_at(window_id).workspace,
                ).on_monitor is None,
            },
    {
        self.monitor_by_window(window_id)
    }

    /// The globally focused window, if one is set and still exists.
    pub fn active_window(&self) -> (r: Option<&Window>)
        requires
            self.wf(),
        ensures
            match self.active_window {
                Some(a) => r matches Some(w) && *w == self.window_at(a),
                None => r is None,
            },
    {
        match self.active_window {
            Some(id) => {
                let w = self.get_window(id);
                proof {
                    assert(self.has_window(id));
                }
                w
            },
            None => None,
        }
    }

    /// The workspace holding focus; under `wf` it always exists.
    pub fn active_workspace(&self) -> (r: &Workspace)
        requires
            self.wf(),
        ensures
            *r == self.workspace_at(self.active_workspace),
    {
        match self.workspace_index(self.active_workspace) {
            Some(i) => {
                proof {
                    self.lemma_workspace_at(i as int);
                }
                &self.workspaces[i]
            },
            None => {
                proof {
                    assert(false);
                }
                vstd::pervasive::unreached()
            },
        }
    }

    /// The workspace new windows are placed into; under `wf` it exists.
    pub fn new_window_workspace(&self) -> (r: &Workspace)
        requires
            self.wf(),
        ensures
            *r == self.workspace_at(self.new_window_workspace),
    {
        match self.workspace_index(self.new_window_workspace) {
            Some(i) => {
                proof {
                    self.lemma_workspace_at(i as int);
                }
                &self.workspaces[i]
            },
            None => {
                proof {
                    assert(false);
                }
                vstd::pervasive::unreached()
            },
        }
    }

    // ------------------------------------------------------------------
    // How lookups behave when a store grows or an entry is rewritten.
    // ------------------------------------------------------------------
    /// Appending a workspace with a fresh id leaves every existing lookup
    /// unchanged and makes the new id resolve to the new workspace.
    pub proof fn lemma_workspace_lookup_after_push(pre: WindowManager, post: WindowManager, w: Workspace)
        requires
            post.workspaces@ == pre.workspaces@.push(w),
            forall|i: int, j: int|
                0 <= i < j < pre.workspaces@.len() ==> (#[trigger] pre.workspaces@[i]).id != (
                #[trigger] pre.workspaces@[j]).id,
            forall|i: int|
                0 <= i < pre.workspaces@.len() ==> (#[trigger] pre.workspaces@[i]).id != w.id,
        ensures
            forall|id: Id|
                pre.has_workspace(id) ==> post.has_workspace(id) && post.workspace_at(id)
                    == pre.workspace_at(id),
            post.has_workspace(w.id),
            post.workspace_at(w.id) == w,
            forall|id: Id| post.has_workspace(id) ==> pre.has_workspace(id) || id == w.id,
    {
        let n = pre.workspaces@.len() as int;
        assert(post.workspaces@[n] == w);
        assert(post.has_workspace(w.id));
        let jn = post.workspace_idx(w.id);
        assert(post.workspaces@[jn].id == w.id);
        if jn < n {
            assert(post.workspaces@[jn] == pre.workspaces@[jn]);
        }
        assert(post.workspace_at(w.id) == w);
        assert forall|id: Id| pre.has_workspace(id) implies post.has_workspace(id)
            && post.workspace_at(id) == pre.workspace_at(id) by {
            let i = pre.workspace_idx(id);
            assert(pre.workspaces@[i].id == id);
            assert(post.workspaces@[i] == pre.workspaces@[i]);
            assert(post.has_workspace(id));
            let j = post.workspace_idx(id);
            assert(post.workspaces@[j].id == id);
            if j == n {
                assert(post.workspaces@[j] == w);
                assert(pre.workspaces@[i].id != w.id);
            } else {
                assert(post.workspaces@[j] == pre.workspaces@[j]);
                if i != j {
                    assert(pre.workspaces@[i].id != pre.workspaces@[j].id);
                }
            }
        }
        assert forall|id: Id| post.has_workspace(id) implies pre.has_workspace(id) || id == w.id by {
            let j = post.workspace_idx(id);
            assert(post.workspaces@[j].id == id);
            if j < n {
                assert(post.workspaces@[j] == pre.workspaces@[j]);
            }
        }
    }

    /// Rewriting the workspace at one index, keeping its id, changes that
    /// id's lookup to the new value and no other lookup.
    pub proof fn lemma_workspace_lookup_after_update(pre: WindowManager, post: WindowManager, at: int, w: Workspace)
        requires
            0 <= at < pre.workspaces@.len(),
            post.workspaces@ == pre.workspaces@.update(at, w),
            w.id == pre.workspaces@[at].id,
            forall|i: int, j: int|
                0 <= i < j < pre.workspaces@.len() ==> (#[trigger] pre.workspaces@[i]).id != (
                #[trigger] pre.workspaces@[j]).id,
        ensures
            forall|id: Id| post.has_workspace(id) == pre.has_workspace(id),
            post.has_workspace(w.id),
            post.workspace_at(w.id) == w,
            post.workspace_idx(w.id) == at,
            forall|id: Id|
                pre.has_workspace(id) && id != w.id ==> post.workspace_at(id)
                    == pre.workspace_at(id) && post.workspace_idx(id) == pre.workspace_idx(id),
    {
        assert(post.workspaces@[at] == w);
        assert(post.has_workspace(w.id));
        assert forall|id: Id| post.has_workspace(id) == pre.has_workspace(id) by {
            if pre.has_workspace(id) {
                let i = pre.workspace_idx(id);
                assert(pre.workspaces@[i].id == id);
                if i == at {
                    assert(post.workspaces@[at].id == id);
                } else {
                    assert(post.workspaces@[i] == pre.workspaces@[i]);
                }
                assert(post.has_workspace(id));
            }
            if post.has_workspace(id) {
                let i = post.workspace_idx(id);
                assert(post.workspaces@[i].id == id);
                if i == at {
                    assert(pre.workspaces@[at].id == id);
                } else {
                    assert(post.workspaces@[i] == pre.workspaces@[i]);
                }
                assert(pre.has_workspace(id));
            }
        }
        let ja = post.workspace_idx(w.id);
        assert(post.workspaces@[ja].id == w.id);
        if ja != at {
            assert(post.workspaces@[ja] == pre.workspaces@[ja]);
            assert(pre.workspaces@[ja].id != pre.workspaces@[at].id);
        }
        assert forall|id: Id| pre.has_workspace(id) && id != w.id implies post.workspace_at(id)
            == pre.workspace_at(id) && post.workspace_idx(id) == pre.workspace_idx(id) by {
            let i = pre.workspace_idx(id);
            assert(pre.workspaces@[i].id == id);
            assert(i != at);
            assert(post.workspaces@[i] == pre.workspaces@[i]);
            assert(post.has_workspace(id));
            let j = post.workspace_idx(id);
            assert(post.workspaces@[j].id == id);
            if j == at {
                assert(post.workspaces@[at] == w);
            } else {
                assert(post.workspaces@[j] == pre.workspaces@[j]);
                if i != j {
                    assert(pre.workspaces@[i].id != pre.workspaces@[j].id);
                }
            }
        }
    }

    /// Appending a window with a fresh id leaves every existing lookup
    /// unchanged and makes the new id resolve to the new window.
    pub proof fn lemma_window_lookup_after_push(pre: WindowManager, post: WindowManager, w: Window)
        requires
            post.windows@ == pre.windows@.push(w),
            forall|i: int, j: int|
                0 <= i < j < pre.windows@.len() ==> (#[trigger] pre.windows@[i]).id != (
                #[trigger] pre.windows@[j]).id,
            forall|i: int|
                0 <= i < pre.windows@.len() ==> (#[trigger] pre.windows@[i]).id != w.id,
        ensures
            forall|id: Id|
                pre.has_window(id) ==> post.has_window(id) && post.window_at(id) == pre.window_at(
                    id,
                ),
            post.has_window(w.id),
            post.window_at(w.id) == w,
            forall|id: Id| post.has_window(id) ==> pre.has_window(id) || id == w.id,
    {
        let n = pre.windows@.len() as int;
        assert(post.windows@[n] == w);
        assert(post.has_window(w.id));
        let jn = post.window_idx(w.id);
        assert(post.windows@[jn].id == w.id);
        if jn < n {
            assert(post.windows@[jn] == pre.windows@[jn]);
        }
        assert(post.window_at(w.id) == w);
        assert forall|id: Id| pre.has_window(id) implies post.has_window(id) && post.window_at(id)
            == pre.window_at(id) by {
            let i = pre.window_idx(id);
            assert(pre.windows@[i].id == id);
            assert(post.windows@[i] == pre.windows@[i]);
            assert(post.has_window(id));
            let j = post.window_idx(id);
            assert(post.windows@[j].id == id);
            if j == n {
                assert(post.windows@[j] == w);
                assert(pre.windows@[i].id != w.id);
            } else {
                assert(post.windows@[j] == pre.windows@[j]);
                if i != j {
                    assert(pre.windows@[i].id != pre.windows@[j].id);
                }
            }
        }
        assert forall|id: Id| post.has_window(id) implies pre.has_window(id) || id == w.id by {
            let j = post.window_idx(id);
            assert(post.windows@[j].id == id);
            if j < n {
                assert(post.windows@[j] == pre.windows@[j]);
            }
        }
    }

    /// Rewriting the window at one index, keeping its id, changes that
    /// id's lookup to the new value and no other lookup.
    pub proof fn lemma_window_lookup_after_update(pre: WindowManager, post: WindowManager, at: int, w: Window)
        requires
            0 <= at < pre.windows@.len(),
            post.windows@ == pre.windows@.update(at, w),
            w.id == pre.windows@[at].id,
            forall|i: int, j: int|
                0 <= i < j < pre.windows@.len() ==> (#[trigger] pre.windows@[i]).id != (
                #[trigger] pre.windows@[j]).id,
        ensures
            forall|id: Id| post.has_window(id) == pre.has_window(id),
            post.has_window(w.id),
            post.window_at(w.id) == w,
            post.window_idx(w.id) == at,
            forall|id: Id|
                pre.has_window(id) && id != w.id ==> post.window_at(id) == pre.window_at(id)
                    && post.window_idx(id) == pre.window_idx(id),
    {
        assert(post.windows@[at] == w);
        assert(post.has_window(w.id));
        assert forall|id: Id| post.has_window(id) == pre.has_window(id) by {
            if pre.has_window(id) {
                let i = pre.window_idx(id);
                assert(pre.windows@[i].id == id);
                if i == at {
                    assert(post.windows@[at].id == id);
                } else {
                    assert(post.windows@[i] == pre.windows@[i]);
                }
                assert(post.has_window(id));
            }
            if post.has_window(id) {
                let i = post.window_idx(id);
                assert(post.windows@[i].id == id);
                if i == at {
                    assert(pre.windows@[at].id == id);
                } else {
                    assert(post.windows@[i] == pre.windows@[i]);
                }
                assert(pre.has_window(id));
            }
        }
        let ja = post.window_idx(w.id);
        assert(post.windows@[ja].id == w.id);
        if ja != at {
            assert(post.windows@[ja] == pre.windows@[ja]);
            assert(pre.windows@[ja].id != pre.windows@[at].id);
        }
        assert forall|id: Id| pre.has_window(id) && id != w.id implies post.window_at(id)
            == pre.window_at(id) && post.window_idx(id) == pre.window_idx(id) by {
            let i = pre.window_idx(id);
            assert(pre.windows@[i].id == id);
            assert(i != at);
            assert(post.windows@[i] == pre.windows@[i]);
            assert(post.has_window(id));
            let j = post.window_idx(id);
            assert(post.windows@[j].id == id);
            if j == at {
                assert(post.windows@[at] == w);
            } else {
                assert(post.windows@[j] == pre.windows@[j]);
                if i != j {
                    assert(pre.windows@[i].id != pre.windows@[j].id);
                }
            }
        }
    }

    /// Removing the window at one index removes exactly its id from the
    /// lookups and leaves every other id resolving to the same window.
    pub proof fn lemma_window_lookup_after_remove(pre: WindowManager, post: WindowManager, at: int)
        requires
            0 <= at < pre.windows@.len(),
            post.windows@ == pre.windows@.remove(at),
            forall|i: int, j: int|
                0 <= i < j < pre.windows@.len() ==> (#[trigger] pre.windows@[i]).id != (
                #[trigger] pre.windows@[j]).id,
        ensures
            !post.has_window(pre.windows@[at].id),
            forall|id: Id|
                pre.has_window(id) && id != pre.windows@[at].id ==> post.has_window(id)
                    && post.window_at(id) == pre.window_at(id),
            forall|id: Id| post.has_window(id) ==> pre.has_window(id) && id != pre.windows@[at].id,
    {
        let n = pre.windows@.len() as int;
        let removed = pre.windows@[at].id;
        assert forall|k: int| 0 <= k < post.windows@.len() implies post.windows@[k] == (
        if k < at {
            pre.windows@[k]
        } else {
            pre.windows@[k + 1]
        }) by {}
        if post.has_window(removed) {
            let j = post.window_idx(removed);
            assert(post.windows@[j].id == removed);
            if j < at {
                assert(pre.windows@[j].id != pre.windows@[at].id);
            } else {
                assert(pre.windows@[j + 1].id != pre.windows@[at].id);
            }
        }
        assert forall|id: Id| pre.has_window(id) && id != removed implies post.has_window(id)
            && post.window_at(id) == pre.window_at(id) by {
            let i = pre.window_idx(id);
            assert(pre.windows@[i].id == id);
            let i2 = if i < at {
                i
            } else {
                i - 1
            };
            assert(post.windows@[i2] == pre.windows@[i]);
            assert(post.has_window(id));
            let j = post.window_idx(id);
            assert(post.windows@[j].id == id);
            let jpre = if j < at {
                j
            } else {
                j + 1
            };
            assert(post.windows@[j] == pre.windows@[jpre]);
            if jpre != i {
                assert(pre.windows@[i].id != pre.windows@[jpre].id);
            }
        }
        assert forall|id: Id| post.has_window(id) implies pre.has_window(id) && id != removed by {
            let j = post.window_idx(id);
            assert(post.windows@[j].id == id);
            let jpre = if j < at {
                j
            } else {
                j + 1
            };
            assert(post.windows@[j] == pre.windows@[jpre]);
            assert(pre.has_window(id));
            if jpre != at {
                assert(pre.windows@[jpre].id != pre.windows@[at].id);
            }
        }
    }

    /// Appending a monitor with a fresh id leaves every existing lookup
    /// unchanged and makes the new id resolve to the new monitor.
    pub proof fn lemma_monitor_lookup_after_push(pre: WindowManager, post: WindowManager, m: Monitor)
        requires
            post.monitors@ == pre.monitors@.push(m),
            forall|i: int, j: int|
                0 <= i < j < pre.monitors@.len() ==> (#[trigger] pre.monitors@[i]).id != (
                #[trigger] pre.monitors@[j]).id,
            forall|i: int|
                0 <= i < pre.monitors@.len() ==> (#[trigger] pre.monitors@[i]).id != m.id,
        ensures
            forall|id: Id|
                pre.has_monitor(id) ==> post.has_monitor(id) && post.monitor_at(id)
                    == pre.monitor_at(id),
            post.has_monitor(m.id),
            post.monitor_at(m.id) == m,
            forall|id: Id| post.has_monitor(id) ==> pre.has_monitor(id) || id == m.id,
    {
        let n = pre.monitors@.len() as int;
        assert(post.monitors@[n] == m);
        assert(post.has_monitor(m.id));
        let jn = post.monitor_idx(m.id);
        assert(post.monitors@[jn].id == m.id);
        if jn < n {
            assert(post.monitors@[jn] == pre.monitors@[jn]);
        }
        assert(post.monitor_at(m.id) == m);
        assert forall|id: Id| pre.has_monitor(id) implies post.has_monitor(id) && post.monitor_at(
            id,
        ) == pre.monitor_at(id) by {
            let i = pre.monitor_idx(id);
            assert(pre.monitors@[i].id == id);
            assert(post.monitors@[i] == pre.monitors@[i]);
            assert(post.has_monitor(id));
            let j = post.monitor_idx(id);
            assert(post.monitors@[j].id == id);
            if j == n {
                assert(post.monitors@[j] == m);
                assert(pre.monitors@[i].id != m.id);
            } else {
                assert(post.monitors@[j] == pre.monitors@[j]);
                if i != j {
                    assert(pre.monitors@[i].id != pre.monitors@[j].id);
                }
            }
        }
        assert forall|id: Id| post.has_monitor(id) implies pre.has_monitor(id) || id == m.id by {
            let j = post.monitor_idx(id);
            assert(post.monitors@[j].id == id);
            if j < n {
                assert(post.monitors@[j] == pre.monitors@[j]);
            }
        }
    }

    /// Hands the queued outbound requests to the embedder, leaving the
    /// queue empty.
    pub fn take_requests(&mut self) -> (r: Vec<Request>)
        ensures
            r@ == old(self).pending@,
            *final(self) == (WindowManager { pending: final(self).pending, ..*old(self) }),
            final(self).pending@.len() == 0,
    {
        let mut taken: Vec<Request> = Vec::new();
        core::mem::swap(&mut taken, &mut self.pending);
        taken
    }

    // ------------------------------------------------------------------
    // Creating workspaces and monitors.
    // ------------------------------------------------------------------
    /// How many workspaces of `s` have no monitor.
    pub open spec fn unassigned_count(s: Seq<Workspace>) -> int
        decreases s.len(),
    {
        if s.len() == 0 {
            0
        } else {
            Self::unassigned_count(s.drop_last()) + if s.last().on_monitor is None {
                1int
            } else {
                0int
            }
        }
    }

    /// Allocates a fresh empty workspace and returns its id.
    pub fn create_workspace(&mut self) -> (r: Id)
        requires
            old(self).wf(),
            old(self).workspace_id_generator.next_id < Id::MAX,
        ensures
            final(self).wf(),
            r == old(self).workspace_id_generator.next_id,
            final(self).workspace_id_generator.next_id == r + 1,
            final(self).workspaces@.len() == old(self).workspaces@.len() + 1,
            final(self).workspaces@.subrange(0, old(self).workspaces@.len() as int)
                == old(self).workspaces@,
            final(self).workspaces@.last().id == r,
            final(self).workspaces@.last().on_monitor is None,
            final(self).workspaces@.last().windows@.len() == 0,
            final(self).workspaces@.last().scroll_left == 0,
            final(self).workspaces@.last().active_window is None,
            final(self).has_workspace(r),
            final(self).workspace_at(r) == final(self).workspaces@.last(),
            forall|id: Id|
                old(self).has_workspace(id) ==> final(self).has_workspace(id)
                    && final(self).workspace_at(id) == old(self).workspace_at(id),
            *final(self) == (WindowManager {
                workspaces: final(self).workspaces,
                workspace_id_generator: final(self).workspace_id_generator,
                ..*old(self)
            }),
    {
        let ghost pre = *self;
        let workspace = Workspace::new(&mut self.workspace_id_generator);
        let id = workspace.id;
        self.workspaces.push(workspace);
        proof {
            let post = *self;
            assert forall|i: int| 0 <= i < pre.workspaces@.len() implies (
            #[trigger] pre.workspaces@[i]).id != id by {}
            Self::lemma_workspace_lookup_after_push(pre, post, post.workspaces@.last());
            assert(post.workspaces@.subrange(0, pre.workspaces@.len() as int)
                =~= pre.workspaces@);
            assert(post.wf_windows()) by {
                assert(forall|i: int|
                    0 <= i < post.windows@.len() ==> pre.has_workspace(
                        (#[trigger] post.windows@[i]).workspace,
                    ));
            }
            assert(post.wf_workspaces()) by {
                assert forall|i: int, k: int|
                    0 <= i < post.workspaces@.len() && 0 <= k
                        < post.workspaces@[i].windows@.len() implies post.has_window(
                    #[trigger] post.workspaces@[i].windows@[k]) && post.window_at(
                    post.workspaces@[i].windows@[k],
                ).workspace == post.workspaces@[i].id by {
                    assert(i < pre.workspaces@.len());
                    assert(post.workspaces@[i] == pre.workspaces@[i]);
                }
            }
            assert(post.wf_monitors()) by {
                assert forall|i: int| 0 <= i < post.monitors@.len() implies post.has_workspace(
                    (#[trigger] post.monitors@[i]).workspace,
                ) && post.workspace_at(post.monitors@[i].workspace).on_monitor == Some(
                    post.monitors@[i].id,
                ) by {
                    assert(pre.has_workspace(pre.monitors@[i].workspace));
                }
            }
            assert(post.wf_links()) by {
                assert forall|i: int| 0 <= i < post.workspaces@.len() implies match (
                #[trigger] post.workspaces@[i]).on_monitor {
                    Some(m) => post.has_monitor(m) && post.monitor_at(m).workspace
                        == post.workspaces@[i].id,
                    None => true,
                } by {
                    if i < pre.workspaces@.len() {
                        assert(post.workspaces@[i] == pre.workspaces@[i]);
                    }
                }
            }
            assert(post.spare_exists()) by {
                let n = pre.workspaces@.len() as int;
                assert(post.workspaces@[n].on_monitor is None);
            }
        }
        id
    }

    /// The exact effect of [`WindowManager::get_or_create_unused_workspace`]:
    /// how the workspace store changes for each spare-pool size.
    pub open spec fn get_or_create_rel(pre: WindowManager, post: WindowManager, r: Id) -> bool {
        let spares = Self::unassigned_count(pre.workspaces@);
        &&& (spares == 0 ==> {
            &&& r == pre.workspace_id_generator.next_id
            &&& post.workspace_id_generator.next_id == r + 2
            &&& post.workspaces@.len() == pre.workspaces@.len() + 2
        })
        &&& (spares == 1 ==> {
            &&& post.workspace_id_generator.next_id == pre.workspace_id_generator.next_id + 1
            &&& post.workspaces@.len() == pre.workspaces@.len() + 1
        })
        &&& (spares >= 2 ==> {
            &&& post.workspace_id_generator.next_id == pre.workspace_id_generator.next_id
            &&& post.workspaces@ == pre.workspaces@
        })
        &&& (spares >= 1 ==> exists|i: int|
            {
                &&& 0 <= i < pre.workspaces@.len()
                &&& (#[trigger] pre.workspaces@[i]).on_monitor is None
                &&& r == pre.workspaces@[i].id
                &&& forall|j: int| 0 <= j < i ==> (#[trigger] pre.workspaces@[j]).on_monitor is Some
            })
        &&& post.workspaces@.subrange(0, pre.workspaces@.len() as int) == pre.workspaces@
        &&& forall|k: int|
            pre.workspaces@.len() <= k < post.workspaces@.len() ==> {
                let w = #[trigger] post.workspaces@[k];
                &&& w.on_monitor is None
                &&& w.windows@.len() == 0
                &&& w.scroll_left == 0
                &&& w.active_window is None
            }
        &&& post == (WindowManager {
            workspaces: post.workspaces,
            workspace_id_generator: post.workspace_id_generator,
            ..pre
        })
    }

    /// Returns a workspace with no monitor, creating workspaces as needed
    /// so that, after the call, at least one further spare workspace
    /// remains beyond the returned one.
    pub fn get_or_create_unused_workspace(&mut self) -> (r: Id)
        requires
            old(self).wf(),
            old(self).workspace_id_generator.next_id + 1 < Id::MAX,
        ensures
            final(self).wf(),
            Self::get_or_create_rel(*old(self), *final(self), r),
            final(self).has_workspace(r),
            final(self).workspace_at(r).on_monitor is None,
            exists|j: int|
                {
                    &&& 0 <= j < final(self).workspaces@.len()
                    &&& (#[trigger] final(self).workspaces@[j]).on_monitor is None
                    &&& final(self).workspaces@[j].id != r
                },
    {
        let ghost pre = *self;
        let mut i: usize = 0;
        let mut count: usize = 0;
        let mut first: Option<usize> = None;
        let mut second: Option<usize> = None;
        while i < self.workspaces.len()
            invariant
                i <= self.workspaces@.len(),
                count == Self::unassigned_count(self.workspaces@.subrange(0, i as int)),
                count <= i,
                match first {
                    Some(f) => f < i && self.workspaces@[f as int].on_monitor is None && count >= 1
                        && (forall|j: int|
                        0 <= j < f ==> (#[trigger] self.workspaces@[j]).on_monitor is Some),
                    None => count == 0 && forall|j: int|
                        0 <= j < i ==> (#[trigger] self.workspaces@[j]).on_monitor is Some,
                },
                match second {
                    Some(s) => s < i && self.workspaces@[s as int].on_monitor is None && (
                    first matches Some(f) && f < s),
                    None => true,
                },
                count >= 2 ==> second is Some,
            decreases self.workspaces@.len() - i,
        {
            proof {
                assert(self.workspaces@.subrange(0, i + 1).drop_last() =~= self.workspaces@
                    .subrange(0, i as int));
                assert(self.workspaces@.subrange(0, i + 1).last() == self.workspaces@[i as int]);
            }
            if self.workspaces[i].on_monitor.is_none() {
                count = count + 1;
                if first.is_none() {
                    first = Some(i);
                } else if second.is_none() {
                    second = Some(i);
                }
            }
            i = i + 1;
        }
        proof {
            assert(self.workspaces@.subrange(0, self.workspaces@.len() as int)
                =~= self.workspaces@);
        }
        match first {
            None => {
                let first_id = self.create_workspace();
                let ghost mid = *self;
                let _second_id = self.create_workspace();
                proof {
                    assert(self.workspaces@.subrange(0, pre.workspaces@.len() as int)
                        =~= pre.workspaces@) by {
                        assert(mid.workspaces@.subrange(0, pre.workspaces@.len() as int)
                            =~= pre.workspaces@);
                        assert forall|k: int| 0 <= k < pre.workspaces@.len() implies self
                            .workspaces@[k] == pre.workspaces@[k] by {
                            assert(mid.workspaces@[k] == pre.workspaces@[k]);
                        }
                    }
                    let n = pre.workspaces@.len() as int;
                    assert(self.workspaces@[n] == mid.workspaces@[n]);
                    assert(self.workspaces@[n].on_monitor is None);
                    assert(self.workspaces@[n + 1].on_monitor is None);
                    assert(self.workspaces@[n + 1].id == self.workspaces@[n].id + 1);
                }
                first_id
            },
            Some(f) => {
                let first_id = self.workspaces[f].id;
                proof {
                    self.lemma_workspace_at(f as int);
                }
                if count == 1 {
                    let ghost mid = *self;
                    let _additional = self.create_workspace();
                    proof {
                        assert(self.workspaces@[f as int] == mid.workspaces@[f as int]);
                        let n = mid.workspaces@.len() as int;
                        assert(self.workspaces@[n].on_monitor is None);
                        assert(mid.has_workspace(first_id));
                        assert(mid.workspaces@[f as int].id
                            < mid.workspace_id_generator.next_id);
                        assert(self.workspaces@[n].id == mid.workspace_id_generator.next_id);
                    }
                } else {
                    match second {
                        Some(s) => {
                            proof {
                                assert(self.workspaces@[s as int].on_monitor is None);
                                assert(self.workspaces@[f as int].id != self.workspaces@[
                                    s as int].id);
                            }
                        },
                        None => {
                            proof {
                                assert(false);
                            }
                        },
                    }
                }
                first_id
            },
        }
    }

    /// The workspaces of `s` that have no monitor, in store order.
    pub open spec fn unassigned_seq(s: Seq<Workspace>) -> Seq<Workspace>
        decreases s.len(),
    {
        if s.len() == 0 {
            Seq::empty()
        } else {
            let rest = Self::unassigned_seq(s.drop_last());
            if s.last().on_monitor is None {
                rest.push(s.last())
            } else {
                rest
            }
        }
    }

    /// Every workspace not currently assigned to a monitor, in store order.
    pub fn get_unassigned_workspaces(&self) -> (r: Vec<&Workspace>)
        ensures
            r@.map_values(|w: &Workspace| *w) == Self::unassigned_seq(self.workspaces@),
    {
        let mut out: Vec<&Workspace> = Vec::new();
        let mut i: usize = 0;
        while i < self.workspaces.len()
            invariant
                i <= self.workspaces@.len(),
                out@.map_values(|w: &Workspace| *w) == Self::unassigned_seq(
                    self.workspaces@.subrange(0, i as int),
                ),
            decreases self.workspaces@.len() - i,
        {
            proof {
                assert(self.workspaces@.subrange(0, i + 1).drop_last() =~= self.workspaces@
                    .subrange(0, i as int));
                assert(self.workspaces@.subrange(0, i + 1).last() == self.workspaces@[i as int]);
            }
            let ghost prev = out@.map_values(|w: &Workspace| *w);
            if self.workspaces[i].on_monitor.is_none() {
                out.push(&self.workspaces[i]);
                proof {
                    assert(out@.map_values(|w: &Workspace| *w) =~= prev.push(
                        self.workspaces@[i as int],
                    ));
                }
            }
            i = i + 1;
        }
        proof {
            assert(self.workspaces@.subrange(0, self.workspaces@.len() as int)
                =~= self.workspaces@);
        }
        out
    }

    /// Brings up a monitor with the given extents: takes a workspace from
    /// the spare pool, links the two, and returns the new monitor's id.
    /// Extents outside the layout limits are refused.
    #[verifier::rlimit(80)]
    pub fn create_monitor(&mut self, extents: wlr_box) -> (r: Result<Id, WmError>)
        requires
            old(self).wf(),
            old(self).workspace_id_generator.next_id + 1 < Id::MAX,
            old(self).monitor_id_generator.next_id < Id::MAX,
        ensures
            final(self).wf(),
            match r {
                Ok(id) => {
                    &&& 0 <= extents.x <= MAX_COORD
                    &&& 0 <= extents.y <= MAX_COORD
                    &&& 0 <= extents.width <= MAX_DIM
                    &&& 0 <= extents.height <= MAX_DIM
                    &&& id == old(self).monitor_id_generator.next_id
                    &&& final(self).monitor_id_generator.next_id == id + 1
                    &&& final(self).monitors@.len() == old(self).monitors@.len() + 1
                    &&& final(self).monitors@.subrange(0, old(self).monitors@.len() as int)
                        == old(self).monitors@
                    &&& final(self).has_monitor(id)
                    &&& final(self).monitor_at(id) == final(self).monitors@.last()
                    &&& final(self).monitors@.last().id == id
                    &&& final(self).monitors@.last().extents == extents
                    &&& {
                        let ws = final(self).monitors@.last().workspace;
                        &&& final(self).has_workspace(ws)
                        &&& final(self).workspace_at(ws).on_monitor == Some(id)
                        &&& exists|mid: WindowManager|
                            {
                                &&& #[trigger] Self::get_or_create_rel(*old(self), mid, ws)
                                &&& mid.workspace_at(ws).on_monitor is None
                                &&& final(self).workspaces@ == mid.workspaces@.update(
                                    mid.workspace_idx(ws),
                                    Workspace {
                                        on_monitor: Some(id),
                                        ..mid.workspace_at(ws)
                                    },
                                )
                                &&& final(self).workspace_id_generator
                                    == mid.workspace_id_generator
                            }
                    }
                    &&& final(self).windows@ == old(self).windows@
                    &&& final(self).active_window == old(self).active_window
                    &&& final(self).active_workspace == old(self).active_workspace
                    &&& final(self).new_window_workspace == old(self).new_window_workspace
                    &&& final(self).pending@ == old(self).pending@
                },
                Err(e) => {
                    &&& e == WmError::InvariantViolation
                    &&& !(0 <= extents.x <= MAX_COORD && 0 <= extents.y <= MAX_COORD && 0
                        <= extents.width <= MAX_DIM && 0 <= extents.height <= MAX_DIM)
                    &&& *final(self) == *old(self)
                },
            },
    {
        if !(0 <= extents.x && extents.x <= MAX_COORD && 0 <= extents.y && extents.y <= MAX_COORD
            && 0 <= extents.width && extents.width <= MAX_DIM && 0 <= extents.height
            && extents.height <= MAX_DIM) {
            return Err(WmError::InvariantViolation);
        }
        let ghost pre = *self;
        let workspace = self.get_or_create_unused_workspace();
        let ghost mid = *self;
        let monitor = Monitor::new(&mut self.monitor_id_generator, workspace, extents);
        let monitor_id = monitor.id;
        let ghost mon = monitor;
        let wsi = match self.workspace_index(workspace) {
            Some(i) => i,
            None => {
                proof {
                    assert(false);
                }
                return Err(WmError::InvariantViolation);
            },
        };
        proof {
            mid.lemma_workspace_at(wsi as int);
        }
        let ws_ref = &mut self.workspaces[wsi];
        ws_ref.on_monitor = Some(monitor_id);
        self.monitors.push(monitor);
        proof {
            let post = *self;
            let linked = post.workspaces@[wsi as int];
            assert(linked == Workspace { on_monitor: Some(monitor_id), ..mid.workspace_at(workspace) });
            Self::lemma_workspace_lookup_after_update(mid, post, wsi as int, linked);
            assert forall|i: int| 0 <= i < mid.monitors@.len() implies (
            #[trigger] mid.monitors@[i]).id != mon.id by {}
            Self::lemma_monitor_lookup_after_push(
                WindowManager { workspaces: post.workspaces, ..mid },
                post,
                mon,
            );
            // Lookups in `post` agree with `mid` for all other ids.
            assert(post.wf_windows()) by {
                assert forall|i: int| 0 <= i < post.windows@.len() implies post.has_workspace(
                    (#[trigger] post.windows@[i]).workspace,
                ) by {
                    assert(mid.has_workspace(mid.windows@[i].workspace));
                }
            }
            assert(post.wf_workspaces()) by {
                assert forall|i: int, k: int|
                    0 <= i < post.workspaces@.len() && 0 <= k
                        < post.workspaces@[i].windows@.len() implies post.has_window(
                    #[trigger] post.workspaces@[i].windows@[k]) && post.window_at(
                    post.workspaces@[i].windows@[k],
                ).workspace == post.workspaces@[i].id by {
                    assert(post.workspaces@[i].windows@ == mid.workspaces@[i].windows@);
                    assert(post.workspaces@[i].id == mid.workspaces@[i].id);
                    assert(mid.has_window(mid.workspaces@[i].windows@[k]));
                }
                assert forall|i: int|
                    0 <= i < post.workspaces@.len() implies match (
                #[trigger] post.workspaces@[i]).active_window {
                    Some(a) => post.workspaces@[i].windows@.contains(a),
                    None => true,
                } by {
                    assert(post.workspaces@[i].active_window == mid.workspaces@[i].active_window);
                    assert(post.workspaces@[i].windows@ == mid.workspaces@[i].windows@);
                }
            }
            assert(post.wf_monitors()) by {
                assert forall|i: int| 0 <= i < post.monitors@.len() implies post.has_workspace(
                    (#[trigger] post.monitors@[i]).workspace,
                ) && post.workspace_at(post.monitors@[i].workspace).on_monitor == Some(
                    post.monitors@[i].id,
                ) by {
                    if i < mid.monitors@.len() {
                        assert(post.monitors@[i] == mid.monitors@[i]);
                        assert(mid.has_workspace(mid.monitors@[i].workspace));
                        // The old monitor cannot be showing the newly linked
                        // workspace, which had no monitor in `mid`.
                        assert(mid.workspace_at(mid.monitors@[i].workspace).on_monitor == Some(
                            mid.monitors@[i].id,
                        ));
                        assert(mid.monitors@[i].workspace != workspace);
                    } else {
                        assert(post.monitors@[i] == mon);
                        assert(post.workspace_at(workspace) == linked);
                    }
                }
            }
            assert(post.wf_links()) by {
                assert forall|i: int|
                    0 <= i < post.workspaces@.len() implies match (
                #[trigger] post.workspaces@[i]).on_monitor {
                    Some(m) => post.has_monitor(m) && post.monitor_at(m).workspace
                        == post.workspaces@[i].id,
                    None => true,
                } by {
                    if i == wsi as int {
                        assert(post.workspaces@[i] == linked);
                        assert(post.has_monitor(monitor_id));
                        assert(post.monitor_at(monitor_id) == mon);
                    } else {
                        assert(post.workspaces@[i] == mid.workspaces@[i]);
                        match mid.workspaces@[i].on_monitor {
                            Some(m) => {
                                assert(mid.has_monitor(m));
                                assert(mid.monitor_at(m).workspace == mid.workspaces@[i].id);
                            },
                            None => {},
                        }
                    }
                }
            }
            assert(post.spare_exists()) by {
                let j = choose|j: int|
                    {
                        &&& 0 <= j < mid.workspaces@.len()
                        &&& (#[trigger] mid.workspaces@[j]).on_monitor is None
                        &&& mid.workspaces@[j].id != workspace
                    };
                assert(j != wsi as int);
                assert(post.workspaces@[j] == mid.workspaces@[j]);
            }
            assert(post.wf_active()) by {
                assert(mid.has_workspace(mid.active_workspace));
                assert(mid.has_workspace(mid.new_window_workspace));
            }
            assert(post.monitors@.subrange(0, pre.monitors@.len() as int) =~= pre.monitors@);
        }
        Ok(monitor_id)
    }

    // ------------------------------------------------------------------
    // Adding windows.
    // ------------------------------------------------------------------
    /// The exact effect of [`WindowManager::add_window`] when it succeeds:
    /// the window joins the store, enters its workspace's list right after
    /// the globally active window (or at the end), and, when it is a
    /// toplevel, becomes the active window.
    pub open spec fn add_window_rel(pre: WindowManager, post: WindowManager, window: Window) -> bool {
        let wsi = ws_idx(pre.workspaces@, window.workspace);
        let ws = ws_at(pre.workspaces@, window.workspace);
        let pos = match pre.active_window {
            Some(a) => if ws.windows@.contains(a) {
                pos_of(ws.windows@, a) + 1
            } else {
                ws.windows@.len() as int
            },
            None => ws.windows@.len() as int,
        };
        &&& post.windows@ == pre.windows@.push(window)
        &&& post.workspaces@.len() == pre.workspaces@.len()
        &&& forall|k: int|
            0 <= k < pre.workspaces@.len() && k != wsi ==> post.workspaces@[k]
                == pre.workspaces@[k]
        &&& post.workspaces@[wsi].id == ws.id
        &&& post.workspaces@[wsi].on_monitor == ws.on_monitor
        &&& post.workspaces@[wsi].scroll_left == ws.scroll_left
        &&& post.workspaces@[wsi].windows@ == ws.windows@.insert(pos, window.id)
        &&& post.workspaces@[wsi].active_window == if window.window_info.toplevel {
            Some(window.id)
        } else {
            ws.active_window
        }
        &&& post.active_window == if window.window_info.toplevel {
            Some(window.id)
        } else {
            pre.active_window
        }
        &&& post.active_workspace == if window.window_info.toplevel {
            window.workspace
        } else {
            pre.active_workspace
        }
        &&& post.monitors@ == pre.monitors@
        &&& post.new_window_workspace == pre.new_window_workspace
        &&& post.pending@ == pre.pending@
        &&& post.gesture == pre.gesture
        &&& post.old_cursor == pre.old_cursor
        &&& post.monitor_id_generator == pre.monitor_id_generator
        &&& post.window_id_generator == pre.window_id_generator
        &&& post.workspace_id_generator == pre.workspace_id_generator
    }

    /// Takes a window into the store and into its workspace's ordered
    /// list, immediately after the active window's position, or at the end
    /// when no active window sits in that list. A toplevel window is
    /// activated on arrival. Refused without effect when the id is already
    /// taken, the workspace does not exist, the store is full, or the
    /// window's data is outside the layout bounds.
    #[verifier::rlimit(80)]
    pub fn add_window(&mut self, window: Window) -> (r: Result<(), WmError>)
        requires
            old(self).wf(),
        ensures
            final(self).wf(),
            match r {
                Ok(()) => {
                    &&& !old(self).has_window(window.id)
                    &&& old(self).has_workspace(window.workspace)
                    &&& old(self).windows@.len() < MAX_WINDOWS
                    &&& window.wf()
                    &&& Self::add_window_rel(*old(self), *final(self), window)
                },
                Err(WmError::NotFound) => {
                    &&& !old(self).has_window(window.id)
                    &&& !old(self).has_workspace(window.workspace)
                    &&& *final(self) == *old(self)
                },
                Err(WmError::InvariantViolation) => {
                    &&& old(self).has_window(window.id) || (old(self).has_workspace(
                        window.workspace,
                    ) && (old(self).windows@.len() >= MAX_WINDOWS || !window.wf()))
                    &&& *final(self) == *old(self)
                },
            },
    {
        let ghost pre = *self;
        if self.window_index(window.id).is_some() {
            return Err(WmError::InvariantViolation);
        }
        let wsi = match self.workspace_index(window.workspace) {
            Some(i) => i,
            None => {
                return Err(WmError::NotFound);
            },
        };
        if self.windows.len() >= MAX_WINDOWS {
            return Err(WmError::InvariantViolation);
        }
        if !window.check_bounds() {
            return Err(WmError::InvariantViolation);
        }
        proof {
            self.lemma_workspace_at(wsi as int);
        }
        let toplevel = window.window_info.toplevel;
        let wid = window.id;
        let target_workspace = window.workspace;
        let ws_list_len = self.workspaces[wsi].windows.len();
        let pos = match self.active_window {
            Some(a) => match self.workspaces[wsi].get_window_index(a) {
                Some(idx) => idx + 1,
                None => ws_list_len,
            },
            None => ws_list_len,
        };
        let ghost old_list = self.workspaces@[wsi as int].windows@;
        let ws_ref = &mut self.workspaces[wsi];
        ws_ref.windows.insert(pos, wid);
        if toplevel {
            ws_ref.active_window = Some(wid);
        }
        self.windows.push(window);
        if toplevel {
            self.active_window = Some(wid);
            self.active_workspace = target_workspace;
        }
        proof {
            let post = *self;
            let updated = post.workspaces@[wsi as int];
            let mid = WindowManager { windows: pre.windows, ..post };
            Self::lemma_workspace_lookup_after_update(pre, mid, wsi as int, updated);
            assert forall|i: int| 0 <= i < pre.windows@.len() implies (
            #[trigger] pre.windows@[i]).id != wid by {}
            Self::lemma_window_lookup_after_push(mid, post, window);
            // The inserted position is the one the relation describes.
            assert(pos <= old_list.len());
            assert(updated.windows@ == old_list.insert(pos as int, wid)) by {
                assert(updated.windows@ =~= old_list.insert(pos as int, wid)) by {
                    old_list.insert_ensures(pos as int, wid);
                }
            }
            match pre.active_window {
                Some(a) => {
                    if old_list.contains(a) {
                        // The first index the search found is the unique
                        // index of `a`: the list has no duplicates.
                        let p = pos_of(old_list, a);
                        assert(old_list[p] == a);
                        assert(old_list[pos as int - 1] == a);
                        if p != pos as int - 1 {
                            assert(pre.workspaces@[wsi as int].windows@[p] == a);
                            assert(pre.workspaces@[wsi as int].windows@[pos as int - 1] == a);
                        }
                        assert(pos == p + 1);
                    }
                },
                None => {},
            }
            // Well-formedness of the new state.
            old_list.insert_ensures(pos as int, wid);
            assert(post.wf_windows()) by {
                assert forall|i: int| 0 <= i < post.windows@.len() implies post.has_workspace(
                    (#[trigger] post.windows@[i]).workspace,
                ) by {
                    if i < pre.windows@.len() {
                        assert(pre.has_workspace(pre.windows@[i].workspace));
                    } else {
                        assert(post.windows@[i] == window);
                        assert(pre.has_workspace(window.workspace));
                    }
                }
            }
            assert(post.wf_workspaces()) by {
                assert forall|i: int, k: int|
                    0 <= i < post.workspaces@.len() && 0 <= k
                        < post.workspaces@[i].windows@.len() implies post.has_window(
                    #[trigger] post.workspaces@[i].windows@[k]) && post.window_at(
                    post.workspaces@[i].windows@[k],
                ).workspace == post.workspaces@[i].id by {
                    if i != wsi as int {
                        assert(post.workspaces@[i] == pre.workspaces@[i]);
                        assert(pre.has_window(pre.workspaces@[i].windows@[k]));
                        assert(pre.workspaces@[i].windows@[k] != wid);
                    } else {
                        let entry = updated.windows@[k];
                        if k < pos {
                            assert(entry == old_list[k]);
                            assert(pre.has_window(entry));
                            assert(entry != wid);
                        } else if k == pos {
                            assert(entry == wid);
                            assert(post.window_at(wid) == window);
                        } else {
                            assert(entry == old_list[k - 1]);
                            assert(pre.has_window(entry));
                            assert(entry != wid);
                        }
                    }
                }
                assert forall|i: int, k: int, l: int|
                    0 <= i < post.workspaces@.len() && 0 <= k < l
                        < post.workspaces@[i].windows@.len() implies (
                #[trigger] post.workspaces@[i].windows@[k]) != (
                #[trigger] post.workspaces@[i].windows@[l]) by {
                    if i != wsi as int {
                        assert(post.workspaces@[i] == pre.workspaces@[i]);
                    } else {
                        let wk = updated.windows@[k];
                        let wl = updated.windows@[l];
                        if k != pos && l != pos {
                            let k0 = if k < pos {
                                k
                            } else {
                                k - 1
                            };
                            let l0 = if l < pos {
                                l
                            } else {
                                l - 1
                            };
                            assert(wk == old_list[k0] && wl == old_list[l0]);
                            assert(k0 < l0);
                        } else if k == pos {
                            assert(wk == wid);
                            assert(wl == old_list[l - 1]);
                            assert(pre.has_window(old_list[l - 1]));
                        } else {
                            assert(wl == wid);
                            assert(wk == old_list[k]);
                            assert(pre.has_window(old_list[k]));
                        }
                    }
                }
                assert forall|i: int|
                    0 <= i < post.workspaces@.len() implies match (
                #[trigger] post.workspaces@[i]).active_window {
                    Some(a) => post.workspaces@[i].windows@.contains(a),
                    None => true,
                } by {
                    if i != wsi as int {
                        assert(post.workspaces@[i] == pre.workspaces@[i]);
                    } else {
                        if toplevel {
                            assert(updated.windows@[pos as int] == wid);
                        } else {
                            match updated.active_window {
                                Some(a) => {
                                    assert(old_list.contains(a));
                                    let j = choose|j: int|
                                        0 <= j < old_list.len() && old_list[j] == a;
                                    if j < pos {
                                        assert(updated.windows@[j] == a);
                                    } else {
                                        assert(updated.windows@[j + 1] == a);
                                    }
                                },
                                None => {},
                            }
                        }
                    }
                }
            }
            assert(post.wf_monitors()) by {
                assert forall|i: int| 0 <= i < post.monitors@.len() implies post.has_workspace(
                    (#[trigger] post.monitors@[i]).workspace,
                ) && post.workspace_at(post.monitors@[i].workspace).on_monitor == Some(
                    post.monitors@[i].id,
                ) by {
                    assert(pre.has_workspace(pre.monitors@[i].workspace));
                    assert(pre.workspace_at(pre.monitors@[i].workspace).on_monitor == Some(
                        pre.monitors@[i].id,
                    ));
                    if pre.monitors@[i].workspace == target_workspace {
                        assert(post.workspace_at(target_workspace) == updated);
                    }
                }
            }
            assert(post.wf_links()) by {
                assert forall|i: int|
                    0 <= i < post.workspaces@.len() implies match (
                #[trigger] post.workspaces@[i]).on_monitor {
                    Some(m) => post.has_monitor(m) && post.monitor_at(m).workspace
                        == post.workspaces@[i].id,
                    None => true,
                } by {
                    let wpre = pre.workspaces@[i];
                    assert(post.workspaces@[i].on_monitor == wpre.on_monitor);
                    assert(post.workspaces@[i].id == wpre.id);
                    match wpre.on_monitor {
                        Some(m) => {
                            assert(pre.has_monitor(m));
                            assert(pre.monitor_at(m).workspace == wpre.id);
                        },
                        None => {},
                    }
                }
            }
            assert(post.spare_exists()) by {
                let j = choose|j: int|
                    0 <= j < pre.workspaces@.len() && (
                    #[trigger] pre.workspaces@[j]).on_monitor is None;
                assert(post.workspaces@[j].on_monitor == pre.workspaces@[j].on_monitor);
            }
            assert(post.wf_active()) by {
                match post.active_window {
                    Some(a) => {
                        if a != wid {
                            assert(pre.has_window(a));
                        }
                    },
                    None => {},
                }
                assert(pre.has_workspace(pre.active_workspace));
                assert(pre.has_workspace(pre.new_window_workspace));
            }
        }
        Ok(())
    }

    // ------------------------------------------------------------------
    // Focus.
    // ------------------------------------------------------------------
    /// Makes the window the globally focused one and queues a focus
    /// request for the embedder. Fails without effect on a stale id.
    pub fn focus_window(&mut self, window_id: Id) -> (r: Result<(), WmError>)
        requires
            old(self).wf(),
        ensures
            final(self).wf(),
            match r {
                Ok(()) => {
                    &&& old(self).has_window(window_id)
                    &&& final(self).active_window == Some(window_id)
                    &&& final(self).pending@ == old(self).pending@.push(
                        Request::Focus { window: window_id },
                    )
                    &&& *final(self) == (WindowManager {
                        active_window: Some(window_id),
                        pending: final(self).pending,
                        ..*old(self)
                    })
                },
                Err(e) => {
                    &&& e == WmError::NotFound
                    &&& !old(self).has_window(window_id)
                    &&& *final(self) == *old(self)
                },
            },
    {
        match self.window_index(window_id) {
            Some(_) => {
                self.active_window = Some(window_id);
                self.pending.push(Request::Focus { window: window_id });
                Ok(())
            },
            None => Err(WmError::NotFound),
        }
    }

    // ------------------------------------------------------------------
    // Removing windows.
    // ------------------------------------------------------------------
    /// The focus successor when `window` leaves the workspace whose list
    /// and tiled subsequence are given: if the window being removed is the
    /// workspace's active window, prefer the previous tiled window, then
    /// the next; a non-tiled active window falls back to the last tiled
    /// window; otherwise the active window stays.
    pub open spec fn removal_successor(
        ws: Workspace,
        window: Id,
        window_tiled: bool,
        t: Seq<Id>,
    ) -> Option<Id> {
        if ws.active_window == Some(window) {
            if window_tiled {
                let k = pos_of(t, window);
                let k2 = if k > 0 {
                    k - 1
                } else {
                    k + 1
                };
                if k2 < t.len() {
                    Some(t[k2])
                } else {
                    None
                }
            } else {
                if t.len() > 0 {
                    Some(t.last())
                } else {
                    None
                }
            }
        } else {
            ws.active_window
        }
    }

    /// The exact effect of [`WindowManager::remove_window_from_workspace`]
    /// when it succeeds: the id leaves its workspace's ordered list, the
    /// workspace's active window moves to the removal successor, and
    /// nothing else changes — in particular the window stays in the store.
    pub open spec fn remove_window_rel(pre: WindowManager, post: WindowManager, window: Id) -> bool {
        let ws_id = win_at(pre.windows@, window).workspace;
        let wsi = ws_idx(pre.workspaces@, ws_id);
        let ws = ws_at(pre.workspaces@, ws_id);
        let raw = pos_of(ws.windows@, window);
        let t = tiled_filter(pre.windows@, ws.windows@);
        let new_active = Self::removal_successor(
            ws,
            window,
            win_at(pre.windows@, window).spec_is_tiled(),
            t,
        );
        &&& post.workspaces@.len() == pre.workspaces@.len()
        &&& forall|k: int|
            0 <= k < pre.workspaces@.len() && k != wsi ==> post.workspaces@[k]
                == pre.workspaces@[k]
        &&& post.workspaces@[wsi].id == ws.id
        &&& post.workspaces@[wsi].on_monitor == ws.on_monitor
        &&& post.workspaces@[wsi].scroll_left == ws.scroll_left
        &&& post.workspaces@[wsi].windows@ == ws.windows@.remove(raw)
        &&& post.workspaces@[wsi].active_window == new_active
        &&& post.windows@ == pre.windows@
        &&& post.monitors@ == pre.monitors@
        &&& post.active_window == pre.active_window
        &&& post.active_workspace == pre.active_workspace
        &&& post.new_window_workspace == pre.new_window_workspace
        &&& post.pending@ == pre.pending@
        &&& post.gesture == pre.gesture
        &&& post.old_cursor == pre.old_cursor
        &&& post.monitor_id_generator == pre.monitor_id_generator
        &&& post.window_id_generator == pre.window_id_generator
        &&& post.workspace_id_generator == pre.workspace_id_generator
    }

    /// Detaches the window from its workspace's ordered list, first moving
    /// the workspace's active window to the removal successor. The window
    /// itself stays in the store. Fails without effect when the id is
    /// stale or the window is not in its workspace's list.
    #[verifier::rlimit(80)]
    pub fn remove_window_from_workspace(&mut self, window: Id) -> (r: Result<(), WmError>)
        requires
            old(self).wf(),
        ensures
            final(self).wf(),
            match r {
                Ok(()) => {
                    &&& old(self).has_window(window)
                    &&& ws_at(
                        old(self).workspaces@,
                        win_at(old(self).windows@, window).workspace,
                    ).windows@.contains(window)
                    &&& Self::remove_window_rel(*old(self), *final(self), window)
                },
                Err(WmError::NotFound) => {
                    &&& !old(self).has_window(window)
                    &&& *final(self) == *old(self)
                },
                Err(WmError::InvariantViolation) => {
                    &&& old(self).has_window(window)
                    &&& !ws_at(
                        old(self).workspaces@,
                        win_at(old(self).windows@, window).workspace,
                    ).windows@.contains(window)
                    &&& *final(self) == *old(self)
                },
            },
    {
        let ghost pre = *self;
        let wi = match self.window_index(window) {
            Some(i) => i,
            None => {
                return Err(WmError::NotFound);
            },
        };
        proof {
            self.lemma_window_at(wi as int);
        }
        let workspace_id = self.windows[wi].workspace;
        let wsi = match self.workspace_index(workspace_id) {
            Some(i) => i,
            None => {
                proof {
                    assert(false);
                }
                return Err(WmError::NotFound);
            },
        };
        proof {
            self.lemma_workspace_at(wsi as int);
        }
        let raw_index = match self.workspaces[wsi].get_window_index(window) {
            Some(i) => i,
            None => {
                proof {
                    if ws_at(pre.workspaces@, workspace_id).windows@.contains(window) {
                        let j = pos_of(ws_at(pre.workspaces@, workspace_id).windows@, window);
                        assert(pre.workspaces@[wsi as int].windows@[j] == window);
                    }
                }
                return Err(WmError::InvariantViolation);
            },
        };
        let ghost old_list = self.workspaces@[wsi as int].windows@;
        let ghost t = tiled_filter(self.windows@, old_list);
        let is_active_removed = match self.workspaces[wsi].active_window {
            Some(a) => a == window,
            None => false,
        };
        let mut next_active: Option<Id> = self.workspaces[wsi].active_window;
        if is_active_removed {
            if self.windows[wi].is_tiled() {
                let tiled = self.workspaces[wsi].get_tiled_windows(self);
                let tiled_len = tiled.len();
                let t_index = match self.workspaces[wsi].get_tiled_window_index(self, window) {
                    Some(i) => i,
                    None => {
                        proof {
                            lemma_tiled_filter_props(self.windows@, old_list);
                            assert(old_list[raw_index as int] == window);
                            assert(old_list.contains(window));
                            assert(t.contains(window));
                            let k = choose|k: int| 0 <= k < t.len() && t[k] == window;
                            assert(false);
                        }
                        return Err(WmError::InvariantViolation);
                    },
                };
                let t2 = if t_index > 0 {
                    t_index - 1
                } else {
                    t_index + 1
                };
                next_active = if t2 < tiled_len {
                    Some(tiled[t2])
                } else {
                    None
                };
                proof {
                    // The first tiled index found is the unique position of
                    // the window in the duplicate-free tiled subsequence.
                    lemma_tiled_filter_props(self.windows@, old_list);
                    assert(old_list.no_duplicates()) by {
                        assert forall|p: int, q: int|
                            0 <= p < q < old_list.len() implies old_list[p] != old_list[q] by {
                            assert(pre.workspaces@[wsi as int].windows@[p] != pre.workspaces@[
                                wsi as int].windows@[q]);
                        }
                    }
                    let k = pos_of(t, window);
                    assert(t[k] == window);
                    if k != t_index as int {
                        assert(t[t_index as int] == window);
                    }
                    assert(k == t_index as int);
                }
            } else {
                let tiled = self.workspaces[wsi].get_tiled_windows(self);
                next_active = if tiled.len() > 0 {
                    Some(tiled[tiled.len() - 1])
                } else {
                    None
                };
            }
        }
        let ws_ref = &mut self.workspaces[wsi];
        ws_ref.active_window = next_active;
        ws_ref.windows.remove(raw_index);
        proof {
            let post = *self;
            let updated = post.workspaces@[wsi as int];
            Self::lemma_workspace_lookup_after_update(pre, post, wsi as int, updated);
            lemma_tiled_filter_props(pre.windows@, old_list);
            old_list.remove_ensures(raw_index as int);
            assert(old_list.no_duplicates()) by {
                assert forall|p: int, q: int|
                    0 <= p < q < old_list.len() implies old_list[p] != old_list[q] by {
                    assert(pre.workspaces@[wsi as int].windows@[p] != pre.workspaces@[wsi as int]
                        .windows@[q]);
                }
            }
            // The first raw index found is the unique position of the
            // window in the duplicate-free list.
            assert(raw_index as int == pos_of(old_list, window)) by {
                let p = pos_of(old_list, window);
                assert(old_list[raw_index as int] == window);
                assert(old_list[p] == window);
            }
            // The window is gone from the list.
            assert(forall|j: int|
                0 <= j < updated.windows@.len() ==> #[trigger] updated.windows@[j] != window);
            // Any other list member survives the removal.
            assert forall|x: Id| old_list.contains(x) && x != window implies updated.windows@
                .contains(x) by {
                let j = choose|j: int| 0 <= j < old_list.len() && old_list[j] == x;
                if j < raw_index as int {
                    assert(updated.windows@[j] == x);
                } else {
                    assert(j != raw_index as int);
                    assert(updated.windows@[j - 1] == x);
                }
            }
            assert(post.wf_windows()) by {
                assert forall|i: int| 0 <= i < post.windows@.len() implies post.has_workspace(
                    (#[trigger] post.windows@[i]).workspace,
                ) by {
                    assert(pre.has_workspace(pre.windows@[i].workspace));
                }
            }
            assert(post.wf_workspaces()) by {
                assert forall|i: int, k: int|
                    0 <= i < post.workspaces@.len() && 0 <= k
                        < post.workspaces@[i].windows@.len() implies post.has_window(
                    #[trigger] post.workspaces@[i].windows@[k]) && post.window_at(
                    post.workspaces@[i].windows@[k],
                ).workspace == post.workspaces@[i].id by {
                    if i != wsi as int {
                        assert(post.workspaces@[i] == pre.workspaces@[i]);
                        assert(pre.has_window(pre.workspaces@[i].windows@[k]));
                    } else {
                        let entry = updated.windows@[k];
                        let k0 = if k < raw_index as int {
                            k
                        } else {
                            k + 1
                        };
                        assert(entry == old_list[k0]);
                        assert(pre.has_window(old_list[k0]));
                    }
                }
                assert forall|i: int, k: int, l: int|
                    0 <= i < post.workspaces@.len() && 0 <= k < l
                        < post.workspaces@[i].windows@.len() implies (
                #[trigger] post.workspaces@[i].windows@[k]) != (
                #[trigger] post.workspaces@[i].windows@[l]) by {
                    if i != wsi as int {
                        assert(post.workspaces@[i] == pre.workspaces@[i]);
                    } else {
                        let k0 = if k < raw_index as int {
                            k
                        } else {
                            k + 1
                        };
                        let l0 = if l < raw_index as int {
                            l
                        } else {
                            l + 1
                        };
                        assert(updated.windows@[k] == old_list[k0]);
                        assert(updated.windows@[l] == old_list[l0]);
                        assert(old_list[k0] != old_list[l0]);
                    }
                }
                assert forall|i: int|
                    0 <= i < post.workspaces@.len() implies match (
                #[trigger] post.workspaces@[i]).active_window {
                    Some(a) => post.workspaces@[i].windows@.contains(a),
                    None => true,
                } by {
                    if i != wsi as int {
                        assert(post.workspaces@[i] == pre.workspaces@[i]);
                    } else {
                        match updated.active_window {
                            Some(a) => {
                                assert(old_list.contains(a) && a != window) by {
                                    if is_active_removed {
                                        if pre.windows@[wi as int].spec_is_tiled() {
                                            let k = pos_of(t, window);
                                            let k2 = if k > 0 {
                                                k - 1
                                            } else {
                                                k + 1
                                            };
                                            assert(a == t[k2]);
                                            assert(old_list.contains(t[k2]));
                                            assert(t.no_duplicates());
                                            assert(t[k] == window);
                                        } else {
                                            assert(a == t[t.len() - 1]);
                                            assert(old_list.contains(a));
                                            assert(win_at(pre.windows@, a).spec_is_tiled());
                                            assert(win_at(
                                                pre.windows@,
                                                window,
                                            ) == pre.windows@[wi as int]);
                                        }
                                    } else {
                                        assert(old_list.contains(a));
                                    }
                                }
                            },
                            None => {},
                        }
                    }
                }
            }
            assert(post.wf_monitors()) by {
                assert forall|i: int| 0 <= i < post.monitors@.len() implies post.has_workspace(
                    (#[trigger] post.monitors@[i]).workspace,
                ) && post.workspace_at(post.monitors@[i].workspace).on_monitor == Some(
                    post.monitors@[i].id,
                ) by {
                    assert(pre.has_workspace(pre.monitors@[i].workspace));
                    assert(pre.workspace_at(pre.monitors@[i].workspace).on_monitor == Some(
                        pre.monitors@[i].id,
                    ));
                    if pre.monitors@[i].workspace == workspace_id {
                        assert(post.workspace_at(workspace_id) == updated);
                    }
                }
            }
            assert(post.wf_links()) by {
                assert forall|i: int|
                    0 <= i < post.workspaces@.len() implies match (
                #[trigger] post.workspaces@[i]).on_monitor {
                    Some(m) => post.has_monitor(m) && post.monitor_at(m).workspace
                        == post.workspaces@[i].id,
                    None => true,
                } by {
                    let wpre = pre.workspaces@[i];
                    assert(post.workspaces@[i].on_monitor == wpre.on_monitor);
                    assert(post.workspaces@[i].id == wpre.id);
                    match wpre.on_monitor {
                        Some(m) => {
                            assert(pre.has_monitor(m));
                            assert(pre.monitor_at(m).workspace == wpre.id);
                        },
                        None => {},
                    }
                }
            }
            assert(post.spare_exists()) by {
                let j = choose|j: int|
                    0 <= j < pre.workspaces@.len() && (
                    #[trigger] pre.workspaces@[j]).on_monitor is None;
                assert(post.workspaces@[j].on_monitor == pre.workspaces@[j].on_monitor);
            }
            assert(post.wf_active()) by {
                match pre.active_window {
                    Some(a) => {
                        assert(pre.has_window(a));
                    },
                    None => {},
                }
                assert(pre.has_workspace(pre.active_workspace));
                assert(pre.has_workspace(pre.new_window_workspace));
            }
        }
        Ok(())
    }

    /// Deletes the window outright: out of its workspace's list with the
    /// usual focus successor, then out of the store; a deleted globally
    /// focused window leaves global focus unset until the embedder reports
    /// the next focus event. Fails without effect when the id is stale or
    /// the window is not in its workspace's list.
    #[verifier::rlimit(80)]
    pub fn delete_window(&mut self, window_id: Id) -> (r: Result<(), WmError>)
        requires
            old(self).wf(),
        ensures
            final(self).wf(),
            match r {
                Ok(()) => {
                    &&& old(self).has_window(window_id)
                    &&& ws_at(
                        old(self).workspaces@,
                        win_at(old(self).windows@, window_id).workspace,
                    ).windows@.contains(window_id)
                    &&& exists|mid: WindowManager|
                        {
                            &&& #[trigger] Self::remove_window_rel(*old(self), mid, window_id)
                            &&& final(self).workspaces@ == mid.workspaces@
                            &&& final(self).windows@ == mid.windows@.remove(
                                win_idx(mid.windows@, window_id),
                            )
                        }
                    &&& !final(self).has_window(window_id)
                    &&& final(self).active_window == if old(self).active_window == Some(
                        window_id,
                    ) {
                        None::<Id>
                    } else {
                        old(self).active_window
                    }
                    &&& final(self).monitors@ == old(self).monitors@
                    &&& final(self).active_workspace == old(self).active_workspace
                    &&& final(self).new_window_workspace == old(self).new_window_workspace
                    &&& final(self).pending@ == old(self).pending@
                    &&& final(self).gesture == old(self).gesture
                    &&& final(self).old_cursor == old(self).old_cursor
                    &&& final(self).monitor_id_generator == old(self).monitor_id_generator
                    &&& final(self).window_id_generator == old(self).window_id_generator
                    &&& final(self).workspace_id_generator == old(self).workspace_id_generator
                },
                Err(WmError::NotFound) => {
                    &&& !old(self).has_window(window_id)
                    &&& *final(self) == *old(self)
                },
                Err(WmError::InvariantViolation) => {
                    &&& old(self).has_window(window_id)
                    &&& !ws_at(
                        old(self).workspaces@,
                        win_at(old(self).windows@, window_id).workspace,
                    ).windows@.contains(window_id)
                    &&& *final(self) == *old(self)
                },
            },
    {
        let ghost pre = *self;
        match self.remove_window_from_workspace(window_id) {
            Ok(()) => {},
            Err(e) => {
                return Err(e);
            },
        }
        let ghost mid = *self;
        let wi = match self.window_index(window_id) {
            Some(i) => i,
            None => {
                proof {
                    assert(false);
                }
                return Err(WmError::NotFound);
            },
        };
        proof {
            mid.lemma_window_at(wi as int);
        }
        self.windows.remove(wi);
        if let Some(active) = self.active_window {
            if active == window_id {
                self.active_window = None;
            }
        }
        proof {
            let post = *self;
            Self::lemma_window_lookup_after_remove(
                mid,
                WindowManager { windows: post.windows, ..mid },
                wi as int,
            );
            assert(post.windows@ == mid.windows@.remove(wi as int));
            mid.windows@.remove_ensures(wi as int);
            // No workspace list still holds the deleted id: its own list
            // just dropped it, and single ownership keeps it off the rest.
            assert forall|i: int, k: int|
                0 <= i < post.workspaces@.len() && 0 <= k
                    < post.workspaces@[i].windows@.len() implies (
            #[trigger] post.workspaces@[i].windows@[k]) != window_id by {
                let e = post.workspaces@[i].windows@[k];
                if e == window_id {
                    assert(mid.workspaces@[i].windows@[k] == e);
                    assert(mid.window_at(e).workspace == mid.workspaces@[i].id);
                    assert(win_at(pre.windows@, window_id).workspace == mid.workspaces@[i].id);
                    let ws_id = win_at(pre.windows@, window_id).workspace;
                    let wsi = ws_idx(pre.workspaces@, ws_id);
                    pre.lemma_workspace_at(wsi);
                    assert(mid.workspaces@[wsi].id == ws_id);
                    if i != wsi {
                        assert(mid.workspaces@[i].id != mid.workspaces@[wsi].id) by {
                            if i < wsi {
                                assert(pre.workspaces@[i].id < pre.workspaces@[wsi].id) by {
                                    assert(mid.workspaces@[i].id == pre.workspaces@[i].id) by {
                                        if i != wsi {
                                            assert(mid.workspaces@[i] == pre.workspaces@[i]);
                                        }
                                    }
                                }
                            } else {
                                assert(mid.workspaces@[wsi].id < mid.workspaces@[i].id) by {
                                    assert(mid.workspaces@[i].id == pre.workspaces@[i].id) by {
                                        assert(mid.workspaces@[i] == pre.workspaces@[i]);
                                    }
                                }
                            }
                        }
                    }
                }
            }
            assert(post.wf_windows()) by {
                assert forall|i: int| 0 <= i < post.windows@.len() implies (
                #[trigger] post.windows@[i]).wf() && post.has_workspace(
                    post.windows@[i].workspace,
                ) by {
                    let i0 = if i < wi as int {
                        i
                    } else {
                        i + 1
                    };
                    assert(post.windows@[i] == mid.windows@[i0]);
                    assert(mid.windows@[i0].wf());
                    assert(mid.has_workspace(mid.windows@[i0].workspace));
                }
                assert forall|i: int, j: int| 0 <= i < j < post.windows@.len() implies (
                #[trigger] post.windows@[i]).id != (#[trigger] post.windows@[j]).id by {
                    let i0 = if i < wi as int {
                        i
                    } else {
                        i + 1
                    };
                    let j0 = if j < wi as int {
                        j
                    } else {
                        j + 1
                    };
                    assert(post.windows@[i] == mid.windows@[i0]);
                    assert(post.windows@[j] == mid.windows@[j0]);
                    assert(mid.windows@[i0].id != mid.windows@[j0].id);
                }
            }
            assert(post.wf_workspaces()) by {
                assert forall|i: int, k: int|
                    0 <= i < post.workspaces@.len() && 0 <= k
                        < post.workspaces@[i].windows@.len() implies post.has_window(
                    #[trigger] post.workspaces@[i].windows@[k]) && post.window_at(
                    post.workspaces@[i].windows@[k],
                ).workspace == post.workspaces@[i].id by {
                    let e = post.workspaces@[i].windows@[k];
                    assert(mid.workspaces@[i].windows@[k] == e);
                    assert(mid.has_window(e));
                    assert(e != window_id);
                }
                assert forall|i: int|
                    0 <= i < post.workspaces@.len() implies match (
                #[trigger] post.workspaces@[i]).active_window {
                    Some(a) => post.workspaces@[i].windows@.contains(a),
                    None => true,
                } by {
                    match mid.workspaces@[i].active_window {
                        Some(a) => {
                            assert(mid.workspaces@[i].windows@.contains(a));
                        },
                        None => {},
                    }
                }
            }
            assert(post.wf_monitors()) by {
                assert forall|i: int| 0 <= i < post.monitors@.len() implies post.has_workspace(
                    (#[trigger] post.monitors@[i]).workspace,
                ) && post.workspace_at(post.monitors@[i].workspace).on_monitor == Some(
                    post.monitors@[i].id,
                ) by {
                    assert(mid.has_workspace(mid.monitors@[i].workspace));
                    assert(mid.workspace_at(mid.monitors@[i].workspace).on_monitor == Some(
                        mid.monitors@[i].id,
                    ));
                }
            }
            assert(post.wf_links()) by {
                assert forall|i: int|
                    0 <= i < post.workspaces@.len() implies match (
                #[trigger] post.workspaces@[i]).on_monitor {
                    Some(m) => post.has_monitor(m) && post.monitor_at(m).workspace
                        == post.workspaces@[i].id,
                    None => true,
                } by {
                    match mid.workspaces@[i].on_monitor {
                        Some(m) => {
                            assert(mid.has_monitor(m));
                            assert(mid.monitor_at(m).workspace == mid.workspaces@[i].id);
                        },
                        None => {},
                    }
                }
            }
            assert(post.spare_exists()) by {
                let j = choose|j: int|
                    0 <= j < mid.workspaces@.len() && (
                    #[trigger] mid.workspaces@[j]).on_monitor is None;
                assert(post.workspaces@[j].on_monitor == mid.workspaces@[j].on_monitor);
            }
            assert(post.wf_active()) by {
                match post.active_window {
                    Some(a) => {
                        assert(a != window_id);
                        assert(mid.has_window(a));
                    },
                    None => {},
                }
                assert(mid.has_workspace(mid.active_workspace));
                assert(mid.has_workspace(mid.new_window_workspace));
            }
        }
        Ok(())
    }

    /// Replaces what the store knows of a window's surface, for instance
    /// after the client commits new geometry. Fails without effect when
    /// the id is stale or the new data is outside the layout bounds.
    pub fn update_window_info(&mut self, window_id: Id, info: Surface) -> (r: Result<
        (),
        WmError,
    >)
        requires
            old(self).wf(),
        ensures
            final(self).wf(),
            match r {
                Ok(()) => {
                    &&& old(self).has_window(window_id)
                    &&& info.wf()
                    &&& final(self).windows@ == old(self).windows@.update(
                        win_idx(old(self).windows@, window_id),
                        Window { window_info: info, ..win_at(old(self).windows@, window_id) },
                    )
                    &&& *final(self) == (WindowManager {
                        windows: final(self).windows,
                        ..*old(self)
                    })
                },
                Err(WmError::NotFound) => {
                    &&& !old(self).has_window(window_id)
                    &&& *final(self) == *old(self)
                },
                Err(WmError::InvariantViolation) => {
                    &&& old(self).has_window(window_id)
                    &&& !info.wf()
                    &&& *final(self) == *old(self)
                },
            },
    {
        let ghost pre = *self;
        let wi = match self.window_index(window_id) {
            Some(i) => i,
            None => {
                return Err(WmError::NotFound);
            },
        };
        if !info.check_bounds() {
            return Err(WmError::InvariantViolation);
        }
        proof {
            self.lemma_window_at(wi as int);
        }
        let w_ref = &mut self.windows[wi];
        w_ref.window_info = info;
        proof {
            let post = *self;
            let updated = post.windows@[wi as int];
            Self::lemma_window_lookup_after_update(pre, post, wi as int, updated);
            assert(post.wf_windows()) by {
                assert forall|i: int| 0 <= i < post.windows@.len() implies (
                #[trigger] post.windows@[i]).wf() && post.has_workspace(post.windows@[i].workspace)
                    by {
                    if i != wi as int {
                        assert(post.windows@[i] == pre.windows@[i]);
                    }
                    assert(pre.has_workspace(pre.windows@[i].workspace));
                }
            }
            assert(post.wf_workspaces()) by {
                assert forall|i: int, k: int|
                    0 <= i < post.workspaces@.len() && 0 <= k
                        < post.workspaces@[i].windows@.len() implies post.has_window(
                    #[trigger] post.workspaces@[i].windows@[k]) && post.window_at(
                    post.workspaces@[i].windows@[k],
                ).workspace == post.workspaces@[i].id by {
                    let e = pre.workspaces@[i].windows@[k];
                    assert(pre.has_window(e));
                    assert(pre.window_at(e).workspace == pre.workspaces@[i].id);
                    if e == window_id {
                        assert(post.window_at(e) == updated);
                    }
                }
            }
            assert(post.wf_monitors()) by {
                assert forall|i: int| 0 <= i < post.monitors@.len() implies post.has_workspace(
                    (#[trigger] post.monitors@[i]).workspace,
                ) && post.workspace_at(post.monitors@[i].workspace).on_monitor == Some(
                    post.monitors@[i].id,
                ) by {
                    assert(pre.has_workspace(pre.monitors@[i].workspace));
                    assert(pre.workspace_at(pre.monitors@[i].workspace).on_monitor == Some(
                        pre.monitors@[i].id,
                    ));
                }
            }
            assert(post.wf_active()) by {
                match pre.active_window {
                    Some(a) => {
                        assert(pre.has_window(a));
                    },
                    None => {},
                }
                assert(pre.has_workspace(pre.active_workspace));
                assert(pre.has_workspace(pre.new_window_workspace));
            }
        }
        Ok(())
    }

    /// Makes the window active in its workspace, and makes that workspace
    /// and window the globally active ones. Fails without effect when the
    /// window does not exist or is detached from its workspace's list.
    pub fn activate_window(&mut self, window_id: Id) -> (r: Result<(), WmError>)
        requires
            old(self).wf(),
        ensures
            final(self).wf(),
            match r {
                Ok(()) => {
                    &&& old(self).has_window(window_id)
                    &&& {
                        let ws = old(self).window_at(window_id).workspace;
                        let wsi = old(self).workspace_idx(ws);
                        &&& old(self).workspace_at(ws).windows@.contains(window_id)
                        &&& final(self).workspaces@ == old(self).workspaces@.update(
                            wsi,
                            Workspace {
                                active_window: Some(window_id),
                                ..old(self).workspace_at(ws)
                            },
                        )
                        &&& *final(self) == (WindowManager {
                            workspaces: final(self).workspaces,
                            active_window: Some(window_id),
                            active_workspace: ws,
                            ..*old(self)
                        })
                    }
                },
                Err(WmError::NotFound) => {
                    &&& !old(self).has_window(window_id)
                    &&& *final(self) == *old(self)
                },
                Err(WmError::InvariantViolation) => {
                    &&& old(self).has_window(window_id)
                    &&& !old(self).workspace_at(
                        old(self).window_at(window_id).workspace,
                    ).windows@.contains(window_id)
                    &&& *final(self) == *old(self)
                },
            },
    {
        let ghost pre = *self;
        let wi = match self.window_index(window_id) {
            Some(i) => i,
            None => {
                return Err(WmError::NotFound);
            },
        };
        proof {
            self.lemma_window_at(wi as int);
        }
        let workspace_id = self.windows[wi].workspace;
        let wsi = match self.workspace_index(workspace_id) {
            Some(i) => i,
            None => {
                proof {
                    assert(false);
                }
                return Err(WmError::NotFound);
            },
        };
        proof {
            self.lemma_workspace_at(wsi as int);
        }
        match self.workspaces[wsi].get_window_index(window_id) {
            Some(_) => {},
            None => {
                return Err(WmError::InvariantViolation);
            },
        }
        let ws_ref = &mut self.workspaces[wsi];
        ws_ref.active_window = Some(window_id);
        self.active_window = Some(window_id);
        self.active_workspace = workspace_id;
        proof {
            let post = *self;
            let updated = post.workspaces@[wsi as int];
            Self::lemma_workspace_lookup_after_update(pre, post, wsi as int, updated);
            assert(post.wf_windows()) by {
                assert forall|i: int| 0 <= i < post.windows@.len() implies post.has_workspace(
                    (#[trigger] post.windows@[i]).workspace,
                ) by {
                    assert(pre.has_workspace(pre.windows@[i].workspace));
                }
            }
            assert(post.wf_workspaces()) by {
                assert forall|i: int, k: int|
                    0 <= i < post.workspaces@.len() && 0 <= k
                        < post.workspaces@[i].windows@.len() implies post.has_window(
                    #[trigger] post.workspaces@[i].windows@[k]) && post.window_at(
                    post.workspaces@[i].windows@[k],
                ).workspace == post.workspaces@[i].id by {
                    assert(post.workspaces@[i].windows@ == pre.workspaces@[i].windows@);
                    assert(post.workspaces@[i].id == pre.workspaces@[i].id);
                    assert(pre.has_window(pre.workspaces@[i].windows@[k]));
                }
                assert forall|i: int|
                    0 <= i < post.workspaces@.len() implies match (
                #[trigger] post.workspaces@[i]).active_window {
                    Some(a) => post.workspaces@[i].windows@.contains(a),
                    None => true,
                } by {
                    if i != wsi as int {
                        assert(post.workspaces@[i] == pre.workspaces@[i]);
                    }
                }
            }
            assert(post.wf_monitors()) by {
                assert forall|i: int| 0 <= i < post.monitors@.len() implies post.has_workspace(
                    (#[trigger] post.monitors@[i]).workspace,
                ) && post.workspace_at(post.monitors@[i].workspace).on_monitor == Some(
                    post.monitors@[i].id,
                ) by {
                    assert(pre.has_workspace(pre.monitors@[i].workspace));
                    assert(pre.workspace_at(pre.monitors@[i].workspace).on_monitor == Some(
                        pre.monitors@[i].id,
                    ));
                    if pre.monitors@[i].workspace == workspace_id {
                        assert(post.workspace_at(workspace_id) == updated);
                    }
                }
            }
            assert(post.wf_links()) by {
                assert forall|i: int|
                    0 <= i < post.workspaces@.len() implies match (
                #[trigger] post.workspaces@[i]).on_monitor {
                    Some(m) => post.has_monitor(m) && post.monitor_at(m).workspace
                        == post.workspaces@[i].id,
                    None => true,
                } by {
                    let wpre = pre.workspaces@[i];
                    assert(post.workspaces@[i].on_monitor == wpre.on_monitor);
                    assert(post.workspaces@[i].id == wpre.id);
                    match wpre.on_monitor {
                        Some(m) => {
                            assert(pre.has_monitor(m));
                            assert(pre.monitor_at(m).workspace == wpre.id);
                        },
                        None => {},
                    }
                }
            }
            assert(post.spare_exists()) by {
                let j = choose|j: int|
                    0 <= j < pre.workspaces@.len() && (
                    #[trigger] pre.workspaces@[j]).on_monitor is None;
                assert(post.workspaces@[j].on_monitor == pre.workspaces@[j].on_monitor);
            }
            assert(post.wf_active()) by {
                assert(pre.has_workspace(pre.new_window_workspace));
            }
        }
        Ok(())
    }
}

/// A window sits in at most one workspace's ordered list at a time: two
/// distinct workspaces never both list the same id. Every operation of
/// the library preserves the invariant this follows from.
pub proof fn lemma_single_ownership(wm: WindowManager, w: Id, i: int, j: int, k: int, l: int)
    requires
        wm.wf(),
        0 <= i < wm.workspaces@.len(),
        0 <= j < wm.workspaces@.len(),
        i != j,
        0 <= k < wm.workspaces@[i].windows@.len(),
        0 <= l < wm.workspaces@[j].windows@.len(),
        wm.workspaces@[i].windows@[k] == w,
    ensures
        wm.workspaces@[j].windows@[l] != w,
{
    if wm.workspaces@[j].windows@[l] == w {
        assert(wm.window_at(w).workspace == wm.workspaces@[i].id);
        assert(wm.window_at(w).workspace == wm.workspaces@[j].id);
        if i < j {
            assert(wm.workspaces@[i].id < wm.workspaces@[j].id);
        } else {
            assert(wm.workspaces@[j].id < wm.workspaces@[i].id);
        }
    }
}

/// A workspace with no monitor exists in every well-formed state, so a
/// target for windows created outside any monitor is always on hand.
pub proof fn lemma_spare_workspace(wm: WindowManager)
    requires
        wm.wf(),
    ensures
        exists|i: int|
            0 <= i < wm.workspaces@.len() && (#[trigger] wm.workspaces@[i]).on_monitor is None,
{
}

/// The focus successor on deletion: removing the active tiled window at
/// tiled position `k` of its workspace hands the workspace's focus to the
/// window before it; removing the first hands it to the old second
/// window, and removing the only tiled window clears it.
pub proof fn lemma_focus_successor(pre: WindowManager, post: WindowManager, w: Id)
    requires
        pre.wf(),
        pre.has_window(w),
        WindowManager::remove_window_rel(pre, post, w),
        win_at(pre.windows@, w).spec_is_tiled(),
        ws_at(pre.workspaces@, win_at(pre.windows@, w).workspace).windows@.contains(w),
        ws_at(pre.workspaces@, win_at(pre.windows@, w).workspace).active_window == Some(w),
    ensures
        ({
            let ws = ws_at(pre.workspaces@, win_at(pre.windows@, w).workspace);
            let t = tiled_filter(pre.windows@, ws.windows@);
            let k = pos_of(t, w);
            let wsi = ws_idx(pre.workspaces@, win_at(pre.windows@, w).workspace);
            post.workspaces@[wsi].active_window == if k > 0 {
                Some(t[k - 1])
            } else if t.len() > 1 {
                Some(t[1])
            } else {
                None::<Id>
            }
        }),
{
    let ws = ws_at(pre.workspaces@, win_at(pre.windows@, w).workspace);
    let t = tiled_filter(pre.windows@, ws.windows@);
    lemma_tiled_filter_props(pre.windows@, ws.windows@);
    assert(t.contains(w));
    let k = pos_of(t, w);
    assert(t[k] == w);
}

} // verus!
