//! Focus movement and window reordering: within a workspace by tiled
//! neighbors, and across monitors ordered by their left edge.

use crate::actions::{arrange_rel, arrange_windows, arrange_windows_workspace};
use crate::entities::{Monitor, Request, Window, Workspace};
use crate::id::Id;
use crate::manager::{
    WindowManager, lemma_tiled_filter_props, mon_at, pos_of, tiled_filter, win_at, win_has,
    win_idx, ws_at, ws_idx,
};
use vstd::prelude::*;

verus! {

/// A horizontal direction of travel.
#[derive(Debug, PartialEq, Eq, Structural, Clone, Copy)]
pub enum Direction {
    Left,
    Right,
}

/// How to pick the window to focus after arriving on another monitor.
#[derive(Debug, Clone, Copy)]
pub enum Activation {
    /// Prefer the workspace's previously active window.
    LastActive,
    /// Land facing the direction of travel.
    FromDirection,
}

/// The tiled neighbor of a window within its workspace: the previous or
/// next entry of the tiled subsequence, with no wrap-around — the first
/// window has no left neighbor, the last no right neighbor.
pub open spec fn tiled_neighbor(wm: WindowManager, window_id: Id, direction: Direction) -> Option<
    Id,
> {
    if !wm.has_window(window_id) {
        None
    } else {
        let ws = ws_at(wm.workspaces@, win_at(wm.windows@, window_id).workspace);
        let t = tiled_filter(wm.windows@, ws.windows@);
        if !t.contains(window_id) {
            None
        } else {
            let k = pos_of(t, window_id);
            match direction {
                Direction::Left => if k >= 1 {
                    Some(t[k - 1])
                } else {
                    None
                },
                Direction::Right => if k + 1 < t.len() {
                    Some(t[k + 1])
                } else {
                    None
                },
            }
        }
    }
}

/// The tiled neighbor of `window_id` in the direction of travel, if any.
pub fn get_tiled_window(wm: &WindowManager, window_id: Id, direction: Direction) -> (r: Option<
    Id,
>)
    requires
        wm.wf(),
    ensures
        r == tiled_neighbor(*wm, window_id, direction),
{
    let wi = match wm.window_index(window_id) {
        Some(i) => i,
        None => {
            return None;
        },
    };
    proof {
        wm.lemma_window_at(wi as int);
    }
    let workspace_id = wm.windows[wi].workspace;
    let wsi = match wm.workspace_index(workspace_id) {
        Some(i) => i,
        None => {
            proof {
                assert(false);
            }
            return None;
        },
    };
    proof {
        wm.lemma_workspace_at(wsi as int);
    }
    let ghost ws = ws_at(wm.workspaces@, workspace_id);
    let ghost t = tiled_filter(wm.windows@, ws.windows@);
    let tiled = wm.workspaces[wsi].get_tiled_windows(wm);
    let tiled_len = tiled.len();
    let t_index = match wm.workspaces[wsi].get_tiled_window_index(wm, window_id) {
        Some(i) => i,
        None => {
            proof {
                if t.contains(window_id) {
                    let k = pos_of(t, window_id);
                    assert(t[k] == window_id);
                }
            }
            return None;
        },
    };
    proof {
        assert(t.contains(window_id)) by {
            assert(t[t_index as int] == window_id);
        }
        // The found first index is the unique position.
        lemma_tiled_filter_props(wm.windows@, ws.windows@);
        assert(ws.windows@.no_duplicates()) by {
            assert forall|p: int, q: int|
                0 <= p < q < ws.windows@.len() implies ws.windows@[p] != ws.windows@[q] by {
                assert(wm.workspaces@[wsi as int].windows@[p] != wm.workspaces@[wsi as int]
                    .windows@[q]);
            }
        }
        assert(t.no_duplicates());
        let k = pos_of(t, window_id);
        assert(t[k] == window_id);
        if k != t_index as int {
            assert(t[t_index as int] == window_id);
        }
        assert(k == t_index as int);
    }
    match direction {
        Direction::Left => {
            if t_index >= 1 {
                Some(tiled[t_index - 1])
            } else {
                None
            }
        },
        Direction::Right => {
            if t_index + 1 < tiled_len {
                Some(tiled[t_index + 1])
            } else {
                None
            }
        },
    }
}

/// What focusing a window does: it becomes the globally focused window
/// and a focus request is queued.
pub open spec fn focus_rel(pre: WindowManager, post: WindowManager, id: Id) -> bool {
    &&& post.pending@ == pre.pending@.push(Request::Focus { window: id })
    &&& post == (WindowManager {
        active_window: Some(id),
        pending: post.pending,
        ..pre
    })
}

/// The tiled windows of the active workspace, in tiling order.
pub open spec fn active_tiled(pre: WindowManager) -> Seq<Id> {
    tiled_filter(pre.windows@, ws_at(pre.workspaces@, pre.active_workspace).windows@)
}

/// Focuses the first tiled window of the active workspace, if there is
/// one; otherwise nothing happens.
pub fn naviate_first(wm: &mut WindowManager)
    requires
        old(wm).wf(),
    ensures
        final(wm).wf(),
        active_tiled(*old(wm)).len() > 0 ==> focus_rel(
            *old(wm),
            *final(wm),
            active_tiled(*old(wm))[0],
        ),
        active_tiled(*old(wm)).len() == 0 ==> *final(wm) == *old(wm),
{
    let ghost pre = *wm;
    let wsi = match wm.workspace_index(wm.active_workspace) {
        Some(i) => i,
        None => {
            proof {
                assert(false);
            }
            return ;
        },
    };
    proof {
        wm.lemma_workspace_at(wsi as int);
    }
    let tiled = wm.workspaces[wsi].get_tiled_windows(wm);
    if tiled.len() > 0 {
        let first = tiled[0];
        proof {
            lemma_tiled_filter_props(pre.windows@, pre.workspaces@[wsi as int].windows@);
            assert(win_has(pre.windows@, first));
        }
        match wm.focus_window(first) {
            Ok(()) => {},
            Err(_) => {
                proof {
                    assert(false);
                }
            },
        }
    }
}

/// Focuses the last tiled window of the active workspace, if there is
/// one; otherwise nothing happens.
pub fn naviate_last(wm: &mut WindowManager)
    requires
        old(wm).wf(),
    ensures
        final(wm).wf(),
        active_tiled(*old(wm)).len() > 0 ==> focus_rel(
            *old(wm),
            *final(wm),
            active_tiled(*old(wm)).last(),
        ),
        active_tiled(*old(wm)).len() == 0 ==> *final(wm) == *old(wm),
{
    let ghost pre = *wm;
    let wsi = match wm.workspace_index(wm.active_workspace) {
        Some(i) => i,
        None => {
            proof {
                assert(false);
            }
            return ;
        },
    };
    proof {
        wm.lemma_workspace_at(wsi as int);
    }
    let tiled = wm.workspaces[wsi].get_tiled_windows(wm);
    if tiled.len() > 0 {
        let last = tiled[tiled.len() - 1];
        proof {
            lemma_tiled_filter_props(pre.windows@, pre.workspaces@[wsi as int].windows@);
            assert(win_has(pre.windows@, last));
        }
        match wm.focus_window(last) {
            Ok(()) => {},
            Err(_) => {
                proof {
                    assert(false);
                }
            },
        }
    }
}

/// Whether `a` comes before `b` in the monitor ordering: by left edge,
/// with ties broken by id (the stable order monitors are stored in).
pub open spec fn mon_before(a: Monitor, b: Monitor) -> bool {
    a.extents.x < b.extents.x || (a.extents.x == b.extents.x && a.id < b.id)
}

/// Whether `m` is the next monitor after `cur` in the ordering: past
/// `cur`, with no other monitor strictly between.
pub open spec fn is_right_neighbor_monitor(ms: Seq<Monitor>, cur: Monitor, m: Monitor) -> bool {
    &&& ms.contains(m)
    &&& mon_before(cur, m)
    &&& forall|j: int|
        0 <= j < ms.len() && mon_before(cur, #[trigger] ms[j]) ==> !mon_before(ms[j], m)
}

/// Whether `m` is the monitor before `cur` in the ordering.
pub open spec fn is_left_neighbor_monitor(ms: Seq<Monitor>, cur: Monitor, m: Monitor) -> bool {
    &&& ms.contains(m)
    &&& mon_before(m, cur)
    &&& forall|j: int|
        0 <= j < ms.len() && mon_before(#[trigger] ms[j], cur) ==> !mon_before(m, ms[j])
}

/// Whether some monitor lies in the direction of travel from `cur`.
pub open spec fn has_neighbor_monitor(ms: Seq<Monitor>, cur: Monitor, direction: Direction) -> bool {
    match direction {
        Direction::Left => exists|j: int| 0 <= j < ms.len() && mon_before(#[trigger] ms[j], cur),
        Direction::Right => exists|j: int| 0 <= j < ms.len() && mon_before(cur, #[trigger] ms[j]),
    }
}

/// Whether `m` is the neighbor of `cur` in the direction of travel.
pub open spec fn is_neighbor_monitor(
    ms: Seq<Monitor>,
    cur: Monitor,
    m: Monitor,
    direction: Direction,
) -> bool {
    match direction {
        Direction::Left => is_left_neighbor_monitor(ms, cur, m),
        Direction::Right => is_right_neighbor_monitor(ms, cur, m),
    }
}

/// Index of the monitor one step from the one at `cur_idx`, in the order
/// of monitors by left edge.
fn neighbor_monitor_index(wm: &WindowManager, cur_idx: usize, direction: Direction) -> (r: Option<
    usize,
>)
    requires
        cur_idx < wm.monitors@.len(),
    ensures
        ({
            let cur = wm.monitors@[cur_idx as int];
            match r {
                Some(i) => i < wm.monitors@.len() && is_neighbor_monitor(
                    wm.monitors@,
                    cur,
                    wm.monitors@[i as int],
                    direction,
                ),
                None => !has_neighbor_monitor(wm.monitors@, cur, direction),
            }
        }),
{
    let ghost cur_g = wm.monitors@[cur_idx as int];
    let cx = wm.monitors[cur_idx].extents.x;
    let cid = wm.monitors[cur_idx].id;
    let mut best: Option<usize> = None;
    let mut j: usize = 0;
    let n = wm.monitors.len();
    while j < n
        invariant
            j <= n,
            n == wm.monitors@.len(),
            cur_idx < wm.monitors@.len(),
            cur_g == wm.monitors@[cur_idx as int],
            cx == cur_g.extents.x,
            cid == cur_g.id,
            (match best {
                Some(b) => {
                    &&& b < j
                    &&& (match direction {
                        Direction::Left => mon_before(wm.monitors@[b as int], cur_g),
                        Direction::Right => mon_before(cur_g, wm.monitors@[b as int]),
                    })
                    &&& forall|k: int|
                        0 <= k < j ==> (match direction {
                            Direction::Left => mon_before(#[trigger] wm.monitors@[k], cur_g)
                                ==> !mon_before(wm.monitors@[b as int], wm.monitors@[k]),
                            Direction::Right => mon_before(cur_g, #[trigger] wm.monitors@[k])
                                ==> !mon_before(wm.monitors@[k], wm.monitors@[b as int]),
                        })
                },
                None => forall|k: int|
                    0 <= k < j ==> (match direction {
                        Direction::Left => !mon_before(#[trigger] wm.monitors@[k], cur_g),
                        Direction::Right => !mon_before(cur_g, #[trigger] wm.monitors@[k]),
                    }),
            }),
        decreases n - j,
    {
        let mx = wm.monitors[j].extents.x;
        let mid = wm.monitors[j].id;
        let candidate: bool = match direction {
            Direction::Left => mx < cx || (mx == cx && mid < cid),
            Direction::Right => cx < mx || (cx == mx && cid < mid),
        };
        if candidate {
            let replace: bool = match best {
                Some(b) => {
                    let bx = wm.monitors[b].extents.x;
                    let bid = wm.monitors[b].id;
                    match direction {
                        Direction::Left => bx < mx || (bx == mx && bid < mid),
                        Direction::Right => mx < bx || (mx == bx && mid < bid),
                    }
                },
                None => true,
            };
            if replace {
                best = Some(j);
            }
        }
        j = j + 1;
    }
    best
}

/// What moving to another monitor does: the neighbor monitor's workspace
/// becomes the active one (also for new windows), and a window of it is
/// focused according to the activation policy — its previously active
/// window (falling back to its last window), or the window at the edge
/// facing the arrival direction. On no monitor, or with no neighbor,
/// nothing changes.
pub open spec fn navigate_monitor_rel(
    pre: WindowManager,
    post: WindowManager,
    direction: Direction,
    activation: Activation,
) -> bool {
    let aws = ws_at(pre.workspaces@, pre.active_workspace);
    match aws.on_monitor {
        None => post == pre,
        Some(cm) => {
            let cur = mon_at(pre.monitors@, cm);
            if !has_neighbor_monitor(pre.monitors@, cur, direction) {
                post == pre
            } else {
                exists|m: Monitor|
                    #![trigger is_neighbor_monitor(pre.monitors@, cur, m, direction)]
                    {
                        &&& is_neighbor_monitor(pre.monitors@, cur, m, direction)
                        &&& {
                            let tws = ws_at(pre.workspaces@, m.workspace);
                            let sel = match activation {
                                Activation::LastActive => if tws.active_window is Some {
                                    tws.active_window
                                } else if tws.windows@.len() > 0 {
                                    Some(tws.windows@.last())
                                } else {
                                    None
                                },
                                Activation::FromDirection => match direction {
                                    Direction::Left => if tws.windows@.len() > 0 {
                                        Some(tws.windows@.last())
                                    } else {
                                        None
                                    },
                                    Direction::Right => if tws.windows@.len() > 0 {
                                        Some(tws.windows@[0])
                                    } else {
                                        None
                                    },
                                },
                            };
                            match sel {
                                Some(w) => {
                                    &&& post.pending@ == pre.pending@.push(
                                        Request::Focus { window: w },
                                    )
                                    &&& post == (WindowManager {
                                        active_workspace: m.workspace,
                                        new_window_workspace: m.workspace,
                                        active_window: Some(w),
                                        pending: post.pending,
                                        ..pre
                                    })
                                },
                                None => post == (WindowManager {
                                    active_workspace: m.workspace,
                                    new_window_workspace: m.workspace,
                                    ..pre
                                }),
                            }
                        }
                    }
            }
        },
    }
}

/// Moves focus to the monitor one step in the direction of travel, if the
/// active workspace is on a monitor and such a neighbor exists.
pub fn naviate_monitor(wm: &mut WindowManager, direction: Direction, activation: Activation)
    requires
        old(wm).wf(),
    ensures
        final(wm).wf(),
        navigate_monitor_rel(*old(wm), *final(wm), direction, activation),
{
    let ghost pre = *wm;
    let awsi = match wm.workspace_index(wm.active_workspace) {
        Some(i) => i,
        None => {
            proof {
                assert(false);
            }
            return ;
        },
    };
    proof {
        wm.lemma_workspace_at(awsi as int);
    }
    let current_monitor = match wm.workspaces[awsi].on_monitor {
        Some(m) => m,
        None => {
            return ;
        },
    };
    let cmi = match wm.monitor_index(current_monitor) {
        Some(i) => i,
        None => {
            proof {
                assert(false);
            }
            return ;
        },
    };
    proof {
        wm.lemma_monitor_at(cmi as int);
    }
    let ti = match neighbor_monitor_index(wm, cmi, direction) {
        Some(i) => i,
        None => {
            return ;
        },
    };
    let ghost target_mon = wm.monitors@[ti as int];
    let target_workspace = wm.monitors[ti].workspace;
    let twsi = match wm.workspace_index(target_workspace) {
        Some(i) => i,
        None => {
            proof {
                assert(false);
            }
            return ;
        },
    };
    proof {
        wm.lemma_workspace_at(twsi as int);
    }
    wm.active_workspace = target_workspace;
    wm.new_window_workspace = target_workspace;
    proof {
        let mid = *wm;
        assert(mid.wf()) by {
            assert(pre.has_workspace(target_workspace));
            match pre.active_window {
                Some(a) => {
                    assert(pre.has_window(a));
                },
                None => {},
            }
        }
    }
    let ghost tws = pre.workspaces@[twsi as int];
    let mut sel: Option<Id> = None;
    let tlen = wm.workspaces[twsi].windows.len();
    match activation {
        Activation::LastActive => {
            match wm.workspaces[twsi].active_window {
                Some(a) => {
                    sel = Some(a);
                    proof {
                        assert(tws.windows@.contains(a));
                    }
                },
                None => {
                    if tlen > 0 {
                        sel = Some(wm.workspaces[twsi].windows[tlen - 1]);
                        proof {
                            assert(tws.windows@.contains(tws.windows@[tlen - 1]));
                        }
                    }
                },
            }
        },
        Activation::FromDirection => {
            match direction {
                Direction::Left => {
                    if tlen > 0 {
                        sel = Some(wm.workspaces[twsi].windows[tlen - 1]);
                        proof {
                            assert(tws.windows@.contains(tws.windows@[tlen - 1]));
                        }
                    }
                },
                Direction::Right => {
                    if tlen > 0 {
                        sel = Some(wm.workspaces[twsi].windows[0]);
                        proof {
                            assert(tws.windows@.contains(tws.windows@[0]));
                        }
                    }
                },
            }
        },
    }
    match sel {
        Some(w) => {
            proof {
                assert(win_has(wm.windows@, w)) by {
                    assert(tws.windows@.contains(w));
                    let k = choose|k: int| 0 <= k < tws.windows@.len() && tws.windows@[k] == w;
                    assert(pre.has_window(pre.workspaces@[twsi as int].windows@[k]));
                }
            }
            match wm.focus_window(w) {
                Ok(()) => {},
                Err(_) => {
                    proof {
                        assert(false);
                    }
                },
            }
        },
        None => {},
    }
    proof {
        assert(is_neighbor_monitor(pre.monitors@, mon_at(pre.monitors@, current_monitor), target_mon, direction));
        assert(navigate_monitor_rel(pre, *wm, direction, activation));
    }
}

/// What focus navigation does: a focused tiled window hands focus to its
/// tiled neighbor, or, at the strip's edge, to the neighboring monitor
/// facing the direction of travel; with nothing focused, the first (going
/// left) or last (going right) tiled window of the active workspace takes
/// focus. A focused non-tiled window leaves everything unchanged.
pub open spec fn naviate_rel(pre: WindowManager, post: WindowManager, direction: Direction) -> bool {
    match pre.active_window {
        Some(aw) => {
            if win_at(pre.windows@, aw).spec_is_tiled() {
                match tiled_neighbor(pre, aw, direction) {
                    Some(n) => focus_rel(pre, post, n),
                    None => navigate_monitor_rel(pre, post, direction, Activation::FromDirection),
                }
            } else {
                post == pre
            }
        },
        None => match direction {
            Direction::Left => if active_tiled(pre).len() > 0 {
                focus_rel(pre, post, active_tiled(pre)[0])
            } else {
                post == pre
            },
            Direction::Right => if active_tiled(pre).len() > 0 {
                focus_rel(pre, post, active_tiled(pre).last())
            } else {
                post == pre
            },
        },
    }
}

/// Moves focus one tiled window in the direction of travel, falling back
/// to monitor navigation at the edge of the strip.
pub fn naviate(wm: &mut WindowManager, direction: Direction)
    requires
        old(wm).wf(),
    ensures
        final(wm).wf(),
        naviate_rel(*old(wm), *final(wm), direction),
{
    let ghost pre = *wm;
    match wm.active_window {
        Some(active_window) => {
            let wi = match wm.window_index(active_window) {
                Some(i) => i,
                None => {
                    proof {
                        assert(false);
                    }
                    return ;
                },
            };
            proof {
                wm.lemma_window_at(wi as int);
            }
            if wm.windows[wi].is_tiled() {
                match get_tiled_window(wm, active_window, direction) {
                    Some(other_window) => {
                        proof {
                            // The neighbor is a member of the tiled
                            // subsequence, so it is a stored window.
                            let ws = ws_at(
                                pre.workspaces@,
                                win_at(pre.windows@, active_window).workspace,
                            );
                            let t = tiled_filter(pre.windows@, ws.windows@);
                            lemma_tiled_filter_props(pre.windows@, ws.windows@);
                            let k = pos_of(t, active_window);
                            assert(win_has(pre.windows@, other_window)) by {
                                match direction {
                                    Direction::Left => {
                                        assert(other_window == t[k - 1]);
                                    },
                                    Direction::Right => {
                                        assert(other_window == t[k + 1]);
                                    },
                                }
                            }
                        }
                        match wm.focus_window(other_window) {
                            Ok(()) => {},
                            Err(_) => {
                                proof {
                                    assert(false);
                                }
                            },
                        }
                    },
                    None => {
                        naviate_monitor(wm, direction, Activation::FromDirection);
                    },
                }
            }
        },
        None => {
            match direction {
                Direction::Left => naviate_first(wm),
                Direction::Right => naviate_last(wm),
            }
        },
    }
}

/// What one workspace's list looks like after two of its members swap
/// places, nothing else changing.
pub open spec fn swap_rel(pre: WindowManager, mid: WindowManager, ws_id: Id, a: Id, b: Id) -> bool {
    let wsi = ws_idx(pre.workspaces@, ws_id);
    let ws = ws_at(pre.workspaces@, ws_id);
    &&& mid.workspaces@.len() == pre.workspaces@.len()
    &&& forall|k: int|
        0 <= k < pre.workspaces@.len() && k != wsi ==> mid.workspaces@[k] == pre.workspaces@[k]
    &&& exists|ia: int, ib: int|
        {
            &&& 0 <= ia < ws.windows@.len()
            &&& 0 <= ib < ws.windows@.len()
            &&& ws.windows@[ia] == a
            &&& ws.windows@[ib] == b
            &&& mid.workspaces@[wsi].windows@ == ws.windows@.update(ia, b).update(ib, a)
        }
    &&& mid.workspaces@[wsi].id == ws.id
    &&& mid.workspaces@[wsi].on_monitor == ws.on_monitor
    &&& mid.workspaces@[wsi].scroll_left == ws.scroll_left
    &&& mid.workspaces@[wsi].active_window == ws.active_window
    &&& mid == (WindowManager { workspaces: mid.workspaces, ..pre })
}

/// What moving the focused window does: a focused tiled window swaps
/// places with its tiled neighbor and the workspace is re-arranged; at
/// the strip's edge it moves to the neighboring monitor instead. With no
/// focus, or a non-tiled focus, nothing changes.
pub open spec fn move_window_rel(pre: WindowManager, post: WindowManager, direction: Direction) -> bool {
    match pre.active_window {
        Some(aw) => {
            if win_at(pre.windows@, aw).spec_is_tiled() {
                match tiled_neighbor(pre, aw, direction) {
                    Some(n) => exists|mid: WindowManager|
                        {
                            &&& #[trigger] swap_rel(
                                pre,
                                mid,
                                win_at(pre.windows@, aw).workspace,
                                aw,
                                n,
                            )
                            &&& arrange_rel(mid, post, pre.active_workspace)
                        },
                    None => move_window_monitor_rel(pre, post, direction, Activation::FromDirection),
                }
            } else {
                post == pre
            }
        },
        None => post == pre,
    }
}

/// Where a window entering a workspace is placed: after the workspace's
/// active window under `LastActive` (or at the end), or at the edge
/// facing the direction of arrival under `FromDirection`.
pub open spec fn insert_pos(tws: Workspace, direction: Direction, activation: Activation) -> int {
    match activation {
        Activation::LastActive => match tws.active_window {
            Some(a) => if tws.windows@.contains(a) {
                pos_of(tws.windows@, a) + 1
            } else {
                tws.windows@.len() as int
            },
            None => tws.windows@.len() as int,
        },
        Activation::FromDirection => match direction {
            Direction::Left => tws.windows@.len() as int,
            Direction::Right => 0,
        },
    }
}

/// What moving the focused window to the neighboring monitor does: the
/// window leaves its workspace (with the usual focus successor), joins
/// the neighbor monitor's workspace at the placement the activation
/// policy picks, that workspace becomes active, and both workspaces are
/// re-arranged. Without a focused tiled window on a monitor with a
/// neighbor — or with the window detached from its workspace's list —
/// nothing changes.
pub open spec fn move_window_monitor_rel(
    pre: WindowManager,
    post: WindowManager,
    direction: Direction,
    activation: Activation,
) -> bool {
    match pre.active_window {
        None => post == pre,
        Some(aw) => {
            let fws_id = win_at(pre.windows@, aw).workspace;
            let fws = ws_at(pre.workspaces@, fws_id);
            if !win_at(pre.windows@, aw).spec_is_tiled() {
                post == pre
            } else {
                match fws.on_monitor {
                    None => post == pre,
                    Some(cm) => {
                        let cur = mon_at(pre.monitors@, cm);
                        if !has_neighbor_monitor(pre.monitors@, cur, direction) {
                            post == pre
                        } else if !fws.windows@.contains(aw) {
                            post == pre
                        } else {
                            exists|m: Monitor|
                                #![trigger is_neighbor_monitor(pre.monitors@, cur, m, direction)]
                                {
                                    &&& is_neighbor_monitor(pre.monitors@, cur, m, direction)
                                    &&& move_to_workspace_rel(
                                        pre,
                                        post,
                                        aw,
                                        m.workspace,
                                        direction,
                                        activation,
                                    )
                                }
                        }
                    },
                }
            }
        },
    }
}

/// The window `aw` leaves its workspace, joins workspace `tws_id` at the
/// policy's placement, `tws_id` becomes the active (and new-window)
/// workspace, and both workspaces are re-arranged, destination first.
pub open spec fn move_to_workspace_rel(
    pre: WindowManager,
    post: WindowManager,
    aw: Id,
    tws_id: Id,
    direction: Direction,
    activation: Activation,
) -> bool {
    exists|mid2: WindowManager, mid3: WindowManager|
        #![trigger detach_insert_rel(pre, mid2, aw, tws_id, direction, activation), arrange_rel(mid3, post, win_at(pre.windows@, aw).workspace)]
        {
            &&& detach_insert_rel(pre, mid2, aw, tws_id, direction, activation)
            &&& arrange_rel(mid2, mid3, tws_id)
            &&& arrange_rel(mid3, post, win_at(pre.windows@, aw).workspace)
        }
}

/// The state after the window changed workspaces, before re-arrangement:
/// it left its old workspace with the usual focus successor, its
/// back-reference moved, it entered the destination's list at the
/// policy's placement, and the destination became the active (and
/// new-window) workspace.
pub open spec fn detach_insert_rel(
    pre: WindowManager,
    mid2: WindowManager,
    aw: Id,
    tws_id: Id,
    direction: Direction,
    activation: Activation,
) -> bool {
    exists|mid1: WindowManager|
        #![trigger WindowManager::remove_window_rel(pre, mid1, aw)]
        {
            &&& WindowManager::remove_window_rel(pre, mid1, aw)
            &&& {
                let tws = ws_at(mid1.workspaces@, tws_id);
                let twsi = ws_idx(mid1.workspaces@, tws_id);
                let awi = win_idx(mid1.windows@, aw);
                let pos = insert_pos(tws, direction, activation);
                &&& mid2.windows@ == mid1.windows@.update(
                    awi,
                    Window { workspace: tws_id, ..win_at(mid1.windows@, aw) },
                )
                &&& mid2.workspaces@.len() == mid1.workspaces@.len()
                &&& forall|k: int|
                    0 <= k < mid1.workspaces@.len() && k != twsi ==> mid2.workspaces@[k]
                        == mid1.workspaces@[k]
                &&& mid2.workspaces@[twsi].id == tws.id
                &&& mid2.workspaces@[twsi].on_monitor == tws.on_monitor
                &&& mid2.workspaces@[twsi].scroll_left == tws.scroll_left
                &&& mid2.workspaces@[twsi].active_window == tws.active_window
                &&& mid2.workspaces@[twsi].windows@ == tws.windows@.insert(pos, aw)
                &&& mid2.active_workspace == tws_id
                &&& mid2.new_window_workspace == tws_id
                &&& mid2.active_window == mid1.active_window
                &&& mid2.monitors@ == mid1.monitors@
                &&& mid2.pending@ == mid1.pending@
                &&& mid2.gesture == mid1.gesture
                &&& mid2.old_cursor == mid1.old_cursor
                &&& mid2.monitor_id_generator == mid1.monitor_id_generator
                &&& mid2.window_id_generator == mid1.window_id_generator
                &&& mid2.workspace_id_generator == mid1.workspace_id_generator
            }
        }
}

/// Orders two monitors by their left edge, as monitor navigation does.
pub fn monitor_x_position(a: &&Monitor, b: &&Monitor) -> (r: core::cmp::Ordering)
    ensures
        (r == core::cmp::Ordering::Less) == (a.extents.x < b.extents.x),
        (r == core::cmp::Ordering::Equal) == (a.extents.x == b.extents.x),
        (r == core::cmp::Ordering::Greater) == (a.extents.x > b.extents.x),
{
    if a.extents.x < b.extents.x {
        core::cmp::Ordering::Less
    } else if a.extents.x == b.extents.x {
        core::cmp::Ordering::Equal
    } else {
        core::cmp::Ordering::Greater
    }
}

/// Swaps the focused tiled window with its tiled neighbor and re-arranges
/// the active workspace; at the strip's edge the window moves to the
/// neighboring monitor instead.
#[verifier::rlimit(100)]
pub fn move_window(wm: &mut WindowManager, direction: Direction)
    requires
        old(wm).wf(),
    ensures
        final(wm).wf(),
        move_window_rel(*old(wm), *final(wm), direction),
{
    let ghost pre = *wm;
    let active_window = match wm.active_window {
        Some(a) => a,
        None => {
            return ;
        },
    };
    let wi = match wm.window_index(active_window) {
        Some(i) => i,
        None => {
            proof {
                assert(false);
            }
            return ;
        },
    };
    proof {
        wm.lemma_window_at(wi as int);
    }
    if !wm.windows[wi].is_tiled() {
        return ;
    }
    match get_tiled_window(wm, active_window, direction) {
        Some(other_window) => {
            let workspace_id = wm.windows[wi].workspace;
            let wsi = match wm.workspace_index(workspace_id) {
                Some(i) => i,
                None => {
                    proof {
                        assert(false);
                    }
                    return ;
                },
            };
            proof {
                wm.lemma_workspace_at(wsi as int);
            }
            let ghost ws = ws_at(pre.workspaces@, workspace_id);
            let ghost t = tiled_filter(pre.windows@, ws.windows@);
            proof {
                lemma_tiled_filter_props(pre.windows@, ws.windows@);
                let k = pos_of(t, active_window);
                assert(t.contains(active_window));
                assert(t[k] == active_window);
                match direction {
                    Direction::Left => {
                        assert(other_window == t[k - 1]);
                        assert(t.contains(t[k - 1]));
                    },
                    Direction::Right => {
                        assert(other_window == t[k + 1]);
                        assert(t.contains(t[k + 1]));
                    },
                }
                assert(ws.windows@.contains(active_window));
                assert(ws.windows@.contains(other_window));
                // Neighboring tiled entries are distinct windows.
                assert(ws.windows@.no_duplicates()) by {
                    assert forall|p: int, q: int|
                        0 <= p < q < ws.windows@.len() implies ws.windows@[p] != ws.windows@[q]
                        by {
                        assert(pre.workspaces@[wsi as int].windows@[p] != pre.workspaces@[
                            wsi as int].windows@[q]);
                    }
                }
                assert(t.no_duplicates());
                assert(active_window != other_window);
            }
            let ws_ref = &mut wm.workspaces[wsi];
            ws_ref.swap_windows(active_window, other_window);
            proof {
                let mid = *wm;
                lemma_swap_wf(pre, mid, wsi as int, workspace_id, active_window, other_window);
                assert(swap_rel(pre, mid, workspace_id, active_window, other_window));
            }
            arrange_windows(wm);
        },
        None => {
            move_window_monitor(wm, direction, Activation::FromDirection);
        },
    }
}

/// Moves the focused tiled window to the monitor one step in the
/// direction of travel: it leaves its workspace with the usual focus
/// successor, joins the neighbor monitor's workspace at the placement the
/// activation policy picks, that workspace becomes active, and both
/// workspaces are re-arranged.
#[verifier::rlimit(100)]
pub fn move_window_monitor(wm: &mut WindowManager, direction: Direction, activation: Activation)
    requires
        old(wm).wf(),
    ensures
        final(wm).wf(),
        move_window_monitor_rel(*old(wm), *final(wm), direction, activation),
{
    let ghost pre = *wm;
    let active_window = match wm.active_window {
        Some(a) => a,
        None => {
            return ;
        },
    };
    let wi = match wm.window_index(active_window) {
        Some(i) => i,
        None => {
            proof {
                assert(false);
            }
            return ;
        },
    };
    proof {
        wm.lemma_window_at(wi as int);
    }
    if !wm.windows[wi].is_tiled() {
        return ;
    }
    let from_workspace_id = wm.windows[wi].workspace;
    let fwsi = match wm.workspace_index(from_workspace_id) {
        Some(i) => i,
        None => {
            proof {
                assert(false);
            }
            return ;
        },
    };
    proof {
        wm.lemma_workspace_at(fwsi as int);
    }
    let current_monitor = match wm.workspaces[fwsi].on_monitor {
        Some(m) => m,
        None => {
            return ;
        },
    };
    let cmi = match wm.monitor_index(current_monitor) {
        Some(i) => i,
        None => {
            proof {
                assert(false);
            }
            return ;
        },
    };
    proof {
        wm.lemma_monitor_at(cmi as int);
    }
    let ti = match neighbor_monitor_index(wm, cmi, direction) {
        Some(i) => i,
        None => {
            return ;
        },
    };
    let ghost target_mon = wm.monitors@[ti as int];
    let to_workspace_id = wm.monitors[ti].workspace;
    match wm.workspaces[fwsi].get_window_index(active_window) {
        Some(found) => {
            proof {
                assert(pre.workspaces@[fwsi as int].windows@[found as int] == active_window);
                assert(ws_at(pre.workspaces@, from_workspace_id).windows@.contains(
                    active_window,
                ));
            }
        },
        None => {
            proof {
                if ws_at(pre.workspaces@, from_workspace_id).windows@.contains(active_window) {
                    let j = pos_of(
                        ws_at(pre.workspaces@, from_workspace_id).windows@,
                        active_window,
                    );
                    assert(pre.workspaces@[fwsi as int].windows@[j] == active_window);
                }
            }
            return ;
        },
    }
    // The two workspaces are distinct: each monitor shows its own.
    proof {
        wm.lemma_monitor_at(ti as int);
        assert(to_workspace_id != from_workspace_id) by {
            assert(pre.workspace_at(target_mon.workspace).on_monitor == Some(target_mon.id)) by {
                assert(pre.monitors@.contains(target_mon));
                let tj = choose|tj: int|
                    0 <= tj < pre.monitors@.len() && pre.monitors@[tj] == target_mon;
                assert(pre.has_workspace(pre.monitors@[tj].workspace));
            }
            let cur = mon_at(pre.monitors@, current_monitor);
            assert(mon_before(cur, target_mon) || mon_before(target_mon, cur));
            if to_workspace_id == from_workspace_id {
                assert(Some(target_mon.id) == Some(current_monitor));
                assert(target_mon == cur);
            }
        }
    }
    // Hand the actual move to the worker.
    move_window_between(wm, active_window, to_workspace_id, direction, activation);
    proof {
        assert(is_neighbor_monitor(
            pre.monitors@,
            mon_at(pre.monitors@, current_monitor),
            target_mon,
            direction,
        ));
    }
}

/// Moves `active_window` from its workspace into `to_workspace_id` at the
/// placement the activation policy picks, makes that workspace active,
/// and re-arranges both workspaces.
#[verifier::rlimit(100)]
fn detach_and_insert(
    wm: &mut WindowManager,
    active_window: Id,
    to_workspace_id: Id,
    direction: Direction,
    activation: Activation,
)
    requires
        old(wm).wf(),
        old(wm).has_window(active_window),
        ws_at(
            old(wm).workspaces@,
            win_at(old(wm).windows@, active_window).workspace,
        ).windows@.contains(active_window),
        old(wm).has_workspace(to_workspace_id),
        to_workspace_id != win_at(old(wm).windows@, active_window).workspace,
    ensures
        final(wm).wf(),
        detach_insert_rel(
            *old(wm),
            *final(wm),
            active_window,
            to_workspace_id,
            direction,
            activation,
        ),
        final(wm).active_workspace == to_workspace_id,
        forall|id: Id| final(wm).has_workspace(id) == old(wm).has_workspace(id),
{
    let ghost pre = *wm;
    let wi = match wm.window_index(active_window) {
        Some(i) => i,
        None => {
            proof {
                assert(false);
            }
            return ;
        },
    };
    proof {
        wm.lemma_window_at(wi as int);
    }
    let from_workspace_id = wm.windows[wi].workspace;
    // Detach from the source workspace, with the usual focus successor.
    match wm.remove_window_from_workspace(active_window) {
        Ok(()) => {},
        Err(_) => {
            proof {
                assert(false);
            }
            return ;
        },
    }
    let ghost mid1 = *wm;
    // Point the window at its new workspace.
    let wi2 = match wm.window_index(active_window) {
        Some(i) => i,
        None => {
            proof {
                assert(false);
            }
            return ;
        },
    };
    proof {
        wm.lemma_window_at(wi2 as int);
    }
    {
        let w = &mut wm.windows[wi2];
        w.workspace = to_workspace_id;
    }
    proof {
        let midb = *wm;
        assert(midb.windows@ == mid1.windows@.update(
            wi2 as int,
            Window { workspace: to_workspace_id, ..mid1.windows@[wi2 as int] },
        ));
        assert(mid1.has_workspace(to_workspace_id)) by {
            let tw = ws_idx(pre.workspaces@, to_workspace_id);
            pre.lemma_workspace_at(tw);
            assert(mid1.workspaces@[tw].id == to_workspace_id);
        }
        lemma_move_backref_wf(
            pre,
            mid1,
            midb,
            active_window,
            from_workspace_id,
            to_workspace_id,
            wi2 as int,
        );
    }
    let twsi = match wm.workspace_index(to_workspace_id) {
        Some(i) => i,
        None => {
            proof {
                assert(false);
            }
            return ;
        },
    };
    proof {
        wm.lemma_workspace_at(twsi as int);
    }
    let ghost midb = *wm;
    // Pick the insertion index and insert.
    let tlen = wm.workspaces[twsi].windows.len();
    let pos = match activation {
        Activation::LastActive => {
            match wm.workspaces[twsi].active_window {
                Some(a) => {
                    match wm.workspaces[twsi].get_window_index(a) {
                        Some(i) => i + 1,
                        None => tlen,
                    }
                },
                None => tlen,
            }
        },
        Activation::FromDirection => {
            match direction {
                Direction::Left => tlen,
                Direction::Right => 0,
            }
        },
    };
    let ghost old_list = wm.workspaces@[twsi as int].windows@;
    {
        let ws_ref = &mut wm.workspaces[twsi];
        ws_ref.windows.insert(pos, active_window);
    }
    wm.active_workspace = to_workspace_id;
    wm.new_window_workspace = to_workspace_id;
    let ghost mid2 = *wm;
    proof {
        let updated = mid2.workspaces@[twsi as int];
        WindowManager::lemma_workspace_lookup_after_update(midb, mid2, twsi as int, updated);
        old_list.insert_ensures(pos as int, active_window);
        assert(updated.windows@ =~= old_list.insert(pos as int, active_window));
        // The chosen index matches the placement the policy describes.
        assert(old_list.no_duplicates()) by {
            assert forall|p: int, q: int|
                0 <= p < q < old_list.len() implies old_list[p] != old_list[q] by {
                assert(midb.workspaces@[twsi as int].windows@[p] != midb.workspaces@[twsi as int]
                    .windows@[q]);
            }
        }
        assert(pos as int == insert_pos(
            ws_at(mid1.workspaces@, to_workspace_id),
            direction,
            activation,
        )) by {
            assert(ws_at(mid1.workspaces@, to_workspace_id) == midb.workspaces@[twsi as int]);
            match activation {
                Activation::LastActive => {
                    match midb.workspaces@[twsi as int].active_window {
                        Some(a) => {
                            if old_list.contains(a) {
                                let p = pos_of(old_list, a);
                                assert(old_list[p] == a);
                                assert(old_list[pos as int - 1] == a);
                                if p != pos as int - 1 {
                                    assert(old_list[p] == old_list[pos as int - 1]);
                                }
                            }
                        },
                        None => {},
                    }
                },
                Activation::FromDirection => {},
            }
        }
        // The moved window sits in no workspace list any more, so
        // inserting it keeps the lists duplicate free; the insert lemma
        // rebuilds the invariant.
        lemma_move_insert_wf(midb, mid2, twsi as int, pos as int, active_window, to_workspace_id);
    }
    proof {
        let post = *wm;
        assert(WindowManager::remove_window_rel(pre, mid1, active_window));
        assert(detach_insert_rel(
            pre,
            post,
            active_window,
            to_workspace_id,
            direction,
            activation,
        ));
        assert forall|id: Id| post.has_workspace(id) == pre.has_workspace(id) by {
            if pre.has_workspace(id) {
                let i = ws_idx(pre.workspaces@, id);
                assert(pre.workspaces@[i].id == id);
                assert(mid1.workspaces@[i].id == id);
                assert(post.workspaces@[i].id == id);
            }
            if post.has_workspace(id) {
                let i = ws_idx(post.workspaces@, id);
                assert(post.workspaces@[i].id == id);
                assert(mid1.workspaces@[i].id == id);
                assert(pre.workspaces@[i].id == id);
            }
        }
    }
}

/// Moves `active_window` from its workspace into `to_workspace_id` at the
/// placement the activation policy picks, makes that workspace active,
/// and re-arranges both workspaces.
#[verifier::rlimit(100)]
fn move_window_between(
    wm: &mut WindowManager,
    active_window: Id,
    to_workspace_id: Id,
    direction: Direction,
    activation: Activation,
)
    requires
        old(wm).wf(),
        old(wm).has_window(active_window),
        ws_at(
            old(wm).workspaces@,
            win_at(old(wm).windows@, active_window).workspace,
        ).windows@.contains(active_window),
        old(wm).has_workspace(to_workspace_id),
        to_workspace_id != win_at(old(wm).windows@, active_window).workspace,
    ensures
        final(wm).wf(),
        move_to_workspace_rel(
            *old(wm),
            *final(wm),
            active_window,
            to_workspace_id,
            direction,
            activation,
        ),
{
    let ghost pre = *wm;
    let wi0 = match wm.window_index(active_window) {
        Some(i) => i,
        None => {
            proof {
                assert(false);
            }
            return ;
        },
    };
    proof {
        wm.lemma_window_at(wi0 as int);
    }
    let from_workspace_id = wm.windows[wi0].workspace;
    detach_and_insert(wm, active_window, to_workspace_id, direction, activation);
    let ghost mid2 = *wm;
    arrange_windows(wm);
    let ghost mid3 = *wm;
    proof {
        assert(pre.has_workspace(from_workspace_id)) by {
            let i = win_idx(pre.windows@, active_window);
            assert(pre.has_workspace(pre.windows@[i].workspace));
        }
        assert(mid3.has_workspace(from_workspace_id));
    }
    arrange_windows_workspace(wm, from_workspace_id);
    proof {
        let post = *wm;
        assert(detach_insert_rel(pre, mid2, active_window, to_workspace_id, direction, activation));
        assert(arrange_rel(mid2, mid3, to_workspace_id));
        assert(arrange_rel(mid3, post, from_workspace_id));
        assert(move_to_workspace_rel(pre, post, active_window, to_workspace_id, direction, activation));
    }
}

/// Two positions of a transposed duplicate-free list never hold the same
/// id.
pub proof fn lemma_swap_no_dup(orig: Seq<Id>, swapped: Seq<Id>, a: Id, b: Id, k: int, l: int)
    requires
        orig.no_duplicates(),
        exists|ia: int, ib: int|
            {
                &&& 0 <= ia < orig.len()
                &&& 0 <= ib < orig.len()
                &&& orig[ia] == a
                &&& orig[ib] == b
                &&& swapped =~= orig.update(ia, b).update(ib, a)
            },
        0 <= k < l < swapped.len(),
    ensures
        swapped[k] != swapped[l],
{
    let (ia, ib) = choose|ia: int, ib: int|
        {
            &&& 0 <= ia < orig.len()
            &&& 0 <= ib < orig.len()
            &&& orig[ia] == a
            &&& orig[ib] == b
            &&& swapped =~= orig.update(ia, b).update(ib, a)
        };
    let k0 = if k == ib {
        ia
    } else if k == ia {
        ib
    } else {
        k
    };
    let l0 = if l == ib {
        ia
    } else if l == ia {
        ib
    } else {
        l
    };
    assert(swapped[k] == orig[k0]);
    assert(swapped[l] == orig[l0]);
    if k0 == l0 {
        assert(k == l);
    }
}

/// After a window is detached from its workspace's list and its
/// back-reference is repointed at another existing workspace, the store
/// is still well formed and no workspace list mentions the window.
#[verifier::rlimit(100)]
pub proof fn lemma_move_backref_wf(
    pre: WindowManager,
    mid1: WindowManager,
    midb: WindowManager,
    aw: Id,
    from_ws: Id,
    to_ws: Id,
    wi2: int,
)
    requires
        pre.wf(),
        mid1.wf(),
        WindowManager::remove_window_rel(pre, mid1, aw),
        pre.has_window(aw),
        win_at(pre.windows@, aw).workspace == from_ws,
        ws_at(pre.workspaces@, from_ws).windows@.contains(aw),
        mid1.has_workspace(to_ws),
        0 <= wi2 < mid1.windows@.len(),
        mid1.windows@[wi2].id == aw,
        midb.windows@ == mid1.windows@.update(
            wi2,
            Window { workspace: to_ws, ..mid1.windows@[wi2] },
        ),
        midb == (WindowManager { windows: midb.windows, ..mid1 }),
    ensures
        midb.wf(),
        forall|i: int, k: int|
            0 <= i < midb.workspaces@.len() && 0 <= k < midb.workspaces@[i].windows@.len()
                ==> (#[trigger] midb.workspaces@[i].windows@[k]) != aw,
        midb.has_window(aw),
        win_at(midb.windows@, aw).workspace == to_ws,
{
    let updated_w = midb.windows@[wi2];
    WindowManager::lemma_window_lookup_after_update(mid1, midb, wi2, updated_w);
    assert(win_at(mid1.windows@, aw).workspace == from_ws) by {
        mid1.lemma_window_at(wi2);
        assert(mid1.windows@[wi2] == pre.windows@[win_idx(pre.windows@, aw)]) by {
            assert(mid1.windows@ == pre.windows@);
        }
    }
    // No workspace list still holds the moved id.
    assert forall|i: int, k: int|
        0 <= i < midb.workspaces@.len() && 0 <= k < midb.workspaces@[i].windows@.len() implies (
    #[trigger] midb.workspaces@[i].windows@[k]) != aw by {
        let e = midb.workspaces@[i].windows@[k];
        if e == aw {
            assert(mid1.window_at(e).workspace == mid1.workspaces@[i].id);
            assert(mid1.workspaces@[i].id == from_ws) by {
                mid1.lemma_window_at(wi2);
            }
            let wsiP = ws_idx(pre.workspaces@, from_ws);
            assert(mid1.workspaces@[wsiP].id == from_ws);
            assert(i == wsiP) by {
                if i < wsiP {
                    assert(mid1.workspaces@[i].id < mid1.workspaces@[wsiP].id);
                } else if i > wsiP {
                    assert(mid1.workspaces@[wsiP].id < mid1.workspaces@[i].id);
                }
            }
            let old_list = ws_at(pre.workspaces@, from_ws).windows@;
            let raw = pos_of(old_list, aw);
            assert(mid1.workspaces@[wsiP].windows@ == old_list.remove(raw));
            assert(old_list.no_duplicates()) by {
                assert forall|p: int, q: int|
                    0 <= p < q < old_list.len() implies old_list[p] != old_list[q] by {
                    assert(pre.workspaces@[wsiP].windows@[p] != pre.workspaces@[wsiP].windows@[
                        q]);
                }
            }
            old_list.remove_ensures(raw);
            assert(old_list[raw] == aw);
            let k0 = if k < raw {
                k
            } else {
                k + 1
            };
            assert(mid1.workspaces@[i].windows@[k] == old_list[k0]);
            assert(k0 != raw);
        }
    }
    assert(midb.wf_windows()) by {
        assert forall|i: int| 0 <= i < midb.windows@.len() implies (
        #[trigger] midb.windows@[i]).wf() && midb.has_workspace(midb.windows@[i].workspace) by {
            if i != wi2 {
                assert(midb.windows@[i] == mid1.windows@[i]);
            }
            assert(mid1.windows@[i].wf());
            assert(mid1.has_workspace(mid1.windows@[i].workspace));
        }
    }
    assert(midb.wf_workspaces()) by {
        assert forall|i: int, k: int|
            0 <= i < midb.workspaces@.len() && 0 <= k
                < midb.workspaces@[i].windows@.len() implies midb.has_window(
        #[trigger] midb.workspaces@[i].windows@[k]) && midb.window_at(
            midb.workspaces@[i].windows@[k],
        ).workspace == midb.workspaces@[i].id by {
            let e = midb.workspaces@[i].windows@[k];
            assert(mid1.has_window(e));
            assert(mid1.window_at(e).workspace == mid1.workspaces@[i].id);
            assert(e != aw);
        }
    }
    assert(midb.wf_monitors()) by {
        assert forall|i: int| 0 <= i < midb.monitors@.len() implies midb.has_workspace(
            (#[trigger] midb.monitors@[i]).workspace,
        ) && midb.workspace_at(midb.monitors@[i].workspace).on_monitor == Some(
            midb.monitors@[i].id,
        ) by {
            assert(mid1.has_workspace(mid1.monitors@[i].workspace));
            assert(mid1.workspace_at(mid1.monitors@[i].workspace).on_monitor == Some(
                mid1.monitors@[i].id,
            ));
        }
    }
    assert(midb.wf_active()) by {
        assert(mid1.has_window(aw));
        assert(mid1.has_workspace(mid1.active_workspace));
        assert(mid1.has_workspace(mid1.new_window_workspace));
    }
}

/// Inserting a window that sits in no workspace list into an existing
/// workspace, with its back-reference already pointing there, keeps the
/// store well formed.
#[verifier::rlimit(100)]
pub proof fn lemma_move_insert_wf(
    midb: WindowManager,
    mid2: WindowManager,
    twsi: int,
    pos: int,
    aw: Id,
    to_ws: Id,
)
    requires
        midb.wf(),
        forall|i: int, k: int|
            0 <= i < midb.workspaces@.len() && 0 <= k < midb.workspaces@[i].windows@.len()
                ==> (#[trigger] midb.workspaces@[i].windows@[k]) != aw,
        midb.has_window(aw),
        win_at(midb.windows@, aw).workspace == to_ws,
        0 <= twsi < midb.workspaces@.len(),
        midb.workspaces@[twsi].id == to_ws,
        0 <= pos <= midb.workspaces@[twsi].windows@.len(),
        mid2.workspaces@.len() == midb.workspaces@.len(),
        forall|k: int|
            0 <= k < midb.workspaces@.len() && k != twsi ==> mid2.workspaces@[k]
                == midb.workspaces@[k],
        mid2.workspaces@[twsi].id == to_ws,
        mid2.workspaces@[twsi].on_monitor == midb.workspaces@[twsi].on_monitor,
        mid2.workspaces@[twsi].scroll_left == midb.workspaces@[twsi].scroll_left,
        mid2.workspaces@[twsi].active_window == midb.workspaces@[twsi].active_window,
        mid2.workspaces@[twsi].windows@ == midb.workspaces@[twsi].windows@.insert(pos, aw),
        mid2 == (WindowManager {
            workspaces: mid2.workspaces,
            active_workspace: to_ws,
            new_window_workspace: to_ws,
            ..midb
        }),
    ensures
        mid2.wf(),
{
    let updated = mid2.workspaces@[twsi];
    let old_list = midb.workspaces@[twsi].windows@;
    assert(mid2.workspaces@ =~= midb.workspaces@.update(twsi, updated));
    WindowManager::lemma_workspace_lookup_after_update(midb, mid2, twsi, updated);
    old_list.insert_ensures(pos, aw);
    assert(mid2.wf_windows()) by {
        assert forall|i: int| 0 <= i < mid2.windows@.len() implies mid2.has_workspace(
            (#[trigger] mid2.windows@[i]).workspace,
        ) by {
            assert(midb.has_workspace(midb.windows@[i].workspace));
        }
    }
    assert(mid2.wf_workspaces()) by {
        assert forall|i: int, k: int|
            0 <= i < mid2.workspaces@.len() && 0 <= k
                < mid2.workspaces@[i].windows@.len() implies mid2.has_window(
        #[trigger] mid2.workspaces@[i].windows@[k]) && mid2.window_at(
            mid2.workspaces@[i].windows@[k],
        ).workspace == mid2.workspaces@[i].id by {
            if i != twsi {
                assert(mid2.workspaces@[i] == midb.workspaces@[i]);
                assert(midb.has_window(midb.workspaces@[i].windows@[k]));
                assert(midb.window_at(midb.workspaces@[i].windows@[k]).workspace
                    == midb.workspaces@[i].id);
            } else {
                let entry = updated.windows@[k];
                if k < pos {
                    assert(entry == old_list[k]);
                    assert(midb.has_window(entry));
                    assert(midb.window_at(entry).workspace == midb.workspaces@[twsi].id);
                } else if k == pos {
                    assert(entry == aw);
                    assert(midb.has_window(aw));
                    assert(midb.window_at(aw).workspace == to_ws);
                } else {
                    assert(entry == old_list[k - 1]);
                    assert(midb.has_window(entry));
                    assert(midb.window_at(entry).workspace == midb.workspaces@[twsi].id);
                }
            }
        }
        assert forall|i: int, k: int, l: int|
            0 <= i < mid2.workspaces@.len() && 0 <= k < l
                < mid2.workspaces@[i].windows@.len() implies (
        #[trigger] mid2.workspaces@[i].windows@[k]) != (
        #[trigger] mid2.workspaces@[i].windows@[l]) by {
            if i != twsi {
                assert(mid2.workspaces@[i] == midb.workspaces@[i]);
            } else {
                if k != pos && l != pos {
                    let k0 = if k < pos {
                        k
                    } else {
                        k - 1
                    };
                    let l0 = if l < pos {
                        l
                    } else {
                        l - 1
                    };
                    assert(updated.windows@[k] == old_list[k0]);
                    assert(updated.windows@[l] == old_list[l0]);
                    assert(k0 < l0);
                } else if k == pos {
                    assert(updated.windows@[k] == aw);
                    assert(updated.windows@[l] == old_list[l - 1]);
                } else {
                    assert(updated.windows@[l] == aw);
                    assert(updated.windows@[k] == old_list[k]);
                }
            }
        }
        assert forall|i: int|
            0 <= i < mid2.workspaces@.len() implies match (
        #[trigger] mid2.workspaces@[i]).active_window {
            Some(a) => mid2.workspaces@[i].windows@.contains(a),
            None => true,
        } by {
            if i != twsi {
                assert(mid2.workspaces@[i] == midb.workspaces@[i]);
            } else {
                match updated.active_window {
                    Some(a) => {
                        assert(old_list.contains(a));
                        let j = choose|j: int| 0 <= j < old_list.len() && old_list[j] == a;
                        if j < pos {
                            assert(updated.windows@[j] == a);
                        } else {
                            assert(updated.windows@[j + 1] == a);
                        }
                    },
                    None => {},
                }
            }
        }
    }
    assert(mid2.wf_monitors()) by {
        assert forall|i: int| 0 <= i < mid2.monitors@.len() implies mid2.has_workspace(
            (#[trigger] mid2.monitors@[i]).workspace,
        ) && mid2.workspace_at(mid2.monitors@[i].workspace).on_monitor == Some(
            mid2.monitors@[i].id,
        ) by {
            assert(midb.has_workspace(midb.monitors@[i].workspace));
            assert(midb.workspace_at(midb.monitors@[i].workspace).on_monitor == Some(
                midb.monitors@[i].id,
            ));
            if midb.monitors@[i].workspace == to_ws {
                assert(mid2.workspace_at(to_ws) == updated);
            }
        }
    }
    assert(mid2.wf_links()) by {
        assert forall|i: int|
            0 <= i < mid2.workspaces@.len() implies match (
        #[trigger] mid2.workspaces@[i]).on_monitor {
            Some(m) => mid2.has_monitor(m) && mid2.monitor_at(m).workspace
                == mid2.workspaces@[i].id,
            None => true,
        } by {
            let wmid = midb.workspaces@[i];
            assert(mid2.workspaces@[i].on_monitor == wmid.on_monitor);
            assert(mid2.workspaces@[i].id == wmid.id);
            match wmid.on_monitor {
                Some(m) => {
                    assert(midb.has_monitor(m));
                    assert(midb.monitor_at(m).workspace == wmid.id);
                },
                None => {},
            }
        }
    }
    assert(mid2.spare_exists()) by {
        let j = choose|j: int|
            0 <= j < midb.workspaces@.len() && (#[trigger] midb.workspaces@[j]).on_monitor is None;
        assert(mid2.workspaces@[j].on_monitor == midb.workspaces@[j].on_monitor);
    }
    assert(mid2.wf_active()) by {
        assert(midb.has_window(aw));
        assert(midb.has_workspace(to_ws));
    }
}

/// Swapping two distinct members of one workspace's list keeps the store
/// well formed: the list is a permutation of itself.
#[verifier::rlimit(100)]
pub proof fn lemma_swap_wf(
    pre: WindowManager,
    mid: WindowManager,
    wsi: int,
    ws_id: Id,
    a: Id,
    b: Id,
)
    requires
        pre.wf(),
        0 <= wsi < pre.workspaces@.len(),
        pre.workspaces@[wsi].id == ws_id,
        ws_idx(pre.workspaces@, ws_id) == wsi,
        ws_at(pre.workspaces@, ws_id) == pre.workspaces@[wsi],
        pre.workspaces@[wsi].windows@.contains(a),
        pre.workspaces@[wsi].windows@.contains(b),
        a != b,
        mid.workspaces@.len() == pre.workspaces@.len(),
        forall|k: int|
            0 <= k < pre.workspaces@.len() && k != wsi ==> mid.workspaces@[k]
                == pre.workspaces@[k],
        exists|ia: int, ib: int|
            {
                &&& 0 <= ia < pre.workspaces@[wsi].windows@.len()
                &&& 0 <= ib < pre.workspaces@[wsi].windows@.len()
                &&& pre.workspaces@[wsi].windows@[ia] == a
                &&& pre.workspaces@[wsi].windows@[ib] == b
                &&& mid.workspaces@[wsi].windows@ =~= pre.workspaces@[wsi].windows@.update(
                    ia,
                    b,
                ).update(ib, a)
            },
        mid.workspaces@[wsi].id == ws_id,
        mid.workspaces@[wsi].on_monitor == pre.workspaces@[wsi].on_monitor,
        mid.workspaces@[wsi].scroll_left == pre.workspaces@[wsi].scroll_left,
        mid.workspaces@[wsi].active_window == pre.workspaces@[wsi].active_window,
        mid == (WindowManager { workspaces: mid.workspaces, ..pre }),
    ensures
        mid.wf(),
{
    let ws = pre.workspaces@[wsi];
    let updated = mid.workspaces@[wsi];
    let lst = updated.windows@;
    assert(mid.workspaces@ =~= pre.workspaces@.update(wsi, updated));
    WindowManager::lemma_workspace_lookup_after_update(pre, mid, wsi, updated);
    assert(lst.len() == ws.windows@.len());
    assert forall|k: int| 0 <= k < lst.len() implies ws.windows@.contains(#[trigger] lst[k]) by {
        if lst[k] != ws.windows@[k] {
            assert(lst[k] == a || lst[k] == b);
        }
    }
    assert forall|x: Id| ws.windows@.contains(x) implies lst.contains(x) by {
        let (ia2, ib2) = choose|ia2: int, ib2: int|
            {
                &&& 0 <= ia2 < ws.windows@.len()
                &&& 0 <= ib2 < ws.windows@.len()
                &&& ws.windows@[ia2] == a
                &&& ws.windows@[ib2] == b
                &&& lst =~= ws.windows@.update(ia2, b).update(ib2, a)
            };
        let j = choose|j: int| 0 <= j < ws.windows@.len() && ws.windows@[j] == x;
        if x == a {
            assert(lst[ib2] == x);
        } else if x == b {
            if ia2 == ib2 {
                assert(ws.windows@[ia2] == a);
            } else {
                assert(lst[ia2] == x);
            }
        } else {
            assert(ws.windows@[j] == x);
            assert(j != ia2 && j != ib2);
            assert(lst[j] == x);
        }
    }
    assert(mid.wf_windows()) by {
        assert forall|i: int| 0 <= i < mid.windows@.len() implies mid.has_workspace(
            (#[trigger] mid.windows@[i]).workspace,
        ) by {
            assert(pre.has_workspace(pre.windows@[i].workspace));
        }
    }
    assert(mid.wf_workspaces()) by {
        assert forall|i: int, k: int|
            0 <= i < mid.workspaces@.len() && 0 <= k
                < mid.workspaces@[i].windows@.len() implies mid.has_window(
        #[trigger] mid.workspaces@[i].windows@[k]) && mid.window_at(
            mid.workspaces@[i].windows@[k],
        ).workspace == mid.workspaces@[i].id by {
            if i != wsi {
                assert(mid.workspaces@[i] == pre.workspaces@[i]);
                assert(pre.has_window(pre.workspaces@[i].windows@[k]));
            } else {
                let e = lst[k];
                assert(ws.windows@.contains(e));
                let j = choose|j: int| 0 <= j < ws.windows@.len() && ws.windows@[j] == e;
                assert(pre.has_window(pre.workspaces@[wsi].windows@[j]));
            }
        }
        assert forall|i: int, k: int, l: int|
            0 <= i < mid.workspaces@.len() && 0 <= k < l
                < mid.workspaces@[i].windows@.len() implies (
        #[trigger] mid.workspaces@[i].windows@[k]) != (
        #[trigger] mid.workspaces@[i].windows@[l]) by {
            if i != wsi {
                assert(mid.workspaces@[i] == pre.workspaces@[i]);
            } else {
                assert(ws.windows@.no_duplicates()) by {
                    assert forall|p: int, q: int|
                        0 <= p < q < ws.windows@.len() implies ws.windows@[p] != ws.windows@[q]
                        by {
                        assert(pre.workspaces@[wsi].windows@[p] != pre.workspaces@[wsi]
                            .windows@[q]);
                    }
                }
                lemma_swap_no_dup(ws.windows@, lst, a, b, k, l);
            }
        }
        assert forall|i: int|
            0 <= i < mid.workspaces@.len() implies match (
        #[trigger] mid.workspaces@[i]).active_window {
            Some(aw2) => mid.workspaces@[i].windows@.contains(aw2),
            None => true,
        } by {
            if i != wsi {
                assert(mid.workspaces@[i] == pre.workspaces@[i]);
            } else {
                match ws.active_window {
                    Some(aw2) => {
                        assert(ws.windows@.contains(aw2));
                        assert(lst.contains(aw2));
                    },
                    None => {},
                }
            }
        }
    }
    assert(mid.wf_monitors()) by {
        assert forall|i: int| 0 <= i < mid.monitors@.len() implies mid.has_workspace(
            (#[trigger] mid.monitors@[i]).workspace,
        ) && mid.workspace_at(mid.monitors@[i].workspace).on_monitor == Some(
            mid.monitors@[i].id,
        ) by {
            assert(pre.has_workspace(pre.monitors@[i].workspace));
            assert(pre.workspace_at(pre.monitors@[i].workspace).on_monitor == Some(
                pre.monitors@[i].id,
            ));
            if pre.monitors@[i].workspace == ws_id {
                assert(mid.workspace_at(ws_id) == updated);
            }
        }
    }
    assert(mid.wf_links()) by {
        assert forall|i: int|
            0 <= i < mid.workspaces@.len() implies match (
        #[trigger] mid.workspaces@[i]).on_monitor {
            Some(m) => mid.has_monitor(m) && mid.monitor_at(m).workspace
                == mid.workspaces@[i].id,
            None => true,
        } by {
            let wpre = pre.workspaces@[i];
            assert(mid.workspaces@[i].on_monitor == wpre.on_monitor);
            assert(mid.workspaces@[i].id == wpre.id);
            match wpre.on_monitor {
                Some(m) => {
                    assert(pre.has_monitor(m));
                    assert(pre.monitor_at(m).workspace == wpre.id);
                },
                None => {},
            }
        }
    }
    assert(mid.spare_exists()) by {
        let j = choose|j: int|
            0 <= j < pre.workspaces@.len() && (#[trigger] pre.workspaces@[j]).on_monitor is None;
        assert(mid.workspaces@[j].on_monitor == pre.workspaces@[j].on_monitor);
    }
    assert(mid.wf_active()) by {
        match pre.active_window {
            Some(aw2) => {
                assert(pre.has_window(aw2));
            },
            None => {},
        }
        assert(pre.has_workspace(pre.active_workspace));
        assert(pre.has_workspace(pre.new_window_workspace));
    }
}

/// Neighbor search clamps at the edges: the first tiled window of a
/// workspace has no left neighbor — navigation never wraps around or
/// steps below the first position, and instead falls through to the
/// monitors.
pub proof fn lemma_neighbor_clamp(wm: WindowManager, w: Id)
    requires
        wm.wf(),
        wm.has_window(w),
        ({
            let ws = ws_at(wm.workspaces@, win_at(wm.windows@, w).workspace);
            let t = tiled_filter(wm.windows@, ws.windows@);
            t.len() > 0 && t[0] == w
        }),
    ensures
        tiled_neighbor(wm, w, Direction::Left) is None,
{
    let ws = ws_at(wm.workspaces@, win_at(wm.windows@, w).workspace);
    let t = tiled_filter(wm.windows@, ws.windows@);
    assert(t.contains(w));
    let k = pos_of(t, w);
    assert(t[k] == w);
    if k != 0 {
        // The tiled subsequence has no duplicates, so the position of the
        // first entry is unique.
        lemma_tiled_filter_props(wm.windows@, ws.windows@);
        assert(ws.windows@.no_duplicates()) by {
            let wsi = ws_idx(wm.workspaces@, win_at(wm.windows@, w).workspace);
            assert(wm.has_workspace(win_at(wm.windows@, w).workspace)) by {
                let i = win_idx(wm.windows@, w);
                assert(wm.has_workspace(wm.windows@[i].workspace));
            }
            assert(wm.workspaces@[wsi] == ws);
            assert forall|p: int, q: int|
                0 <= p < q < ws.windows@.len() implies ws.windows@[p] != ws.windows@[q] by {
                assert(wm.workspaces@[wsi].windows@[p] != wm.workspaces@[wsi].windows@[q]);
            }
        }
        assert(t.no_duplicates());
        assert(t[0] == t[k]);
    }
}

} // verus!
