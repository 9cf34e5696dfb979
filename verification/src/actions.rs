//! The arrangement engine: computes tiled-window geometry for a workspace,
//! keeps the focused window scrolled into view, and turns geometry changes
//! into outbound requests.
//!
//! Arrangement runs in three passes over one workspace. The position pass
//! walks the ordered window list, skips non-tiled windows, and assigns
//! each tiled window an x equal to the monitor's left edge plus the widths
//! of the tiled windows before it; height and vertical centering come from
//! the monitor. The visibility pass shifts the workspace's scroll offset
//! just enough to bring the focused window into the monitor's horizontal
//! extent. The apply pass computes each tiled window's rendered, scroll-
//! adjusted position, records it on the surface, and queues resize and
//! damage requests for what changed; dragged windows are left alone.

use crate::entities::{Monitor, Request, Window, Workspace};
use crate::geometry::{Point, Size, wlr_box};
use crate::id::Id;
use crate::limits::{MAX_COORD, MAX_DIM, MAX_WINDOWS, POS_LIMIT, clamp_coord, clamp_pos};
use crate::manager::{
    WindowManager, lemma_list_len_bounded, lemma_tiled_filter_congruent, lemma_tiled_filter_props,
    lemma_win_lookup_congruent, mon_at, pos_of, tiled_filter, win_at, win_has, win_idx, ws_at,
    ws_has, ws_idx,
};
use crate::surface::Surface;
use vstd::prelude::*;

verus! {

/// The monitor a workspace is shown on, if any.
pub open spec fn monitor_of(pre: WindowManager, ws: Workspace) -> Option<Monitor> {
    match ws.on_monitor {
        Some(m) => Some(mon_at(pre.monitors@, m)),
        None => None,
    }
}

/// The left edge tiling starts from: the monitor's, or zero off-monitor.
pub open spec fn mon_left_of(pre: WindowManager, ws: Workspace) -> int {
    match monitor_of(pre, ws) {
        Some(m) => m.extents.x as int,
        None => 0,
    }
}

/// Combined visible width of the windows `tids` in the store `ws`.
pub open spec fn width_sum(ws: Seq<Window>, tids: Seq<Id>) -> int
    decreases tids.len(),
{
    if tids.len() == 0 {
        0
    } else {
        width_sum(ws, tids.drop_last()) + win_at(ws, tids.last()).spec_width()
    }
}

/// The height the layout gives a tiled window: on a monitor, the monitor
/// height capped by the window's own maximum (which is never below its
/// current height); off-monitor, the current height.
pub open spec fn arranged_height(w: Window, mon: Option<Monitor>) -> int {
    match mon {
        Some(m) => {
            let maxh = if w.window_info.max_height >= w.spec_height() {
                w.window_info.max_height as int
            } else {
                w.spec_height()
            };
            if m.extents.height <= maxh {
                m.extents.height as int
            } else {
                maxh
            }
        },
        None => w.spec_height(),
    }
}

/// The y the layout gives a tiled window: vertically centered within the
/// monitor; off-monitor, its current rendered y (saturated into bounds).
pub open spec fn arranged_y(w: Window, mon: Option<Monitor>) -> int {
    match mon {
        Some(m) => m.extents.y + (m.extents.height - arranged_height(w, mon)) / 2,
        None => clamp_pos(w.spec_y()),
    }
}

/// The exact effect of the position pass on workspace `ws_id`: with `t`
/// the tiled subsequence of the workspace's list, the window at tiled
/// position `k` is cached at x equal to the monitor's left edge plus the
/// widths of the `k` tiled windows before it, at the arranged height and
/// y; every other window, and everything else, is untouched.
pub open spec fn cache_rel(pre: WindowManager, post: WindowManager, ws_id: Id) -> bool {
    let ws = ws_at(pre.workspaces@, ws_id);
    let t = tiled_filter(pre.windows@, ws.windows@);
    let mon = monitor_of(pre, ws);
    &&& post.windows@.len() == pre.windows@.len()
    &&& forall|i: int|
        0 <= i < pre.windows@.len() ==> {
            let wpre = #[trigger] pre.windows@[i];
            let wpost = post.windows@[i];
            &&& wpost.id == wpre.id
            &&& wpost.workspace == wpre.workspace
            &&& wpost.window_info == wpre.window_info
            &&& wpost.is_dragged == wpre.is_dragged
            &&& wpost.workspace_geo.width == wpre.workspace_geo.width
            &&& (!t.contains(wpre.id) ==> wpost.workspace_geo == wpre.workspace_geo)
        }
    &&& forall|k: int|
        0 <= k < t.len() ==> {
            let w = win_at(post.windows@, #[trigger] t[k]);
            &&& w.workspace_geo.x == mon_left_of(pre, ws) + width_sum(
                pre.windows@,
                t.subrange(0, k),
            )
            &&& w.workspace_geo.y == arranged_y(win_at(pre.windows@, t[k]), mon)
            &&& w.workspace_geo.height == arranged_height(win_at(pre.windows@, t[k]), mon)
        }
    &&& post == (WindowManager { windows: post.windows, ..pre })
}

/// Widths are non-negative and bounded, so the running cursor stays within
/// the coordinate budget.
pub proof fn lemma_width_sum_bound(ws: Seq<Window>, tids: Seq<Id>)
    requires
        forall|k: int|
            0 <= k < tids.len() ==> win_has(ws, #[trigger] tids[k]) && win_at(
                ws,
                tids[k],
            ).wf(),
    ensures
        0 <= width_sum(ws, tids) <= tids.len() * MAX_DIM,
    decreases tids.len(),
{
    if tids.len() > 0 {
        lemma_width_sum_bound(ws, tids.drop_last());
        assert(win_at(ws, tids.last()).wf());
        assert(0 <= win_at(ws, tids.last()).spec_width() <= MAX_DIM);
        assert((tids.len() - 1) * MAX_DIM + MAX_DIM == tids.len() * MAX_DIM) by (nonlinear_arith);
    }
}

/// One planned geometry write of the position pass.
struct Placement {
    /// Index of the window in the manager's window store.
    wi: usize,
    x: i32,
    y: i32,
    height: i32,
}

/// The position pass. Walks the workspace's list in order, skips windows
/// that are not tiled, and writes each tiled window's cached geometry:
/// first the placements are computed against the unchanged store, then
/// they are applied.
#[verifier::rlimit(100)]
pub fn update_cached_positions(wm: &mut WindowManager, workspace_id: Id)
    requires
        old(wm).wf(),
        old(wm).has_workspace(workspace_id),
    ensures
        final(wm).wf(),
        cache_rel(*old(wm), *final(wm), workspace_id),
{
    let ghost pre = *wm;
    let mut has_mon: bool = false;
    let mut mon_x: i32 = 0;
    let mut mon_y: i32 = 0;
    let mut mon_h: i32 = 0;
    match wm.monitor_by_workspace(workspace_id) {
        Some(m) => {
            has_mon = true;
            mon_x = m.extents.x;
            mon_y = m.extents.y;
            mon_h = m.extents.height;
        },
        None => {},
    }
    let ghost ws = ws_at(pre.workspaces@, workspace_id);
    let ghost mon = monitor_of(pre, ws);
    proof {
        match mon {
            Some(m) => {
                assert(has_mon && mon_x == m.extents.x && mon_y == m.extents.y && mon_h
                    == m.extents.height);
            },
            None => {
                assert(!has_mon);
            },
        }
    }
    let wsi = match wm.workspace_index(workspace_id) {
        Some(i) => i,
        None => {
            proof {
                assert(false);
            }
            return ;
        },
    };
    proof {
        wm.lemma_workspace_at(wsi as int);
    }
    // Work on a copy of the id list so the store can be mutated freely.
    let mut ids: Vec<Id> = Vec::new();
    let mut q: usize = 0;
    let list_len = wm.workspaces[wsi].windows.len();
    while q < list_len
        invariant
            q <= list_len,
            list_len == wm.workspaces@[wsi as int].windows@.len(),
            wsi < wm.workspaces@.len(),
            ids@ == wm.workspaces@[wsi as int].windows@.subrange(0, q as int),
        decreases list_len - q,
    {
        let id = wm.workspaces[wsi].windows[q];
        ids.push(id);
        proof {
            assert(ids@ =~= wm.workspaces@[wsi as int].windows@.subrange(0, q + 1));
        }
        q = q + 1;
    }
    proof {
        assert(ids@ =~= ws.windows@);
    }
    let ghost t = tiled_filter(pre.windows@, ws.windows@);
    proof {
        lemma_tiled_filter_props(pre.windows@, ids@);
        assert(ids@.no_duplicates()) by {
            assert forall|p: int, q2: int| 0 <= p < q2 < ids@.len() implies ids@[p] != ids@[q2] by {
                assert(pre.workspaces@[wsi as int].windows@[p] != pre.workspaces@[wsi as int]
                    .windows@[q2]);
            }
        }
        assert forall|k: int| 0 <= k < ids@.len() implies win_has(
            pre.windows@,
            #[trigger] ids@[k],
        ) by {
            assert(pre.has_window(pre.workspaces@[wsi as int].windows@[k]));
        }
        lemma_list_len_bounded(pre.windows@, ids@);
        assert(ids@.len() <= MAX_WINDOWS);
        assert forall|k: int| 0 <= k < t.len() implies win_has(pre.windows@, #[trigger] t[k])
            && win_at(pre.windows@, t[k]).wf() by {
            let i = win_idx(pre.windows@, t[k]);
            assert(pre.windows@[i].wf());
        }
        lemma_width_sum_bound(pre.windows@, t);
    }
    let mon_left: i32 = if has_mon {
        mon_x
    } else {
        0
    };
    // First pass: compute every tiled window's placement against the
    // unchanged store.
    let mut plan: Vec<Placement> = Vec::new();
    let mut cursor: i32 = mon_left;
    let mut i: usize = 0;
    let ids_len = ids.len();
    while i < ids_len
        invariant
            *wm == pre,
            pre.wf(),
            i <= ids_len,
            ids_len == ids@.len(),
            ids@.len() <= MAX_WINDOWS,
            ids@.no_duplicates(),
            t == tiled_filter(pre.windows@, ids@),
            t.len() <= ids@.len(),
            forall|k: int| 0 <= k < ids@.len() ==> win_has(pre.windows@, #[trigger] ids@[k]),
            forall|k: int|
                0 <= k < t.len() ==> win_has(pre.windows@, #[trigger] t[k]) && win_at(
                    pre.windows@,
                    t[k],
                ).wf(),
            mon_left == mon_left_of(pre, ws),
            0 <= mon_left <= MAX_COORD,
            has_mon == (mon is Some),
            mon matches Some(m) ==> mon_x == m.extents.x && mon_y == m.extents.y && mon_h
                == m.extents.height && 0 <= m.extents.y <= MAX_COORD && 0 <= m.extents.height
                <= MAX_DIM,
            plan@.len() == tiled_filter(pre.windows@, ids@.subrange(0, i as int)).len(),
            tiled_filter(pre.windows@, ids@.subrange(0, i as int)).len() <= t.len(),
            tiled_filter(pre.windows@, ids@.subrange(0, i as int)) == t.subrange(
                0,
                plan@.len() as int,
            ),
            cursor == mon_left + width_sum(
                pre.windows@,
                tiled_filter(pre.windows@, ids@.subrange(0, i as int)),
            ),
            0 <= cursor <= MAX_COORD + MAX_WINDOWS * MAX_DIM,
            forall|k: int|
                0 <= k < plan@.len() ==> {
                    let p = #[trigger] plan@[k];
                    &&& p.wi < pre.windows@.len()
                    &&& pre.windows@[p.wi as int].id == t[k]
                    &&& p.x == mon_left + width_sum(pre.windows@, t.subrange(0, k))
                    &&& p.y == arranged_y(pre.windows@[p.wi as int], mon)
                    &&& p.height == arranged_height(pre.windows@[p.wi as int], mon)
                    &&& 0 <= p.x <= MAX_COORD + MAX_WINDOWS * MAX_DIM
                    &&& -POS_LIMIT <= p.y <= POS_LIMIT
                    &&& 0 <= p.height <= MAX_DIM
                },
        decreases ids_len - i,
    {
        let ghost done = tiled_filter(pre.windows@, ids@.subrange(0, i as int));
        proof {
            assert(ids@.subrange(0, i + 1).drop_last() =~= ids@.subrange(0, i as int));
            assert(ids@.subrange(0, i + 1).last() == ids@[i as int]);
        }
        let id = ids[i];
        match wm.window_index(id) {
            Some(wi) => {
                proof {
                    wm.lemma_window_at(wi as int);
                    assert(win_idx(pre.windows@, id) == wi as int);
                }
                let is_tiled = wm.windows[wi].is_tiled();
                if is_tiled {
                    let ghost done2 = done.push(id);
                    proof {
                        assert(tiled_filter(pre.windows@, ids@.subrange(0, i + 1)) == done2);
                        assert(done2 == t.subrange(0, done2.len() as int) && done2.len()
                            <= t.len()) by {
                            lemma_tiled_prefix(pre.windows@, ids@, i + 1);
                        }
                        assert(done2[done.len() as int] == id);
                        assert(t[done.len() as int] == id);
                        assert(t.subrange(0, done.len() as int) =~= done2.subrange(
                            0,
                            done.len() as int,
                        ));
                        assert(done == t.subrange(0, done.len() as int));
                        assert forall|k2: int| 0 <= k2 < done2.len() implies win_has(
                            pre.windows@,
                            #[trigger] done2[k2],
                        ) && win_at(pre.windows@, done2[k2]).wf() by {
                            assert(done2[k2] == t[k2]);
                        }
                        lemma_width_sum_bound(pre.windows@, done2);
                        assert(done2.len() <= MAX_WINDOWS);
                        assert(width_sum(pre.windows@, done2) == width_sum(pre.windows@, done)
                            + win_at(pre.windows@, id).spec_width()) by {
                            assert(done2.drop_last() =~= done);
                        }
                    }
                    let w_width = wm.windows[wi].width();
                    let w_height = wm.windows[wi].height();
                    let w_maxh = wm.windows[wi].max_height();
                    let height: i32 = if has_mon {
                        if mon_h <= w_maxh {
                            mon_h
                        } else {
                            w_maxh
                        }
                    } else {
                        w_height
                    };
                    let y: i32 = if has_mon {
                        mon_y + (mon_h - height) / 2
                    } else {
                        clamp_coord(wm.windows[wi].y())
                    };
                    proof {
                        assert(0 <= height <= MAX_DIM) by {
                            assert(pre.windows@[wi as int].wf());
                        }
                        assert(-POS_LIMIT <= y <= POS_LIMIT);
                        assert(done2.len() * MAX_DIM <= MAX_WINDOWS * MAX_DIM) by (nonlinear_arith)
                            requires done2.len() <= MAX_WINDOWS;
                    }
                    plan.push(Placement { wi, x: cursor, y, height });
                    cursor = cursor + w_width;
                } else {
                    proof {
                        assert(tiled_filter(pre.windows@, ids@.subrange(0, i + 1)) == done);
                    }
                }
            },
            None => {
                proof {
                    assert(win_has(pre.windows@, id));
                    assert(false);
                }
            },
        }
        i = i + 1;
    }
    proof {
        assert(ids@.subrange(0, ids@.len() as int) =~= ids@);
        assert(plan@.len() == t.len());
        assert(t.subrange(0, t.len() as int) =~= t);
        assert forall|k: int, l: int| 0 <= k < l < plan@.len() implies (#[trigger] plan@[k]).wi
            != (#[trigger] plan@[l]).wi by {
            lemma_tiled_filter_props(pre.windows@, ids@);
            assert(t.no_duplicates());
            assert(pre.windows@[plan@[k].wi as int].id == t[k]);
            assert(pre.windows@[plan@[l].wi as int].id == t[l]);
            assert(t[k] != t[l]);
        }
    }
    // Second pass: apply the placements.
    let mut j: usize = 0;
    let plan_len = plan.len();
    while j < plan_len
        invariant
            plan_len == plan@.len(),
            j <= plan_len,
            plan@.len() == t.len(),
            wm.windows@.len() == pre.windows@.len(),
            forall|k: int|
                0 <= k < plan@.len() ==> {
                    let p = #[trigger] plan@[k];
                    &&& p.wi < pre.windows@.len()
                    &&& pre.windows@[p.wi as int].id == t[k]
                    &&& p.x == mon_left_of(pre, ws) + width_sum(pre.windows@, t.subrange(0, k))
                    &&& p.y == arranged_y(pre.windows@[p.wi as int], mon)
                    &&& p.height == arranged_height(pre.windows@[p.wi as int], mon)
                    &&& 0 <= p.x <= MAX_COORD + MAX_WINDOWS * MAX_DIM
                    &&& -POS_LIMIT <= p.y <= POS_LIMIT
                    &&& 0 <= p.height <= MAX_DIM
                },
            forall|k: int, l: int|
                0 <= k < l < plan@.len() ==> (#[trigger] plan@[k]).wi != (
                #[trigger] plan@[l]).wi,
            *wm == (WindowManager { windows: wm.windows, ..pre }),
            forall|k: int|
                0 <= k < pre.windows@.len() ==> {
                    let wpre = #[trigger] pre.windows@[k];
                    let wcur = wm.windows@[k];
                    &&& wcur.id == wpre.id
                    &&& wcur.workspace == wpre.workspace
                    &&& wcur.window_info == wpre.window_info
                    &&& wcur.is_dragged == wpre.is_dragged
                    &&& wcur.workspace_geo.width == wpre.workspace_geo.width
                    &&& wcur.wf()
                },
            forall|k: int|
                j <= k < plan@.len() ==> wm.windows@[#[trigger] plan@[k].wi as int]
                    == pre.windows@[plan@[k].wi as int],
            forall|idx: int|
                0 <= idx < pre.windows@.len() && (forall|k: int|
                    0 <= k < plan@.len() ==> (#[trigger] plan@[k]).wi != idx)
                    ==> wm.windows@[idx] == pre.windows@[idx],
            forall|k: int|
                0 <= k < j ==> {
                    let p = #[trigger] plan@[k];
                    &&& wm.windows@[p.wi as int].workspace_geo.x == p.x
                    &&& wm.windows@[p.wi as int].workspace_geo.y == p.y
                    &&& wm.windows@[p.wi as int].workspace_geo.height == p.height
                },
        decreases plan_len - j,
    {
        let wi = plan[j].wi;
        let x = plan[j].x;
        let y = plan[j].y;
        let height = plan[j].height;
        let wref = &mut wm.windows[wi];
        wref.workspace_geo.x = x;
        wref.workspace_geo.y = y;
        wref.workspace_geo.height = height;
        proof {
            assert(MAX_COORD + MAX_WINDOWS * MAX_DIM <= POS_LIMIT);
        }
        j = j + 1;
    }
    proof {
        let post = *wm;
        lemma_win_lookup_congruent(pre.windows@, post.windows@);
        // The relation's clauses, from the index-based loop facts.
        assert forall|k: int| 0 <= k < t.len() implies {
            let w = win_at(post.windows@, #[trigger] t[k]);
            &&& w.workspace_geo.x == mon_left_of(pre, ws) + width_sum(
                pre.windows@,
                t.subrange(0, k),
            )
            &&& w.workspace_geo.y == arranged_y(win_at(pre.windows@, t[k]), mon)
            &&& w.workspace_geo.height == arranged_height(win_at(pre.windows@, t[k]), mon)
        } by {
            let p = plan@[k];
            assert(pre.windows@[p.wi as int].id == t[k]);
            pre.lemma_window_at(p.wi as int);
            assert(win_idx(pre.windows@, t[k]) == p.wi as int);
            assert(win_at(post.windows@, t[k]) == post.windows@[p.wi as int]);
            assert(win_at(pre.windows@, t[k]) == pre.windows@[p.wi as int]);
        }
        assert forall|i2: int| 0 <= i2 < pre.windows@.len() && !t.contains(
            (#[trigger] pre.windows@[i2]).id,
        ) implies post.windows@[i2].workspace_geo == pre.windows@[i2].workspace_geo by {
            assert forall|k: int| 0 <= k < plan@.len() implies (#[trigger] plan@[k]).wi != i2 by {
                if plan@[k].wi == i2 {
                    assert(pre.windows@[i2].id == t[k]);
                    assert(t.contains(t[k]));
                }
            }
        }
        // Well-formedness is restored.
        assert(post.wf_windows()) by {
            assert forall|p: int, q2: int| 0 <= p < q2 < post.windows@.len() implies (
            #[trigger] post.windows@[p]).id != (#[trigger] post.windows@[q2]).id by {
                assert(pre.windows@[p].id != pre.windows@[q2].id);
            }
            assert forall|k: int| 0 <= k < post.windows@.len() implies (
            #[trigger] post.windows@[k]).wf() && post.has_workspace(post.windows@[k].workspace)
                by {
                assert(pre.windows@[k].wf());
                assert(pre.has_workspace(pre.windows@[k].workspace));
            }
        }
        assert(post.wf_workspaces()) by {
            assert forall|a: int, k: int|
                0 <= a < post.workspaces@.len() && 0 <= k
                    < post.workspaces@[a].windows@.len() implies post.has_window(
                #[trigger] post.workspaces@[a].windows@[k]) && post.window_at(
                post.workspaces@[a].windows@[k],
            ).workspace == post.workspaces@[a].id by {
                let e = pre.workspaces@[a].windows@[k];
                assert(pre.has_window(e));
                assert(pre.window_at(e).workspace == pre.workspaces@[a].id);
                assert(win_has(post.windows@, e));
                assert(win_at(post.windows@, e) == post.windows@[win_idx(pre.windows@, e)]);
                assert(post.windows@[win_idx(pre.windows@, e)].workspace == pre.windows@[win_idx(
                    pre.windows@,
                    e,
                )].workspace);
            }
        }
        assert(post.wf_monitors()) by {
            assert forall|a: int| 0 <= a < post.monitors@.len() implies post.has_workspace(
                (#[trigger] post.monitors@[a]).workspace,
            ) && post.workspace_at(post.monitors@[a].workspace).on_monitor == Some(
                post.monitors@[a].id,
            ) by {
                assert(pre.has_workspace(pre.monitors@[a].workspace));
                assert(pre.workspace_at(pre.monitors@[a].workspace).on_monitor == Some(
                    pre.monitors@[a].id,
                ));
            }
        }
        assert(post.wf_active()) by {
            match pre.active_window {
                Some(a) => {
                    assert(pre.has_window(a));
                    assert(win_has(post.windows@, a));
                },
                None => {},
            }
        }
    }
}

/// The exact effect of the visibility pass for `window_id`: when the
/// window sits on a monitor, the active workspace's scroll offset shifts
/// left or right just enough to bring the window's cached extent inside
/// the monitor's horizontal extent — at most one direction per call — and
/// saturates at the layout bound; otherwise nothing changes.
pub open spec fn visible_rel(pre: WindowManager, post: WindowManager, window_id: Id) -> bool {
    let on_monitor = pre.has_window(window_id) && ws_at(
        pre.workspaces@,
        win_at(pre.windows@, window_id).workspace,
    ).on_monitor is Some;
    if !on_monitor {
        post == pre
    } else {
        let w = win_at(pre.windows@, window_id);
        let mon = mon_at(
            pre.monitors@,
            ws_at(pre.workspaces@, w.workspace).on_monitor->0,
        );
        let awsi = ws_idx(pre.workspaces@, pre.active_workspace);
        let aws = ws_at(pre.workspaces@, pre.active_workspace);
        let x_window_left = w.workspace_geo.x as int;
        let x_window_right = w.workspace_geo.x + w.spec_width();
        let extents_left = mon.extents.x as int;
        let extents_right = mon.extents.x + mon.extents.width;
        let x_workspace_left = aws.scroll_left + extents_left;
        let x_workspace_right = aws.scroll_left + extents_right;
        let new_scroll = if x_window_left < x_workspace_left {
            clamp_pos(x_window_left - extents_left)
        } else if x_window_right > x_workspace_right {
            clamp_pos(x_window_right - extents_right)
        } else {
            aws.scroll_left as int
        };
        &&& post.workspaces@ == pre.workspaces@.update(
            awsi,
            Workspace { scroll_left: new_scroll as i32, ..aws },
        )
        &&& post == (WindowManager { workspaces: post.workspaces, ..pre })
    }
}

/// The visibility pass: adjusts the active workspace's scroll offset so
/// the window's cached geometry is horizontally inside its monitor. A
/// window on no monitor leaves everything unchanged.
pub fn ensure_window_visible(wm: &mut WindowManager, window_id: Id)
    requires
        old(wm).wf(),
    ensures
        final(wm).wf(),
        visible_rel(*old(wm), *final(wm), window_id),
{
    let ghost pre = *wm;
    let mut ex: i32 = 0;
    let mut ew: i32 = 0;
    match wm.monitor_by_window(window_id) {
        Some(m) => {
            ex = m.extents.x;
            ew = m.extents.width;
        },
        None => {
            return ;
        },
    }
    let wi = match wm.window_index(window_id) {
        Some(i) => i,
        None => {
            proof {
                assert(false);
            }
            return ;
        },
    };
    proof {
        wm.lemma_window_at(wi as int);
        let mid = pre.monitor_idx(ws_at(pre.workspaces@, win_at(pre.windows@, window_id).workspace).on_monitor->0);
    }
    let window_x = wm.windows[wi].workspace_geo.x;
    let window_width = wm.windows[wi].width();
    let awsi = match wm.workspace_index(wm.active_workspace) {
        Some(i) => i,
        None => {
            proof {
                assert(false);
            }
            return ;
        },
    };
    proof {
        wm.lemma_workspace_at(awsi as int);
    }
    let scroll = wm.workspaces[awsi].scroll_left;
    let x_window_left = window_x;
    let x_window_right = window_x + window_width;
    let extents_left = ex;
    let extents_right = ex + ew;
    let x_workspace_left = scroll + extents_left;
    let x_workspace_right = scroll + extents_right;
    let new_scroll: i32 = if x_window_left < x_workspace_left {
        clamp_coord(x_window_left - extents_left)
    } else if x_window_right > x_workspace_right {
        clamp_coord(x_window_right - extents_right)
    } else {
        scroll
    };
    let ws_ref = &mut wm.workspaces[awsi];
    ws_ref.scroll_left = new_scroll;
    proof {
        let post = *wm;
        let updated = post.workspaces@[awsi as int];
        WindowManager::lemma_workspace_lookup_after_update(pre, post, awsi as int, updated);
        assert(post.wf_windows()) by {
            assert forall|i: int| 0 <= i < post.windows@.len() implies post.has_workspace(
                (#[trigger] post.windows@[i]).workspace,
            ) by {
                assert(pre.has_workspace(pre.windows@[i].workspace));
            }
        }
        assert(post.wf_workspaces()) by {
            assert forall|i: int, k: int|
                0 <= i < post.workspaces@.len() && 0 <= k
                    < post.workspaces@[i].windows@.len() implies post.has_window(
                #[trigger] post.workspaces@[i].windows@[k]) && post.window_at(
                post.workspaces@[i].windows@[k],
            ).workspace == post.workspaces@[i].id by {
                assert(post.workspaces@[i].windows@ == pre.workspaces@[i].windows@);
                assert(post.workspaces@[i].id == pre.workspaces@[i].id);
                assert(pre.has_window(pre.workspaces@[i].windows@[k]));
            }
            assert forall|i: int|
                0 <= i < post.workspaces@.len() implies match (
            #[trigger] post.workspaces@[i]).active_window {
                Some(a) => post.workspaces@[i].windows@.contains(a),
                None => true,
            } by {
                assert(post.workspaces@[i].active_window == pre.workspaces@[i].active_window);
                assert(post.workspaces@[i].windows@ == pre.workspaces@[i].windows@);
            }
        }
        assert(post.wf_monitors()) by {
            assert forall|i: int| 0 <= i < post.monitors@.len() implies post.has_workspace(
                (#[trigger] post.monitors@[i]).workspace,
            ) && post.workspace_at(post.monitors@[i].workspace).on_monitor == Some(
                post.monitors@[i].id,
            ) by {
                assert(pre.has_workspace(pre.monitors@[i].workspace));
                assert(pre.workspace_at(pre.monitors@[i].workspace).on_monitor == Some(
                    pre.monitors@[i].id,
                ));
                if pre.monitors@[i].workspace == pre.active_workspace {
                    assert(post.workspace_at(pre.active_workspace) == updated);
                }
            }
        }
        assert(post.wf_links()) by {
            assert forall|i: int|
                0 <= i < post.workspaces@.len() implies match (
            #[trigger] post.workspaces@[i]).on_monitor {
                Some(m) => post.has_monitor(m) && post.monitor_at(m).workspace
                    == post.workspaces@[i].id,
                None => true,
            } by {
                let wpre = pre.workspaces@[i];
                assert(post.workspaces@[i].on_monitor == wpre.on_monitor);
                assert(post.workspaces@[i].id == wpre.id);
                match wpre.on_monitor {
                    Some(m) => {
                        assert(pre.has_monitor(m));
                        assert(pre.monitor_at(m).workspace == wpre.id);
                    },
                    None => {},
                }
            }
        }
        assert(post.spare_exists()) by {
            let j = choose|j: int|
                0 <= j < pre.workspaces@.len() && (
                #[trigger] pre.workspaces@[j]).on_monitor is None;
            assert(post.workspaces@[j].on_monitor == pre.workspaces@[j].on_monitor);
        }
        assert(post.wf_active()) by {
            match pre.active_window {
                Some(a) => {
                    assert(pre.has_window(a));
                },
                None => {},
            }
            assert(pre.has_workspace(pre.active_workspace));
            assert(pre.has_workspace(pre.new_window_workspace));
        }
    }
}

/// Where a window's left edge renders once the scroll offset is applied.
pub open spec fn rendered_x(w: Window, scroll: int) -> int {
    w.workspace_geo.x - scroll
}

/// Whether the cached size differs from the rendered size.
pub open spec fn size_changed(w: Window) -> bool {
    w.workspace_geo.width != w.spec_width() || w.workspace_geo.height != w.spec_height()
}

/// Whether the scroll-adjusted cached position differs from the rendered
/// position.
pub open spec fn pos_changed(w: Window, scroll: int) -> bool {
    w.spec_x() != rendered_x(w, scroll) || w.spec_y() != w.workspace_geo.y
}

/// What the apply pass leaves on a window's surface: a pending resize
/// when the size changed, and the surface moved to the scroll-adjusted
/// position when the position changed. A dragged window is left alone.
pub open spec fn updated_surface(w: Window, scroll: int) -> Surface {
    if w.is_dragged {
        w.window_info
    } else {
        let s1 = if size_changed(w) {
            Surface { is_pending_serial: true, ..w.window_info }
        } else {
            w.window_info
        };
        if pos_changed(w, scroll) {
            Surface {
                geo: wlr_box {
                    x: clamp_pos(rendered_x(w, scroll) - w.window_info.shadow.width / 2) as i32,
                    y: clamp_pos(w.workspace_geo.y - w.window_info.shadow.height / 2) as i32,
                    ..s1.geo
                },
                ..s1
            }
        } else {
            s1
        }
    }
}

/// The requests the apply pass queues for one window: a resize for a
/// changed size (the asked-for size plus the shadow), and a damage before
/// and after a move. A dragged window produces none.
pub open spec fn window_requests(w: Window, scroll: int) -> Seq<Request> {
    if w.is_dragged {
        Seq::empty()
    } else {
        let resize_part: Seq<Request> = if size_changed(w) {
            seq![
                Request::Resize {
                    window: w.id,
                    size: Size {
                        width: (w.workspace_geo.width + w.window_info.shadow.width) as i32,
                        height: (w.workspace_geo.height + w.window_info.shadow.height) as i32,
                    },
                },
            ]
        } else {
            Seq::empty()
        };
        let move_part: Seq<Request> = if pos_changed(w, scroll) {
            seq![Request::Damage { window: w.id }, Request::Damage { window: w.id }]
        } else {
            Seq::empty()
        };
        resize_part + move_part
    }
}

/// The requests the apply pass queues for the tiled windows `tids`, in
/// tiling order.
pub open spec fn apply_requests(ws: Seq<Window>, tids: Seq<Id>, scroll: int) -> Seq<Request>
    decreases tids.len(),
{
    if tids.len() == 0 {
        Seq::empty()
    } else {
        apply_requests(ws, tids.drop_last(), scroll) + window_requests(
            win_at(ws, tids.last()),
            scroll,
        )
    }
}

/// The exact effect of the apply pass on workspace `ws_id`: every tiled,
/// non-dragged window's surface is brought to its cached, scroll-adjusted
/// geometry, the matching requests are queued in tiling order, and
/// nothing else changes.
pub open spec fn positions_rel(pre: WindowManager, post: WindowManager, ws_id: Id) -> bool {
    let ws = ws_at(pre.workspaces@, ws_id);
    let t = tiled_filter(pre.windows@, ws.windows@);
    let scroll = ws.scroll_left as int;
    &&& post.windows@.len() == pre.windows@.len()
    &&& forall|i: int|
        0 <= i < pre.windows@.len() ==> {
            let wpre = #[trigger] pre.windows@[i];
            let wpost = post.windows@[i];
            &&& wpost.id == wpre.id
            &&& wpost.workspace == wpre.workspace
            &&& wpost.workspace_geo == wpre.workspace_geo
            &&& wpost.is_dragged == wpre.is_dragged
            &&& (!t.contains(wpre.id) ==> wpost.window_info == wpre.window_info)
        }
    &&& forall|k: int|
        0 <= k < t.len() ==> win_at(post.windows@, #[trigger] t[k]).window_info
            == updated_surface(win_at(pre.windows@, t[k]), scroll)
    &&& post.pending@ == pre.pending@ + apply_requests(pre.windows@, t, scroll)
    &&& post == (WindowManager { windows: post.windows, pending: post.pending, ..pre })
}

/// One planned surface update of the apply pass.
struct ApplyStep {
    /// Index of the window in the manager's window store.
    wi: usize,
    id: Id,
    /// Dragged windows are skipped.
    skip: bool,
    do_resize: bool,
    size: Size,
    do_move: bool,
    x: i32,
    y: i32,
}

/// The apply pass. Computes each tiled window's rendered geometry from
/// its cached geometry and the workspace's scroll offset, records it on
/// the surface, and queues the resize and damage requests for whatever
/// changed; dragged windows are skipped.
#[verifier::rlimit(100)]
pub fn update_window_positions(wm: &mut WindowManager, workspace_id: Id)
    requires
        old(wm).wf(),
        old(wm).has_workspace(workspace_id),
    ensures
        final(wm).wf(),
        positions_rel(*old(wm), *final(wm), workspace_id),
{
    let ghost pre = *wm;
    let wsi = match wm.workspace_index(workspace_id) {
        Some(i) => i,
        None => {
            proof {
                assert(false);
            }
            return ;
        },
    };
    proof {
        wm.lemma_workspace_at(wsi as int);
    }
    let scroll = wm.workspaces[wsi].scroll_left;
    let tiled = wm.workspaces[wsi].get_tiled_windows(wm);
    let ghost ws = ws_at(pre.workspaces@, workspace_id);
    let ghost t = tiled_filter(pre.windows@, ws.windows@);
    proof {
        assert(tiled@ == t);
        lemma_tiled_filter_props(pre.windows@, ws.windows@);
        assert(ws.windows@.no_duplicates()) by {
            assert forall|p: int, q2: int|
                0 <= p < q2 < ws.windows@.len() implies ws.windows@[p] != ws.windows@[q2] by {
                assert(pre.workspaces@[wsi as int].windows@[p] != pre.workspaces@[wsi as int]
                    .windows@[q2]);
            }
        }
        assert(t.no_duplicates());
    }
    // First pass: read every tiled window and decide what must change.
    let mut plan: Vec<ApplyStep> = Vec::new();
    let mut i: usize = 0;
    let tiled_len = tiled.len();
    while i < tiled_len
        invariant
            *wm == pre,
            pre.wf(),
            i <= tiled_len,
            tiled_len == tiled@.len(),
            tiled@ == t,
            t == tiled_filter(pre.windows@, ws.windows@),
            forall|k: int|
                0 <= k < t.len() ==> win_has(pre.windows@, #[trigger] t[k]) && win_at(
                    pre.windows@,
                    t[k],
                ).spec_is_tiled(),
            -POS_LIMIT <= scroll <= POS_LIMIT,
            scroll == ws.scroll_left,
            plan@.len() == i,
            forall|k: int|
                0 <= k < plan@.len() ==> {
                    let p = #[trigger] plan@[k];
                    let w = pre.windows@[p.wi as int];
                    &&& p.wi < pre.windows@.len()
                    &&& w.id == t[k]
                    &&& p.id == t[k]
                    &&& p.skip == w.is_dragged
                    &&& p.do_resize == size_changed(w)
                    &&& p.size == (Size {
                        width: w.workspace_geo.width,
                        height: w.workspace_geo.height,
                    })
                    &&& p.do_move == pos_changed(w, scroll as int)
                    &&& p.x == rendered_x(w, scroll as int)
                    &&& p.y == w.workspace_geo.y
                },
        decreases tiled_len - i,
    {
        let id = tiled[i];
        let wi = match wm.window_index(id) {
            Some(wi) => wi,
            None => {
                proof {
                    assert(win_has(pre.windows@, id));
                    assert(false);
                }
                return ;
            },
        };
        proof {
            wm.lemma_window_at(wi as int);
            assert(pre.windows@[wi as int].wf());
        }
        let skip = wm.windows[wi].is_dragged;
        let old_x = wm.windows[wi].x();
        let old_y = wm.windows[wi].y();
        let old_size = wm.windows[wi].rendered_size();
        let x = wm.windows[wi].workspace_geo.x - scroll;
        let y = wm.windows[wi].workspace_geo.y;
        let size = Size {
            width: wm.windows[wi].workspace_geo.width,
            height: wm.windows[wi].workspace_geo.height,
        };
        let do_resize = !(size == old_size);
        let do_move = old_x != x || old_y != y;
        plan.push(ApplyStep { wi, id, skip, do_resize, size, do_move, x, y });
        i = i + 1;
    }
    proof {
        assert forall|k: int, l: int| 0 <= k < l < plan@.len() implies (#[trigger] plan@[k]).wi
            != (#[trigger] plan@[l]).wi by {
            assert(pre.windows@[plan@[k].wi as int].id == t[k]);
            assert(pre.windows@[plan@[l].wi as int].id == t[l]);
            assert(t[k] != t[l]);
        }
    }
    // Second pass: apply the changes and queue the requests.
    let mut j: usize = 0;
    let plan_len = plan.len();
    while j < plan_len
        invariant
            plan_len == plan@.len(),
            plan@.len() == t.len(),
            j <= plan_len,
            -POS_LIMIT <= scroll <= POS_LIMIT,
            scroll == ws.scroll_left,
            forall|p: int, q2: int|
                0 <= p < q2 < pre.windows@.len() ==> (#[trigger] pre.windows@[p]).id != (
                #[trigger] pre.windows@[q2]).id,
            forall|k: int|
                0 <= k < plan@.len() ==> {
                    let p = #[trigger] plan@[k];
                    let w = pre.windows@[p.wi as int];
                    &&& p.wi < pre.windows@.len()
                    &&& w.id == t[k]
                    &&& p.id == t[k]
                    &&& p.skip == w.is_dragged
                    &&& p.do_resize == size_changed(w)
                    &&& p.size == (Size {
                        width: w.workspace_geo.width,
                        height: w.workspace_geo.height,
                    })
                    &&& p.do_move == pos_changed(w, scroll as int)
                    &&& p.x == rendered_x(w, scroll as int)
                    &&& p.y == w.workspace_geo.y
                },
            forall|k: int, l: int|
                0 <= k < l < plan@.len() ==> (#[trigger] plan@[k]).wi != (
                #[trigger] plan@[l]).wi,
            forall|k: int|
                0 <= k < pre.windows@.len() ==> (#[trigger] pre.windows@[k]).wf(),
            wm.windows@.len() == pre.windows@.len(),
            forall|k: int|
                0 <= k < pre.windows@.len() ==> {
                    let wpre = #[trigger] pre.windows@[k];
                    let wcur = wm.windows@[k];
                    &&& wcur.id == wpre.id
                    &&& wcur.workspace == wpre.workspace
                    &&& wcur.workspace_geo == wpre.workspace_geo
                    &&& wcur.is_dragged == wpre.is_dragged
                    &&& wcur.wf()
                },
            forall|k: int|
                j <= k < plan@.len() ==> wm.windows@[#[trigger] plan@[k].wi as int]
                    == pre.windows@[plan@[k].wi as int],
            forall|idx: int|
                0 <= idx < pre.windows@.len() && (forall|k: int|
                    0 <= k < plan@.len() ==> (#[trigger] plan@[k]).wi != idx)
                    ==> wm.windows@[idx] == pre.windows@[idx],
            forall|k: int|
                0 <= k < j ==> wm.windows@[(#[trigger] plan@[k]).wi as int].window_info
                    == updated_surface(pre.windows@[plan@[k].wi as int], scroll as int),
            wm.pending@ == pre.pending@ + apply_requests(
                pre.windows@,
                t.subrange(0, j as int),
                scroll as int,
            ),
            *wm == (WindowManager { windows: wm.windows, pending: wm.pending, ..pre }),
        decreases plan_len - j,
    {
        let ghost wm_loop = *wm;
        let wi = plan[j].wi;
        let id = plan[j].id;
        let skip = plan[j].skip;
        let do_resize = plan[j].do_resize;
        let size = plan[j].size;
        let do_move = plan[j].do_move;
        let x = plan[j].x;
        let y = plan[j].y;
        proof {
            assert(wm.windows@[wi as int] == pre.windows@[wi as int]);
        }
        if !skip {
            if do_resize {
                let w = &mut wm.windows[wi];
                let r = w.resize(size);
                wm.pending.push(r);
            }
            if do_move {
                wm.pending.push(Request::Damage { window: id });
                let w = &mut wm.windows[wi];
                w.move_to(Point { x, y });
                wm.pending.push(Request::Damage { window: id });
            }
        }
        proof {
            let wpre = pre.windows@[wi as int];
            assert(t.subrange(0, j + 1).drop_last() =~= t.subrange(0, j as int));
            assert(t.subrange(0, j + 1).last() == t[j as int]);
            pre.lemma_window_at(wi as int);
            assert(win_at(pre.windows@, t[j as int]) == wpre);
            assert(wm.windows@[wi as int].window_info == updated_surface(
                wpre,
                scroll as int,
            ));
            assert forall|k: int| 0 <= k < pre.windows@.len() implies {
                let wpre2 = #[trigger] pre.windows@[k];
                let wcur = wm.windows@[k];
                &&& wcur.id == wpre2.id
                &&& wcur.workspace == wpre2.workspace
                &&& wcur.workspace_geo == wpre2.workspace_geo
                &&& wcur.is_dragged == wpre2.is_dragged
                &&& wcur.wf()
            } by {
                if k != wi as int {
                    assert(wm.windows@[k] == wm_loop.windows@[k]);
                } else {
                    assert(wm.windows@[k].window_info == updated_surface(wpre, scroll as int));
                    assert(wpre.wf());
                    assert(wm.windows@[k].wf());
                }
            }
            assert(wm.pending@ =~= pre.pending@ + apply_requests(
                pre.windows@,
                t.subrange(0, j + 1),
                scroll as int,
            ));
            assert forall|k: int| 0 <= k < j + 1 implies wm.windows@[(
            #[trigger] plan@[k]).wi as int].window_info == updated_surface(
                pre.windows@[plan@[k].wi as int],
                scroll as int,
            ) by {
                if k < j {
                    assert(plan@[k].wi != plan@[j as int].wi);
                    assert(wm.windows@[plan@[k].wi as int] == wm_loop.windows@[plan@[
                        k].wi as int]);
                }
            }
        }
        j = j + 1;
    }
    proof {
        let post = *wm;
        assert(t.subrange(0, t.len() as int) =~= t);
        lemma_win_lookup_congruent(pre.windows@, post.windows@);
        assert forall|k: int| 0 <= k < t.len() implies win_at(
            post.windows@,
            #[trigger] t[k],
        ).window_info == updated_surface(win_at(pre.windows@, t[k]), ws.scroll_left as int) by {
            let p = plan@[k];
            assert(pre.windows@[p.wi as int].id == t[k]);
            pre.lemma_window_at(p.wi as int);
            assert(win_at(post.windows@, t[k]) == post.windows@[p.wi as int]);
            assert(win_at(pre.windows@, t[k]) == pre.windows@[p.wi as int]);
        }
        assert forall|i2: int| 0 <= i2 < pre.windows@.len() && !t.contains(
            (#[trigger] pre.windows@[i2]).id,
        ) implies post.windows@[i2].window_info == pre.windows@[i2].window_info by {
            assert forall|k: int| 0 <= k < plan@.len() implies (#[trigger] plan@[k]).wi != i2 by {
                if plan@[k].wi == i2 {
                    assert(pre.windows@[i2].id == t[k]);
                    assert(t.contains(t[k]));
                }
            }
        }
        assert(post.wf_windows()) by {
            assert forall|p: int, q2: int| 0 <= p < q2 < post.windows@.len() implies (
            #[trigger] post.windows@[p]).id != (#[trigger] post.windows@[q2]).id by {
                assert(pre.windows@[p].id != pre.windows@[q2].id);
            }
            assert forall|k: int| 0 <= k < post.windows@.len() implies (
            #[trigger] post.windows@[k]).wf() && post.has_workspace(post.windows@[k].workspace)
                by {
                assert(pre.windows@[k].wf());
                assert(pre.has_workspace(pre.windows@[k].workspace));
            }
        }
        assert(post.wf_workspaces()) by {
            assert forall|a: int, k: int|
                0 <= a < post.workspaces@.len() && 0 <= k
                    < post.workspaces@[a].windows@.len() implies post.has_window(
                #[trigger] post.workspaces@[a].windows@[k]) && post.window_at(
                post.workspaces@[a].windows@[k],
            ).workspace == post.workspaces@[a].id by {
                let e = pre.workspaces@[a].windows@[k];
                assert(pre.has_window(e));
                assert(pre.window_at(e).workspace == pre.workspaces@[a].id);
                assert(win_has(post.windows@, e));
                assert(win_at(post.windows@, e) == post.windows@[win_idx(pre.windows@, e)]);
                assert(post.windows@[win_idx(pre.windows@, e)].workspace == pre.windows@[win_idx(
                    pre.windows@,
                    e,
                )].workspace);
            }
        }
        assert(post.wf_monitors()) by {
            assert forall|a: int| 0 <= a < post.monitors@.len() implies post.has_workspace(
                (#[trigger] post.monitors@[a]).workspace,
            ) && post.workspace_at(post.monitors@[a].workspace).on_monitor == Some(
                post.monitors@[a].id,
            ) by {
                assert(pre.has_workspace(pre.monitors@[a].workspace));
                assert(pre.workspace_at(pre.monitors@[a].workspace).on_monitor == Some(
                    pre.monitors@[a].id,
                ));
            }
        }
        assert(post.wf_active()) by {
            match pre.active_window {
                Some(a) => {
                    assert(pre.has_window(a));
                    assert(win_has(post.windows@, a));
                },
                None => {},
            }
        }
    }
}

/// The exact effect of a full arrangement of workspace `ws_id`: the
/// position pass, then — when the globally focused window is a tiled
/// window of this workspace — the visibility pass for it, then the apply
/// pass.
pub open spec fn arrange_rel(pre: WindowManager, post: WindowManager, ws_id: Id) -> bool {
    exists|mid1: WindowManager, mid2: WindowManager|
        #![trigger cache_rel(pre, mid1, ws_id), positions_rel(mid2, post, ws_id)]
        {
            &&& cache_rel(pre, mid1, ws_id)
            &&& (match pre.active_window {
                Some(aw) => {
                    if win_at(pre.windows@, aw).workspace == ws_id && win_at(
                        pre.windows@,
                        aw,
                    ).spec_is_tiled() {
                        visible_rel(mid1, mid2, aw)
                    } else {
                        mid2 == mid1
                    }
                },
                None => mid2 == mid1,
            })
            &&& positions_rel(mid2, post, ws_id)
        }
}

/// Recomputes the workspace's tiled geometry, keeps the focused window
/// scrolled into view, and pushes the geometry changes out as requests.
pub fn arrange_windows_workspace(wm: &mut WindowManager, workspace_id: Id)
    requires
        old(wm).wf(),
        old(wm).has_workspace(workspace_id),
    ensures
        final(wm).wf(),
        arrange_rel(*old(wm), *final(wm), workspace_id),
        forall|id: Id| final(wm).has_workspace(id) == old(wm).has_workspace(id),
        final(wm).active_workspace == old(wm).active_workspace,
        final(wm).active_window == old(wm).active_window,
{
    let ghost pre = *wm;
    update_cached_positions(wm, workspace_id);
    let ghost mid1 = *wm;
    proof {
        assert(mid1.has_workspace(workspace_id));
        lemma_win_lookup_congruent(pre.windows@, mid1.windows@);
    }
    let mut target: Option<Id> = None;
    match wm.active_window() {
        Some(w) => {
            if w.workspace == workspace_id && w.is_tiled() {
                target = Some(w.id);
            }
        },
        None => {},
    }
    proof {
        match pre.active_window {
            Some(aw) => {
                assert(mid1.active_window == Some(aw));
                assert(win_at(mid1.windows@, aw) == mid1.windows@[win_idx(pre.windows@, aw)]);
                assert(win_at(mid1.windows@, aw).workspace == win_at(pre.windows@, aw).workspace);
                assert(win_at(mid1.windows@, aw).window_info == win_at(
                    pre.windows@,
                    aw,
                ).window_info);
                if win_at(pre.windows@, aw).workspace == workspace_id && win_at(
                    pre.windows@,
                    aw,
                ).spec_is_tiled() {
                    assert(target == Some(aw));
                } else {
                    assert(target is None);
                }
            },
            None => {
                assert(target is None);
            },
        }
    }
    match target {
        Some(id) => {
            ensure_window_visible(wm, id);
        },
        None => {},
    }
    let ghost mid2 = *wm;
    proof {
        assert(mid2.has_workspace(workspace_id)) by {
            let i = ws_idx(mid1.workspaces@, workspace_id);
            mid1.lemma_workspace_at(i);
            assert(mid2.workspaces@[i].id == workspace_id);
        }
    }
    update_window_positions(wm, workspace_id);
    proof {
        assert(cache_rel(pre, mid1, workspace_id));
        assert(arrange_rel(pre, *wm, workspace_id));
        // Workspace ids are untouched by all three passes.
        assert forall|id: Id| (*wm).has_workspace(id) == pre.has_workspace(id) by {
            assert(mid1.workspaces@ == pre.workspaces@);
            assert((*wm).workspaces@ == mid2.workspaces@);
            if pre.has_workspace(id) {
                let i = ws_idx(pre.workspaces@, id);
                assert(pre.workspaces@[i].id == id);
                assert(mid2.workspaces@[i].id == id);
            }
            if mid2.has_workspace(id) {
                let i = ws_idx(mid2.workspaces@, id);
                assert(mid2.workspaces@[i].id == id);
                assert(pre.workspaces@[i].id == id);
            }
        }
    }
}

/// Arranges the currently active workspace.
pub fn arrange_windows(wm: &mut WindowManager)
    requires
        old(wm).wf(),
    ensures
        final(wm).wf(),
        arrange_rel(*old(wm), *final(wm), old(wm).active_workspace),
        forall|id: Id| final(wm).has_workspace(id) == old(wm).has_workspace(id),
        final(wm).active_workspace == old(wm).active_workspace,
        final(wm).active_window == old(wm).active_window,
{
    let workspace_id = wm.active_workspace;
    arrange_windows_workspace(wm, workspace_id)
}

impl WindowManager {
    /// Arranges the given workspace; a stale id fails without effect.
    pub fn arrange_windows(&mut self, workspace_id: Id) -> (r: Result<(), crate::entities::WmError>)
        requires
            old(self).wf(),
        ensures
            final(self).wf(),
            match r {
                Ok(()) => old(self).has_workspace(workspace_id) && arrange_rel(
                    *old(self),
                    *final(self),
                    workspace_id,
                ),
                Err(e) => {
                    &&& e == crate::entities::WmError::NotFound
                    &&& !old(self).has_workspace(workspace_id)
                    &&& *final(self) == *old(self)
                },
            },
    {
        match self.workspace_index(workspace_id) {
            Some(i) => {
                proof {
                    self.lemma_workspace_at(i as int);
                }
                arrange_windows_workspace(self, workspace_id);
                Ok(())
            },
            None => Err(crate::entities::WmError::NotFound),
        }
    }
}

/// Pointer-driven resizing is not wired up: the gesture is accepted and
/// the state is left untouched.
pub fn apply_resize_by(wm: &mut WindowManager, displacement: crate::geometry::Displacement)
    ensures
        *final(wm) == *old(wm),
{
    let _ = displacement;
    let _ = wm;
}

/// The tiled subsequence of a list prefix is a prefix of the tiled
/// subsequence of the whole list.
pub proof fn lemma_tiled_prefix(ws: Seq<Window>, ids: Seq<Id>, n: int)
    requires
        0 <= n <= ids.len(),
    ensures
        tiled_filter(ws, ids.subrange(0, n)).len() <= tiled_filter(ws, ids).len(),
        tiled_filter(ws, ids.subrange(0, n)) == tiled_filter(ws, ids).subrange(
            0,
            tiled_filter(ws, ids.subrange(0, n)).len() as int,
        ),
    decreases ids.len() - n,
{
    let t = tiled_filter(ws, ids);
    if n == ids.len() {
        assert(ids.subrange(0, n) =~= ids);
        assert(t.subrange(0, t.len() as int) =~= t);
    } else {
        lemma_tiled_prefix(ws, ids, n + 1);
        let fn0 = tiled_filter(ws, ids.subrange(0, n));
        let fn1 = tiled_filter(ws, ids.subrange(0, n + 1));
        assert(ids.subrange(0, n + 1).drop_last() =~= ids.subrange(0, n));
        assert(ids.subrange(0, n + 1).last() == ids[n]);
        if win_has(ws, ids[n]) && win_at(ws, ids[n]).spec_is_tiled() {
            assert(fn1 == fn0.push(ids[n]));
            assert(fn0 =~= fn1.subrange(0, fn0.len() as int));
            assert(fn0 =~= t.subrange(0, fn1.len() as int).subrange(0, fn0.len() as int));
            assert(fn0 =~= t.subrange(0, fn0.len() as int)) by {
                t.lemma_slice_of_slice(0, fn1.len() as int, 0, fn0.len() as int);
            }
        } else {
            assert(fn1 == fn0);
        }
    }
}

/// Two window stores with the same ids and the same visible width for
/// each id give every id list the same combined width.
pub proof fn lemma_width_sum_congruent(ws1: Seq<Window>, ws2: Seq<Window>, tids: Seq<Id>)
    requires
        forall|id: Id| #[trigger] win_has(ws1, id) == win_has(ws2, id),
        forall|id: Id|
            #[trigger] win_has(ws1, id) ==> win_at(ws1, id).spec_width() == win_at(
                ws2,
                id,
            ).spec_width(),
        forall|k: int| 0 <= k < tids.len() ==> win_has(ws1, #[trigger] tids[k]),
    ensures
        width_sum(ws1, tids) == width_sum(ws2, tids),
    decreases tids.len(),
{
    if tids.len() > 0 {
        assert forall|k: int| 0 <= k < tids.drop_last().len() implies win_has(
            ws1,
            #[trigger] tids.drop_last()[k],
        ) by {
            assert(tids.drop_last()[k] == tids[k]);
        }
        lemma_width_sum_congruent(ws1, ws2, tids.drop_last());
        assert(win_has(ws1, tids.last()));
    }
}

/// Arrangement is deterministic and idempotent: given a fixed window
/// order and fixed widths, the position pass puts the tiled window at
/// position `k` at the monitor's left edge plus the widths of the `k`
/// windows before it — nothing else enters — and, since the pass changes
/// neither the order nor any width, running it again computes exactly the
/// same offsets.
pub proof fn lemma_arrangement_deterministic(
    pre: WindowManager,
    post: WindowManager,
    post2: WindowManager,
    ws_id: Id,
)
    requires
        pre.wf(),
        pre.has_workspace(ws_id),
        cache_rel(pre, post, ws_id),
        cache_rel(post, post2, ws_id),
    ensures
        ({
            let ws = ws_at(pre.workspaces@, ws_id);
            let t = tiled_filter(pre.windows@, ws.windows@);
            &&& tiled_filter(post.windows@, ws_at(post.workspaces@, ws_id).windows@) == t
            &&& forall|k: int|
                0 <= k < t.len() ==> win_at(post.windows@, #[trigger] t[k]).workspace_geo.x
                    == mon_left_of(pre, ws) + width_sum(pre.windows@, t.subrange(0, k))
            &&& forall|k: int|
                0 <= k < t.len() ==> win_at(post2.windows@, #[trigger] t[k]).workspace_geo.x
                    == win_at(post.windows@, t[k]).workspace_geo.x
        }),
{
    let ws = ws_at(pre.workspaces@, ws_id);
    let t = tiled_filter(pre.windows@, ws.windows@);
    assert(post.workspaces@ == pre.workspaces@);
    assert(ws_at(post.workspaces@, ws_id) == ws);
    lemma_win_lookup_congruent(pre.windows@, post.windows@);
    assert forall|id: Id| #[trigger] win_has(pre.windows@, id) implies win_at(
        pre.windows@,
        id,
    ).spec_is_tiled() == win_at(post.windows@, id).spec_is_tiled() && win_at(
        pre.windows@,
        id,
    ).spec_width() == win_at(post.windows@, id).spec_width() by {
        let i = win_idx(pre.windows@, id);
        assert(win_at(post.windows@, id) == post.windows@[i]);
        assert(post.windows@[i].window_info == pre.windows@[i].window_info);
    }
    lemma_tiled_filter_congruent(pre.windows@, post.windows@, ws.windows@);
    assert forall|i: int, j: int| 0 <= i < j < post.windows@.len() implies (
    #[trigger] post.windows@[i]).id != (#[trigger] post.windows@[j]).id by {
        assert(pre.windows@[i].id != pre.windows@[j].id);
    }
    lemma_win_lookup_congruent(post.windows@, post2.windows@);
    assert forall|k: int| 0 <= k < t.len() implies win_at(
        post2.windows@,
        #[trigger] t[k],
    ).workspace_geo.x == win_at(post.windows@, t[k]).workspace_geo.x by {
        assert(win_has(pre.windows@, t[k])) by {
            lemma_tiled_filter_props(pre.windows@, ws.windows@);
        }
        assert(win_at(post2.windows@, t[k]).workspace_geo.x == mon_left_of(
            post,
            ws_at(post.workspaces@, ws_id),
        ) + width_sum(post.windows@, t.subrange(0, k)));
        assert(mon_left_of(post, ws_at(post.workspaces@, ws_id)) == mon_left_of(pre, ws)) by {
            assert(post.monitors@ == pre.monitors@);
        }
        assert(width_sum(post.windows@, t.subrange(0, k)) == width_sum(
            pre.windows@,
            t.subrange(0, k),
        )) by {
            lemma_tiled_filter_props(pre.windows@, ws.windows@);
            assert forall|k2: int| 0 <= k2 < t.subrange(0, k).len() implies win_has(
                pre.windows@,
                #[trigger] t.subrange(0, k)[k2],
            ) by {
                assert(t.subrange(0, k)[k2] == t[k2]);
            }
            lemma_width_sum_congruent(pre.windows@, post.windows@, t.subrange(0, k));
        }
    }
}

} // verus!
