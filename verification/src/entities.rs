//! The entities the manager owns: windows, workspaces, monitors, the
//! pointer-gesture state, outbound requests and the error type.

use crate::geometry::{Point, Rectangle, Size, wlr_box};
use crate::id::{Id, IdGenerator};
use crate::limits::{MAX_DIM, POS_LIMIT, clamp_coord, clamp_pos};
use crate::surface::Surface;
use vstd::prelude::*;

verus! {

/// Why an operation left the store untouched.
#[derive(Debug, PartialEq, Eq, Structural, Clone, Copy)]
pub enum WmError {
    /// An entity id was not in the store.
    NotFound,
    /// The operation would have broken a store invariant, for instance a
    /// duplicate window id, a window outside its workspace's list, or a
    /// value beyond the layout limits.
    InvariantViolation,
}

/// Outbound work for the embedder: the manager mutates only its own state
/// and queues these for the compositor side to perform.
#[derive(Debug, PartialEq, Eq, Clone)]
pub enum Request {
    /// Ask the client behind the window to take a new size.
    Resize { window: Id, size: Size },
    /// Hand keyboard focus to the window.
    Focus { window: Id },
    /// The window's rendered geometry changed; repaint it.
    Damage { window: Id },
    /// Spawn the application-launcher helper, detached.
    SpawnLauncher,
}

/// Whether a key went down or up.
#[derive(Debug, PartialEq, Eq, Structural, Clone, Copy)]
pub enum KeyState {
    Released,
    Pressed,
}

/// An in-progress pointer-driven resize.
#[derive(Debug, PartialEq, Eq, Structural, Clone, Copy)]
pub struct ResizeGesture {
    pub window: Id,
    pub top_left: Point,
    pub size: Size,
}

/// An in-progress pointer-driven move.
#[derive(Debug, PartialEq, Eq, Structural, Clone, Copy)]
pub struct MoveGesture {
    pub window: Id,
    pub top_left: Point,
}

/// The pointer gesture currently in progress, if any.
#[derive(Debug, PartialEq, Eq, Structural, Clone, Copy)]
pub enum Gesture {
    Resize(ResizeGesture),
    Move(MoveGesture),
    Idle,
}

/// Application class excluded from tiling.
pub open spec fn excluded_app_id() -> Seq<char> {
    "ulauncher"@
}

/// A managed window: a surface plus its place in the tiling model.
#[derive(Debug, Clone)]
pub struct Window {
    pub id: Id,
    /// Id of the owning workspace. The workspace's ordered list is the
    /// authoritative side of this relation.
    pub workspace: Id,
    /// Geometry the arrangement engine last computed for this window, in
    /// workspace coordinates (not yet adjusted by the scroll offset).
    pub workspace_geo: wlr_box,
    /// What the compositor reports about the window's surface.
    pub window_info: Surface,
    /// Whether a pointer gesture is dragging the window right now.
    pub is_dragged: bool,
}

impl Window {
    /// The window's data stays inside the layout bounds.
    pub open spec fn wf(self) -> bool {
        &&& self.window_info.wf()
        &&& -POS_LIMIT <= self.workspace_geo.x <= POS_LIMIT
        &&& -POS_LIMIT <= self.workspace_geo.y <= POS_LIMIT
        &&& 0 <= self.workspace_geo.width <= MAX_DIM
        &&& 0 <= self.workspace_geo.height <= MAX_DIM
    }

    /// Visible width of the window, as the layout uses it.
    pub open spec fn spec_width(self) -> int {
        self.window_info.geo.width - self.window_info.shadow.width
    }

    /// Visible height of the window.
    pub open spec fn spec_height(self) -> int {
        self.window_info.geo.height - self.window_info.shadow.height
    }

    /// Rendered left edge: the surface position without the shadow offset.
    pub open spec fn spec_x(self) -> int {
        self.window_info.geo.x - self.window_info.shadow.width / 2
    }

    /// Rendered top edge.
    pub open spec fn spec_y(self) -> int {
        self.window_info.geo.y - self.window_info.shadow.height / 2
    }

    /// Whether the window takes part in tiling: it must be a toplevel, not
    /// fullscreen, and not of the excluded application class.
    pub open spec fn spec_is_tiled(self) -> bool {
        &&& self.window_info.app_id@ != excluded_app_id()
        &&& self.window_info.toplevel
        &&& !self.window_info.fullscreen
    }

    pub fn new(id_generator: &mut IdGenerator, workspace: Id, window_info: Surface) -> (r: Window)
        requires
            old(id_generator).next_id < Id::MAX,
        ensures
            r.id == old(id_generator).next_id,
            final(id_generator).next_id == r.id + 1,
            r.workspace == workspace,
            r.workspace_geo == window_info.geo,
            r.window_info == window_info,
            !r.is_dragged,
    {
        let geo = window_info.geo;
        Window {
            id: id_generator.next_id(),
            workspace,
            workspace_geo: geo,
            window_info,
            is_dragged: false,
        }
    }

    pub fn x(&self) -> (r: i32)
        requires
            self.window_info.wf(),
        ensures
            r == self.spec_x(),
    {
        self.window_info.geo.x - self.window_info.shadow_displacement().dx
    }

    pub fn y(&self) -> (r: i32)
        requires
            self.window_info.wf(),
        ensures
            r == self.spec_y(),
    {
        self.window_info.geo.y - self.window_info.shadow_displacement().dy
    }

    pub fn height(&self) -> (r: i32)
        requires
            self.window_info.wf(),
        ensures
            r == self.spec_height(),
    {
        self.window_info.height() as i32
    }

    pub fn width(&self) -> (r: i32)
        requires
            self.window_info.wf(),
        ensures
            r == self.spec_width(),
    {
        self.window_info.width() as i32
    }

    pub fn rendered_top_left(&self) -> (r: Point)
        requires
            self.window_info.wf(),
        ensures
            r.x == self.spec_x(),
            r.y == self.spec_y(),
    {
        Point { x: self.x(), y: self.y() }
    }

    pub fn rendered_size(&self) -> (r: Size)
        requires
            self.window_info.wf(),
        ensures
            r.width == self.spec_width(),
            r.height == self.spec_height(),
    {
        Size { width: self.width(), height: self.height() }
    }

    /// Largest height the layout may give the window: the client's stated
    /// maximum, but never less than the current height.
    pub fn max_height(&self) -> (r: i32)
        requires
            self.window_info.wf(),
        ensures
            r == if self.window_info.max_height >= self.spec_height() {
                self.window_info.max_height as int
            } else {
                self.spec_height()
            },
    {
        let stated = self.window_info.max_height() as i32;
        let current = self.height();
        if stated >= current {
            stated
        } else {
            current
        }
    }

    pub fn min_height(&self) -> (r: i32)
        requires
            self.window_info.wf(),
        ensures
            r == self.window_info.min_height,
    {
        self.window_info.min_height() as i32
    }

    /// Largest width the layout may give the window, never less than the
    /// current width.
    pub fn max_width(&self) -> (r: i32)
        requires
            self.window_info.wf(),
        ensures
            r == if self.window_info.max_width >= self.spec_width() {
                self.window_info.max_width as int
            } else {
                self.spec_width()
            },
    {
        let stated = self.window_info.max_width() as i32;
        let current = self.width();
        if stated >= current {
            stated
        } else {
            current
        }
    }

    pub fn min_width(&self) -> (r: i32)
        requires
            self.window_info.wf(),
        ensures
            r == self.window_info.min_width,
    {
        self.window_info.min_width() as i32
    }

    /// Marks a resize as pending and returns the request to send: the
    /// asked-for visible size plus the shadow, as the client counts it.
    pub fn resize(&mut self, size: Size) -> (r: Request)
        requires
            old(self).window_info.wf(),
            0 <= size.width <= MAX_DIM,
            0 <= size.height <= MAX_DIM,
        ensures
            r == (Request::Resize {
                window: old(self).id,
                size: Size {
                    width: (size.width + old(self).window_info.shadow.width) as i32,
                    height: (size.height + old(self).window_info.shadow.height) as i32,
                },
            }),
            *final(self) == (Window {
                window_info: Surface { is_pending_serial: true, ..old(self).window_info },
                ..*old(self)
            }),
    {
        let new_geo = self.window_info.geo.with_size(size.add(self.window_info.shadow_size()));
        self.window_info.is_pending_serial = true;
        Request::Resize { window: self.id, size: new_geo.size() }
    }

    /// Moves the surface so its visible content sits at `top_left`,
    /// saturating at the layout's coordinate bound.
    pub fn move_to(&mut self, top_left: Point)
        requires
            old(self).window_info.wf(),
            -0x4000_0000 <= top_left.x <= 0x4000_0000,
            -0x4000_0000 <= top_left.y <= 0x4000_0000,
        ensures
            *final(self) == (Window {
                window_info: Surface {
                    geo: wlr_box {
                        x: clamp_pos(top_left.x - old(self).window_info.shadow.width / 2) as i32,
                        y: clamp_pos(top_left.y - old(self).window_info.shadow.height / 2) as i32,
                        ..old(self).window_info.geo
                    },
                    ..old(self).window_info
                },
                ..*old(self)
            }),
    {
        let displaced = top_left.minus(self.window_info.shadow_displacement());
        self.window_info.geo.x = clamp_coord(displaced.x);
        self.window_info.geo.y = clamp_coord(displaced.y);
    }

    /// Whether the window's data is inside the layout bounds; the runtime
    /// side of [`Window::wf`].
    pub fn check_bounds(&self) -> (r: bool)
        ensures
            r == self.wf(),
    {
        let s = &self.window_info;
        let g = &self.workspace_geo;
        0 <= s.geo.width && s.geo.width <= MAX_DIM && 0 <= s.geo.height && s.geo.height <= MAX_DIM
            && -POS_LIMIT <= s.geo.x && s.geo.x <= POS_LIMIT && -POS_LIMIT <= s.geo.y && s.geo.y
            <= POS_LIMIT && 0 <= s.shadow.width && s.shadow.width <= s.geo.width && 0
            <= s.shadow.height && s.shadow.height <= s.geo.height && s.max_width <= MAX_DIM as u32
            && s.max_height <= MAX_DIM as u32 && s.min_width <= MAX_DIM as u32 && s.min_height
            <= MAX_DIM as u32 && -POS_LIMIT <= g.x && g.x <= POS_LIMIT && -POS_LIMIT <= g.y && g.y
            <= POS_LIMIT && 0 <= g.width && g.width <= MAX_DIM && 0 <= g.height && g.height
            <= MAX_DIM
    }

    /// Whether the window takes part in tiling.
    pub fn is_tiled(&self) -> (r: bool)
        ensures
            r == self.spec_is_tiled(),
    {
        let excluded: String = "ulauncher".to_owned();
        !(self.window_info.app_id == excluded) && self.window_info.is_toplevel()
            && !self.window_info.is_fullscreen()
    }
}

/// An ordered collection of windows, shown on at most one monitor.
#[derive(Debug, Clone)]
pub struct Workspace {
    pub id: Id,
    /// The monitor currently showing this workspace, if any.
    pub on_monitor: Option<Id>,
    /// Horizontal scroll offset of the tiled strip.
    pub scroll_left: i32,
    /// Window ids in tiling order, left to right.
    pub windows: Vec<Id>,
    /// The window focus returns to within this workspace.
    pub active_window: Option<Id>,
}

impl Workspace {
    pub fn new(id_generator: &mut IdGenerator) -> (r: Workspace)
        requires
            old(id_generator).next_id < Id::MAX,
        ensures
            r.id == old(id_generator).next_id,
            final(id_generator).next_id == r.id + 1,
            r.on_monitor is None,
            r.scroll_left == 0,
            r.windows@ =~= Seq::<Id>::empty(),
            r.active_window is None,
    {
        Workspace {
            id: id_generator.next_id(),
            on_monitor: None,
            scroll_left: 0,
            windows: Vec::new(),
            active_window: None,
        }
    }

    /// First index of `window` in the ordered list, if it is there.
    pub fn get_window_index(&self, window: Id) -> (r: Option<usize>)
        ensures
            match r {
                Some(i) => i < self.windows@.len() && self.windows@[i as int] == window && (forall|
                    j: int,
                |
                    0 <= j < i ==> self.windows@[j] != window),
                None => forall|j: int| 0 <= j < self.windows@.len() ==> self.windows@[j] != window,
            },
    {
        let mut i: usize = 0;
        while i < self.windows.len()
            invariant
                i <= self.windows@.len(),
                forall|j: int| 0 <= j < i ==> self.windows@[j] != window,
            decreases self.windows@.len() - i,
        {
            if self.windows[i] == window {
                return Some(i);
            }
            i = i + 1;
        }
        None
    }

    /// Swaps the positions of two windows that are both in the list.
    pub fn swap_windows(&mut self, a: Id, b: Id)
        requires
            old(self).windows@.contains(a),
            old(self).windows@.contains(b),
        ensures
            exists|ia: int, ib: int|
                {
                    &&& 0 <= ia < old(self).windows@.len()
                    &&& 0 <= ib < old(self).windows@.len()
                    &&& old(self).windows@[ia] == a
                    &&& old(self).windows@[ib] == b
                    &&& final(self).windows@ =~= old(self).windows@.update(ia, b).update(ib, a)
                },
            *final(self) == (Workspace { windows: final(self).windows, ..*old(self) }),
    {
        proof {
            let ia = choose|ia: int| 0 <= ia < self.windows@.len() && self.windows@[ia] == a;
            assert(self.windows@[ia] == a);
        }
        let a_raw_index = match self.get_window_index(a) {
            Some(i) => i,
            None => {
                proof {
                    let ia = choose|ia: int|
                        0 <= ia < self.windows@.len() && self.windows@[ia] == a;
                    assert(self.windows@[ia] == a);
                }
                return ;
            },
        };
        let b_raw_index = match self.get_window_index(b) {
            Some(i) => i,
            None => {
                proof {
                    let ib = choose|ib: int|
                        0 <= ib < self.windows@.len() && self.windows@[ib] == b;
                    assert(self.windows@[ib] == b);
                }
                return ;
            },
        };
        let wa = self.windows[a_raw_index];
        let wb = self.windows[b_raw_index];
        self.windows.set(a_raw_index, wb);
        self.windows.set(b_raw_index, wa);
    }
}

/// A physical output showing one workspace.
#[derive(Debug, Clone)]
pub struct Monitor {
    pub id: Id,
    /// The workspace this monitor shows.
    pub workspace: Id,
    /// The monitor's rectangle in the global coordinate space.
    pub extents: wlr_box,
}

impl Monitor {
    pub fn new(id_generator: &mut IdGenerator, workspace: Id, extents: wlr_box) -> (r: Monitor)
        requires
            old(id_generator).next_id < Id::MAX,
        ensures
            r.id == old(id_generator).next_id,
            final(id_generator).next_id == r.id + 1,
            r.workspace == workspace,
            r.extents == extents,
    {
        Monitor { id: id_generator.next_id(), workspace, extents }
    }

    pub fn extents(&self) -> (r: wlr_box)
        ensures
            r == self.extents,
    {
        self.extents
    }
}

} // verus!
