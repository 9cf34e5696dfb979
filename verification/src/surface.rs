//! Plain-data model of a compositor surface.
//!
//! The compositor owns the real surface; the manager only reads a few of
//! its properties. A [`Surface`] holds those properties as plain values: the
//! embedder fills them in from the surface when it reports an event, and
//! keeps them current. Window-frame shadows make a surface's buffer larger
//! than its visible geometry; the difference is recorded in `shadow`.

use crate::geometry::{Displacement, Size, wlr_box};
use crate::id::Id;
use crate::limits::{MAX_DIM, MAX_SIZE, MIN_SIZE, POS_LIMIT};
use vstd::prelude::*;

verus! {

/// What the manager knows of one surface.
#[derive(Debug, Clone)]
pub struct Surface {
    /// Back-reference to the window built on this surface.
    pub window_id: Id,
    /// Whether the surface is currently mapped.
    pub mapped: bool,
    /// Current geometry of the surface, in rendered coordinates.
    pub geo: wlr_box,
    /// Serial of a resize request the client has not acknowledged yet.
    pub pending_serial: u32,
    pub is_pending_serial: bool,
    /// Application class reported by the surface; empty when it has none.
    pub app_id: String,
    /// Window title reported by the surface; empty when it has none.
    pub title: String,
    /// Whether the surface plays the toplevel role.
    pub toplevel: bool,
    /// Whether the surface is fullscreen.
    pub fullscreen: bool,
    /// How much larger the surface buffer is than its visible geometry.
    pub shadow: Size,
    /// Largest width the client accepts; [`MAX_SIZE`] when unconstrained.
    pub max_width: u32,
    /// Largest height the client accepts; [`MAX_SIZE`] when unconstrained.
    pub max_height: u32,
    /// Smallest width the client accepts; [`MIN_SIZE`] when unconstrained.
    pub min_width: u32,
    /// Smallest height the client accepts; [`MIN_SIZE`] when unconstrained.
    pub min_height: u32,
}

impl Surface {
    /// The bounds under which the layout arithmetic on this surface is safe:
    /// dimensions are within the layout limits, the position is within the
    /// coordinate budget, and the shadow never exceeds the geometry.
    pub open spec fn wf(self) -> bool {
        &&& 0 <= self.geo.width <= MAX_DIM
        &&& 0 <= self.geo.height <= MAX_DIM
        &&& -POS_LIMIT <= self.geo.x <= POS_LIMIT
        &&& -POS_LIMIT <= self.geo.y <= POS_LIMIT
        &&& 0 <= self.shadow.width <= self.geo.width
        &&& 0 <= self.shadow.height <= self.geo.height
        &&& self.max_width <= MAX_DIM
        &&& self.max_height <= MAX_DIM
        &&& self.min_width <= MAX_DIM
        &&& self.min_height <= MAX_DIM
    }

    /// Whether the surface's data is inside the layout bounds; the runtime
    /// side of [`Surface::wf`].
    pub fn check_bounds(&self) -> (r: bool)
        ensures
            r == self.wf(),
    {
        0 <= self.geo.width && self.geo.width <= MAX_DIM && 0 <= self.geo.height && self.geo.height
            <= MAX_DIM && -POS_LIMIT <= self.geo.x && self.geo.x <= POS_LIMIT && -POS_LIMIT
            <= self.geo.y && self.geo.y <= POS_LIMIT && 0 <= self.shadow.width && self.shadow.width
            <= self.geo.width && 0 <= self.shadow.height && self.shadow.height <= self.geo.height
            && self.max_width <= MAX_DIM as u32 && self.max_height <= MAX_DIM as u32
            && self.min_width <= MAX_DIM as u32 && self.min_height <= MAX_DIM as u32
    }

    pub fn app_id(&self) -> (r: String)
        ensures
            r@ == self.app_id@,
    {
        self.app_id.clone()
    }

    pub fn title(&self) -> (r: String)
        ensures
            r@ == self.title@,
    {
        self.title.clone()
    }

    pub fn is_toplevel(&self) -> (r: bool)
        ensures
            r == self.toplevel,
    {
        self.toplevel
    }

    pub fn is_fullscreen(&self) -> (r: bool)
        ensures
            r == self.fullscreen,
    {
        self.fullscreen
    }

    pub fn max_height(&self) -> (r: u32)
        ensures
            r == self.max_height,
    {
        self.max_height
    }

    pub fn max_width(&self) -> (r: u32)
        ensures
            r == self.max_width,
    {
        self.max_width
    }

    pub fn min_height(&self) -> (r: u32)
        ensures
            r == self.min_height,
    {
        self.min_height
    }

    pub fn min_width(&self) -> (r: u32)
        ensures
            r == self.min_width,
    {
        self.min_width
    }

    /// Visible height of the surface: its geometry less the shadow.
    pub fn height(&self) -> (r: u32)
        requires
            0 <= self.shadow.height <= self.geo.height,
        ensures
            r == self.geo.height - self.shadow.height,
    {
        (self.geo.height - self.shadow.height) as u32
    }

    /// Visible width of the surface: its geometry less the shadow.
    pub fn width(&self) -> (r: u32)
        requires
            0 <= self.shadow.width <= self.geo.width,
        ensures
            r == self.geo.width - self.shadow.width,
    {
        (self.geo.width - self.shadow.width) as u32
    }

    pub fn shadow_size(&self) -> (r: Size)
        ensures
            r == self.shadow,
    {
        self.shadow
    }

    /// Half the shadow on each axis: how far the visible content sits from
    /// the buffer's top-left corner.
    pub fn shadow_displacement(&self) -> (r: Displacement)
        requires
            self.shadow.width >= 0,
            self.shadow.height >= 0,
        ensures
            r.dx == self.shadow.width / 2,
            r.dy == self.shadow.height / 2,
    {
        Displacement { dx: self.shadow.width / 2, dy: self.shadow.height / 2 }
    }
}

impl Default for Surface {
    /// An unmapped surface with no role, no size constraints and no shadow.
    fn default() -> (r: Surface)
        ensures
            r.window_id == 0,
            !r.mapped,
            r.geo == (wlr_box { x: 0, y: 0, width: 0, height: 0 }),
            r.pending_serial == 0,
            !r.is_pending_serial,
            r.app_id@.len() == 0,
            r.title@.len() == 0,
            !r.toplevel,
            !r.fullscreen,
            r.shadow == (Size { width: 0, height: 0 }),
            r.max_width == MAX_SIZE,
            r.max_height == MAX_SIZE,
            r.min_width == MIN_SIZE,
            r.min_height == MIN_SIZE,
            r.wf(),
    {
        Surface {
            window_id: 0,
            mapped: false,
            geo: wlr_box { x: 0, y: 0, width: 0, height: 0 },
            pending_serial: 0,
            is_pending_serial: false,
            app_id: String::new(),
            title: String::new(),
            toplevel: false,
            fullscreen: false,
            shadow: Size { width: 0, height: 0 },
            max_width: MAX_SIZE,
            max_height: MAX_SIZE,
            min_width: MIN_SIZE,
            min_height: MIN_SIZE,
        }
    }
}

} // verus!
