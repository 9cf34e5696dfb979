//! Numeric bounds the layout engine works under.
//!
//! Screen coordinates are `i32` pixels. The manager keeps every stored
//! dimension, coordinate and scroll offset inside the bounds below, so each
//! addition or subtraction the arrangement engine performs provably fits in
//! an `i32`.

use vstd::prelude::*;

verus! {

/// Largest width or height, in pixels, a window or monitor may report.
pub const MAX_DIM: i32 = 0x10_0000;

/// Largest coordinate a monitor's top-left corner may have.
pub const MAX_COORD: i32 = 0x10_0000;

/// Bound on stored positions and scroll offsets. Large enough for any
/// monitor coordinate plus the combined width of a full window store.
pub const POS_LIMIT: i32 = 0x2000_0000;

/// Most windows the store accepts at a time.
pub const MAX_WINDOWS: usize = 256;

/// Size reported for a surface that states no maximum.
pub const MAX_SIZE: u32 = 999999;

/// Size reported for a surface that states no minimum.
pub const MIN_SIZE: u32 = 0;

/// `v` saturated into the stored-position range `[-POS_LIMIT, POS_LIMIT]`.
pub open spec fn clamp_pos(v: int) -> int {
    if v < -POS_LIMIT {
        -POS_LIMIT as int
    } else if v > POS_LIMIT {
        POS_LIMIT as int
    } else {
        v
    }
}

/// Saturates a coordinate into the stored-position range.
pub fn clamp_coord(v: i32) -> (r: i32)
    ensures
        r == clamp_pos(v as int),
{
    if v < -POS_LIMIT {
        -POS_LIMIT
    } else if v > POS_LIMIT {
        POS_LIMIT
    } else {
        v
    }
}

/// The bounds fit together: a monitor edge plus the width of every window
/// the store can hold stays within [`POS_LIMIT`].
pub proof fn lemma_limits_consistent()
    ensures
        MAX_COORD + MAX_WINDOWS * MAX_DIM <= POS_LIMIT,
        MAX_SIZE <= MAX_DIM,
{
}

} // verus!
