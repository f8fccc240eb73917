//! The grid cursor.
//!
//! The cursor marks the cell that placement and removal commands act
//! on.  Directional input moves it by one cell per press — ten with the
//! speed modifier held — and its position always clamps back into the
//! grid.  The cursor also carries the opaque handles of its own visual
//! marker and of the camera that follows it; the rendering collaborator
//! keeps both centered on the cursor's cell.

use vstd::prelude::*;
use crate::grid::GridPos;
use crate::MAX_WORLD_COORD;

verus! {

/// The player's grid cursor and the visual entities that track it.
pub struct Cursor {
    /// The cell the cursor points at.
    pub pos: GridPos,
    /// Opaque handle to the cursor's visual marker.
    pub cursor: u64,
    /// Opaque handle to the camera entity that follows the cursor.
    pub camera: u64,
}

/// A coordinate clamped into `[0, MAX_WORLD_COORD]`.
pub open spec fn clamp_coord(v: int) -> u32 {
    if v < 0 {
        0
    } else if v > MAX_WORLD_COORD {
        MAX_WORLD_COORD
    } else {
        v as u32
    }
}

/// The signed cell delta of one input on one axis: `+1` for the
/// positive key, `-1` for the negative key (they cancel when both are
/// pressed), times ten when the speed modifier is held.
pub open spec fn move_delta(pos_key: bool, neg_key: bool, fast: bool) -> int {
    ((if pos_key {
        1int
    } else {
        0int
    }) - (if neg_key {
        1int
    } else {
        0int
    })) * (if fast {
        10int
    } else {
        1int
    })
}

/// Moves the cursor by one step of directional input: `right`/`left`
/// on the X axis and `up`/`down` on the Y axis, ten cells per axis
/// instead of one while `fast` is held, clamping the result into the
/// grid.  The visual handles are untouched.
pub fn update_cursor(cursor: &mut Cursor, right: bool, left: bool, up: bool, down: bool, fast: bool)
    requires
        old(cursor).pos.in_bounds(),
    ensures
        final(cursor).pos.x == clamp_coord(old(cursor).pos.x + move_delta(right, left, fast)),
        final(cursor).pos.y == clamp_coord(old(cursor).pos.y + move_delta(up, down, fast)),
        final(cursor).pos.in_bounds(),
        final(cursor).cursor == old(cursor).cursor,
        final(cursor).camera == old(cursor).camera,
{
    let scale: i64 = if fast {
        10
    } else {
        1
    };
    let dx: i64 = ((if right {
        1i64
    } else {
        0i64
    }) - (if left {
        1i64
    } else {
        0i64
    })) * scale;
    let dy: i64 = ((if up {
        1i64
    } else {
        0i64
    }) - (if down {
        1i64
    } else {
        0i64
    })) * scale;
    let nx: i64 = cursor.pos.x as i64 + dx;
    let ny: i64 = cursor.pos.y as i64 + dy;
    cursor.pos = GridPos { x: clamp_exec(nx), y: clamp_exec(ny) };
}

/// Clamps a signed coordinate into `[0, MAX_WORLD_COORD]`.
fn clamp_exec(v: i64) -> (r: u32)
    ensures
        r == clamp_coord(v as int),
{
    if v < 0 {
        0
    } else if v > MAX_WORLD_COORD as i64 {
        MAX_WORLD_COORD
    } else {
        v as u32
    }
}

} // verus!
