//! Grid coordinates and cardinal directions.
//!
//! A position is a pair of integer cell coordinates, both within
//! `[0, MAX_WORLD_COORD]`.  A facing direction is encoded as an integer
//! `0..4`: `0` is `+X`, `1` is `+Y`, `2` is `-X`, `3` is `-Y`, so adding
//! one (mod 4) turns a quarter turn counterclockwise.

use vstd::prelude::*;
use crate::MAX_WORLD_COORD;

verus! {

/// A cell of the grid, addressed by integer coordinates.
#[derive(Clone, Copy, PartialEq, Eq, Structural, Debug, Hash)]
pub struct GridPos {
    pub x: u32,
    pub y: u32,
}

impl GridPos {
    /// Both coordinates lie on the grid.
    pub open spec fn in_bounds(self) -> bool {
        self.x <= MAX_WORLD_COORD && self.y <= MAX_WORLD_COORD
    }

    /// Builds an in-bounds position.
    pub fn new(x: u32, y: u32) -> (p: GridPos)
        requires
            x <= MAX_WORLD_COORD,
            y <= MAX_WORLD_COORD,
        ensures
            p == (GridPos { x, y }),
            p.in_bounds(),
    {
        GridPos { x, y }
    }
}

/// A direction value is one of the four encodings `0..4`.
pub open spec fn dir_wf(dir: u8) -> bool {
    dir < 4
}

/// Horizontal component of one step in direction `dir`.
pub open spec fn dir_dx(dir: u8) -> int {
    if dir == 0 {
        1
    } else if dir == 2 {
        -1
    } else {
        0
    }
}

/// Vertical component of one step in direction `dir`.
pub open spec fn dir_dy(dir: u8) -> int {
    if dir == 1 {
        1
    } else if dir == 3 {
        -1
    } else {
        0
    }
}

/// The cell one step from `p` in direction `dir`, or `None` when that
/// step would leave the grid.
pub open spec fn spec_neighbor(p: GridPos, dir: u8) -> Option<GridPos> {
    let nx = p.x + dir_dx(dir);
    let ny = p.y + dir_dy(dir);
    if 0 <= nx <= MAX_WORLD_COORD && 0 <= ny <= MAX_WORLD_COORD {
        Some(GridPos { x: nx as u32, y: ny as u32 })
    } else {
        None
    }
}

/// Computes the cell one step from `p` in direction `dir`, if it is on
/// the grid.
pub fn neighbor(p: GridPos, dir: u8) -> (r: Option<GridPos>)
    requires
        p.in_bounds(),
        dir_wf(dir),
    ensures
        r == spec_neighbor(p, dir),
        r matches Some(q) ==> q.in_bounds() && q != p,
{
    if dir == 0 {
        if p.x < MAX_WORLD_COORD {
            Some(GridPos { x: p.x + 1, y: p.y })
        } else {
            None
        }
    } else if dir == 1 {
        if p.y < MAX_WORLD_COORD {
            Some(GridPos { x: p.x, y: p.y + 1 })
        } else {
            None
        }
    } else if dir == 2 {
        if p.x > 0 {
            Some(GridPos { x: p.x - 1, y: p.y })
        } else {
            None
        }
    } else {
        if p.y > 0 {
            Some(GridPos { x: p.x, y: p.y - 1 })
        } else {
            None
        }
    }
}

} // verus!
