//! Local-search assignment of source pixels to canvas positions, with a
//! time-decaying swap radius and a stroke-cohesion reward.

pub mod cost;
pub mod engine;
pub mod params;
pub mod random;
pub mod stroke;
pub mod worker;

use vstd::prelude::*;

verus! {

/// Side length of the shared painting canvas.
pub const DRAWING_CANVAS_SIZE: usize = 128;

/// Largest side length of a working grid; the cell count times a small factor fits in `usize`.
pub const MAX_SIDELEN: usize = 4096;

/// Index of the cell `(x, y)` in a row-major grid of side `sidelen`.
pub fn grid_index(x: usize, y: usize, sidelen: usize) -> (r: usize)
    requires
        x < sidelen,
        y < sidelen,
        sidelen <= MAX_SIDELEN,
    ensures
        r == y * sidelen + x,
        r < sidelen * sidelen,
{
    assert(y * sidelen + x < sidelen * sidelen && sidelen * sidelen <= MAX_SIDELEN * MAX_SIDELEN)
        by (nonlinear_arith)
        requires
            x < sidelen,
            y < sidelen,
            sidelen <= MAX_SIDELEN,
    ;
    y * sidelen + x
}

} // verus!
