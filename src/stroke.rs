//! Per-cell stroke metadata and the stroke-cohesion reward.

use vstd::prelude::*;
use vstd::arithmetic::div_mod::lemma_fundamental_div_mod;
use crate::cost::DrawingPixel;
use crate::{DRAWING_CANVAS_SIZE, MAX_SIDELEN};

verus! {

/// The stroke that last claimed a cell, and the time step of that claim.
#[derive(Clone, Copy, Debug, PartialEq, Eq, Structural)]
pub struct PixelData {
    pub stroke_id: u32,
    pub last_edited: u32,
}

impl PixelData {
    /// A fresh canvas: every cell unclaimed (stroke 0), stamped with `frame_count`.
    pub fn init_canvas(frame_count: u32) -> (r: Vec<PixelData>)
        ensures
            r@.len() == DRAWING_CANVAS_SIZE * DRAWING_CANVAS_SIZE,
            forall|i: int|
                0 <= i < r@.len() ==> r@[i] == (PixelData { stroke_id: 0, last_edited: frame_count }),
    {
        let cell = PixelData { stroke_id: 0, last_edited: frame_count };
        let n: usize = DRAWING_CANVAS_SIZE * DRAWING_CANVAS_SIZE;
        let mut r: Vec<PixelData> = Vec::with_capacity(n);
        while r.len() < n
            invariant
                r@.len() <= n,
                forall|i: int| 0 <= i < r@.len() ==> r@[i] == cell,
            decreases n - r@.len(),
        {
            r.push(cell);
        }
        r
    }
}

/// The permutation `pixels` and the metadata `pixel_data` both cover a grid of
/// side `sidelen`, and every held source coordinate lies on it.
pub open spec fn layout_ok(pixel_data: Seq<PixelData>, pixels: Seq<DrawingPixel>, sidelen: nat) -> bool {
    &&& 0 < sidelen <= MAX_SIDELEN
    &&& pixels.len() == sidelen * sidelen
    &&& pixel_data.len() == sidelen * sidelen
    &&& forall|i: int| 0 <= i < pixels.len() ==> #[trigger] pixels[i].fits(sidelen)
}

/// Stroke of the source pixel that occupies canvas position `pos`.
pub open spec fn occupant_stroke(
    pixel_data: Seq<PixelData>,
    pixels: Seq<DrawingPixel>,
    sidelen: nat,
    pos: int,
) -> u32 {
    pixel_data[pixels[pos].src_index(sidelen)].stroke_id
}

/// Whether a 4-connected neighbour of `pos` (up, left, right, down) holds a
/// source pixel of stroke `id`.
pub open spec fn neighbor_has_stroke(
    pixel_data: Seq<PixelData>,
    pixels: Seq<DrawingPixel>,
    sidelen: nat,
    pos: int,
    id: u32,
) -> bool {
    let x = pos % (sidelen as int);
    let y = pos / (sidelen as int);
    ||| (y > 0 && occupant_stroke(pixel_data, pixels, sidelen, pos - sidelen) == id)
    ||| (x > 0 && occupant_stroke(pixel_data, pixels, sidelen, pos - 1) == id)
    ||| (x + 1 < sidelen && occupant_stroke(pixel_data, pixels, sidelen, pos + 1) == id)
    ||| (y + 1 < sidelen && occupant_stroke(pixel_data, pixels, sidelen, pos + sidelen) == id)
}

/// Reward for the occupant of `oldpos` sitting at `newpos`.
pub open spec fn stroke_reward_spec(
    newpos: int,
    oldpos: int,
    pixel_data: Seq<PixelData>,
    pixels: Seq<DrawingPixel>,
    sidelen: nat,
    reward: i64,
) -> int {
    if neighbor_has_stroke(
        pixel_data,
        pixels,
        sidelen,
        newpos,
        occupant_stroke(pixel_data, pixels, sidelen, oldpos),
    ) {
        reward as int
    } else {
        0
    }
}

fn occupant_stroke_at(pixel_data: &[PixelData], pixels: &[DrawingPixel], sidelen: usize, pos: usize) -> (r: u32)
    requires
        layout_ok(pixel_data@, pixels@, sidelen as nat),
        pos < pixels@.len(),
    ensures
        r == occupant_stroke(pixel_data@, pixels@, sidelen as nat, pos as int),
{
    let p = pixels[pos];
    assert(p.fits(sidelen as nat));
    let i = crate::grid_index(p.src_x as usize, p.src_y as usize, sidelen);
    pixel_data[i].stroke_id
}

/// `stroke_reward` when a 4-connected neighbour of canvas position `newpos`
/// holds a source pixel of the same stroke as the occupant of `oldpos`,
/// else 0. Diagonal neighbours are not looked at.
pub fn stroke_reward_with_params(
    newpos: usize,
    oldpos: usize,
    pixel_data: &[PixelData],
    pixels: &[DrawingPixel],
    sidelen: usize,
    stroke_reward: i64,
) -> (r: i64)
    requires
        layout_ok(pixel_data@, pixels@, sidelen as nat),
        newpos < pixels@.len(),
        oldpos < pixels@.len(),
    ensures
        r == stroke_reward_spec(newpos as int, oldpos as int, pixel_data@, pixels@, sidelen as nat, stroke_reward),
        r == stroke_reward || r == 0,
{
    let n = sidelen;
    let x = newpos % n;
    let y = newpos / n;
    proof {
        lemma_fundamental_div_mod(newpos as int, n as int);
        assert(y < n) by (nonlinear_arith)
            requires
                newpos == n * y + x,
                newpos < n * n,
                0 <= x,
                n > 0,
        ;
        assert(y * n + n <= n * n) by (nonlinear_arith)
            requires y < n;
        assert(newpos == y * n + x) by (nonlinear_arith)
            requires newpos == n * y + x;
        assert(y > 0 ==> y * n >= n) by (nonlinear_arith);
        assert(y + 1 < n ==> y * n + x + n < n * n) by (nonlinear_arith)
            requires x < n, y < n;
        assert(n * n <= MAX_SIDELEN * MAX_SIDELEN) by (nonlinear_arith)
            requires n <= MAX_SIDELEN;
    }
    let id = occupant_stroke_at(pixel_data, pixels, n, oldpos);
    if y > 0 && occupant_stroke_at(pixel_data, pixels, n, newpos - n) == id {
        return stroke_reward;
    }
    if x > 0 && occupant_stroke_at(pixel_data, pixels, n, newpos - 1) == id {
        return stroke_reward;
    }
    if x + 1 < n && occupant_stroke_at(pixel_data, pixels, n, newpos + 1) == id {
        return stroke_reward;
    }
    if y + 1 < n && occupant_stroke_at(pixel_data, pixels, n, newpos + n) == id {
        return stroke_reward;
    }
    0
}

} // verus!
