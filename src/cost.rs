//! The pairwise cost of placing a source pixel at a canvas position, and the
//! per-position record that caches it.

use vstd::prelude::*;

verus! {

/// An opaque RGB colour.
pub type Rgb = (u8, u8, u8);

pub open spec fn sq(d: int) -> int {
    d * d
}

/// Bound on the magnitude of every base cost.
pub open spec fn cost_ok(h: int) -> bool {
    -0x10_0000_0000_0000_0000_0000_0000 <= h <= 0x10_0000_0000_0000_0000_0000_0000
}

/// Squared Euclidean distance between two colours.
pub open spec fn color_dist(a: Rgb, b: Rgb) -> int {
    sq(a.0 - b.0) + sq(a.1 - b.1) + sq(a.2 - b.2)
}

/// Squared Euclidean distance between two grid coordinates.
pub open spec fn pos_dist(a: (u16, u16), b: (u16, u16)) -> int {
    sq(a.0 - b.0) + sq(a.1 - b.1)
}

/// Base cost: the colour mismatch scaled by the target's weight, plus the
/// displacement scaled by the proximity importance.
pub open spec fn heuristic_spec(
    src_pos: (u16, u16),
    target_pos: (u16, u16),
    src_col: Rgb,
    target_col: Rgb,
    weight: i64,
    proximity_importance: i64,
) -> int {
    color_dist(src_col, target_col) * weight + pos_dist(src_pos, target_pos) * proximity_importance
}

proof fn lemma_mul_bound(a: int, b: int, ba: int, bb: int)
    requires
        0 <= a <= ba,
        -bb <= b <= bb,
    ensures
        -(ba * bb) <= a * b <= ba * bb,
{
    if b >= 0 {
        assert(a * b <= ba * bb) by (nonlinear_arith)
            requires 0 <= a <= ba, 0 <= b <= bb;
        assert(0 <= a * b) by (nonlinear_arith)
            requires 0 <= a, 0 <= b;
    } else {
        assert(a * (-b) <= ba * bb) by (nonlinear_arith)
            requires 0 <= a <= ba, 0 <= -b <= bb;
        assert(a * b <= 0) by (nonlinear_arith)
            requires 0 <= a, b < 0;
        assert(a * (-b) == -(a * b)) by (nonlinear_arith);
    }
}

fn sq_diff(a: i128, b: i128) -> (r: i128)
    requires
        -70000 <= a <= 70000,
        -70000 <= b <= 70000,
    ensures
        r == sq(a - b),
        0 <= r <= 140000 * 140000,
{
    let d = a - b;
    assert(0 <= d * d <= 140000 * 140000) by (nonlinear_arith)
        requires -140000 <= d <= 140000;
    d * d
}

/// Cost of a source pixel of colour `src_col` at `src_pos` being placed at
/// `target_pos`, whose wanted colour is `target_col`.
pub fn heuristic(
    src_pos: (u16, u16),
    target_pos: (u16, u16),
    src_col: Rgb,
    target_col: Rgb,
    weight: i64,
    proximity_importance: i64,
) -> (r: i128)
    ensures
        r == heuristic_spec(src_pos, target_pos, src_col, target_col, weight, proximity_importance),
        cost_ok(r as int),
{
    let color = sq_diff(src_col.0 as i128, target_col.0 as i128) + sq_diff(
        src_col.1 as i128,
        target_col.1 as i128,
    ) + sq_diff(src_col.2 as i128, target_col.2 as i128);
    let spatial = sq_diff(src_pos.0 as i128, target_pos.0 as i128) + sq_diff(
        src_pos.1 as i128,
        target_pos.1 as i128,
    );
    let w = weight as i128;
    let p = proximity_importance as i128;
    proof {
        lemma_mul_bound(color as int, w as int, (3 * 140000 * 140000) as int, 0x8000_0000_0000_0000int);
        lemma_mul_bound(spatial as int, p as int, (2 * 140000 * 140000) as int, 0x8000_0000_0000_0000int);
    }
    color * w + spatial * p
}

/// One canvas position: the source coordinates it currently holds and the
/// cached base cost of that source pixel sitting here.
#[derive(Clone, Copy, Debug, PartialEq, Eq)]
pub struct DrawingPixel {
    pub src_x: u16,
    pub src_y: u16,
    pub h: i128,
}

impl DrawingPixel {
    /// Index of the held source pixel in a grid of side `sidelen`.
    pub open spec fn src_index(&self, sidelen: nat) -> int {
        self.src_y * sidelen + self.src_x
    }

    pub open spec fn fits(&self, sidelen: nat) -> bool {
        self.src_x < sidelen && self.src_y < sidelen
    }

    pub fn new(src_x: u16, src_y: u16, h: i128) -> (r: Self)
        ensures
            r == (DrawingPixel { src_x, src_y, h }),
    {
        DrawingPixel { src_x, src_y, h }
    }

    pub fn update_heuristic(&mut self, new_h: i128)
        ensures
            *final(self) == (DrawingPixel { h: new_h, ..*old(self) }),
    {
        self.h = new_h;
    }

    /// Base cost of this pixel's source placed at `target_pos`; the source
    /// colour is read from `colors` at the source index.
    pub fn calc_drawing_heuristic(
        &self,
        target_pos: (u16, u16),
        target_col: Rgb,
        weight: i64,
        colors: &[Rgb],
        sidelen: usize,
        proximity_importance: i64,
    ) -> (r: i128)
        requires
            sidelen <= crate::MAX_SIDELEN,
            self.fits(sidelen as nat),
            colors@.len() == sidelen * sidelen,
        ensures
            0 <= self.src_index(sidelen as nat) < colors@.len(),
            cost_ok(r as int),
            r == heuristic_spec(
                (self.src_x, self.src_y),
                target_pos,
                colors@[self.src_index(sidelen as nat)],
                target_col,
                weight,
                proximity_importance,
            ),
    {
        let i = crate::grid_index(self.src_x as usize, self.src_y as usize, sidelen);
        heuristic((self.src_x, self.src_y), target_pos, colors[i], target_col, weight, proximity_importance)
    }
}

} // verus!
