//! The assignment engine: a permutation of source pixels over canvas
//! positions, improved by greedy randomized swaps.

use vstd::prelude::*;
use vstd::arithmetic::div_mod::lemma_fundamental_div_mod;
use crate::cost::{DrawingPixel, Rgb, cost_ok, heuristic_spec};
use crate::params::DrawingParams;
use crate::stroke::{PixelData, layout_ok, stroke_reward_spec, stroke_reward_with_params};
use crate::{MAX_SIDELEN, grid_index};

verus! {

/// Per-run settings that the engine reads.
#[derive(Clone, Copy, Debug, PartialEq, Eq)]
pub struct GenerationSettings {
    pub sidelen: u32,
    pub proximity_importance: i64,
}

/// An image as it arrives: dimensions and raw 8-bit RGB bytes.
#[derive(Clone, Debug)]
pub struct UnprocessedPreset {
    pub width: u32,
    pub height: u32,
    pub source_img: Vec<u8>,
}

/// Why an engine could not be built.
#[derive(Clone, Copy, Debug, PartialEq, Eq, Structural)]
pub enum DrawingError {
    /// The raw bytes are too few for the declared width and height.
    InvalidImage,
    /// The side length is out of range, or an input array does not hold one
    /// entry per canvas position.
    SizeMismatch,
}

/// Whether the raw bytes hold a full RGB image of the declared size.
pub open spec fn image_fits(source: UnprocessedPreset) -> bool {
    3 * source.width * source.height <= source.source_img@.len()
}

/// Whether the side length is in range and each array has one entry per cell.
pub open spec fn sizes_ok(settings: GenerationSettings, colors_len: nat, targets_len: nat, weights_len: nat) -> bool {
    let cells = settings.sidelen * settings.sidelen;
    &&& 0 < settings.sidelen <= MAX_SIDELEN
    &&& colors_len == cells
    &&& targets_len == cells
    &&& weights_len == cells
}

/// Relies on image's `ImageBuffer::from_raw` for 8-bit RGB pixels: it
/// returns `Some` exactly when the buffer holds at least
/// `3 * width * height` bytes.
#[verifier::external_body]
fn rgb_buffer_fits(width: u32, height: u32, raw: &Vec<u8>) -> (r: bool)
    ensures
        r == (3 * width * height <= raw@.len()),
{
    image::ImageBuffer::<image::Rgb<u8>, Vec<u8>>::from_raw(width, height, raw.clone()).is_some()
}

/// Abstract state of an engine.
pub ghost struct EngineModel {
    pub pixels: Seq<DrawingPixel>,
    pub sidelen: nat,
    pub proximity_importance: i64,
    pub targets: Seq<Rgb>,
    pub weights: Seq<i64>,
}

/// `0, 1, ..., len - 1`.
pub open spec fn identity(len: nat) -> Seq<int> {
    Seq::new(len, |i: int| i)
}

/// Source index held at each canvas position, in canvas-scan order.
pub open spec fn assignment_seq(pixels: Seq<DrawingPixel>, sidelen: nat) -> Seq<int> {
    pixels.map_values(|p: DrawingPixel| p.src_index(sidelen))
}

pub open spec fn clamp(v: int, hi: int) -> int {
    if v < 0 {
        0
    } else if v > hi {
        hi
    } else {
        v
    }
}

pub open spec fn abs(v: int) -> int {
    if v < 0 {
        -v
    } else {
        v
    }
}

/// Time since a cell was last edited, zero if it was edited "later".
pub open spec fn age(frame_count: u32, cell: PixelData) -> nat {
    if frame_count >= cell.last_edited {
        (frame_count - cell.last_edited) as nat
    } else {
        0
    }
}

/// Allowed swap radius at canvas position `pos`.
pub open spec fn radius(params: DrawingParams, frame_count: u32, pixel_data: Seq<PixelData>, pos: int) -> nat {
    params.max_dist_spec(age(frame_count, pixel_data[pos]))
}

/// Whether the partner at `(bx, by)` lies outside its own radius `rb` from `(ax, ay)`.
pub open spec fn vetoed(ax: int, ay: int, bx: int, by: int, rb: nat) -> bool {
    abs(bx - ax) > rb || abs(by - ay) > rb
}

/// Whether a draw `(apos, dx, dy)` is one the batch can make.
pub open spec fn draw_ok(
    m: EngineModel,
    pixel_data: Seq<PixelData>,
    frame_count: u32,
    params: DrawingParams,
    d: (int, int, int),
) -> bool {
    let ra = radius(params, frame_count, pixel_data, d.0);
    &&& 0 <= d.0 < m.cells()
    &&& -ra <= d.1 <= ra
    &&& -ra <= d.2 <= ra
}

impl EngineModel {
    pub open spec fn cells(self) -> nat {
        self.sidelen * self.sidelen
    }

    pub open spec fn assignments(self) -> Seq<int> {
        assignment_seq(self.pixels, self.sidelen)
    }

    /// Sizes agree, every held coordinate lies on the grid, and the held
    /// source indices are exactly `0 .. cells`, each once.
    pub open spec fn wf(self) -> bool {
        &&& 0 < self.sidelen <= MAX_SIDELEN
        &&& self.pixels.len() == self.cells()
        &&& self.targets.len() == self.cells()
        &&& self.weights.len() == self.cells()
        &&& forall|i: int|
            0 <= i < self.pixels.len() ==> #[trigger] self.pixels[i].fits(self.sidelen) && cost_ok(
                self.pixels[i].h as int,
            )
        &&& self.assignments().to_multiset() == identity(self.cells()).to_multiset()
    }

    /// What a batch reads besides the engine is sized for it.
    pub open spec fn inputs_ok(self, colors: Seq<Rgb>, pixel_data: Seq<PixelData>, params: DrawingParams) -> bool {
        &&& colors.len() == self.cells()
        &&& pixel_data.len() == self.cells()
        &&& params.wf()
    }

    /// Base cost of `p` placed at canvas cell `(x, y)`.
    pub open spec fn placed_cost(self, colors: Seq<Rgb>, p: DrawingPixel, x: int, y: int) -> int {
        let pos = y * self.sidelen + x;
        heuristic_spec(
            (p.src_x, p.src_y),
            (x as u16, y as u16),
            colors[p.src_index(self.sidelen)],
            self.targets[pos],
            self.weights[pos],
            self.proximity_importance,
        )
    }

    pub open spec fn reward(self, pixel_data: Seq<PixelData>, stroke_reward: i64, newpos: int, oldpos: int) -> int {
        stroke_reward_spec(newpos, oldpos, pixel_data, self.pixels, self.sidelen, stroke_reward)
    }

    /// Total cost decrease of exchanging the occupants of `(ax, ay)` and `(bx, by)`.
    pub open spec fn swap_gain(
        self,
        colors: Seq<Rgb>,
        pixel_data: Seq<PixelData>,
        stroke_reward: i64,
        ax: int,
        ay: int,
        bx: int,
        by: int,
    ) -> int {
        let n = self.sidelen as int;
        let apos = ay * n + ax;
        let bpos = by * n + bx;
        let pa = self.pixels[apos];
        let pb = self.pixels[bpos];
        let current_a = pa.h + self.reward(pixel_data, stroke_reward, apos, apos);
        let current_b = pb.h + self.reward(pixel_data, stroke_reward, bpos, bpos);
        let a_on_b = self.placed_cost(colors, pa, bx, by) + self.reward(pixel_data, stroke_reward, bpos, apos);
        let b_on_a = self.placed_cost(colors, pb, ax, ay) + self.reward(pixel_data, stroke_reward, apos, bpos);
        (current_a - b_on_a) + (current_b - a_on_b)
    }

    pub open spec fn partner_x(self, apos: int, dx: int) -> int {
        clamp(apos % (self.sidelen as int) + dx, self.sidelen - 1)
    }

    pub open spec fn partner_y(self, apos: int, dy: int) -> int {
        clamp(apos / (self.sidelen as int) + dy, self.sidelen - 1)
    }

    /// Whether the attempt with draw `(apos, dx, dy)` exchanges two occupants.
    pub open spec fn accepts(
        self,
        colors: Seq<Rgb>,
        pixel_data: Seq<PixelData>,
        frame_count: u32,
        params: DrawingParams,
        apos: int,
        dx: int,
        dy: int,
    ) -> bool {
        let n = self.sidelen as int;
        let ax = apos % n;
        let ay = apos / n;
        let bx = self.partner_x(apos, dx);
        let by = self.partner_y(apos, dy);
        &&& !vetoed(ax, ay, bx, by, radius(params, frame_count, pixel_data, by * n + bx))
        &&& self.swap_gain(colors, pixel_data, params.stroke_reward, ax, ay, bx, by) > 0
    }

    /// The state after exchanging the occupants of `(ax, ay)` and `(bx, by)`,
    /// each with its base cost at its new place.
    pub open spec fn swapped(self, colors: Seq<Rgb>, ax: int, ay: int, bx: int, by: int) -> EngineModel {
        let n = self.sidelen as int;
        let apos = ay * n + ax;
        let bpos = by * n + bx;
        let pa = self.pixels[apos];
        let pb = self.pixels[bpos];
        EngineModel {
            pixels: self.pixels.update(apos, DrawingPixel { h: self.placed_cost(colors, pb, ax, ay) as i128, ..pb }).update(
                bpos,
                DrawingPixel { h: self.placed_cost(colors, pa, bx, by) as i128, ..pa },
            ),
            ..self
        }
    }

    /// The state after one attempt with draw `(apos, dx, dy)`.
    pub open spec fn attempt(
        self,
        colors: Seq<Rgb>,
        pixel_data: Seq<PixelData>,
        frame_count: u32,
        params: DrawingParams,
        apos: int,
        dx: int,
        dy: int,
    ) -> EngineModel {
        let n = self.sidelen as int;
        if self.accepts(colors, pixel_data, frame_count, params, apos, dx, dy) {
            self.swapped(colors, apos % n, apos / n, self.partner_x(apos, dx), self.partner_y(apos, dy))
        } else {
            self
        }
    }

    /// The state after attempts with each of `draws` in order, and how many
    /// of them exchanged occupants.
    pub open spec fn batch(
        self,
        colors: Seq<Rgb>,
        pixel_data: Seq<PixelData>,
        frame_count: u32,
        params: DrawingParams,
        draws: Seq<(int, int, int)>,
    ) -> (EngineModel, nat)
        decreases draws.len(),
    {
        if draws.len() == 0 {
            (self, 0)
        } else {
            let (m, c) = self.batch(colors, pixel_data, frame_count, params, draws.drop_last());
            let d = draws.last();
            let c2 = if m.accepts(colors, pixel_data, frame_count, params, d.0, d.1, d.2) {
                c + 1
            } else {
                c
            };
            (m.attempt(colors, pixel_data, frame_count, params, d.0, d.1, d.2), c2)
        }
    }
}

/// Swap decisions depend on nothing but the state, the inputs and the
/// draws: replaying the same draws against the same state makes the same
/// decision at every attempt and ends in the same state with the same
/// number of swaps.
pub proof fn lemma_same_draws_same_outcome(
    m1: EngineModel,
    m2: EngineModel,
    colors: Seq<Rgb>,
    pixel_data: Seq<PixelData>,
    frame_count: u32,
    params: DrawingParams,
    draws: Seq<(int, int, int)>,
)
    requires
        m1 == m2,
    ensures
        m1.batch(colors, pixel_data, frame_count, params, draws) == m2.batch(
            colors,
            pixel_data,
            frame_count,
            params,
            draws,
        ),
        forall|k: int|
            0 <= k < draws.len() ==> {
                let s1 = m1.batch(colors, pixel_data, frame_count, params, #[trigger] draws.take(k)).0;
                let s2 = m2.batch(colors, pixel_data, frame_count, params, draws.take(k)).0;
                s1.accepts(colors, pixel_data, frame_count, params, draws[k].0, draws[k].1, draws[k].2)
                    == s2.accepts(colors, pixel_data, frame_count, params, draws[k].0, draws[k].1, draws[k].2)
            },
{
}

/// Every run of attempts, of any length, keeps the held source indices
/// exactly `0 .. cells`, each once: swaps only reorder them.
pub proof fn lemma_batch_keeps_permutation(
    m: EngineModel,
    colors: Seq<Rgb>,
    pixel_data: Seq<PixelData>,
    frame_count: u32,
    params: DrawingParams,
    draws: Seq<(int, int, int)>,
)
    requires
        0 < m.sidelen,
        m.pixels.len() == m.cells(),
        m.assignments().to_multiset() == identity(m.cells()).to_multiset(),
        forall|k: int| 0 <= k < draws.len() ==> 0 <= #[trigger] draws[k].0 < m.cells(),
    ensures
        ({
            let r = m.batch(colors, pixel_data, frame_count, params, draws).0;
            &&& r.sidelen == m.sidelen
            &&& r.pixels.len() == m.cells()
            &&& r.assignments().to_multiset() == identity(m.cells()).to_multiset()
        }),
    decreases draws.len(),
{
    if draws.len() > 0 {
        let prev = draws.drop_last();
        assert forall|k: int| 0 <= k < prev.len() implies 0 <= #[trigger] prev[k].0 < m.cells() by {
            assert(prev[k] == draws[k]);
        }
        lemma_batch_keeps_permutation(m, colors, pixel_data, frame_count, params, prev);
        let m1 = m.batch(colors, pixel_data, frame_count, params, prev).0;
        let d = draws.last();
        assert(0 <= d.0 < m.cells());
        if m1.accepts(colors, pixel_data, frame_count, params, d.0, d.1, d.2) {
            let n = m.sidelen as int;
            let ax = d.0 % n;
            let ay = d.0 / n;
            let bx = m1.partner_x(d.0, d.1);
            let by = m1.partner_y(d.0, d.2);
            lemma_fundamental_div_mod(d.0, n);
            assert(0 <= ax < n);
            assert(0 <= ay * n + ax < n * n) by (nonlinear_arith)
                requires d.0 == n * ay + ax, 0 <= d.0 < n * n, 0 <= ax < n, n > 0;
            assert(0 <= by * n + bx < n * n) by (nonlinear_arith)
                requires 0 <= bx < n, 0 <= by < n;
            let apos = ay * n + ax;
            let bpos = by * n + bx;
            let s = m1.assignments();
            lemma_swap_multiset(s, apos, bpos);
            assert(m1.swapped(colors, ax, ay, bx, by).assignments() =~= s.update(apos, s[bpos]).update(bpos, s[apos]));
        }
    }
}

proof fn lemma_swap_multiset(s: Seq<int>, i: int, j: int)
    requires
        0 <= i < s.len(),
        0 <= j < s.len(),
    ensures
        s.update(i, s[j]).update(j, s[i]).to_multiset() == s.to_multiset(),
{
    broadcast use vstd::seq_lib::to_multiset_update, vstd::multiset::group_multiset_axioms, vstd::seq_lib::to_multiset_contains;
    let s1 = s.update(i, s[j]);
    let s2 = s1.update(j, s[i]);
    vstd::seq_lib::to_multiset_update(s, i, s[j]);
    vstd::seq_lib::to_multiset_update(s1, j, s[i]);
    assert(s.contains(s[i]));
    assert(s.contains(s[j]));
    assert(s2.to_multiset() =~= s.to_multiset());
}

/// Seed of every engine's pseudorandom generator, so that runs repeat.
pub const RNG_SEED: u64 = 12345;

/// The engine: the permutation with cached base costs, its own generator,
/// the settings, and the target colour and weight of every canvas position.
pub struct DrawingState {
    pixels: Vec<DrawingPixel>,
    rng: frand::Rand,
    settings: GenerationSettings,
    target_pixels: Vec<Rgb>,
    weights: Vec<i64>,
}

impl View for DrawingState {
    type V = EngineModel;

    closed spec fn view(&self) -> EngineModel {
        EngineModel {
            pixels: self.pixels@,
            sidelen: self.settings.sidelen as nat,
            proximity_importance: self.settings.proximity_importance,
            targets: self.target_pixels@,
            weights: self.weights@,
        }
    }
}

impl DrawingState {
    pub open spec fn wf(&self) -> bool {
        self@.wf()
    }

    /// Builds an engine from a source image and the decoded per-position
    /// arrays. Canvas position `i` starts out holding source pixel `i`, with
    /// its base cost there cached. Fails with `InvalidImage` when the raw
    /// bytes are too few for the declared size, else with `SizeMismatch`
    /// when the side length is out of range or an array has not one entry
    /// per cell.
    pub fn new(
        source: UnprocessedPreset,
        settings: GenerationSettings,
        colors: &[Rgb],
        target_pixels: Vec<Rgb>,
        weights: Vec<i64>,
        _params: &DrawingParams,
    ) -> (r: Result<Self, DrawingError>)
        ensures
            r matches Err(e) ==> e == (if !image_fits(source) {
                DrawingError::InvalidImage
            } else {
                DrawingError::SizeMismatch
            }),
            r is Ok <==> image_fits(source) && sizes_ok(
                settings,
                colors@.len(),
                target_pixels@.len(),
                weights@.len(),
            ),
            r matches Ok(st) ==> {
                &&& st.wf()
                &&& st@.sidelen == settings.sidelen
                &&& st@.proximity_importance == settings.proximity_importance
                &&& st@.targets == target_pixels@
                &&& st@.weights == weights@
                &&& forall|i: int|
                    0 <= i < st@.cells() ==> {
                        let p = #[trigger] st@.pixels[i];
                        &&& p.src_x == i % (settings.sidelen as int)
                        &&& p.src_y == i / (settings.sidelen as int)
                        &&& p.h == st@.placed_cost(colors@, p, i % (settings.sidelen as int), i / (settings.sidelen as int))
                    }
            },
    {
        if !rgb_buffer_fits(source.width, source.height, &source.source_img) {
            return Err(DrawingError::InvalidImage);
        }
        if settings.sidelen == 0 || settings.sidelen as usize > MAX_SIDELEN {
            return Err(DrawingError::SizeMismatch);
        }
        let n = settings.sidelen as usize;
        assert(n * n <= MAX_SIDELEN * MAX_SIDELEN) by (nonlinear_arith)
            requires n <= MAX_SIDELEN;
        let cells = n * n;
        if colors.len() != cells || target_pixels.len() != cells || weights.len() != cells {
            return Err(DrawingError::SizeMismatch);
        }
        let prox = settings.proximity_importance;
        let mut pixels: Vec<DrawingPixel> = Vec::with_capacity(cells);
        let mut i: usize = 0;
        while i < cells
            invariant
                cells == n * n,
                0 < n <= MAX_SIDELEN,
                colors@.len() == cells,
                target_pixels@.len() == cells,
                weights@.len() == cells,
                i <= cells,
                pixels@.len() == i,
                forall|j: int|
                    0 <= j < i ==> {
                        let p = #[trigger] pixels@[j];
                        &&& p.src_x == j % (n as int)
                        &&& p.src_y == j / (n as int)
                        &&& p.fits(n as nat)
                        &&& p.src_index(n as nat) == j
                        &&& cost_ok(p.h as int)
                        &&& p.h == heuristic_spec(
                            (p.src_x, p.src_y),
                            (p.src_x, p.src_y),
                            colors@[j],
                            target_pixels@[j],
                            weights@[j],
                            prox,
                        )
                    },
            decreases cells - i,
        {
            let x = i % n;
            let y = i / n;
            proof {
                lemma_fundamental_div_mod(i as int, n as int);
                assert(y < n) by (nonlinear_arith)
                    requires i == n * y + x, i < n * n, 0 <= x, n > 0;
                assert(i == y * n + x) by (nonlinear_arith)
                    requires i == n * y + x;
            }
            let p0 = DrawingPixel::new(x as u16, y as u16, 0);
            let h = p0.calc_drawing_heuristic(
                (x as u16, y as u16),
                target_pixels[i],
                weights[i],
                colors,
                n,
                prox,
            );
            pixels.push(DrawingPixel::new(x as u16, y as u16, h));
            i = i + 1;
        }
        let st = DrawingState {
            pixels,
            rng: frand::Rand::with_seed(RNG_SEED),
            settings,
            target_pixels,
            weights,
        };
        proof {
            let m = st@;
            assert(m.assignments() =~= identity(m.cells()));
            assert forall|j: int| 0 <= j < m.cells() implies {
                let p = #[trigger] m.pixels[j];
                &&& p.src_x == j % (n as int)
                &&& p.src_y == j / (n as int)
                &&& p.h == m.placed_cost(colors@, p, j % (n as int), j / (n as int))
            } by {
                let p = m.pixels[j];
                assert(p.src_index(n as nat) == j);
            }
        }
        Ok(st)
    }

    /// Canvas coordinates of `apos`, and of its partner under offset
    /// `(dx, dy)` clamped to the grid.
    fn partner(&self, apos: usize, dx: i64, dy: i64) -> (r: (usize, usize, usize, usize))
        requires
            self.wf(),
            apos < self@.cells(),
        ensures
            r.0 == apos as int % self@.sidelen as int,
            r.1 == apos as int / self@.sidelen as int,
            apos == r.1 * self@.sidelen + r.0,
            r.0 < self@.sidelen && r.1 < self@.sidelen,
            r.2 == self@.partner_x(apos as int, dx as int),
            r.3 == self@.partner_y(apos as int, dy as int),
            r.2 < self@.sidelen && r.3 < self@.sidelen,
    {
        let n = self.settings.sidelen as usize;
        let ax = apos % n;
        let ay = apos / n;
        proof {
            lemma_fundamental_div_mod(apos as int, n as int);
            assert(ay < n) by (nonlinear_arith)
                requires apos == n * ay + ax, apos < n * n, 0 <= ax, n > 0;
            assert(apos == ay * n + ax) by (nonlinear_arith)
                requires apos == n * ay + ax;
        }
        let hi = (n - 1) as i128;
        let bx_wide = ax as i128 + dx as i128;
        let bx = if bx_wide < 0 { 0 } else if bx_wide > hi { n - 1 } else { bx_wide as usize };
        let by_wide = ay as i128 + dy as i128;
        let by = if by_wide < 0 { 0 } else if by_wide > hi { n - 1 } else { by_wide as usize };
        (ax, ay, bx, by)
    }

    /// Cost decrease of exchanging the occupants of `(ax, ay)` and
    /// `(bx, by)`, with the base cost of each occupant at the other place.
    fn gain(
        &self,
        ax: usize,
        ay: usize,
        bx: usize,
        by: usize,
        colors: &[Rgb],
        pixel_data: &[PixelData],
        stroke_reward: i64,
    ) -> (r: (i128, i128, i128))
        requires
            self.wf(),
            colors@.len() == self@.cells(),
            pixel_data@.len() == self@.cells(),
            ax < self@.sidelen,
            ay < self@.sidelen,
            bx < self@.sidelen,
            by < self@.sidelen,
        ensures
            r.0 == self@.swap_gain(colors@, pixel_data@, stroke_reward, ax as int, ay as int, bx as int, by as int),
            r.1 == self@.placed_cost(colors@, self@.pixels[by * self@.sidelen + bx], ax as int, ay as int),
            r.2 == self@.placed_cost(colors@, self@.pixels[ay * self@.sidelen + ax], bx as int, by as int),
            cost_ok(r.1 as int),
            cost_ok(r.2 as int),
    {
        let n = self.settings.sidelen as usize;
        let apos = grid_index(ax, ay, n);
        let bpos = grid_index(bx, by, n);
        assert(layout_ok(pixel_data@, self.pixels@, n as nat));
        assert(self.pixels@[apos as int].fits(n as nat) && self.pixels@[bpos as int].fits(n as nat));
        let pa = self.pixels[apos];
        let pb = self.pixels[bpos];
        let current_a = pa.h + stroke_reward_with_params(apos, apos, pixel_data, &self.pixels, n, stroke_reward) as i128;
        let current_b = pb.h + stroke_reward_with_params(bpos, bpos, pixel_data, &self.pixels, n, stroke_reward) as i128;
        let a_on_b_base = pa.calc_drawing_heuristic(
            (bx as u16, by as u16),
            self.target_pixels[bpos],
            self.weights[bpos],
            colors,
            n,
            self.settings.proximity_importance,
        );
        let b_on_a_base = pb.calc_drawing_heuristic(
            (ax as u16, ay as u16),
            self.target_pixels[apos],
            self.weights[apos],
            colors,
            n,
            self.settings.proximity_importance,
        );
        let a_on_b = a_on_b_base + stroke_reward_with_params(bpos, apos, pixel_data, &self.pixels, n, stroke_reward) as i128;
        let b_on_a = b_on_a_base + stroke_reward_with_params(apos, bpos, pixel_data, &self.pixels, n, stroke_reward) as i128;
        ((current_a - b_on_a) + (current_b - a_on_b), b_on_a_base, a_on_b_base)
    }

    /// Exchanges the occupants of `apos` and `bpos`, giving them the base
    /// costs `h_at_a` and `h_at_b` at their new places.
    fn exchange(&mut self, apos: usize, bpos: usize, h_at_a: i128, h_at_b: i128)
        requires
            old(self).wf(),
            apos < old(self)@.cells(),
            bpos < old(self)@.cells(),
            cost_ok(h_at_a as int),
            cost_ok(h_at_b as int),
        ensures
            final(self).wf(),
            final(self)@ == (EngineModel {
                pixels: old(self)@.pixels.update(
                    apos as int,
                    DrawingPixel { h: h_at_a, ..old(self)@.pixels[bpos as int] },
                ).update(bpos as int, DrawingPixel { h: h_at_b, ..old(self)@.pixels[apos as int] }),
                ..old(self)@
            }),
    {
        let ghost m = self@;
        let n = self.settings.sidelen as usize;
        let pa = self.pixels[apos];
        let pb = self.pixels[bpos];
        self.pixels.set(apos, DrawingPixel { h: h_at_a, ..pb });
        self.pixels.set(bpos, DrawingPixel { h: h_at_b, ..pa });
        proof {
            let s = assignment_seq(m.pixels, m.sidelen);
            lemma_swap_multiset(s, apos as int, bpos as int);
            assert(assignment_seq(self.pixels@, m.sidelen) =~= s.update(apos as int, s[bpos as int]).update(
                bpos as int,
                s[apos as int],
            ));
            assert(m.pixels[apos as int].fits(n as nat) && m.pixels[bpos as int].fits(n as nat));
            assert forall|i: int| 0 <= i < self.pixels@.len() implies #[trigger] self.pixels@[i].fits(n as nat)
                && cost_ok(self.pixels@[i].h as int) by {
                if i != apos && i != bpos {
                    assert(m.pixels[i].fits(n as nat));
                }
            }
        }
    }

    /// One swap attempt with the draw `(apos, dx, dy)`: the partner is
    /// `apos` offset by `(dx, dy)` and clamped to the grid; it may veto by
    /// its own radius; otherwise the occupants are exchanged exactly when
    /// that lowers the total cost. Returns whether they were exchanged.
    pub fn attempt_swap(
        &mut self,
        apos: usize,
        dx: i64,
        dy: i64,
        colors: &[Rgb],
        pixel_data: &[PixelData],
        frame_count: u32,
        params: &DrawingParams,
    ) -> (r: bool)
        requires
            old(self).wf(),
            old(self)@.inputs_ok(colors@, pixel_data@, *params),
            apos < old(self)@.cells(),
        ensures
            final(self).wf(),
            r == old(self)@.accepts(colors@, pixel_data@, frame_count, *params, apos as int, dx as int, dy as int),
            final(self)@ == old(self)@.attempt(colors@, pixel_data@, frame_count, *params, apos as int, dx as int, dy as int),
    {
        let n = self.settings.sidelen as usize;
        let (ax, ay, bx, by) = self.partner(apos, dx, dy);
        let bpos = grid_index(bx, by, n);
        let age_b = if frame_count >= pixel_data[bpos].last_edited {
            frame_count - pixel_data[bpos].last_edited
        } else {
            0
        };
        let max_dist_b = params.max_dist(age_b) as i64;
        let ddx = if bx >= ax { (bx - ax) as i64 } else { (ax - bx) as i64 };
        let ddy = if by >= ay { (by - ay) as i64 } else { (ay - by) as i64 };
        if ddx > max_dist_b || ddy > max_dist_b {
            return false;
        }
        let (improvement, b_on_a_base, a_on_b_base) = self.gain(ax, ay, bx, by, colors, pixel_data, params.stroke_reward);
        if improvement > 0 {
            self.exchange(apos, bpos, b_on_a_base, a_on_b_base);
            true
        } else {
            false
        }
    }

    /// The permutation: the source index held at each canvas position, in
    /// canvas-scan order.
    pub fn assignments(&self) -> (r: Vec<usize>)
        requires
            self.wf(),
        ensures
            r@.len() == self@.cells(),
            forall|i: int| 0 <= i < r@.len() ==> r@[i] == #[trigger] self@.assignments()[i],
    {
        let n = self.settings.sidelen as usize;
        let mut r: Vec<usize> = Vec::with_capacity(self.pixels.len());
        let mut i: usize = 0;
        while i < self.pixels.len()
            invariant
                self.wf(),
                n == self@.sidelen,
                i <= self.pixels@.len(),
                r@.len() == i,
                forall|j: int| 0 <= j < i ==> r@[j] == #[trigger] self@.assignments()[j],
            decreases self.pixels@.len() - i,
        {
            let p = self.pixels[i];
            assert(self.pixels@[i as int].fits(n as nat));
            r.push(grid_index(p.src_x as usize, p.src_y as usize, n));
            i = i + 1;
        }
        r
    }

    /// One batch of `max_swaps` attempts, each with a draw from the engine's
    /// generator: a position uniformly, then an offset in each axis within
    /// that position's radius. Returns the permutation when at least one
    /// attempt exchanged occupants.
    pub fn step(
        &mut self,
        colors: &[Rgb],
        pixel_data: &[PixelData],
        frame_count: u32,
        max_swaps: usize,
        params: &DrawingParams,
    ) -> (r: Option<Vec<usize>>)
        requires
            old(self).wf(),
            old(self)@.inputs_ok(colors@, pixel_data@, *params),
        ensures
            final(self).wf(),
            final(self)@.sidelen == old(self)@.sidelen,
            final(self)@.assignments().to_multiset() == identity(final(self)@.cells()).to_multiset(),
            exists|draws: Seq<(int, int, int)>|
                {
                    &&& draws.len() == max_swaps
                    &&& forall|k: int|
                        0 <= k < draws.len() ==> draw_ok(old(self)@, pixel_data@, frame_count, *params, #[trigger] draws[k])
                    &&& old(self)@.batch(colors@, pixel_data@, frame_count, *params, draws).0 == final(self)@
                    &&& (r is Some <==> old(self)@.batch(colors@, pixel_data@, frame_count, *params, draws).1 > 0)
                },
            r matches Some(v) ==> v@.len() == final(self)@.cells() && forall|i: int|
                0 <= i < v@.len() ==> v@[i] == #[trigger] final(self)@.assignments()[i],
    {
        let ghost m0 = self@;
        let ghost mut draws: Seq<(int, int, int)> = Seq::empty();
        let cells = self.pixels.len();
        let mut swaps_made: usize = 0;
        let mut k: usize = 0;
        while k < max_swaps
            invariant
                self.wf(),
                self@.sidelen == m0.sidelen,
                m0.inputs_ok(colors@, pixel_data@, *params),
                cells == m0.cells(),
                k <= max_swaps,
                swaps_made <= k,
                draws.len() == k,
                forall|j: int| 0 <= j < draws.len() ==> draw_ok(m0, pixel_data@, frame_count, *params, #[trigger] draws[j]),
                m0.batch(colors@, pixel_data@, frame_count, *params, draws) == (self@, swaps_made as nat),
            decreases max_swaps - k,
        {
            assert(0 < cells <= MAX_SIDELEN * MAX_SIDELEN) by (nonlinear_arith)
                requires cells == m0.sidelen * m0.sidelen, 0 < m0.sidelen <= MAX_SIDELEN;
            let apos = crate::random::gen_range_i64(&mut self.rng, 0, cells as i64) as usize;
            let age_a = if frame_count >= pixel_data[apos].last_edited {
                frame_count - pixel_data[apos].last_edited
            } else {
                0
            };
            let ra = params.max_dist(age_a) as i64;
            let dx = crate::random::gen_range_i64(&mut self.rng, -ra, ra + 1);
            let dy = crate::random::gen_range_i64(&mut self.rng, -ra, ra + 1);
            let ghost before = self@;
            let ghost prev = draws;
            let accepted = self.attempt_swap(apos, dx, dy, colors, pixel_data, frame_count, params);
            proof {
                draws = draws.push((apos as int, dx as int, dy as int));
                assert(draws.drop_last() =~= prev);
                assert(forall|j: int| 0 <= j < prev.len() ==> draws[j] == prev[j]);
            }
            if accepted {
                swaps_made = swaps_made + 1;
            }
            k = k + 1;
        }
        if swaps_made > 0 {
            Some(self.assignments())
        } else {
            None
        }
    }
}


} // verus!
