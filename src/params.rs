//! Run parameters and the spatial locality policy.

use vstd::prelude::*;

verus! {

/// Number of time steps per decay step of the swap radius.
pub const DECAY_PERIOD: u32 = 30;

/// One unit in the fixed-point radius computation.
pub const FIXED_ONE: u128 = 65536;

/// Immutable tuning of one run. The decay factor is the fraction
/// `max_dist_decay_num / max_dist_decay_den`, which lies in `[0, 1]`.
#[derive(Clone, Copy, Debug)]
pub struct DrawingParams {
    pub stroke_reward: i64,
    pub max_dist_base: u32,
    pub max_dist_decay_num: u32,
    pub max_dist_decay_den: u32,
    pub max_dist_min: u32,
}

/// `base * (num / den)^k` in fixed point, truncated after each step.
pub open spec fn decayed(base: nat, num: nat, den: nat, k: nat) -> nat
    decreases k,
{
    if k == 0 {
        base * 65536
    } else if den == 0 {
        0
    } else {
        decayed(base, num, den, (k - 1) as nat) * num / den
    }
}

/// Rounds a fixed-point value to the nearest integer, halves up.
pub open spec fn round_fixed(v: nat) -> nat {
    (v + 32768) / 65536
}

impl DrawingParams {
    pub open spec fn wf(&self) -> bool {
        self.max_dist_decay_den > 0 && self.max_dist_decay_num <= self.max_dist_decay_den
    }

    /// The radius before the floor is applied.
    pub open spec fn raw_dist(&self, age: nat) -> nat {
        round_fixed(
            decayed(
                self.max_dist_base as nat,
                self.max_dist_decay_num as nat,
                self.max_dist_decay_den as nat,
                age / 30,
            ),
        )
    }

    pub open spec fn max_dist_spec(&self, age: nat) -> nat {
        let raw = self.raw_dist(age);
        if raw >= self.max_dist_min { raw } else { self.max_dist_min as nat }
    }

    /// Largest swap radius for a cell that was edited `age` steps ago:
    /// the base radius decayed once per full period, rounded, and floored
    /// at `max_dist_min`.
    pub fn max_dist(&self, age: u32) -> (r: u32)
        requires
            self.wf(),
        ensures
            r as nat == self.max_dist_spec(age as nat),
    {
        let steps: u32 = age / DECAY_PERIOD;
        let num = self.max_dist_decay_num as u128;
        let den = self.max_dist_decay_den as u128;
        let mut v: u128 = (self.max_dist_base as u128) * FIXED_ONE;
        let mut i: u32 = 0;
        while i < steps
            invariant
                self.wf(),
                num == self.max_dist_decay_num as u128,
                den == self.max_dist_decay_den as u128,
                i <= steps,
                steps == age / 30,
                v as nat == decayed(self.max_dist_base as nat, num as nat, den as nat, i as nat),
                v <= self.max_dist_base as nat * 65536,
                v <= 0xffff_ffff_ffff,
            decreases steps - i,
        {
            if v == 0 {
                proof {
                    lemma_zero_stays(self.max_dist_base as nat, num as nat, den as nat, i as nat, steps as nat);
                }
                i = steps;
            } else {
                proof {
                    let vi = v as int;
                    let n = num as int;
                    let d = den as int;
                    assert(vi * n <= vi * d) by (nonlinear_arith)
                        requires n <= d, vi >= 0;
                    assert(vi * n / d <= vi) by (nonlinear_arith)
                        requires vi * n <= vi * d, d > 0, vi >= 0, n >= 0;
                    assert(vi * n <= 0xffff_ffff_ffff * 0xffff_ffff) by (nonlinear_arith)
                        requires 0 <= vi <= 0xffff_ffff_ffff, 0 <= n <= 0xffff_ffff;
                }
                v = v * num / den;
                i = i + 1;
            }
        }
        let rounded = (v + FIXED_ONE / 2) / FIXED_ONE;
        assert(rounded <= u32::MAX);
        let raw = rounded as u32;
        if raw >= self.max_dist_min {
            raw
        } else {
            self.max_dist_min
        }
    }
}

proof fn lemma_zero_stays(base: nat, num: nat, den: nat, j: nat, k: nat)
    requires
        decayed(base, num, den, j) == 0,
        j <= k,
    ensures
        decayed(base, num, den, k) == 0,
    decreases k - j,
{
    if j < k {
        lemma_zero_stays(base, num, den, j, (k - 1) as nat);
        if den > 0 {
            assert(0 * num / den == 0) by (nonlinear_arith)
                requires den > 0;
        }
    }
}

proof fn lemma_decayed_step(base: nat, num: nat, den: nat, k: nat)
    requires
        den > 0,
        num <= den,
    ensures
        decayed(base, num, den, k + 1) <= decayed(base, num, den, k),
{
    let v = decayed(base, num, den, k);
    assert(decayed(base, num, den, k + 1) == v * num / den);
    assert(v * num <= v * den) by (nonlinear_arith)
        requires num <= den;
    assert(v * num / den <= v) by (nonlinear_arith)
        requires v * num <= v * den, den > 0;
}

proof fn lemma_decayed_monotone(base: nat, num: nat, den: nat, j: nat, k: nat)
    requires
        den > 0,
        num <= den,
        j <= k,
    ensures
        decayed(base, num, den, k) <= decayed(base, num, den, j),
    decreases k - j,
{
    if j < k {
        lemma_decayed_monotone(base, num, den, j, (k - 1) as nat);
        lemma_decayed_step(base, num, den, (k - 1) as nat);
    }
}

/// The swap radius never grows with age, and never drops below
/// `max_dist_min`.
pub proof fn lemma_max_dist_monotone(params: DrawingParams, a1: nat, a2: nat)
    requires
        params.wf(),
        a1 < a2,
    ensures
        params.max_dist_spec(a1) >= params.max_dist_spec(a2),
        params.max_dist_spec(a1) >= params.max_dist_min,
        params.max_dist_spec(a2) >= params.max_dist_min,
{
    assert(a1 / 30 <= a2 / 30) by (nonlinear_arith)
        requires a1 < a2;
    lemma_decayed_monotone(
        params.max_dist_base as nat,
        params.max_dist_decay_num as nat,
        params.max_dist_decay_den as nat,
        a1 / 30,
        a2 / 30,
    );
    let d1 = decayed(params.max_dist_base as nat, params.max_dist_decay_num as nat, params.max_dist_decay_den as nat, a1 / 30);
    let d2 = decayed(params.max_dist_base as nat, params.max_dist_decay_num as nat, params.max_dist_decay_den as nat, a2 / 30);
    assert((d2 + 32768) / 65536 <= (d1 + 32768) / 65536) by (nonlinear_arith)
        requires d2 <= d1;
}

} // verus!
