use vstd::arithmetic::div_mod::{
    lemma_div_is_ordered, lemma_div_is_ordered_by_denominator, lemma_div_multiples_vanish, lemma_div_pos_is_pos,
    lemma_fundamental_div_mod, lemma_fundamental_div_mod_converse, lemma_mod_bound,
    lemma_mod_pos_bound,
};
use vstd::arithmetic::mul::{lemma_mul_inequality, lemma_mul_upper_bound};
use vstd::prelude::*;

verus! {

/// Fixed-point scale: an integer `v` stands for the real number `v / UNIT`.
/// Raw noise samples lie in `[-UNIT, UNIT]`, the image of `[-1, 1]`.
pub const UNIT: i64 = 1_000_000;

/// Coordinate shift used by a source that is not centred, so that samples
/// stay far away from the origin of the underlying noise.
pub const FAR_BIAS: i64 = 1_000_000_000;

/// Largest magnitude of an output bound (fixed point): one million in real terms.
pub const BOUND_LIMIT: i64 = 1_000_000_000_000;

/// A raw sample of the noise source, in fixed point.
pub open spec fn is_raw_sample(raw: int) -> bool {
    -UNIT <= raw <= UNIT
}

/// `(raw + 1) / 2 * (max - min) + min` on fixed-point values, rounded down.
pub open spec fn remap(raw: int, min: int, max: int) -> int {
    (raw + UNIT) * (max - min) / (2 * UNIT) + min
}

/// `a / b` rounded towards negative infinity (Verus's `/` on `int` for `b > 0`).
pub fn div_floor(a: i64, b: i64) -> (r: i64)
    requires
        b > 0,
    ensures
        r == a as int / b as int,
{
    if a >= 0 {
        a / b
    } else {
        let n: i64 = -(a + 1);
        let q: i64 = n / b;
        proof {
            lemma_fundamental_div_mod(n as int, b as int);
            lemma_mod_pos_bound(n as int, b as int);
            let m = n as int % b as int;
            assert(a as int == (-q - 1) * b + (b - m - 1)) by (nonlinear_arith)
                requires
                    n as int == b * q + m,
                    a as int == -(n as int) - 1,
            ;
            lemma_fundamental_div_mod_converse(a as int, b as int, -q - 1, b - m - 1);
        }
        -q - 1
    }
}

/// `a / b` rounded towards zero, as a cast from a real number to an integer rounds.
pub open spec fn trunc_div(a: int, b: int) -> int {
    if a >= 0 {
        a / b
    } else {
        -((-a) / b)
    }
}

/// `a / b` rounded towards zero.
pub fn div_trunc(a: i64, b: i64) -> (r: i64)
    requires
        b > 0,
        a > i64::MIN,
    ensures
        r == trunc_div(a as int, b as int),
{
    if a >= 0 {
        a / b
    } else {
        proof {
            lemma_div_pos_is_pos(-a as int, b as int);
            lemma_div_is_ordered_by_denominator(-a as int, 1, b as int);
        }
        -((-a) / b)
    }
}

/// The source of a decorrelated signal, named rather than spelled as a
/// constant at each call site: each channel shifts the base seed (by 25, 30
/// or 40, in fixed point) and samples its own lane of the second coordinate.
#[derive(Clone, Copy, Debug, PartialEq, Eq, Structural)]
pub enum Channel {
    Center,
    Opening,
    TopJitter,
    BottomJitter,
}

impl Channel {
    pub open spec fn seed_shift(self) -> int {
        match self {
            Channel::Center => 0,
            Channel::Opening => 25_000_000,
            Channel::TopJitter => 30_000_000,
            Channel::BottomJitter => 40_000_000,
        }
    }

    pub open spec fn lane_of(self) -> int {
        match self {
            Channel::Center => 0,
            Channel::Opening => 2,
            Channel::TopJitter => 3,
            Channel::BottomJitter => 4,
        }
    }

    /// Amount added to the base seed for this channel.
    pub fn seed_offset(&self) -> (r: i64)
        ensures
            r == self.seed_shift(),
    {
        match self {
            Channel::Center => 0,
            Channel::Opening => 25_000_000,
            Channel::TopJitter => 30_000_000,
            Channel::BottomJitter => 40_000_000,
        }
    }

    /// Second coordinate at which this channel is sampled.
    pub fn lane(&self) -> (r: i64)
        ensures
            r == self.lane_of(),
    {
        match self {
            Channel::Center => 0,
            Channel::Opening => 2,
            Channel::TopJitter => 3,
            Channel::BottomJitter => 4,
        }
    }
}

/// One point at which the noise source is to be sampled: the source seeded
/// with `seed / UNIT` (seeds are fixed point), at
/// `(x_num / x_den + bias, y_num / y_den + bias)`.
#[derive(Clone, Copy, Debug, PartialEq, Eq, Structural)]
pub struct NoiseQuery {
    pub seed: i64,
    pub x_num: i64,
    pub x_den: i64,
    pub y_num: i64,
    pub y_den: i64,
    pub bias: i64,
}

/// Range-mapped noise: a seeded source (the seed in fixed point), an output
/// interval in fixed point, and a coordinate bias (zero when centred).
#[derive(Clone, Copy, Debug, PartialEq, Eq, Structural)]
pub struct Perlin {
    pub seed: i64,
    pub output_min: i64,
    pub output_max: i64,
    pub x_offset: i64,
    pub y_offset: i64,
}

impl Perlin {
    pub open spec fn wf(self) -> bool {
        &&& -BOUND_LIMIT <= self.output_min <= self.output_max <= BOUND_LIMIT
        &&& self.x_offset == self.y_offset
        &&& (self.x_offset == 0 || self.x_offset == FAR_BIAS)
    }

    /// The value `raw` maps to under this source's output interval.
    pub open spec fn mapped(self, raw: int) -> int {
        remap(raw, self.output_min as int, self.output_max as int)
    }

    /// A source over `[-1, 1]`, centred at the origin or shifted far from it.
    pub fn new(seed: i64, should_center: bool) -> (r: Self)
        ensures
            r.wf(),
            r.seed == seed,
            r.output_min == -UNIT,
            r.output_max == UNIT,
            r.x_offset == (if should_center { 0 } else { FAR_BIAS }),
    {
        let x_offset: i64 = if should_center { 0 } else { FAR_BIAS };
        let y_offset: i64 = if should_center { 0 } else { FAR_BIAS };
        Perlin { seed, output_min: -UNIT, output_max: UNIT, x_offset, y_offset }
    }

    /// Sets the output interval `[min, max]` (fixed point).
    pub fn set_interval(&mut self, min: i64, max: i64)
        requires
            old(self).wf(),
            -BOUND_LIMIT <= min <= max <= BOUND_LIMIT,
        ensures
            final(self).wf(),
            *final(self) == (Perlin { output_min: min, output_max: max, ..*old(self) }),
    {
        self.output_min = min;
        self.output_max = max;
    }

    /// The point of the underlying source that `noise2d(x_num / x_den, y_num / y_den)` reads.
    pub fn query(&self, x_num: i64, x_den: i64, y_num: i64, y_den: i64) -> (r: NoiseQuery)
        ensures
            r == (NoiseQuery { seed: self.seed, x_num, x_den, y_num, y_den, bias: self.x_offset }),
    {
        NoiseQuery { seed: self.seed, x_num, x_den, y_num, y_den, bias: self.x_offset }
    }

    /// Maps a raw sample of the source into the output interval.
    pub fn normalize(&self, raw: i64) -> (r: i64)
        requires
            self.wf(),
            is_raw_sample(raw as int),
        ensures
            r == self.mapped(raw as int),
            self.output_min <= r <= self.output_max,
    {
        let span: i64 = self.output_max - self.output_min;
        let shifted: i64 = raw + UNIT;
        proof {
            lemma_mapped_in_range(*self, raw as int);
            lemma_mul_upper_bound(shifted as int, 2 * UNIT, span as int, 2 * BOUND_LIMIT);
        }
        shifted * span / (2 * UNIT) + self.output_min
    }
}

/// `a / b` rounded down lies within `[-k, k]` when `a` does.
pub proof fn lemma_div_within(a: int, b: int, k: int)
    requires
        b > 0,
        k >= 0,
        -k <= a <= k,
    ensures
        -k <= a / b <= k,
{
    lemma_div_is_ordered(-k, a, b);
    lemma_div_is_ordered(a, k, b);
    lemma_fundamental_div_mod(k, b);
    lemma_mod_pos_bound(k, b);
    lemma_fundamental_div_mod(-k, b);
    let qk = k / b;
    let qn = (-k) / b;
    let mn = (-k) % b;
    assert(0 <= mn < b) by {
        lemma_mod_bound(-k, b);
    }
    assert(qk <= k) by (nonlinear_arith)
        requires
            k == b * qk + k % b,
            0 <= k % b,
            b >= 1,
            k >= 0,
    ;
    assert(qn >= -k) by (nonlinear_arith)
        requires
            -k == b * qn + mn,
            0 <= mn < b,
            b >= 1,
            k >= 0,
    ;
}

/// Range invariant: every raw sample maps into `[min, max]`, the degenerate
/// interval `min == max` included.
pub proof fn lemma_mapped_in_range(p: Perlin, raw: int)
    requires
        p.wf(),
        is_raw_sample(raw),
    ensures
        p.output_min <= p.mapped(raw) <= p.output_max,
{
    let d = p.output_max - p.output_min;
    let s = raw + UNIT;
    lemma_mul_inequality(0, s, d);
    lemma_mul_inequality(s, 2 * UNIT, d);
    lemma_div_pos_is_pos(s * d, 2 * UNIT);
    lemma_div_is_ordered(s * d, (2 * UNIT) * d, 2 * UNIT);
    lemma_div_multiples_vanish(d, 2 * UNIT);
}

} // verus!
