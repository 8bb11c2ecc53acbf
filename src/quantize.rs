use crate::noise::UNIT;
use vstd::arithmetic::div_mod::{
    lemma_div_is_ordered, lemma_div_multiples_vanish, lemma_div_pos_is_pos,
    lemma_fundamental_div_mod, lemma_mod_pos_bound,
};
use vstd::prelude::*;

verus! {

/// Number of brightness levels that a field value spans: values lie in `[0, 255]`.
pub const LEVELS: i64 = 256;

/// Top of the field-value interval, in fixed point (255).
pub const VALUE_MAX: i64 = 255 * UNIT;

/// Resolutions that a field sampler accepts.
pub open spec fn valid_resolution(resolution: int) -> bool {
    1 <= resolution <= LEVELS
}

/// Width of a bucket in levels: `256 / resolution`, rounded down.
pub open spec fn divider_of(resolution: int) -> int {
    LEVELS as int / resolution
}

/// Bucket of a field value `v` (fixed point, in `[0, 255]`):
/// `floor(floor(v) / divider)`.
pub open spec fn bucket_of(value: int, resolution: int) -> int {
    (value / (UNIT as int)) / divider_of(resolution)
}

/// Width of a bucket in levels.
pub fn divider(resolution: i64) -> (r: i64)
    requires
        valid_resolution(resolution as int),
    ensures
        r == divider_of(resolution as int),
        1 <= r <= LEVELS,
{
    proof {
        lemma_div_is_ordered(resolution as int, LEVELS as int, resolution as int);
        lemma_div_multiples_vanish(1, resolution as int);
        lemma_div_is_ordered(LEVELS as int, LEVELS as int * resolution as int, resolution as int);
        lemma_div_multiples_vanish(LEVELS as int, resolution as int);
        assert(LEVELS as int * resolution as int == resolution as int * LEVELS as int) by (nonlinear_arith);
    }
    LEVELS / resolution
}

/// Quantizes a field value into one of `resolution` buckets.
pub fn quantize(value: i64, resolution: i64) -> (r: u8)
    requires
        0 <= value <= VALUE_MAX,
        valid_resolution(resolution as int),
    ensures
        r == bucket_of(value as int, resolution as int),
        r * divider_of(resolution as int) <= 255,
{
    let d = divider(resolution);
    let level: i64 = value / UNIT;
    proof {
        lemma_div_is_ordered(value as int, VALUE_MAX as int, UNIT as int);
        lemma_div_multiples_vanish(255, UNIT as int);
        assert(VALUE_MAX as int == (UNIT as int) * 255);
        lemma_div_pos_is_pos(value as int, UNIT as int);
        lemma_bucket_level_bound(level as int, d as int);
    }
    (level / d) as u8
}

/// The brightness level at the bottom of a bucket: `bucket * divider`.
pub fn level_of(bucket: u8, resolution: i64) -> (r: u8)
    requires
        valid_resolution(resolution as int),
        bucket * divider_of(resolution as int) <= 255,
    ensures
        r == bucket * divider_of(resolution as int),
{
    let d = divider(resolution);
    ((bucket as i64) * d) as u8
}

proof fn lemma_bucket_level_bound(level: int, d: int)
    requires
        0 <= level <= 255,
        d >= 1,
    ensures
        0 <= level / d <= 255,
        (level / d) * d <= 255,
{
    lemma_div_pos_is_pos(level, d);
    lemma_fundamental_div_mod(level, d);
    lemma_mod_pos_bound(level, d);
    let q = level / d;
    assert(q * d <= level && q <= level) by (nonlinear_arith)
        requires
            level == d * q + level % d,
            0 <= level % d,
            d >= 1,
            q >= 0,
    ;
}

/// Quantization boundedness: when `resolution` divides 256, every field
/// value falls in a bucket below `resolution`.
pub proof fn lemma_bucket_below_resolution(value: int, resolution: int)
    requires
        0 <= value <= VALUE_MAX,
        valid_resolution(resolution),
        (LEVELS as int) % resolution == 0,
    ensures
        0 <= bucket_of(value, resolution) < resolution,
{
    let d = divider_of(resolution);
    let level = value / (UNIT as int);
    lemma_div_is_ordered(value, VALUE_MAX as int, UNIT as int);
    lemma_div_multiples_vanish(255, UNIT as int);
    assert(VALUE_MAX as int == (UNIT as int) * 255);
    lemma_div_pos_is_pos(value, UNIT as int);
    lemma_fundamental_div_mod(LEVELS as int, resolution);
    assert(d >= 1) by {
        lemma_div_is_ordered(resolution, LEVELS as int, resolution);
        lemma_div_multiples_vanish(1, resolution);
    }
    lemma_bucket_level_bound(level, d);
    let q = level / d;
    assert(q < resolution) by (nonlinear_arith)
        requires
            q * d <= 255,
            LEVELS as int == resolution * d,
            d >= 1,
            resolution >= 1,
    ;
}

} // verus!
