use crate::area::Area;
use crate::noise::{div_floor, is_raw_sample, lemma_div_within, NoiseQuery, Perlin, UNIT};
use crate::quantize::{
    bucket_of, divider_of, lemma_bucket_below_resolution, level_of, quantize, valid_resolution,
    LEVELS, VALUE_MAX,
};
use crate::widgets::cave::OFFSET_LIMIT;
use vstd::prelude::*;

verus! {

/// Wavelength divisor of the background noise, in cells.
pub const FIELD_WAVELENGTH: i64 = 25;

/// Resolution of a new background.
pub const DEFAULT_RESOLUTION: i64 = 16;

/// A scrolling background of quantized brightness, one bucket per cell.
/// Offsets and speeds are in fixed point (`UNIT` per cell), so that the
/// background can move by fractions of a cell per tick.
#[derive(Clone, Copy, Debug, PartialEq, Eq, Structural)]
pub struct NoiseBackground {
    pub seed: i64,
    pub offset_x: i64,
    pub offset_y: i64,
    pub speed_x: i64,
    pub speed_y: i64,
    pub resolution: i64,
}

impl NoiseBackground {
    pub open spec fn wf(self) -> bool {
        valid_resolution(self.resolution as int)
    }

    pub open spec fn offset_in_range(self) -> bool {
        &&& -OFFSET_LIMIT <= self.offset_x <= OFFSET_LIMIT
        &&& -OFFSET_LIMIT <= self.offset_y <= OFFSET_LIMIT
    }

    /// The centred source, mapped onto the field values `[0, 255]`.
    pub open spec fn source(self) -> Perlin {
        Perlin { seed: self.seed, output_min: 0, output_max: VALUE_MAX, x_offset: 0, y_offset: 0 }
    }

    /// Bucket of the cell whose raw sample is `raw`.
    pub open spec fn bucket_at(self, raw: int) -> int {
        bucket_of(self.source().mapped(raw), self.resolution as int)
    }

    /// World coordinate of a cell: the viewport origin plus the whole part
    /// of the offset.
    pub open spec fn world_cell(self, area: Area, column: int, row: int) -> (int, int) {
        (
            column + area.x + self.offset_x as int / (UNIT as int),
            row + area.y + self.offset_y as int / (UNIT as int),
        )
    }

    /// Where the sample of a cell is read.
    pub open spec fn query_of(self, area: Area, column: int, row: int) -> NoiseQuery {
        NoiseQuery {
            seed: self.seed,
            x_num: self.world_cell(area, column, row).0 as i64,
            x_den: FIELD_WAVELENGTH,
            y_num: self.world_cell(area, column, row).1 as i64,
            y_den: FIELD_WAVELENGTH,
            bias: 0,
        }
    }

    /// The buckets of a sequence of raw samples.
    pub open spec fn buckets_of(self, samples: Seq<i64>) -> Seq<u8> {
        Seq::new(samples.len(), |i: int| self.bucket_at(samples[i] as int) as u8)
    }

    pub open spec fn advanced(self) -> NoiseBackground {
        NoiseBackground {
            offset_x: (self.offset_x + self.speed_x) as i64,
            offset_y: (self.offset_y + self.speed_y) as i64,
            ..self
        }
    }

    pub fn new(seed: i64) -> (r: Self)
        ensures
            r.wf(),
            r == (NoiseBackground {
                seed,
                offset_x: 0,
                offset_y: 0,
                speed_x: 0,
                speed_y: 0,
                resolution: DEFAULT_RESOLUTION,
            }),
    {
        NoiseBackground {
            seed,
            offset_x: 0,
            offset_y: 0,
            speed_x: 0,
            speed_y: 0,
            resolution: DEFAULT_RESOLUTION,
        }
    }

    /// Advances both offsets by their speeds.
    pub fn scroll(&mut self)
        requires
            i64::MIN <= old(self).offset_x + old(self).speed_x <= i64::MAX,
            i64::MIN <= old(self).offset_y + old(self).speed_y <= i64::MAX,
        ensures
            *final(self) == old(self).advanced(),
    {
        self.offset_x = self.offset_x + self.speed_x;
        self.offset_y = self.offset_y + self.speed_y;
    }

    pub fn set_speed_x(&mut self, speed: i64)
        ensures
            *final(self) == (NoiseBackground { speed_x: speed, ..*old(self) }),
    {
        self.speed_x = speed;
    }

    pub fn set_speed_y(&mut self, speed: i64)
        ensures
            *final(self) == (NoiseBackground { speed_y: speed, ..*old(self) }),
    {
        self.speed_y = speed;
    }

    pub fn set_speed(&mut self, speedx: i64, speedy: i64)
        ensures
            *final(self) == (NoiseBackground { speed_x: speedx, speed_y: speedy, ..*old(self) }),
    {
        self.speed_x = speedx;
        self.speed_y = speedy;
    }

    /// The range-mapped source, built afresh from the seed.
    pub fn noise(&self) -> (r: Perlin)
        ensures
            r == self.source(),
            r.wf(),
    {
        let mut p = Perlin::new(self.seed, true);
        p.set_interval(0, VALUE_MAX);
        p
    }

    /// The point at which the sample of the cell `(column, row)` is read.
    pub fn noise_query(&self, area: Area, column: u16, row: u16) -> (r: NoiseQuery)
        requires
            self.offset_in_range(),
        ensures
            r == self.query_of(area, column as int, row as int),
    {
        let base_x = area.x as i64 + div_floor(self.offset_x, UNIT);
        let base_y = area.y as i64 + div_floor(self.offset_y, UNIT);
        proof {
            lemma_div_within(self.offset_x as int, UNIT as int, OFFSET_LIMIT as int);
            lemma_div_within(self.offset_y as int, UNIT as int, OFFSET_LIMIT as int);
        }
        self.noise().query(column as i64 + base_x, FIELD_WAVELENGTH, row as i64 + base_y, FIELD_WAVELENGTH)
    }

    /// The bucket of a cell from its raw sample.
    pub fn bucket(&self, raw: i64) -> (r: u8)
        requires
            self.wf(),
            is_raw_sample(raw as int),
        ensures
            r == self.bucket_at(raw as int),
            r * divider_of(self.resolution as int) <= 255,
            (LEVELS as int) % (self.resolution as int) == 0 ==> (r as int) < self.resolution,
    {
        let v = self.noise().normalize(raw);
        proof {
            if (LEVELS as int) % (self.resolution as int) == 0 {
                lemma_bucket_below_resolution(v as int, self.resolution as int);
            }
        }
        quantize(v, self.resolution)
    }

    /// The brightness level drawn for a bucket: `bucket * (256 / resolution)`.
    pub fn level(&self, bucket: u8) -> (r: u8)
        requires
            self.wf(),
            bucket * divider_of(self.resolution as int) <= 255,
        ensures
            r == bucket * divider_of(self.resolution as int),
    {
        level_of(bucket, self.resolution)
    }

    /// The buckets of all cells, from their raw samples in row-major order.
    pub fn buckets(&self, samples: &Vec<i64>) -> (r: Vec<u8>)
        requires
            self.wf(),
            forall|i: int| 0 <= i < samples@.len() ==> is_raw_sample(#[trigger] samples@[i] as int),
        ensures
            r@ == self.buckets_of(samples@),
            (LEVELS as int) % (self.resolution as int) == 0 ==> forall|i: int|
                0 <= i < r@.len() ==> (#[trigger] r@[i] as int) < self.resolution,
    {
        let mut out: Vec<u8> = Vec::new();
        let mut i: usize = 0;
        while i < samples.len()
            invariant
                self.wf(),
                forall|j: int| 0 <= j < samples@.len() ==> is_raw_sample(#[trigger] samples@[j] as int),
                i <= samples@.len(),
                out@ =~= self.buckets_of(samples@.take(i as int)),
                (LEVELS as int) % (self.resolution as int) == 0 ==> forall|j: int|
                    0 <= j < out@.len() ==> (#[trigger] out@[j] as int) < self.resolution,
            decreases samples@.len() - i,
        {
            let b = self.bucket(samples[i]);
            out.push(b);
            i = i + 1;
            proof {
                assert(out@ =~= self.buckets_of(samples@.take(i as int)));
            }
        }
        assert(samples@.take(i as int) =~= samples@);
        out
    }
}

/// Determinism: a background recomputed with the same seed, offsets and
/// resolution reads the noise at the same points and, from the same
/// samples, yields the same buckets.
pub proof fn lemma_buckets_deterministic(
    a: NoiseBackground,
    b: NoiseBackground,
    area: Area,
    samples: Seq<i64>,
)
    requires
        a.seed == b.seed,
        a.offset_x == b.offset_x,
        a.offset_y == b.offset_y,
        a.resolution == b.resolution,
    ensures
        forall|column: int, row: int| #[trigger]
            a.query_of(area, column, row) == b.query_of(area, column, row),
        a.buckets_of(samples) == b.buckets_of(samples),
{
    assert(a.buckets_of(samples) =~= b.buckets_of(samples));
}

} // verus!
