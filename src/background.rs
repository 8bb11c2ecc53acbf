use crate::area::Area;
use crate::noise::{is_raw_sample, NoiseQuery, Perlin, FAR_BIAS};
use crate::quantize::{bucket_of, quantize, valid_resolution, VALUE_MAX};
use crate::widgets::cave::OFFSET_LIMIT;
use crate::widgets::noise_background::{DEFAULT_RESOLUTION, FIELD_WAVELENGTH};
use vstd::arithmetic::div_mod::{
    lemma_div_pos_is_pos, lemma_fundamental_div_mod, lemma_mod_pos_bound,
};
use vstd::prelude::*;

verus! {

/// A scrolling background that moves by whole cells and reads its noise far
/// from the origin. Its cells are grouped by bucket and drawn as points.
#[derive(Clone, Copy, Debug, PartialEq, Eq, Structural)]
pub struct Background {
    pub seed: i64,
    pub offset_x: i64,
    pub offset_y: i64,
    pub speed_x: i64,
    pub speed_y: i64,
    pub resolution: i64,
}

/// The cells whose bucket is `bucket`, as `(x, y)` pairs, in order.
pub open spec fn cells_in_bucket(pixels: Seq<(u16, u16, u8)>, bucket: u8) -> Seq<(u16, u16)> {
    pixels.filter(|p: (u16, u16, u8)| p.2 == bucket).map_values(|p: (u16, u16, u8)| (p.0, p.1))
}

impl Background {
    pub open spec fn wf(self) -> bool {
        valid_resolution(self.resolution as int)
    }

    pub open spec fn offset_in_range(self) -> bool {
        &&& -OFFSET_LIMIT <= self.offset_x <= OFFSET_LIMIT
        &&& -OFFSET_LIMIT <= self.offset_y <= OFFSET_LIMIT
    }

    /// The source shifted far from the origin, mapped onto `[0, 255]`.
    pub open spec fn source(self) -> Perlin {
        Perlin {
            seed: self.seed,
            output_min: 0,
            output_max: VALUE_MAX,
            x_offset: FAR_BIAS,
            y_offset: FAR_BIAS,
        }
    }

    pub open spec fn bucket_at(self, raw: int) -> int {
        bucket_of(self.source().mapped(raw), self.resolution as int)
    }

    /// Where the sample of a cell is read: the shift is applied to the cell
    /// coordinates before they are scaled down by the wavelength.
    pub open spec fn query_of(self, area: Area, column: int, row: int) -> NoiseQuery {
        NoiseQuery {
            seed: self.seed,
            x_num: (column + area.x + self.offset_x + FAR_BIAS) as i64,
            x_den: FIELD_WAVELENGTH,
            y_num: (row + area.y + self.offset_y + FAR_BIAS) as i64,
            y_den: FIELD_WAVELENGTH,
            bias: 0,
        }
    }

    /// The pixels for a viewport of width `width`: cell `n` lies at
    /// `(n % width, n / width)` and carries the bucket of its sample.
    pub open spec fn pixels_of(self, width: int, samples: Seq<i64>) -> Seq<(u16, u16, u8)> {
        Seq::new(
            samples.len(),
            |n: int| ((n % width) as u16, (n / width) as u16, self.bucket_at(samples[n] as int) as u8),
        )
    }

    pub open spec fn advanced(self) -> Background {
        Background {
            offset_x: (self.offset_x + self.speed_x) as i64,
            offset_y: (self.offset_y + self.speed_y) as i64,
            ..self
        }
    }

    pub fn new(seed: i64) -> (r: Self)
        ensures
            r.wf(),
            r == (Background {
                seed,
                offset_x: 0,
                offset_y: 0,
                speed_x: 0,
                speed_y: 0,
                resolution: DEFAULT_RESOLUTION,
            }),
    {
        Background {
            seed,
            offset_x: 0,
            offset_y: 0,
            speed_x: 0,
            speed_y: 0,
            resolution: DEFAULT_RESOLUTION,
        }
    }

    /// The range-mapped source, built afresh from the seed.
    pub fn noise(&self) -> (r: Perlin)
        ensures
            r == self.source(),
            r.wf(),
    {
        let mut p = Perlin::new(self.seed, false);
        p.set_interval(0, VALUE_MAX);
        p
    }

    /// The point at which the sample of the cell `(column, row)` is read.
    pub fn noise_query(&self, area: Area, column: u16, row: u16) -> (r: NoiseQuery)
        requires
            self.offset_in_range(),
        ensures
            r == self.query_of(area, column as int, row as int),
    {
        NoiseQuery {
            seed: self.seed,
            x_num: column as i64 + area.x as i64 + self.offset_x + FAR_BIAS,
            x_den: FIELD_WAVELENGTH,
            y_num: row as i64 + area.y as i64 + self.offset_y + FAR_BIAS,
            y_den: FIELD_WAVELENGTH,
            bias: 0,
        }
    }

    /// The pixels of the viewport from the raw samples of its cells, in
    /// row-major order: position and bucket of each cell.
    pub fn generate_background(&self, area: Area, samples: &Vec<i64>) -> (r: Vec<(u16, u16, u8)>)
        requires
            self.wf(),
            samples@.len() == area.width * area.height,
            forall|i: int| 0 <= i < samples@.len() ==> is_raw_sample(#[trigger] samples@[i] as int),
        ensures
            r@ == self.pixels_of(area.width as int, samples@),
    {
        let p = self.noise();
        let full_area = area.cells();
        let width = area.width as usize;
        let mut pixels: Vec<(u16, u16, u8)> = Vec::new();
        let mut n: usize = 0;
        while n < full_area
            invariant
                self.wf(),
                p == self.source(),
                full_area == samples@.len(),
                full_area == area.width * area.height,
                width == area.width,
                forall|i: int| 0 <= i < samples@.len() ==> is_raw_sample(#[trigger] samples@[i] as int),
                n <= full_area,
                pixels@ =~= self.pixels_of(width as int, samples@.take(n as int)),
            decreases full_area - n,
        {
            proof {
                lemma_cell_position(n as int, width as int, area.height as int);
            }
            let x_pos = (n % width) as u16;
            let y_pos = (n / width) as u16;
            let value = p.normalize(samples[n]);
            let bucket = quantize(value, self.resolution);
            pixels.push((x_pos, y_pos, bucket));
            n = n + 1;
            proof {
                assert(pixels@ =~= self.pixels_of(width as int, samples@.take(n as int)));
            }
        }
        assert(samples@.take(n as int) =~= samples@);
        pixels
    }

    /// Grey level at which the cells of a bucket are drawn: a quarter of the
    /// bucket's brightness, `bucket * (256 / resolution / 4)`.
    pub fn shade(&self, bucket: u8) -> (r: u8)
        requires
            self.wf(),
            (bucket as int) < self.resolution,
        ensures
            r == bucket * (256int / (self.resolution as int) / 4),
    {
        let atten: i64 = 256 / self.resolution / 4;
        proof {
            let res = self.resolution as int;
            let d = 256int / res;
            lemma_fundamental_div_mod(256, res);
            lemma_mod_pos_bound(256, res);
            lemma_div_pos_is_pos(256, res);
            lemma_fundamental_div_mod(d, 4);
            lemma_mod_pos_bound(d, 4);
            lemma_div_pos_is_pos(d, 4);
            let a = d / 4;
            assert((bucket as int) * a <= 64) by (nonlinear_arith)
                requires
                    256 == res * d + 256int % res,
                    0 <= 256int % res,
                    d == 4 * a + d % 4,
                    0 <= d % 4,
                    0 <= a,
                    0 <= bucket < res,
            ;
        }
        ((bucket as i64) * atten) as u8
    }

    /// Advances both offsets by their speeds.
    pub fn scroll(&mut self)
        requires
            i64::MIN <= old(self).offset_x + old(self).speed_x <= i64::MAX,
            i64::MIN <= old(self).offset_y + old(self).speed_y <= i64::MAX,
        ensures
            *final(self) == old(self).advanced(),
    {
        self.offset_x = self.offset_x + self.speed_x;
        self.offset_y = self.offset_y + self.speed_y;
    }

    pub fn set_speed_x(&mut self, speed: i64)
        ensures
            *final(self) == (Background { speed_x: speed, ..*old(self) }),
    {
        self.speed_x = speed;
    }

    pub fn set_speed_y(&mut self, speed: i64)
        ensures
            *final(self) == (Background { speed_y: speed, ..*old(self) }),
    {
        self.speed_y = speed;
    }

    pub fn set_speed(&mut self, speedx: i64, speedy: i64)
        ensures
            *final(self) == (Background { speed_x: speedx, speed_y: speedy, ..*old(self) }),
    {
        self.speed_x = speedx;
        self.speed_y = speedy;
    }
}

/// Cell `n` of a `width`-wide grid of `height` rows lies in it.
proof fn lemma_cell_position(n: int, width: int, height: int)
    requires
        0 <= n < width * height,
        0 <= width <= 65535,
        0 <= height <= 65535,
    ensures
        width > 0,
        0 <= n % width < width,
        0 <= n / width < height,
{
    if width == 0 {
        assert(width * height == 0);
    }
    lemma_fundamental_div_mod(n, width);
    lemma_mod_pos_bound(n, width);
    lemma_div_pos_is_pos(n, width);
    let q = n / width;
    assert(q < height) by (nonlinear_arith)
        requires
            n == width * q + n % width,
            0 <= n % width,
            n < width * height,
            width > 0,
    ;
}

/// The cells of `pixels` whose bucket is `bucket`, in order.
pub fn cells_at_level(pixels: &Vec<(u16, u16, u8)>, bucket: u8) -> (r: Vec<(u16, u16)>)
    ensures
        r@ == cells_in_bucket(pixels@, bucket),
{
    let mut out: Vec<(u16, u16)> = Vec::new();
    let mut i: usize = 0;
    while i < pixels.len()
        invariant
            i <= pixels@.len(),
            out@ == cells_in_bucket(pixels@.take(i as int), bucket),
        decreases pixels@.len() - i,
    {
        let p = pixels[i];
        proof {
            let s = pixels@.take(i as int + 1);
            assert(s.drop_last() =~= pixels@.take(i as int));
            assert(s.last() == p);
            reveal_with_fuel(Seq::filter, 1);
        }
        if p.2 == bucket {
            out.push((p.0, p.1));
        }
        proof {
            let f = |q: (u16, u16, u8)| q.2 == bucket;
            let g = |q: (u16, u16, u8)| (q.0, q.1);
            let s = pixels@.take(i as int + 1);
            let prev = pixels@.take(i as int).filter(f);
            if p.2 == bucket {
                assert(s.filter(f) == prev.push(p));
                assert(prev.push(p).map_values(g) =~= prev.map_values(g).push((p.0, p.1)));
            } else {
                assert(s.filter(f) == prev);
            }
        }
        i = i + 1;
    }
    assert(pixels@.take(i as int) =~= pixels@);
    out
}

} // verus!
