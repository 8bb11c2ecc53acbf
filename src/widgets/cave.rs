use crate::area::Area;
use crate::noise::{div_floor, div_trunc, is_raw_sample, lemma_div_within, trunc_div, Channel, NoiseQuery, Perlin, BOUND_LIMIT, UNIT};
use vstd::arithmetic::div_mod::lemma_div_is_ordered;
use vstd::prelude::*;

verus! {

/// Lower bound of the passage centre, as a fraction of the height (0.2).
pub const CENTER_MIN: i64 = 200_000;

/// Upper bound of the passage centre, as a fraction of the height (0.8).
pub const CENTER_MAX: i64 = 800_000;

/// Rows by which a jitter signal of magnitude one moves a boundary.
pub const JITTER_SCALE: i64 = 10;

/// Largest magnitude of a scroll offset (2^42 cells); keeps world
/// coordinates in `i64` after they are scaled to fixed point.
pub const OFFSET_LIMIT: i64 = 0x400_0000_0000;

/// Largest seed (fixed point) whose channels all stay in `i64`.
pub const SEED_LIMIT: i64 = i64::MAX - 40_000_000;

/// A colour as red, green and blue components.
#[derive(Clone, Copy, Debug, PartialEq, Eq, Structural)]
pub struct Rgb {
    pub r: u8,
    pub g: u8,
    pub b: u8,
}

impl Rgb {
    pub fn new(r: u8, g: u8, b: u8) -> (c: Self)
        ensures
            c == (Rgb { r, g, b }),
    {
        Rgb { r, g, b }
    }
}

/// Tunables of a cave layer. Opening bounds are fractions of the height in
/// fixed point; `frequency` and `smooth` are wavelength divisors, in fixed
/// point too.
#[derive(Clone, Copy, Debug, PartialEq, Eq, Structural)]
pub struct CaveConfig {
    pub opening_max: i64,
    pub opening_min: i64,
    pub frequency: i64,
    pub smooth: i64,
    pub color: Rgb,
}

impl CaveConfig {
    pub open spec fn wf(self) -> bool {
        &&& -BOUND_LIMIT <= self.opening_min <= self.opening_max <= BOUND_LIMIT
        &&& self.frequency > 0
        &&& self.smooth > 0
    }
}

/// The raw samples (fixed point, in `[-UNIT, UNIT]`) read for one column,
/// one per channel.
#[derive(Clone, Copy, Debug, PartialEq, Eq, Structural)]
pub struct ColumnNoise {
    pub center: i64,
    pub opening: i64,
    pub top: i64,
    pub bottom: i64,
}

impl ColumnNoise {
    pub open spec fn wf(self) -> bool {
        &&& is_raw_sample(self.center as int)
        &&& is_raw_sample(self.opening as int)
        &&& is_raw_sample(self.top as int)
        &&& is_raw_sample(self.bottom as int)
    }
}

/// A scrolling cave layer: a seed, a scroll state, its tunables and the
/// spans `(top, bottom)` of the passage, one per column from left to right.
#[derive(Clone, Debug)]
pub struct CaveModel {
    pub seed: i64,
    pub offset_x: i64,
    pub speed_x: i64,
    pub opening_ratio: i64,
    pub opening_min: i64,
    pub frequency: i64,
    pub smooth: i64,
    pub color: Rgb,
    pub openings: Vec<(i64, i64)>,
}

impl CaveModel {
    pub open spec fn wf(self) -> bool {
        &&& -BOUND_LIMIT <= self.opening_min <= self.opening_ratio <= BOUND_LIMIT
        &&& self.frequency > 0
        &&& self.smooth > 0
        &&& self.seed <= SEED_LIMIT
    }

    /// The scroll offset leaves room for every world coordinate of a viewport.
    pub open spec fn offset_in_range(self) -> bool {
        -OFFSET_LIMIT <= self.offset_x <= OFFSET_LIMIT
    }

    /// Output interval of a channel.
    pub open spec fn channel_interval(self, ch: Channel) -> (int, int) {
        match ch {
            Channel::Center => (CENTER_MIN as int, CENTER_MAX as int),
            Channel::Opening => (self.opening_min as int, self.opening_ratio as int),
            _ => (-UNIT as int, UNIT as int),
        }
    }

    /// Wavelength divisor of a channel: the centre line wanders at
    /// `frequency`, the others at `smooth`.
    pub open spec fn channel_divisor(self, ch: Channel) -> i64 {
        match ch {
            Channel::Center => self.frequency,
            _ => self.smooth,
        }
    }

    /// The centred, range-mapped source of a channel.
    pub open spec fn channel_source(self, ch: Channel) -> Perlin {
        Perlin {
            seed: (self.seed + ch.seed_shift()) as i64,
            output_min: self.channel_interval(ch).0 as i64,
            output_max: self.channel_interval(ch).1 as i64,
            x_offset: 0,
            y_offset: 0,
        }
    }

    /// World coordinate of a screen column.
    pub open spec fn world_column(self, area: Area, column: int) -> int {
        column + area.x + self.offset_x
    }

    /// Where the sample of `ch` for `column` is read: at the world coordinate
    /// divided by the channel's wavelength, both in fixed point.
    pub open spec fn query_of(self, area: Area, column: int, ch: Channel) -> NoiseQuery {
        NoiseQuery {
            seed: (self.seed + ch.seed_shift()) as i64,
            x_num: (self.world_column(area, column) * UNIT) as i64,
            x_den: self.channel_divisor(ch),
            y_num: ch.lane_of() as i64,
            y_den: 1,
            bias: 0,
        }
    }

    /// Jitter in rows: the mapped sample scaled by `JITTER_SCALE`, rounded
    /// towards zero, so that a signal of magnitude below a tenth moves
    /// nothing.
    pub open spec fn jitter(self, ch: Channel, raw: int) -> int {
        trunc_div((JITTER_SCALE as int) * self.channel_source(ch).mapped(raw), UNIT as int)
    }

    /// Row of the upper boundary: `floor(center - opening / 2) + top jitter`.
    pub open spec fn top_of(self, height: int, n: ColumnNoise) -> int {
        let c = self.channel_source(Channel::Center).mapped(n.center as int);
        let o = self.channel_source(Channel::Opening).mapped(n.opening as int);
        (2 * height * c - height * o) / (2 * UNIT as int) + self.jitter(Channel::TopJitter, n.top as int)
    }

    /// Row of the lower boundary: `floor(center + opening / 2) - bottom jitter`.
    pub open spec fn bottom_of(self, height: int, n: ColumnNoise) -> int {
        let c = self.channel_source(Channel::Center).mapped(n.center as int);
        let o = self.channel_source(Channel::Opening).mapped(n.opening as int);
        (2 * height * c + height * o) / (2 * UNIT as int) - self.jitter(
            Channel::BottomJitter,
            n.bottom as int,
        )
    }

    /// The spans for a viewport of the given height and per-column samples.
    pub open spec fn spans_of(self, height: int, noise: Seq<ColumnNoise>) -> Seq<(i64, i64)> {
        Seq::new(
            noise.len(),
            |i: int| (self.top_of(height, noise[i]) as i64, self.bottom_of(height, noise[i]) as i64),
        )
    }

    /// The model after one tick of scrolling.
    pub open spec fn advanced(self) -> CaveModel {
        CaveModel { offset_x: (self.offset_x + self.speed_x) as i64, ..self }
    }

    pub fn new(seed: i64, config: CaveConfig) -> (r: Self)
        requires
            config.wf(),
            seed <= SEED_LIMIT,
        ensures
            r.wf(),
            r.seed == seed,
            r.offset_x == 0,
            r.speed_x == 0,
            r.opening_ratio == config.opening_max,
            r.opening_min == config.opening_min,
            r.frequency == config.frequency,
            r.smooth == config.smooth,
            r.color == config.color,
            r.openings@.len() == 0,
    {
        CaveModel {
            seed,
            offset_x: 0,
            speed_x: 0,
            opening_ratio: config.opening_max,
            opening_min: config.opening_min,
            frequency: config.frequency,
            smooth: config.smooth,
            color: config.color,
            openings: Vec::new(),
        }
    }

    /// Advances the scroll offset by the speed. The spans are recomputed by
    /// `calculate_openings` from the samples at the new offset.
    pub fn scroll(&mut self)
        requires
            i64::MIN <= old(self).offset_x + old(self).speed_x <= i64::MAX,
        ensures
            *final(self) == old(self).advanced(),
    {
        self.offset_x = self.offset_x + self.speed_x;
    }

    pub fn set_speed_x(&mut self, speed: i64)
        ensures
            *final(self) == (CaveModel { speed_x: speed, ..*old(self) }),
    {
        self.speed_x = speed;
    }

    /// The range-mapped source of a channel, built afresh from the seed and
    /// the tunables.
    pub fn channel_noise(&self, ch: Channel) -> (r: Perlin)
        requires
            self.wf(),
        ensures
            r == self.channel_source(ch),
            r.wf(),
    {
        let mut p = Perlin::new(self.seed + ch.seed_offset(), true);
        match ch {
            Channel::Center => p.set_interval(CENTER_MIN, CENTER_MAX),
            Channel::Opening => p.set_interval(self.opening_min, self.opening_ratio),
            _ => p.set_interval(-UNIT, UNIT),
        }
        p
    }

    /// World coordinate of a screen column: `column + area.x + offset_x`.
    pub fn world_x(&self, area: Area, column: u16) -> (r: i64)
        requires
            self.offset_in_range(),
        ensures
            r == self.world_column(area, column as int),
    {
        column as i64 + area.x as i64 + self.offset_x
    }

    /// The point at which the sample of channel `ch` for `column` is read.
    pub fn noise_query(&self, area: Area, column: u16, ch: Channel) -> (r: NoiseQuery)
        requires
            self.wf(),
            self.offset_in_range(),
        ensures
            r == self.query_of(area, column as int, ch),
    {
        let p = self.channel_noise(ch);
        let divisor: i64 = match ch {
            Channel::Center => self.frequency,
            _ => self.smooth,
        };
        p.query(self.world_x(area, column) * UNIT, divisor, ch.lane(), 1)
    }

    fn jitter_rows(&self, ch: Channel, p: &Perlin, raw: i64) -> (r: i64)
        requires
            self.wf(),
            *p == self.channel_source(ch),
            ch == Channel::TopJitter || ch == Channel::BottomJitter,
            is_raw_sample(raw as int),
        ensures
            r == self.jitter(ch, raw as int),
            -JITTER_SCALE <= r <= JITTER_SCALE,
    {
        let v = p.normalize(raw);
        proof {
            let s = JITTER_SCALE * v;
            let k = JITTER_SCALE * UNIT;
            vstd::arithmetic::div_mod::lemma_div_multiples_vanish(JITTER_SCALE as int, UNIT as int);
            if s >= 0 {
                lemma_div_is_ordered(s, k, UNIT as int);
                vstd::arithmetic::div_mod::lemma_div_pos_is_pos(s, UNIT as int);
            } else {
                lemma_div_is_ordered(-s, k, UNIT as int);
                vstd::arithmetic::div_mod::lemma_div_pos_is_pos(-s, UNIT as int);
            }
        }
        div_trunc(JITTER_SCALE * v, UNIT)
    }

    /// The span of one column from its samples.
    fn span(&self, height: u16, n: &ColumnNoise, sources: &[Perlin; 4]) -> (r: (i64, i64))
        requires
            self.wf(),
            n.wf(),
            sources[0] == self.channel_source(Channel::Center),
            sources[1] == self.channel_source(Channel::Opening),
            sources[2] == self.channel_source(Channel::TopJitter),
            sources[3] == self.channel_source(Channel::BottomJitter),
        ensures
            r.0 == self.top_of(height as int, *n),
            r.1 == self.bottom_of(height as int, *n),
    {
        let h = height as i64;
        let c = sources[0].normalize(n.center);
        let o = sources[1].normalize(n.opening);
        let tj = self.jitter_rows(Channel::TopJitter, &sources[2], n.top);
        let bj = self.jitter_rows(Channel::BottomJitter, &sources[3], n.bottom);
        proof {
            assert(0 <= h * c <= 65535 * CENTER_MAX) by (nonlinear_arith)
                requires
                    0 <= h <= 65535,
                    CENTER_MIN <= c <= CENTER_MAX,
            ;
            assert(-65535 * BOUND_LIMIT <= h * o <= 65535 * BOUND_LIMIT) by (nonlinear_arith)
                requires
                    0 <= h <= 65535,
                    -BOUND_LIMIT <= o <= BOUND_LIMIT,
            ;
        }
        let hc: i64 = h * c;
        let ho: i64 = h * o;
        let ghost k: int = 2 * 65535 * (CENTER_MAX as int) + 65535 * (BOUND_LIMIT as int);
        proof {
            lemma_div_within(2 * hc - ho, 2 * UNIT, k);
            lemma_div_within(2 * hc + ho, 2 * UNIT, k);
            assert(2 * (h as int) * (c as int) == 2 * (hc as int)) by (nonlinear_arith)
                requires
                    hc == h * c,
            ;
        }
        let top = div_floor(2 * hc - ho, 2 * UNIT) + tj;
        let bottom = div_floor(2 * hc + ho, 2 * UNIT) - bj;
        (top, bottom)
    }

    /// Rebuilds the spans, one per column of `area`, from the samples read
    /// for each column (see `noise_query`).
    pub fn calculate_openings(&mut self, area: Area, noise: &Vec<ColumnNoise>)
        requires
            old(self).wf(),
            noise@.len() == area.width,
            forall|i: int| 0 <= i < noise@.len() ==> (#[trigger] noise@[i]).wf(),
        ensures
            *final(self) == (CaveModel { openings: final(self).openings, ..*old(self) }),
            final(self).openings@ == old(self).spans_of(area.height as int, noise@),
    {
        let sources: [Perlin; 4] = [
            self.channel_noise(Channel::Center),
            self.channel_noise(Channel::Opening),
            self.channel_noise(Channel::TopJitter),
            self.channel_noise(Channel::BottomJitter),
        ];
        let mut openings: Vec<(i64, i64)> = Vec::new();
        let mut i: usize = 0;
        while i < noise.len()
            invariant
                self.wf(),
                *self == *old(self),
                noise@.len() == area.width,
                forall|j: int| 0 <= j < noise@.len() ==> (#[trigger] noise@[j]).wf(),
                sources[0] == self.channel_source(Channel::Center),
                sources[1] == self.channel_source(Channel::Opening),
                sources[2] == self.channel_source(Channel::TopJitter),
                sources[3] == self.channel_source(Channel::BottomJitter),
                i <= noise@.len(),
                openings@ == self.spans_of(area.height as int, noise@.take(i as int)),
            decreases noise@.len() - i,
        {
            let s = self.span(area.height, &noise[i], &sources);
            openings.push(s);
            proof {
                assert(noise@.take(i as int + 1) == noise@.take(i as int).push(noise@[i as int]));
                assert(openings@ =~= self.spans_of(area.height as int, noise@.take(i as int + 1)));
            }
            i = i + 1;
        }
        assert(noise@.take(i as int) =~= noise@);
        self.openings = openings;
    }
}

/// Whether row `y` of column `x` lies outside that column's span.
pub open spec fn blocked(field: CaveModel, x: int, y: int) -> bool {
    y < field.openings@[x].0 || y > field.openings@[x].1
}

/// Whether the cell at column `x`, row `y` is solid rock: above the top or
/// below the bottom of that column's span. The boundary rows are passable.
pub fn is_blocked(field: &CaveModel, x: usize, y: i64) -> (r: bool)
    requires
        x < field.openings@.len(),
    ensures
        r == blocked(*field, x as int, y as int),
{
    let (top, bottom) = field.openings[x];
    y < top || y > bottom
}

/// The model after `n` ticks of scrolling.
pub open spec fn scrolled(m: CaveModel, n: nat) -> CaveModel
    decreases n,
{
    if n == 0 {
        m
    } else {
        scrolled(m, (n - 1) as nat).advanced()
    }
}

/// Determinism: recomputing a field whose seed, tunables and offset are
/// unchanged (only its spans may differ) reads the noise at the same points
/// and, from the same samples, yields the same spans.
pub proof fn lemma_recompute_deterministic(
    a: CaveModel,
    b: CaveModel,
    area: Area,
    noise: Seq<ColumnNoise>,
)
    requires
        b == (CaveModel { openings: b.openings, ..a }),
    ensures
        forall|column: int, ch: Channel| #[trigger]
            a.query_of(area, column, ch) == b.query_of(area, column, ch),
        a.spans_of(area.height as int, noise) == b.spans_of(area.height as int, noise),
{
}

/// Scroll linearity: `n` ticks at constant speed `s` move the offset from
/// `o` to `o + n * s` and change nothing else, so the result is the field
/// built directly at that offset, and reads the same noise.
pub proof fn lemma_scroll_linear(m: CaveModel, n: nat)
    requires
        i64::MIN <= m.offset_x + n * m.speed_x <= i64::MAX,
    ensures
        scrolled(m, n) == (CaveModel { offset_x: (m.offset_x + n * m.speed_x) as i64, ..m }),
    decreases n,
{
    if n > 0 {
        let k = (n - 1) as nat;
        assert(m.offset_x + k * m.speed_x == m.offset_x + n * m.speed_x - m.speed_x) by (nonlinear_arith)
            requires
                k == n - 1,
        ;
        assert(i64::MIN <= m.offset_x + k * m.speed_x <= i64::MAX) by (nonlinear_arith)
            requires
                i64::MIN <= m.offset_x + n * m.speed_x <= i64::MAX,
                i64::MIN <= m.offset_x <= i64::MAX,
                k == n - 1,
                n >= 1,
        ;
        lemma_scroll_linear(m, k);
        let prev = scrolled(m, k);
        assert(prev.offset_x + prev.speed_x == m.offset_x + n * m.speed_x);
        assert(scrolled(m, n) == prev.advanced());
    } else {
        assert(n * m.speed_x == 0) by (nonlinear_arith)
            requires
                n == 0,
        ;
    }
}

/// Collision at the boundaries: inside a span whose top does not lie below
/// its bottom, the top and bottom rows are passable, and exactly the rows
/// above the top or below the bottom are blocked.
pub proof fn lemma_boundaries_passable(field: CaveModel, x: int)
    requires
        0 <= x < field.openings@.len(),
        field.openings@[x].0 <= field.openings@[x].1,
    ensures
        !blocked(field, x, field.openings@[x].0 as int),
        !blocked(field, x, field.openings@[x].1 as int),
        forall|y: int| #[trigger] blocked(field, x, y) <==> (y < field.openings@[x].0 || y > field.openings@[x].1),
{
}

} // verus!
