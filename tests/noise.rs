use rspew::noise::{div_floor, div_trunc, Channel, Perlin, FAR_BIAS, UNIT};

#[test]
fn normalize_maps_the_ends_and_the_middle() {
    let mut p = Perlin::new(100, true);
    p.set_interval(200_000, 800_000);
    assert_eq!(p.normalize(-UNIT), 200_000);
    assert_eq!(p.normalize(0), 500_000);
    assert_eq!(p.normalize(UNIT), 800_000);
}

#[test]
fn normalize_default_interval_is_identity() {
    let p = Perlin::new(7, true);
    for raw in [-UNIT, -123_457, 0, 1, 999_999, UNIT] {
        assert_eq!(p.normalize(raw), raw);
    }
}

#[test]
fn normalize_rounds_down() {
    let mut p = Perlin::new(0, true);
    p.set_interval(0, 255 * UNIT);
    // (0.5 + 1) / 2 * 255 = 191.25
    assert_eq!(p.normalize(500_000), 191_250_000);
    // (1 - 1e-6 + 1) / 2 * 3e-6 = 2.9999985e-6, rounded down in fixed point
    p.set_interval(0, 3);
    assert_eq!(p.normalize(UNIT - 1), 2);
}

#[test]
fn normalize_stays_in_range_for_many_intervals() {
    let intervals = [
        (-UNIT, UNIT),
        (0, 255 * UNIT),
        (200_000, 800_000),
        (-5, 5),
        (42, 42),
        (-1_000_000_000_000, 1_000_000_000_000),
    ];
    for (min, max) in intervals {
        let mut p = Perlin::new(3, false);
        p.set_interval(min, max);
        let mut raw = -UNIT;
        while raw <= UNIT {
            let v = p.normalize(raw);
            assert!(min <= v && v <= max, "{} not in [{}, {}]", v, min, max);
            raw += 7_919;
        }
        let top = p.normalize(UNIT);
        assert!(min <= top && top <= max);
    }
}

#[test]
fn normalize_degenerate_interval() {
    let mut p = Perlin::new(1, true);
    p.set_interval(300_000, 300_000);
    assert_eq!(p.normalize(-UNIT), 300_000);
    assert_eq!(p.normalize(0), 300_000);
    assert_eq!(p.normalize(UNIT), 300_000);
}

#[test]
fn centred_and_far_sources_differ_in_bias() {
    let near = Perlin::new(5, true);
    let far = Perlin::new(5, false);
    assert_eq!(near.query(3, 25, 4, 25).bias, 0);
    assert_eq!(far.query(3, 25, 4, 25).bias, FAR_BIAS);
    let q = far.query(3, 25, 4, 1);
    assert_eq!((q.seed, q.x_num, q.x_den, q.y_num, q.y_den), (5, 3, 25, 4, 1));
}

#[test]
fn div_floor_rounds_towards_negative_infinity() {
    assert_eq!(div_floor(7, 2), 3);
    assert_eq!(div_floor(-7, 2), -4);
    assert_eq!(div_floor(-8, 2), -4);
    assert_eq!(div_floor(-1, 1_000_000), -1);
    assert_eq!(div_floor(0, 5), 0);
    assert_eq!(div_floor(i64::MIN, 1), i64::MIN);
}

#[test]
fn div_trunc_rounds_towards_zero() {
    assert_eq!(div_trunc(7, 2), 3);
    assert_eq!(div_trunc(-7, 2), -3);
    assert_eq!(div_trunc(-500_000, 1_000_000), 0);
    assert_eq!(div_trunc(-1_500_000, 1_000_000), -1);
    assert_eq!(div_trunc(i64::MIN + 1, 1), i64::MIN + 1);
}

#[test]
fn channels_are_distinct() {
    let all = [Channel::Center, Channel::Opening, Channel::TopJitter, Channel::BottomJitter];
    let offsets: Vec<i64> = all.iter().map(|c| c.seed_offset()).collect();
    let lanes: Vec<i64> = all.iter().map(|c| c.lane()).collect();
    assert_eq!(offsets, vec![0, 25 * UNIT, 30 * UNIT, 40 * UNIT]);
    assert_eq!(lanes, vec![0, 2, 3, 4]);
}
