use perlin_rust::PerlinNoise;
use rspew::area::Area;
use rspew::noise::{Channel, NoiseQuery, UNIT};
use rspew::widgets::cave::{is_blocked, CaveConfig, CaveModel, ColumnNoise, Rgb};
use rspew::widgets::spaceship::SpaceshipModel;

fn sample(q: &NoiseQuery) -> i64 {
    let source = PerlinNoise::new(q.seed as f64 / UNIT as f64);
    let x = q.x_num as f64 / q.x_den as f64 + q.bias as f64;
    let y = q.y_num as f64 / q.y_den as f64 + q.bias as f64;
    let v = source.perlin2(x, y).clamp(-1.0, 1.0);
    (v * UNIT as f64).round() as i64
}

fn column_noise(cave: &CaveModel, area: Area) -> Vec<ColumnNoise> {
    (0..area.width)
        .map(|c| ColumnNoise {
            center: sample(&cave.noise_query(area, c, Channel::Center)),
            opening: sample(&cave.noise_query(area, c, Channel::Opening)),
            top: sample(&cave.noise_query(area, c, Channel::TopJitter)),
            bottom: sample(&cave.noise_query(area, c, Channel::BottomJitter)),
        })
        .collect()
}

fn scenario_cave() -> CaveModel {
    CaveModel::new(
        100 * UNIT,
        CaveConfig {
            opening_max: 600_000,
            opening_min: 200_000,
            frequency: 30 * UNIT,
            smooth: 200 * UNIT,
            color: Rgb::new(220, 240, 244),
        },
    )
}

fn flat(center: i64, opening: i64, top: i64, bottom: i64, n: usize) -> Vec<ColumnNoise> {
    vec![ColumnNoise { center, opening, top, bottom }; n]
}

#[test]
fn fractional_seed_and_wavelength_reach_the_query() {
    let area = Area::new(0, 0, 10, 10);
    let cave = CaveModel::new(
        500_000,
        CaveConfig {
            opening_max: 600_000,
            opening_min: 200_000,
            frequency: 2_500_000,
            smooth: 750_000,
            color: Rgb::new(0, 0, 0),
        },
    );
    let q = cave.noise_query(area, 4, Channel::Center);
    // seed 0.5, column 4 over a wavelength of 2.5
    assert_eq!((q.seed, q.x_num, q.x_den), (500_000, 4 * UNIT, 2_500_000));
    let q = cave.noise_query(area, 4, Channel::Opening);
    assert_eq!((q.seed, q.x_den), (25_500_000, 750_000));
}

#[test]
fn recompute_without_scrolling_is_identical() {
    let area = Area::new(0, 0, 80, 24);
    let mut cave = scenario_cave();
    let noise = column_noise(&cave, area);
    cave.calculate_openings(area, &noise);
    let first = cave.openings.clone();
    let noise_again = column_noise(&cave, area);
    assert_eq!(noise, noise_again);
    cave.calculate_openings(area, &noise_again);
    assert_eq!(first.len(), 80);
    assert_eq!(first, cave.openings);
}

#[test]
fn five_ticks_equal_direct_offset() {
    let area = Area::new(0, 0, 80, 24);
    let mut scrolled = scenario_cave();
    scrolled.set_speed_x(1);
    for _ in 0..5 {
        scrolled.scroll();
        let noise = column_noise(&scrolled, area);
        scrolled.calculate_openings(area, &noise);
    }
    assert_eq!(scrolled.offset_x, 5);

    let mut direct = scenario_cave();
    direct.offset_x = 5;
    let noise = column_noise(&direct, area);
    direct.calculate_openings(area, &noise);
    assert_eq!(scrolled.openings, direct.openings);
}

#[test]
fn offset_after_ticks_is_linear() {
    let mut cave = scenario_cave();
    cave.offset_x = -4;
    cave.set_speed_x(3);
    for _ in 0..7 {
        cave.scroll();
    }
    assert_eq!(cave.offset_x, -4 + 7 * 3);
    assert_eq!(cave.speed_x, 3);
    cave.set_speed_x(-2);
    cave.scroll();
    assert_eq!(cave.offset_x, 15);
}

#[test]
fn queries_follow_offset_and_channel() {
    let area = Area::new(2, 0, 80, 24);
    let mut cave = scenario_cave();
    cave.offset_x = 5;
    let q = cave.noise_query(area, 3, Channel::Center);
    // world column 3 + 2 + 5 = 10, over a wavelength of 30
    assert_eq!(
        (q.seed, q.x_num, q.x_den, q.y_num, q.y_den, q.bias),
        (100 * UNIT, 10 * UNIT, 30 * UNIT, 0, 1, 0)
    );
    let q = cave.noise_query(area, 3, Channel::Opening);
    assert_eq!((q.seed, q.x_num, q.x_den, q.y_num), (125 * UNIT, 10 * UNIT, 200 * UNIT, 2));
    let q = cave.noise_query(area, 3, Channel::TopJitter);
    assert_eq!((q.seed, q.y_num), (130 * UNIT, 3));
    let q = cave.noise_query(area, 3, Channel::BottomJitter);
    assert_eq!((q.seed, q.y_num), (140 * UNIT, 4));
    assert_eq!(cave.world_x(area, 0), 7);
}

#[test]
fn span_formula_exact() {
    let area = Area::new(0, 0, 3, 24);
    let mut cave = scenario_cave();
    // centre 0.5 * 24 = 12, opening 0.4 * 24 = 9.6: rows 7.2 and 16.8
    cave.calculate_openings(area, &flat(0, 0, 0, 0, 3));
    assert_eq!(cave.openings, vec![(7, 16); 3]);
    // centre 0.8 * 24 = 19.2, opening 0.6 * 24 = 14.4, jitters +10 and -10
    cave.calculate_openings(area, &flat(UNIT, UNIT, UNIT, -UNIT, 3));
    assert_eq!(cave.openings, vec![(12 + 10, 26 + 10); 3]);
    // centre 0.2 * 24 = 4.8, opening 0.2 * 24 = 4.8: rows 2.4 and 7.2
    cave.calculate_openings(area, &flat(-UNIT, -UNIT, 500_000, 250_000, 3));
    assert_eq!(cave.openings, vec![(2 + 5, 7 - 2); 3]);
    // jitters of -0.05 scale to -0.5, which rounds towards zero: no move
    cave.calculate_openings(area, &flat(0, 0, -50_000, -50_000, 3));
    assert_eq!(cave.openings, vec![(7, 16); 3]);
    // jitters of -0.15 and 0.15 scale to -1.5 and 1.5: one row each
    cave.calculate_openings(area, &flat(0, 0, -150_000, 150_000, 3));
    assert_eq!(cave.openings, vec![(7 - 1, 16 - 1); 3]);
}

#[test]
fn spans_are_not_clamped() {
    let area = Area::new(0, 0, 1, 24);
    let mut cave = CaveModel::new(
        1,
        CaveConfig {
            opening_max: 0,
            opening_min: 0,
            frequency: 10 * UNIT,
            smooth: 10 * UNIT,
            color: Rgb::new(0, 0, 0),
        },
    );
    // no opening and full jitter: the span is inverted
    cave.calculate_openings(area, &flat(0, 0, UNIT, UNIT, 1));
    assert_eq!(cave.openings, vec![(22, 2)]);
    // a negative jitter lifts the top above the viewport
    cave.calculate_openings(area, &flat(-UNIT, 0, -UNIT, -UNIT, 1));
    assert_eq!(cave.openings, vec![(4 - 10, 4 + 10)]);
}

#[test]
fn spans_follow_column_order() {
    let area = Area::new(0, 0, 2, 10);
    let mut cave = scenario_cave();
    let noise = vec![
        ColumnNoise { center: -UNIT, opening: -UNIT, top: 0, bottom: 0 },
        ColumnNoise { center: UNIT, opening: -UNIT, top: 0, bottom: 0 },
    ];
    cave.calculate_openings(area, &noise);
    // centre 2 and 8, opening 2
    assert_eq!(cave.openings, vec![(1, 3), (7, 9)]);
}

#[test]
fn real_noise_spans_have_one_entry_per_column() {
    let area = Area::new(0, 0, 120, 40);
    let mut cave = scenario_cave();
    cave.set_speed_x(4);
    cave.scroll();
    let noise = column_noise(&cave, area);
    cave.calculate_openings(area, &noise);
    assert_eq!(cave.openings.len(), 120);
    // centre within [8, 32], half opening within [4, 12], jitter within [-10, 10]
    for &(top, bottom) in &cave.openings {
        assert!(top >= 8 - 12 - 10 && top <= 32 - 4 + 10);
        assert!(bottom >= 8 + 4 - 10 && bottom <= 32 + 12 + 10);
    }
}

fn cave_with_span_at_ten() -> CaveModel {
    let mut cave = scenario_cave();
    cave.openings = vec![(0, 23); 20];
    cave.openings[10] = (8, 14);
    cave
}

#[test]
fn collision_at_span_boundaries() {
    let cave = cave_with_span_at_ten();
    assert!(is_blocked(&cave, 10, 7));
    assert!(!is_blocked(&cave, 10, 8));
    assert!(!is_blocked(&cave, 10, 14));
    assert!(is_blocked(&cave, 10, 15));
}

#[test]
fn collision_symmetry_over_rows() {
    let cave = cave_with_span_at_ten();
    for y in -5..30 {
        assert_eq!(is_blocked(&cave, 10, y), y < 8 || y > 14);
    }
}

#[test]
fn inverted_span_blocks_every_row() {
    let mut cave = scenario_cave();
    cave.openings = vec![(22, 2)];
    for y in -3..30 {
        assert!(is_blocked(&cave, 0, y));
    }
}

#[test]
fn ship_collision_check() {
    let cave = cave_with_span_at_ten();
    assert!(SpaceshipModel::new(10, 7).check_collision(&cave));
    assert!(!SpaceshipModel::new(10, 8).check_collision(&cave));
    assert!(!SpaceshipModel::new(10, 14).check_collision(&cave));
    assert!(SpaceshipModel::new(10, 15).check_collision(&cave));
}

#[test]
fn ship_spawns_in_the_middle_of_the_passage() {
    let mut cave = cave_with_span_at_ten();
    let ship = SpaceshipModel::spawn(&cave, 10);
    assert_eq!((ship.position.x, ship.position.y), (10, 11));
    cave.openings[10] = (22, 2);
    assert_eq!(SpaceshipModel::spawn(&cave, 10).position.y, 12);
    cave.openings[10] = (-9, 4);
    assert_eq!(SpaceshipModel::spawn(&cave, 10).position.y, 0);
    cave.openings[10] = (70_000, 70_002);
    assert_eq!(SpaceshipModel::spawn(&cave, 10).position.y, u16::MAX);
}
