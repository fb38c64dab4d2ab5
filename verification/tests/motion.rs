use space_shooter::arith::ceil_sqrt_of;
use space_shooter::enemy::{enemy_movment, Enemy};
use space_shooter::motion::SinCos;
use space_shooter::formation::Formation;
use space_shooter::{Speed, DEFAULT_SPEED, TIME_PER_FRAME};

fn trig(angle: i64) -> (i32, i32) {
    let a = angle as f64 / 1e6;
    ((a.cos() * 1e6).round() as i32, (a.sin() * 1e6).round() as i32)
}

fn circle() -> Formation {
    Formation {
        start: (600_000, 0),
        radius: (100_000, 100_000),
        offset: (0, 0),
        angle: 0,
        group_id: 1,
    }
}

fn enemy_at(x: i32, y: i32, formation: Formation) -> Enemy {
    Enemy { x, y, speed: Speed(DEFAULT_SPEED), formation }
}

const EAST: SinCos = SinCos { cos: 1_000_000, sin: 0 };

#[test]
fn roots_are_rounded_up() {
    assert_eq!(ceil_sqrt_of(0), 0);
    assert_eq!(ceil_sqrt_of(1), 1);
    assert_eq!(ceil_sqrt_of(2), 2);
    assert_eq!(ceil_sqrt_of(4), 2);
    assert_eq!(ceil_sqrt_of(5), 3);
    assert_eq!(ceil_sqrt_of(25), 5);
    assert_eq!(ceil_sqrt_of(26), 6);
    assert_eq!(ceil_sqrt_of(10_000_000_000), 100_000);
    assert_eq!(ceil_sqrt_of(10_000_000_001), 100_001);
    assert_eq!(ceil_sqrt_of(u128::MAX), 1 << 64);
    assert_eq!(ceil_sqrt_of((1 << 126) + 1), (1 << 63) + 1);
}

#[test]
fn the_default_speed_covers_8333_sub_units_a_frame() {
    assert_eq!(Speed::default(), Speed(500_000));
    assert_eq!(Speed::default().distance_in(TIME_PER_FRAME), 8_333);
    assert_eq!(Speed::default().distance_in(1_000_000), 500_000);
    assert_eq!(Speed(1).distance_in(999_999), 0);
    assert_eq!(Speed(u32::MAX).distance_in(u32::MAX), 18_446_744_065_119);
    assert_eq!(Speed(0).distance_in(u32::MAX), 0);
}

#[test]
fn a_pair_beyond_one_is_brought_into_range() {
    assert_eq!(SinCos::new(1_000_001, -1_000_001), SinCos { cos: 1_000_000, sin: -1_000_000 });
    assert_eq!(SinCos::new(i32::MAX, i32::MIN), SinCos { cos: 1_000_000, sin: -1_000_000 });
    assert_eq!(SinCos::new(-3, 999_999), SinCos { cos: -3, sin: 999_999 });
}

#[test]
fn the_point_of_an_orbit_is_its_centre_plus_the_scaled_radii() {
    let f = Formation { radius: (100_000, 50_000), offset: (10_000, 20_000), ..circle() };
    assert_eq!(f.point_at(SinCos { cos: 500_000, sin: -500_000 }), (60_000, -5_000));
    assert_eq!(f.point_at(SinCos { cos: -1_000_000, sin: 1_000_000 }), (-90_000, 70_000));
    assert_eq!(f.point_at(SinCos { cos: 0, sin: 0 }), (10_000, 20_000));
}

#[test]
fn scaling_rounds_toward_zero() {
    let f = Formation { radius: (3, 3), offset: (0, 0), ..circle() };
    assert_eq!(f.point_at(SinCos { cos: 500_000, sin: -500_000 }), (1, -1));
    assert_eq!(f.point_at(SinCos { cos: 999_999, sin: -999_999 }), (2, -2));
}

#[test]
fn an_orbit_at_the_edge_of_the_plane_has_its_points_on_the_plane() {
    let f = Formation {
        radius: (1_000, 1_000),
        offset: (i32::MAX - 1_000, i32::MIN + 1_000),
        ..circle()
    };
    assert_eq!(f.point_at(SinCos { cos: 1_000_000, sin: -1_000_000 }), (i32::MAX, i32::MIN));
}

#[test]
fn the_candidate_angle_grows_by_the_way_over_the_quarter_turn() {
    // 2 * 500 * (16667 / 1e6) / (100 * 3.141593) = 0.053052 rad
    assert_eq!(enemy_at(0, 0, circle()).next_angle(TIME_PER_FRAME), 53_052);
    let f = Formation { angle: 1_000_000, ..circle() };
    assert_eq!(enemy_at(0, 0, f).next_angle(TIME_PER_FRAME), 1_053_052);
}

#[test]
fn the_lesser_radius_sets_the_step() {
    let wide = Formation { radius: (150_000, 100_000), ..circle() };
    assert_eq!(enemy_at(0, 0, wide).next_angle(TIME_PER_FRAME), 53_052);
    let narrow = Formation { radius: (80_000, 100_000), ..circle() };
    // 2 * 8333.5 / (80 * 3.141593) = 66.315 mrad
    assert_eq!(enemy_at(0, 0, narrow).next_angle(TIME_PER_FRAME), 66_315);
}

#[test]
fn a_path_that_starts_left_of_the_middle_turns_the_other_way() {
    let f = Formation { start: (0, 0), ..circle() };
    assert_eq!(enemy_at(0, 0, f).next_angle(TIME_PER_FRAME), -53_052);
    let f = Formation { start: (-600_000, 0), ..circle() };
    assert_eq!(enemy_at(0, 0, f).next_angle(TIME_PER_FRAME), -53_052);
    let f = Formation { start: (1, 0), ..circle() };
    assert_eq!(enemy_at(0, 0, f).next_angle(TIME_PER_FRAME), 53_052);
}

#[test]
fn the_candidate_angle_stops_at_the_ends_of_its_range() {
    let f = Formation { radius: (1, 1), angle: i64::MAX - 5, ..circle() };
    let enemy = Enemy { speed: Speed(u32::MAX), ..enemy_at(0, 0, f) };
    assert_eq!(enemy.next_angle(u32::MAX), i64::MAX);
    let f = Formation { start: (-1, 0), angle: i64::MIN + 5, ..f };
    let enemy = Enemy { formation: f, ..enemy };
    assert_eq!(enemy.next_angle(u32::MAX), i64::MIN);
}

#[test]
fn a_tick_of_no_length_changes_nothing_but_may_adopt_no_angle() {
    let mut enemy = enemy_at(5_000, -7_000, circle());
    enemy.advance(0, EAST);
    assert_eq!(enemy, enemy_at(5_000, -7_000, circle()));
}

#[test]
fn an_enemy_on_its_target_does_not_move() {
    // the point of the orbit at angle 0 is (100, 0): the distance is 0
    let mut enemy = enemy_at(100_000, 0, circle());
    enemy.advance(TIME_PER_FRAME, EAST);
    assert_eq!((enemy.x, enemy.y), (100_000, 0));
    // and being close enough, it adopts the candidate angle
    assert_eq!(enemy.formation.angle, 53_052);
}

#[test]
fn an_enemy_at_the_centre_of_its_orbit_makes_one_step_toward_the_target() {
    let mut enemy = enemy_at(0, 0, circle());
    enemy.advance(TIME_PER_FRAME, EAST);
    assert_eq!((enemy.x, enemy.y), (8_333, 0));
    assert_eq!(enemy.formation, Formation { angle: 53_052, ..circle() });
    assert_eq!(enemy.speed, Speed(DEFAULT_SPEED));
}

#[test]
fn a_step_is_shared_between_the_axes_and_rounded_down() {
    // target (30, 40) from (0, 0): distance 50, reach 8.333
    let f = Formation { radius: (1_000, 1_000), offset: (30_000, 40_000), ..circle() };
    let mut enemy = enemy_at(0, 0, f);
    enemy.advance(TIME_PER_FRAME, SinCos { cos: 0, sin: 0 });
    assert_eq!((enemy.x, enemy.y), (4_999, 6_666));
    let mut enemy = enemy_at(60_000, 80_000, f);
    enemy.advance(TIME_PER_FRAME, SinCos { cos: 0, sin: 0 });
    assert_eq!((enemy.x, enemy.y), (60_000 - 4_999, 80_000 - 6_666));
}

#[test]
fn a_step_longer_than_the_way_ends_on_the_target() {
    let f = Formation { radius: (1_000, 1_000), offset: (3_000, -4_000), ..circle() };
    let mut enemy = enemy_at(0, 0, f);
    enemy.advance(TIME_PER_FRAME, SinCos { cos: 0, sin: 0 });
    assert_eq!((enemy.x, enemy.y), (3_000, -4_000));
}

#[test]
fn the_distance_is_rounded_up_before_it_divides() {
    // target (1, 1) sub-units away: distance 2 after rounding, reach 1
    let f = Formation { radius: (1_000, 1_000), offset: (1, 1), ..circle() };
    let mut enemy = Enemy { speed: Speed(1_000), ..enemy_at(0, 0, f) };
    enemy.advance(1_000, SinCos { cos: 0, sin: 0 });
    assert_eq!((enemy.x, enemy.y), (0, 0));
    let mut enemy = Enemy { speed: Speed(2_000), ..enemy_at(0, 0, f) };
    enemy.advance(1_000, SinCos { cos: 0, sin: 0 });
    assert_eq!((enemy.x, enemy.y), (1, 1));
}

#[test]
fn the_angle_is_adopted_under_the_threshold_only() {
    // reach 8333, speed 500000: the threshold is 8333 * 500000 / 20000 = 208325 sub-units
    let mut near = enemy_at(100_000 - 208_324, 0, circle());
    near.advance(TIME_PER_FRAME, EAST);
    assert_eq!(near.formation.angle, 53_052);
    let mut at = enemy_at(100_000 - 208_325, 0, circle());
    at.advance(TIME_PER_FRAME, EAST);
    assert_eq!(at.formation.angle, 0);
    let mut far = enemy_at(-200_000, 0, circle());
    far.advance(TIME_PER_FRAME, EAST);
    assert_eq!(far.formation.angle, 0);
    assert_eq!((far.x, far.y), (-191_667, 0));
}

#[test]
fn the_threshold_is_held_against_the_true_distance() {
    // 147308 * 147308 * 2 = 43_399_293_728 < 208325 * 208325 = 43_399_305_625
    let f = Formation { radius: (1_000, 1_000), offset: (147_308, 147_308), ..circle() };
    let mut enemy = enemy_at(0, 0, f);
    enemy.advance(TIME_PER_FRAME, SinCos { cos: 0, sin: 0 });
    assert_ne!(enemy.formation.angle, 0);
    // 147309 * 147309 * 2 = 43_399_882_962 > 43_399_305_625
    let f = Formation { offset: (147_309, 147_309), ..f };
    let mut enemy = enemy_at(0, 0, f);
    enemy.advance(TIME_PER_FRAME, SinCos { cos: 0, sin: 0 });
    assert_eq!(enemy.formation.angle, 0);
}

#[test]
fn with_no_speed_nothing_moves_and_no_angle_is_adopted() {
    let mut enemy = Enemy { speed: Speed(0), ..enemy_at(0, 0, circle()) };
    enemy.advance(TIME_PER_FRAME, EAST);
    assert_eq!(enemy, Enemy { speed: Speed(0), ..enemy_at(0, 0, circle()) });
}

#[test]
fn the_widest_inputs_are_taken_without_overflow() {
    let f = Formation {
        start: (i32::MAX, i32::MAX),
        radius: (1, 1),
        offset: (i32::MAX - 1, i32::MAX - 1),
        angle: i64::MAX,
        group_id: u32::MAX,
    };
    let mut enemy = Enemy { x: i32::MIN, y: i32::MIN, speed: Speed(u32::MAX), formation: f };
    enemy.advance(u32::MAX, SinCos { cos: 1_000_000, sin: 1_000_000 });
    assert_eq!((enemy.x, enemy.y), (i32::MAX, i32::MAX));
    assert_eq!(enemy.formation.angle, i64::MAX);
    let mut enemy = Enemy { x: i32::MIN, y: i32::MIN, speed: Speed(1), formation: f };
    enemy.advance(1_000_000, SinCos { cos: 1_000_000, sin: 1_000_000 });
    assert_eq!((enemy.x, enemy.y), (i32::MIN, i32::MIN));
}

#[test]
fn fly_asks_for_the_cosine_and_sine_of_the_candidate_angle() {
    let mut enemy = enemy_at(0, 0, circle());
    enemy.fly(TIME_PER_FRAME, &|angle: i64| {
        assert_eq!(angle, 53_052);
        (1_000_000, 0)
    });
    assert_eq!((enemy.x, enemy.y), (8_333, 0));
    assert_eq!(enemy.formation.angle, 53_052);
}

#[test]
fn fly_takes_the_cosine_first() {
    let mut enemy = enemy_at(0, 0, circle());
    enemy.fly(TIME_PER_FRAME, &|_| (0, 1_000_000));
    assert_eq!((enemy.x, enemy.y), (0, 8_333));
}

#[test]
fn fly_brings_a_wild_answer_into_range() {
    let mut wild = enemy_at(0, 0, circle());
    wild.fly(TIME_PER_FRAME, &|_| (i32::MAX, i32::MIN));
    let mut tame = enemy_at(0, 0, circle());
    tame.advance(TIME_PER_FRAME, SinCos { cos: 1_000_000, sin: -1_000_000 });
    assert_eq!(wild, tame);
}

#[test]
fn every_enemy_moves_in_a_tick() {
    let mut enemies = vec![
        enemy_at(0, 0, circle()),
        enemy_at(100_000, 0, circle()),
        enemy_at(-200_000, 0, circle()),
    ];
    enemy_movment(&mut enemies, TIME_PER_FRAME, |_| (1_000_000, 0));
    assert_eq!(enemies.len(), 3);
    assert_eq!((enemies[0].x, enemies[0].y), (8_333, 0));
    assert_eq!((enemies[1].x, enemies[1].y), (100_000, 0));
    assert_eq!((enemies[2].x, enemies[2].y), (-191_667, 0));
    assert_eq!(enemies[0].formation.angle, 53_052);
    assert_eq!(enemies[1].formation.angle, 53_052);
    assert_eq!(enemies[2].formation.angle, 0);
    let mut none: Vec<Enemy> = Vec::new();
    enemy_movment(&mut none, TIME_PER_FRAME, trig);
    assert!(none.is_empty());
}

#[test]
fn no_tick_overshoots_or_outruns_the_speed() {
    let f = Formation {
        start: (600_000, -120_000),
        radius: (130_000, 100_000),
        offset: (-40_000, 90_000),
        angle: -205_000,
        group_id: 1,
    };
    let mut enemy = enemy_at(f.start.0, f.start.1, f);
    let reach = Speed(DEFAULT_SPEED).distance_in(TIME_PER_FRAME) as i128;
    for _ in 0..2_000 {
        let before = enemy;
        let (cos, sin) = trig(before.next_angle(TIME_PER_FRAME));
        let (tx, ty) = before.formation.point_at(SinCos::new(cos, sin));
        enemy.fly(TIME_PER_FRAME, &trig);
        let d = |a: i32, b: i32| (a as i128 - b as i128).abs();
        assert!(d(enemy.x, tx) <= d(before.x, tx));
        assert!(d(enemy.y, ty) <= d(before.y, ty));
        let (mx, my) = (d(enemy.x, before.x), d(enemy.y, before.y));
        assert!(mx * mx + my * my <= reach * reach);
        assert!(enemy.x >= before.x.min(tx) && enemy.x <= before.x.max(tx));
        assert!(enemy.y >= before.y.min(ty) && enemy.y <= before.y.max(ty));
    }
    // by now the enemy has caught up with its orbit and circles it
    assert_ne!(enemy.formation.angle, f.angle);
    let (cos, sin) = trig(enemy.formation.angle);
    let (ox, oy) = f.point_at(SinCos::new(cos, sin));
    assert!((enemy.x - ox).abs() <= 20_000 && (enemy.y - oy).abs() <= 20_000);
}
