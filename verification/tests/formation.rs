use space_shooter::formation::{
    Draw, Formation, FormationMaker, MAX_FORMATION_MEMBERS, ORBIT_HEIGHT, ORBIT_WIDTH_MAX,
    ORBIT_WIDTH_MIN,
};
use space_shooter::WindowSize;

fn window() -> WindowSize {
    WindowSize { width: 600_000, height: 680_000 }
}

fn atan2(y: i64, x: i64) -> i64 {
    ((y as f64).atan2(x as f64) * 1e6).round() as i64
}

#[test]
fn a_window_of_600_by_680_has_room() {
    assert!(window().has_room());
}

#[test]
fn a_window_too_low_for_the_margin_has_no_room() {
    assert!(!WindowSize { width: 600_000, height: 199_999 }.has_room());
    assert!(WindowSize { width: 600_000, height: 200_000 }.has_room());
    assert!(!WindowSize { width: -1, height: 680_000 }.has_room());
    assert!(WindowSize { width: 0, height: 680_000 }.has_room());
}

#[test]
fn a_new_maker_has_issued_nothing() {
    let maker = FormationMaker::default();
    assert_eq!(maker.group_seq, 0);
    assert_eq!(maker.current_formation, None);
    assert_eq!(maker.current_formation_members, 0);
    assert!(maker.is_exhausted());
    assert!(maker.is_ready(&window()));
}

#[test]
fn a_maker_is_not_ready_without_room_or_numbers() {
    let maker = FormationMaker::default();
    assert!(!maker.is_ready(&WindowSize { width: 600_000, height: 100_000 }));
    let formation = Formation {
        start: (600_000, 0),
        radius: (100_000, 100_000),
        offset: (0, 0),
        angle: 0,
        group_id: u32::MAX,
    };
    let last = FormationMaker {
        group_seq: u32::MAX,
        current_formation: Some(formation),
        current_formation_members: 1,
    };
    // one more enemy can still join the last batch
    assert!(last.is_ready(&window()));
    let spent = FormationMaker { current_formation_members: 2, ..last };
    assert!(!spent.is_ready(&window()));
}

#[test]
fn the_draw_lays_out_the_formation_it_describes() {
    let draw = Draw { from_width: true, start_y: -5_000, offset: (7_000, 11_000), radius_x: 90_000 };
    assert_eq!(
        draw.lay_out(&window(), 42, 3),
        Formation {
            start: (600_000, -5_000),
            radius: (90_000, ORBIT_HEIGHT),
            offset: (7_000, 11_000),
            angle: 42,
            group_id: 3,
        }
    );
}

#[test]
fn a_path_from_the_other_side_starts_as_far_out_as_the_window_is_high() {
    let draw = Draw { from_width: false, start_y: 5, offset: (7, 11), radius_x: 90_000 };
    assert_eq!(draw.lay_out(&window(), 0, 1).start, (680_000, 5));
}

#[test]
fn the_entry_vector_pairs_start_y_with_offset_x() {
    let draw = Draw { from_width: false, start_y: 5, offset: (7, 11), radius_x: 90_000 };
    assert_eq!(draw.entry_vector(&window()), (5 - 7, 680_000 - 11));
    let draw = Draw { from_width: true, start_y: -240_000, offset: (150_000, 240_000), radius_x: 80_000 };
    assert_eq!(draw.entry_vector(&window()), (-390_000, 360_000));
}

#[test]
fn a_sample_lies_within_the_window_s_ranges() {
    for _ in 0..200 {
        let draw = Draw::sample(&window());
        assert!((-240_000..=240_000).contains(&draw.start_y));
        assert!((-150_000..=150_000).contains(&draw.offset.0));
        assert!((0..=240_000).contains(&draw.offset.1));
        assert!((ORBIT_WIDTH_MIN..=ORBIT_WIDTH_MAX).contains(&draw.radius_x));
    }
}

#[test]
fn samples_differ_from_one_another_and_from_the_ends_of_their_ranges() {
    let draws: Vec<Draw> = (0..200).map(|_| Draw::sample(&window())).collect();
    assert!(draws.iter().any(|d| d.radius_x != draws[0].radius_x));
    assert!(draws.iter().any(|d| d.radius_x != ORBIT_WIDTH_MIN));
    assert!(draws.iter().any(|d| d.radius_x != ORBIT_WIDTH_MAX));
    assert!(draws.iter().any(|d| d.start_y != -240_000));
    assert!(draws.iter().any(|d| d.start_y != 240_000));
    assert!(draws.iter().any(|d| d.offset.0 != -150_000));
    assert!(draws.iter().any(|d| d.offset.1 != 0));
    assert!(draws.iter().any(|d| d.from_width));
    assert!(draws.iter().any(|d| !d.from_width));
}

#[test]
fn in_the_smallest_window_every_sample_is_the_same_but_for_the_radius() {
    let tight = WindowSize { width: 0, height: 200_000 };
    for _ in 0..20 {
        let draw = Draw::sample(&tight);
        assert_eq!(draw.start_y, 0);
        assert_eq!(draw.offset, (0, 0));
    }
}

#[test]
fn a_fresh_formation_is_laid_out_within_the_window() {
    let w = window();
    for _ in 0..100 {
        let mut maker = FormationMaker::default();
        let f = maker.make(&w, atan2);
        assert!(f.start.0 == w.width || f.start.0 == w.height);
        assert!((-240_000..=240_000).contains(&f.start.1));
        assert!((-150_000..=150_000).contains(&f.offset.0));
        assert!((0..=240_000).contains(&f.offset.1));
        assert!((80_000..=150_000).contains(&f.radius.0));
        assert_eq!(f.radius.1, 100_000);
        assert_eq!(f.group_id, 1);
    }
}

#[test]
fn the_phase_is_the_arc_tangent_of_the_entry_vector() {
    let w = window();
    for _ in 0..100 {
        let mut maker = FormationMaker::default();
        let f = maker.make(&w, atan2);
        let y = (f.start.1 - f.offset.0) as i64;
        let x = (f.start.0 - f.offset.1) as i64;
        assert_eq!(f.angle, atan2(y, x));
    }
}

#[test]
fn the_phase_is_whatever_the_function_answers() {
    let mut maker = FormationMaker::default();
    let f = maker.make(&window(), |_, _| 1_234_567);
    assert_eq!(f.angle, 1_234_567);
}

#[test]
fn the_maker_keeps_what_it_issued() {
    let mut maker = FormationMaker::default();
    let f = maker.make(&window(), atan2);
    assert_eq!(maker.current_formation, Some(f));
    assert_eq!(maker.group_seq, 1);
    assert_eq!(maker.current_formation_members, 1);
    assert!(!maker.is_exhausted());
    let g = maker.make(&window(), atan2);
    assert_eq!(g, f);
    assert_eq!(maker.current_formation, Some(f));
    assert_eq!(maker.group_seq, 1);
    assert_eq!(maker.current_formation_members, 2);
    assert!(maker.is_exhausted());
}

#[test]
fn a_reused_formation_is_not_asked_a_phase_again() {
    let mut maker = FormationMaker::default();
    let f = maker.make(&window(), |_, _| 5);
    let g = maker.make(&window(), |_, _| 6);
    assert_eq!(f.angle, 5);
    assert_eq!(g.angle, 5);
    let h = maker.make(&window(), |_, _| 7);
    assert_eq!(h.angle, 7);
}

#[test]
fn no_three_calls_in_a_row_return_one_batch() {
    let mut maker = FormationMaker::default();
    let ids: Vec<u32> = (0..50).map(|_| maker.make(&window(), atan2).group_id).collect();
    for run in ids.windows(MAX_FORMATION_MEMBERS as usize + 1) {
        assert!(!(run[0] == run[1] && run[1] == run[2]));
    }
}

#[test]
fn batches_are_numbered_from_one_without_gaps() {
    let mut maker = FormationMaker::default();
    let ids: Vec<u32> = (0..9).map(|_| maker.make(&window(), atan2).group_id).collect();
    assert_eq!(ids, vec![1, 1, 2, 2, 3, 3, 4, 4, 5]);
}

#[test]
fn call_i_returns_batch_i_over_two_plus_one() {
    let mut maker = FormationMaker::default();
    for i in 0..1_000u32 {
        assert!(maker.is_ready(&window()));
        assert_eq!(maker.make(&window(), atan2).group_id, i / 2 + 1);
        assert!(maker.group_seq <= i + 1);
    }
}

#[test]
fn a_maker_in_the_middle_of_a_batch_goes_on_from_there() {
    let formation = Formation {
        start: (600_000, 0),
        radius: (100_000, 100_000),
        offset: (0, 0),
        angle: 9,
        group_id: 41,
    };
    let mut maker = FormationMaker {
        group_seq: 41,
        current_formation: Some(formation),
        current_formation_members: 1,
    };
    assert_eq!(maker.make(&window(), atan2), formation);
    let next = maker.make(&window(), atan2);
    assert_eq!(next.group_id, 42);
    assert_eq!(maker.group_seq, 42);
    assert_eq!(maker.current_formation_members, 1);
}

#[test]
fn a_formation_is_valid_when_its_orbit_lies_on_the_plane() {
    let f = Formation {
        start: (600_000, 0),
        radius: (100_000, 100_000),
        offset: (0, 0),
        angle: 0,
        group_id: 1,
    };
    assert!(f.is_valid());
    assert!(!Formation { radius: (0, 100_000), ..f }.is_valid());
    assert!(!Formation { radius: (100_000, 0), ..f }.is_valid());
    assert!(!Formation { radius: (-1, 100_000), ..f }.is_valid());
    assert!(Formation { radius: (1, 1), offset: (i32::MAX - 1, i32::MIN + 1), ..f }.is_valid());
    assert!(!Formation { radius: (2, 1), offset: (i32::MAX - 1, 0), ..f }.is_valid());
    assert!(!Formation { radius: (1, 2), offset: (0, i32::MAX - 1), ..f }.is_valid());
    assert!(!Formation { radius: (2, 1), offset: (i32::MIN + 1, 0), ..f }.is_valid());
    assert!(!Formation { radius: (1, 2), offset: (0, i32::MIN + 1), ..f }.is_valid());
    assert!(Formation { radius: (i32::MAX, i32::MAX), ..f }.is_valid());
    assert!(!Formation { radius: (i32::MAX, i32::MAX), offset: (1, 0), ..f }.is_valid());
}

#[test]
fn a_maker_is_valid_in_the_states_it_passes_through() {
    let mut maker = FormationMaker::default();
    assert!(maker.is_valid());
    for _ in 0..7 {
        maker.make(&window(), atan2);
        assert!(maker.is_valid());
    }
}

#[test]
fn a_maker_that_was_tampered_with_is_not_valid() {
    let mut maker = FormationMaker::default();
    let f = maker.make(&window(), atan2);
    assert!(!FormationMaker { group_seq: 1, ..FormationMaker::default() }.is_valid());
    assert!(!FormationMaker { current_formation_members: 1, ..FormationMaker::default() }.is_valid());
    assert!(!FormationMaker { group_seq: 2, ..maker }.is_valid());
    assert!(!FormationMaker { current_formation_members: 0, ..maker }.is_valid());
    assert!(!FormationMaker { current_formation_members: 3, ..maker }.is_valid());
    let flat = Formation { radius: (0, 100_000), ..f };
    assert!(!FormationMaker { current_formation: Some(flat), ..maker }.is_valid());
    let zero = Formation { group_id: 0, ..f };
    let unnumbered =
        FormationMaker { group_seq: 0, current_formation: Some(zero), current_formation_members: 1 };
    assert!(!unnumbered.is_valid());
}
