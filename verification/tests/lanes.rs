use wheely_fast::lanes::{
    get_lane, lane_of_index, pick_lane, LaneDice, redraw_needed, settle_lane, LANE_1, LANE_2, LANE_3, MAX_REDRAWS, NO_LANE,
};

fn position_of(idx: i16) -> i32 {
    match idx {
        0 => 68,
        1 => 174,
        2 => 280,
        _ => panic!("not a lane"),
    }
}

#[test]
fn lane_positions_are_the_lane_centres() {
    assert_eq!(LANE_1, 68);
    assert_eq!(LANE_2, 174);
    assert_eq!(LANE_3, 280);
}

#[test]
fn lane_of_index_maps_each_lane() {
    assert_eq!(lane_of_index(0), (68, 0));
    assert_eq!(lane_of_index(1), (174, 1));
    assert_eq!(lane_of_index(2), (280, 2));
    assert_eq!(lane_of_index(3), (0, NO_LANE));
    assert_eq!(lane_of_index(-1), (0, NO_LANE));
}

#[test]
fn get_lane_never_repeats_the_last_lane() {
    for last in 0..3i16 {
        for _ in 0..300 {
            let (pos, idx) = get_lane(last);
            assert_ne!(idx, last);
            assert!((0..3).contains(&idx));
            assert_eq!(pos, position_of(idx));
        }
    }
}

#[test]
fn get_lane_from_no_lane_reaches_every_lane() {
    let mut seen = [false; 3];
    for _ in 0..600 {
        let (pos, idx) = get_lane(NO_LANE);
        assert!((0..3).contains(&idx));
        assert_eq!(pos, position_of(idx));
        seen[idx as usize] = true;
    }
    assert!(seen.iter().all(|s| *s));
}

#[test]
fn get_lane_after_a_lane_reaches_both_others() {
    let mut seen = [false; 3];
    for _ in 0..600 {
        let (_, idx) = get_lane(1);
        seen[idx as usize] = true;
    }
    assert_eq!(seen, [true, false, true]);
}

#[test]
fn redraw_only_a_repeat_while_redraws_are_left() {
    assert!(redraw_needed(1, 1, 0));
    assert!(redraw_needed(2, 2, MAX_REDRAWS - 1));
    assert!(!redraw_needed(2, 2, MAX_REDRAWS));
    assert!(!redraw_needed(0, 1, 0));
    assert!(!redraw_needed(0, NO_LANE, 0));
}

#[test]
fn settle_lane_takes_the_draw_or_the_next_lane() {
    assert_eq!(settle_lane(0, 1), (68, 0));
    assert_eq!(settle_lane(2, NO_LANE), (280, 2));
    assert_eq!(settle_lane(0, 0), (174, 1));
    assert_eq!(settle_lane(1, 1), (280, 2));
    assert_eq!(settle_lane(2, 2), (68, 0));
}

#[test]
fn dice_draw_within_bounds() {
    let mut dice = LaneDice::new();
    for _ in 0..300 {
        let r = dice.gen_range(0, 3);
        assert!((0..3).contains(&r));
        let s = dice.gen_range(-5, -4);
        assert_eq!(s, -5);
    }
}

#[test]
fn pick_lane_with_shared_dice_never_repeats() {
    let mut dice = LaneDice::new();
    let mut last = NO_LANE;
    for _ in 0..500 {
        let (pos, idx) = pick_lane(&mut dice, last);
        assert_ne!(idx, last);
        assert_eq!(pos, position_of(idx));
        last = idx;
    }
}
