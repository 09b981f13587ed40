use wheely_fast::car::{Direction, GridLocation, Key};
use wheely_fast::game::{road_tiles, GameEvent, KeyAction, MainState, PlayState};

fn started(now: u128) -> MainState {
    let mut s = MainState::new();
    assert_eq!(s.key_down_event(Key::Return, now), KeyAction::Continue);
    s
}

#[test]
fn new_game_lays_out_a_course() {
    let s = MainState::new();
    assert_eq!(s.play(), PlayState::Start);
    assert_eq!(s.score(), 0);
    assert_eq!(s.start_time(), 0);
    assert_eq!(s.car().car, GridLocation::new(184, 580));
    assert_eq!(s.car().dir, Direction::Up);
    assert_eq!(s.lanes_remaining(), 450);
    let b = s.barriers();
    assert_eq!(b.len(), 450);
    for (i, (x, y)) in b.iter().enumerate() {
        assert!([68, 174, 280].contains(x));
        assert_eq!(*y, i as i32 * -200 + 50);
        if i + 1 < b.len() {
            assert_ne!(*x, b[i + 1].0);
        }
    }
    assert_eq!(s.next_lane(), Some(b[0].0));
}

#[test]
fn return_starts_play() {
    let mut s = MainState::new();
    assert_eq!(s.key_down_event(Key::Left, 5), KeyAction::Continue);
    assert_eq!(s.car().next_dir, None);
    assert_eq!(s.key_down_event(Key::Return, 1234), KeyAction::Continue);
    assert_eq!(s.play(), PlayState::Play);
    assert_eq!(s.start_time(), 1234);
    assert_eq!(s.key_down_event(Key::Return, 9999), KeyAction::Continue);
    assert_eq!(s.start_time(), 1234);
}

#[test]
fn escape_quits_outside_play_and_ends_play() {
    let mut s = MainState::new();
    assert_eq!(s.key_down_event(Key::Escape, 0), KeyAction::Quit);
    assert_eq!(s.play(), PlayState::Start);
    let mut s = started(0);
    assert_eq!(s.key_down_event(Key::Escape, 10), KeyAction::Continue);
    assert_eq!(s.play(), PlayState::End);
    assert_eq!(s.key_down_event(Key::Return, 20), KeyAction::Continue);
    assert_eq!(s.play(), PlayState::End);
    assert_eq!(s.key_down_event(Key::Escape, 30), KeyAction::Quit);
}

#[test]
fn arrows_steer_only_in_play() {
    let mut s = started(0);
    s.key_down_event(Key::Right, 1);
    assert_eq!(s.car().next_dir, Some(Direction::Right));
    s.key_down_event(Key::Other, 2);
    assert_eq!(s.car().next_dir, Some(Direction::Right));
}

#[test]
fn no_update_before_its_time_or_outside_play() {
    let mut s = MainState::new();
    assert!(!s.update(1000, 700, 0, 640));
    assert_eq!(s.score(), 0);
    let mut s = started(0);
    s.key_down_event(Key::Left, 1);
    assert!(!s.update(61, 700, 0, 640));
    assert_eq!(s.car().car.x, 184);
    assert_eq!(s.score(), 0);
}

#[test]
fn update_moves_car_and_scores() {
    let mut s = started(0);
    s.key_down_event(Key::Left, 1);
    assert!(s.update(62, 700, 0, 640));
    assert_eq!(s.car().car.x, 76);
    assert_eq!(s.car().next_dir, None);
    assert_eq!(s.score(), 10);
    assert_eq!(s.play(), PlayState::Play);
    assert!(s.update(100, 700, 0, 703));
    assert_eq!(s.score(), 10);
    assert!(s.update(100, 700, 0, 704));
    assert_eq!(s.score(), 11);
}

#[test]
fn driving_into_the_next_barrier_ends_the_game() {
    let mut s = started(0);
    let lane = s.next_lane().unwrap();
    let key = match lane {
        68 => Key::Left,
        280 => Key::Right,
        _ => Key::Up,
    };
    s.key_down_event(key, 1);
    // scroll position 603: level with a barrier
    assert!(s.update(62, 4221, 0, 4221));
    assert_eq!(s.play(), PlayState::End);
    assert_eq!(s.score(), 65);
    assert!(!s.update(62, 4300, 0, 4300));
    assert_eq!(s.score(), 65);
}

#[test]
fn dodging_the_next_barrier_keeps_playing() {
    let mut s = started(0);
    let lane = s.next_lane().unwrap();
    let key = match lane {
        68 | 174 => Key::Right,
        _ => Key::Left,
    };
    s.key_down_event(key, 1);
    assert!(s.update(62, 4221, 0, 4221));
    assert_eq!(s.play(), PlayState::Play);
}

#[test]
fn passed_barrier_leaves_the_course() {
    let mut s = started(0);
    let first = s.barriers()[0].0;
    let second = s.barriers()[1].0;
    // scroll position 630: the next barrier is marked
    assert!(s.update(62, 4410, 0, 4410));
    assert_eq!(s.lanes_remaining(), 450);
    // scroll position 710: it has been passed
    assert!(s.update(62, 4970, 0, 4970));
    assert_eq!(s.lanes_remaining(), 449);
    assert_ne!(s.next_lane(), Some(first));
    assert_eq!(s.next_lane(), Some(second));
    // passing again without a new mark removes nothing
    assert!(s.update(62, 4970, 0, 4970));
    assert_eq!(s.lanes_remaining(), 449);
}

#[test]
fn speedup_adds_to_the_scroll_position() {
    let mut s = started(0);
    // 4221 / 7 = 603 alone would be level with a barrier; 30 more pixels is not.
    let lane = s.next_lane().unwrap();
    let key = match lane {
        68 => Key::Left,
        280 => Key::Right,
        _ => Key::Up,
    };
    s.key_down_event(key, 1);
    assert!(s.update(62, 4221, 30, 4221));
    assert_eq!(s.play(), PlayState::Play);
    assert_eq!(s.barrier_offset(4221, 30), 633);
}

#[test]
fn start_time_offsets_the_course() {
    let s = started(700);
    assert_eq!(s.barrier_offset(1400, 5), 1400 / 7 - 700 / 7 + 5);
}

#[test]
fn road_offset_adds_speedup_only_in_play() {
    let s = MainState::new();
    assert_eq!(s.road_offset(700, 50), 100);
    let s = started(0);
    assert_eq!(s.road_offset(700, 50), 150);
}

#[test]
fn road_tiles_stack_upwards() {
    let t = road_tiles();
    assert_eq!(t.len(), 150);
    assert_eq!(t[0], (0, 600));
    assert_eq!(t[1], (0, 150));
    assert_eq!(t[149], (0, 149 * -450 + 600));
}

#[test]
fn update_is_defined_checks_the_clocks() {
    let s = started(700);
    assert!(s.update_is_defined(62, 1400, 0, 800));
    // the clock used for the scroll is behind the start of play
    assert!(!s.update_is_defined(62, 100, 0, 800));
    // the clock used for the score is behind the start of play
    assert!(!s.update_is_defined(62, 1400, 0, 600));
    // the scroll position overflows
    assert!(!s.update_is_defined(62, 1400, u32::MAX, 800));
    // not due: always defined
    assert!(s.update_is_defined(61, 100, 0, 600));
    let m = MainState::new();
    assert!(m.update_is_defined(1000, 0, 0, 0));
}

#[test]
fn play_states_only_move_forward() {
    let mut s = MainState::new();
    let keys = [Key::Left, Key::Up, Key::Other, Key::Right];
    for (i, k) in keys.iter().enumerate() {
        s.key_down_event(*k, i as u128);
        assert!(!s.update(100, 700, 0, 640));
        assert_eq!(s.play(), PlayState::Start);
        assert_eq!(s.start_time(), 0);
    }
    s.key_down_event(Key::Return, 50);
    assert_eq!(s.play(), PlayState::Play);
    s.key_down_event(Key::Return, 60);
    assert!(s.update(100, 1400, 0, 690));
    assert_eq!(s.start_time(), 50);
    assert_eq!(s.score(), 10);
    s.key_down_event(Key::Escape, 700);
    assert_eq!(s.play(), PlayState::End);
    for k in [Key::Return, Key::Left, Key::Up].iter() {
        assert_eq!(s.key_down_event(*k, 900), KeyAction::Continue);
        assert!(!s.update(100, 2000, 0, 2000));
        assert_eq!(s.play(), PlayState::End);
        assert_eq!(s.score(), 10);
        assert_eq!(s.start_time(), 50);
    }
}

#[test]
fn play_goes_on_once_the_course_is_used_up() {
    let mut s = started(0);
    let mut k: u32 = 3;
    while s.lanes_remaining() > 0 {
        // mark the next barrier, then pass it, away from the collision windows
        let mark = (200 * k + 30) * 7;
        let pass = (200 * k + 110) * 7;
        assert!(s.update(62, mark, 0, mark as u128));
        assert!(s.update(62, pass, 0, pass as u128));
        k += 1;
    }
    assert_eq!(k, 453);
    assert_eq!(s.next_lane(), None);
    // level with where a barrier would be, in any lane: nothing to hit
    for key in [Key::Left, Key::Right, Key::Right].iter() {
        s.key_down_event(*key, 0);
        let t = (200 * k + 3) * 7;
        assert!(s.update_is_defined(62, t, 0, t as u128));
        assert!(s.update(62, t, 0, t as u128));
        assert_eq!(s.play(), PlayState::Play);
        k += 1;
    }
}

#[test]
fn events_apply_in_order() {
    let mut s = MainState::new();
    let events = vec![
        GameEvent::Press { key: Key::Left, now_ms: 0 },
        GameEvent::Frame { since_last_ms: 100, time_x: 700, speedup: 0, now_ms: 640 },
        GameEvent::Press { key: Key::Return, now_ms: 64 },
        GameEvent::Press { key: Key::Left, now_ms: 70 },
        GameEvent::Frame { since_last_ms: 100, time_x: 1400, speedup: 0, now_ms: 704 },
        GameEvent::Press { key: Key::Escape, now_ms: 800 },
        GameEvent::Frame { since_last_ms: 100, time_x: 2100, speedup: 0, now_ms: 2000 },
    ];
    s.apply_events(&events);
    assert_eq!(s.play(), PlayState::End);
    assert_eq!(s.start_time(), 64);
    assert_eq!(s.score(), 10);
    assert_eq!(s.car().car, GridLocation::new(76, 580));
    assert_eq!(s.apply_event(GameEvent::Press { key: Key::Escape, now_ms: 900 }), KeyAction::Quit);
}
