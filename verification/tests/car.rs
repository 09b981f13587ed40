use wheely_fast::car::{Car, Direction, GridLocation, Key};

#[test]
fn from_keycode_maps_arrows() {
    assert_eq!(Direction::from_keycode(Key::Left), Some(Direction::Left));
    assert_eq!(Direction::from_keycode(Key::Right), Some(Direction::Right));
    assert_eq!(Direction::from_keycode(Key::Up), Some(Direction::Up));
    assert_eq!(Direction::from_keycode(Key::Return), None);
    assert_eq!(Direction::from_keycode(Key::Escape), None);
    assert_eq!(Direction::from_keycode(Key::Other), None);
}

#[test]
fn grid_location_new_and_from_agree() {
    let a = GridLocation::new(184, 580);
    assert_eq!(a.x, 184);
    assert_eq!(a.y, 580);
    assert_eq!(GridLocation::from((184, 580)), a);
}

#[test]
fn new_move_steps_one_lane() {
    let p = GridLocation::new(184, 580);
    assert_eq!(GridLocation::new_move(p, Direction::Left), GridLocation::new(76, 580));
    assert_eq!(GridLocation::new_move(p, Direction::Right), GridLocation::new(292, 580));
    assert_eq!(GridLocation::new_move(p, Direction::Up), p);
}

#[test]
fn left_then_right_comes_back() {
    let p = GridLocation::new(-5, 7);
    let q = GridLocation::new_move(GridLocation::new_move(p, Direction::Left), Direction::Right);
    assert_eq!(q, p);
}

#[test]
fn cell_rect_scales_by_cell_size() {
    assert_eq!(GridLocation::new(2, 3).cell_rect(), (34, 51, 17, 17));
    assert_eq!(GridLocation::new(-1, 0).cell_rect(), (-17, 0, 17, 17));
}

#[test]
fn new_car_stands_still() {
    let c = Car::new(GridLocation::new(184, 580));
    assert_eq!(c.car, GridLocation::new(184, 580));
    assert_eq!(c.dir, Direction::Up);
    assert_eq!(c.next_dir, None);
}

#[test]
fn car_takes_one_step_then_stops() {
    let mut c = Car::new(GridLocation::new(184, 580));
    c.next_dir = Some(Direction::Left);
    c.update();
    assert_eq!(c.car, GridLocation::new(76, 580));
    assert_eq!(c.dir, Direction::Left);
    assert_eq!(c.next_dir, None);
    c.update();
    assert_eq!(c.car, GridLocation::new(76, 580));
    assert_eq!(c.dir, Direction::Up);
}

#[test]
fn car_does_not_leave_the_road() {
    let mut c = Car::new(GridLocation::new(76, 580));
    c.next_dir = Some(Direction::Left);
    c.update();
    assert_eq!(c.car.x, 76);
    assert_eq!(c.dir, Direction::Up);
    let mut d = Car::new(GridLocation::new(292, 580));
    d.next_dir = Some(Direction::Right);
    d.update();
    assert_eq!(d.car.x, 292);
    assert_eq!(d.dir, Direction::Up);
    d.next_dir = Some(Direction::Left);
    d.update();
    assert_eq!(d.car.x, 184);
}

#[test]
fn car_stays_in_the_lanes_under_any_keys() {
    let mut c = Car::new(GridLocation::new(184, 580));
    let dirs = [Direction::Left, Direction::Left, Direction::Right, Direction::Right, Direction::Right, Direction::Up, Direction::Left];
    for d in dirs.iter() {
        c.next_dir = Some(*d);
        c.update();
        assert!([76, 184, 292].contains(&c.car.x));
        assert_eq!(c.car.y, 580);
    }
}
