//! The player's car: the keys that steer it, its position on the grid and
//! its step-by-step movement between the lanes.

use vstd::prelude::*;

verus! {

/// Width of the playing field, in grid cells.
pub const GRID_WIDTH: i16 = 25;
/// Height of the playing field, in grid cells.
pub const GRID_HEIGHT: i16 = 40;
/// Width of a grid cell, in pixels.
pub const CELL_WIDTH: i16 = 17;
/// Height of a grid cell, in pixels.
pub const CELL_HEIGHT: i16 = 17;

/// Horizontal distance the car covers in one step to the left or right: from
/// the middle of one lane to the middle of the next.
pub const MOVE_STEP: i16 = 108;
/// The car's horizontal position in the left lane; it cannot go further left.
pub const LEFT_EDGE_X: i16 = 76;
/// The car's horizontal position in the middle lane, where it starts.
pub const MIDDLE_X: i16 = 184;
/// The car's horizontal position in the right lane; it cannot go further right.
pub const RIGHT_EDGE_X: i16 = 292;

/// The keys the game reacts to; every other key is `Other`.
#[derive(Clone, Copy, Debug, PartialEq, Eq, Structural)]
pub enum Key {
    Left,
    Right,
    Up,
    Return,
    Escape,
    Other,
}

/// The directions the car can go; `Up` keeps it where it is.
#[derive(Clone, Copy, Debug, PartialEq, Eq, Structural)]
pub enum Direction {
    Left,
    Right,
    Up,
}

/// The direction an arrow key asks for, `None` for the other keys.
pub open spec fn key_direction(key: Key) -> Option<Direction> {
    match key {
        Key::Left => Some(Direction::Left),
        Key::Right => Some(Direction::Right),
        Key::Up => Some(Direction::Up),
        _ => None,
    }
}

impl Direction {
    /// The direction an arrow key asks for; `None` for any other key.
    pub fn from_keycode(key: Key) -> (r: Option<Direction>)
        ensures
            r == key_direction(key),
    {
        match key {
            Key::Left => Some(Direction::Left),
            Key::Right => Some(Direction::Right),
            Key::Up => Some(Direction::Up),
            _ => None,
        }
    }
}

/// A position on the playing field, in pixels.
#[derive(Clone, Copy, Debug, PartialEq, Eq, Structural)]
pub struct GridLocation {
    pub x: i16,
    pub y: i16,
}

/// The position reached from `pos` by one step in direction `dir`.
pub open spec fn moved(pos: GridLocation, dir: Direction) -> GridLocation {
    match dir {
        Direction::Left => GridLocation { x: (pos.x - MOVE_STEP) as i16, y: pos.y },
        Direction::Right => GridLocation { x: (pos.x + MOVE_STEP) as i16, y: pos.y },
        Direction::Up => pos,
    }
}

/// Whether one step from `pos` in direction `dir` stays within `i16`.
pub open spec fn move_fits(pos: GridLocation, dir: Direction) -> bool {
    match dir {
        Direction::Left => pos.x - MOVE_STEP >= i16::MIN,
        Direction::Right => pos.x + MOVE_STEP <= i16::MAX,
        Direction::Up => true,
    }
}

impl GridLocation {
    /// The location `(x, y)`.
    pub fn new(x: i16, y: i16) -> (r: Self)
        ensures
            r.x == x,
            r.y == y,
    {
        GridLocation { x, y }
    }

    /// The location one step from `pos` in direction `dir`: `MOVE_STEP` pixels
    /// to the left or right, or `pos` itself for `Up`.
    pub fn new_move(pos: GridLocation, dir: Direction) -> (r: Self)
        requires
            move_fits(pos, dir),
        ensures
            r == moved(pos, dir),
            r.y == pos.y,
            dir == Direction::Left ==> r.x == pos.x - MOVE_STEP,
            dir == Direction::Right ==> r.x == pos.x + MOVE_STEP,
            dir == Direction::Up ==> r == pos,
    {
        match dir {
            Direction::Left => GridLocation::new(pos.x - MOVE_STEP, pos.y),
            Direction::Right => GridLocation::new(pos.x + MOVE_STEP, pos.y),
            Direction::Up => GridLocation::new(pos.x, pos.y),
        }
    }

    /// Whether one step from `pos` in direction `dir` stays within `i16`.
    pub fn move_fits(pos: GridLocation, dir: Direction) -> (r: bool)
        ensures
            r == move_fits(pos, dir),
    {
        match dir {
            Direction::Left => pos.x >= i16::MIN + MOVE_STEP,
            Direction::Right => pos.x <= i16::MAX - MOVE_STEP,
            Direction::Up => true,
        }
    }

    /// The grid cell `(x, y)` as a pixel rectangle `(left, top, width, height)`.
    pub fn cell_rect(&self) -> (r: (i32, i32, i32, i32))
        ensures
            r.0 == self.x * CELL_WIDTH,
            r.1 == self.y * CELL_HEIGHT,
            r.2 == CELL_WIDTH,
            r.3 == CELL_HEIGHT,
    {
        (
            self.x as i32 * CELL_WIDTH as i32,
            self.y as i32 * CELL_HEIGHT as i32,
            CELL_WIDTH as i32,
            CELL_HEIGHT as i32,
        )
    }
}

impl From<(i16, i16)> for GridLocation {
    fn from(pos: (i16, i16)) -> (r: Self) {
        GridLocation { x: pos.0, y: pos.1 }
    }
}

impl vstd::std_specs::convert::FromSpecImpl<(i16, i16)> for GridLocation {
    open spec fn obeys_from_spec() -> bool {
        true
    }

    open spec fn from_spec(pos: (i16, i16)) -> GridLocation {
        GridLocation { x: pos.0, y: pos.1 }
    }
}

/// The car: where it is, the direction of its last step and the direction
/// asked for by the last arrow key, not yet taken.
#[derive(Clone, Copy, Debug)]
pub struct Car {
    pub car: GridLocation,
    pub dir: Direction,
    pub next_dir: Option<Direction>,
}

/// The direction of the car's next step: the one asked for, turned into `Up`
/// where it would leave the road at either edge; `Up` when none was asked for.
pub open spec fn step_direction(c: Car) -> Direction {
    match c.next_dir {
        Some(d) => {
            if (c.car.x == LEFT_EDGE_X && d == Direction::Left) || (c.car.x == RIGHT_EDGE_X && d
                == Direction::Right) {
                Direction::Up
            } else {
                d
            }
        },
        None => Direction::Up,
    }
}

/// The car after one update.
pub open spec fn updated_car(c: Car) -> Car {
    Car { car: moved(c.car, step_direction(c)), dir: step_direction(c), next_dir: None }
}

/// Whether one update of the car keeps its position within `i16`.
pub open spec fn update_fits(c: Car) -> bool {
    move_fits(c.car, step_direction(c))
}

/// Whether `x` is the car's position in one of the three lanes.
pub open spec fn on_road(x: int) -> bool {
    x == LEFT_EDGE_X || x == MIDDLE_X || x == RIGHT_EDGE_X
}

impl Car {
    /// A car standing at `pos`, with no step asked for.
    pub fn new(pos: GridLocation) -> (r: Self)
        ensures
            r.car == pos,
            r.dir == Direction::Up,
            r.next_dir is None,
    {
        Car { car: GridLocation::new(pos.x, pos.y), dir: Direction::Up, next_dir: None }
    }

    /// The direction of the car's next step: the one asked for, or `Up` where
    /// none was asked for or it would leave the road.
    pub fn step_direction(&self) -> (r: Direction)
        ensures
            r == step_direction(*self),
    {
        match self.next_dir {
            Some(d) => {
                if (self.car.x == LEFT_EDGE_X && d == Direction::Left) || (self.car.x == RIGHT_EDGE_X
                    && d == Direction::Right) {
                    Direction::Up
                } else {
                    d
                }
            },
            None => Direction::Up,
        }
    }

    /// Takes the step asked for by the last arrow key, if any, and forgets
    /// it: the car moves at most one lane per update and never past the
    /// left or right lane.
    pub fn update(&mut self)
        requires
            update_fits(*old(self)),
        ensures
            *final(self) == updated_car(*old(self)),
    {
        if self.next_dir.is_some() {
            self.dir = self.next_dir.unwrap();
            if self.car.x == LEFT_EDGE_X && self.dir == Direction::Left {
                self.dir = Direction::Up;
            }
            if self.car.x == RIGHT_EDGE_X && self.dir == Direction::Right {
                self.dir = Direction::Up;
            }
            self.next_dir = None;
        } else {
            self.dir = Direction::Up;
        }
        let new_car_pos = GridLocation::new_move(self.car, self.dir);
        let new_car = GridLocation::new(new_car_pos.x, new_car_pos.y);
        self.car = new_car;
    }
}

/// A car in one of the lanes stays in one of the lanes, at the same height,
/// whatever step it was asked to take.
pub proof fn lemma_car_stays_on_road(c: Car)
    requires
        on_road(c.car.x as int),
    ensures
        update_fits(c),
        on_road(updated_car(c).car.x as int),
        updated_car(c).car.y == c.car.y,
{
}

/// A step to the left followed by a step to the right comes back to the
/// starting point, and so does the converse.
pub proof fn lemma_moves_undo(pos: GridLocation)
    requires
        move_fits(pos, Direction::Left),
        move_fits(pos, Direction::Right),
    ensures
        move_fits(moved(pos, Direction::Left), Direction::Right),
        moved(moved(pos, Direction::Left), Direction::Right) == pos,
        move_fits(moved(pos, Direction::Right), Direction::Left),
        moved(moved(pos, Direction::Right), Direction::Left) == pos,
{
}

/// What one update does to the car: a step asked to the left or right moves
/// it by exactly `MOVE_STEP` that way, unless it stands in the lane at the
/// edge the step points past, where it stays; with no step asked, or `Up`,
/// it stays. Its height never changes and the request is used up.
pub proof fn lemma_car_update_rules(c: Car)
    requires
        -30000 <= c.car.x <= 30000,
    ensures
        updated_car(c).car.y == c.car.y,
        updated_car(c).next_dir is None,
        c.next_dir == Some(Direction::Left) && c.car.x != LEFT_EDGE_X ==> updated_car(c).car.x
            == c.car.x - MOVE_STEP && updated_car(c).dir == Direction::Left,
        c.next_dir == Some(Direction::Right) && c.car.x != RIGHT_EDGE_X ==> updated_car(c).car.x
            == c.car.x + MOVE_STEP && updated_car(c).dir == Direction::Right,
        c.next_dir == Some(Direction::Left) && c.car.x == LEFT_EDGE_X ==> updated_car(c).car
            == c.car && updated_car(c).dir == Direction::Up,
        c.next_dir == Some(Direction::Right) && c.car.x == RIGHT_EDGE_X ==> updated_car(c).car
            == c.car && updated_car(c).dir == Direction::Up,
        c.next_dir is None || c.next_dir == Some(Direction::Up) ==> updated_car(c).car == c.car
            && updated_car(c).dir == Direction::Up,
        update_fits(c),
{
}

/// In the lanes, a step to the right from the left lane or to the left from
/// the right lane reaches the middle lane, and a step from the middle lane
/// reaches the lane it points to.
pub proof fn lemma_car_lane_changes(c: Car)
    ensures
        c.car.x == LEFT_EDGE_X && c.next_dir == Some(Direction::Right) ==> updated_car(c).car.x
            == MIDDLE_X,
        c.car.x == RIGHT_EDGE_X && c.next_dir == Some(Direction::Left) ==> updated_car(c).car.x
            == MIDDLE_X,
        c.car.x == MIDDLE_X && c.next_dir == Some(Direction::Left) ==> updated_car(c).car.x
            == LEFT_EDGE_X,
        c.car.x == MIDDLE_X && c.next_dir == Some(Direction::Right) ==> updated_car(c).car.x
            == RIGHT_EDGE_X,
{
    if on_road(c.car.x as int) {
        lemma_car_update_rules(c);
    }
}

} // verus!
