//! The state of a game: the car, the course of barriers still ahead, the
//! play state and the score, with the rules applied on each frame and on
//! each key press. The caller reads the clocks and draws; it hands the
//! state the times it read and gets back what to do.

use vstd::prelude::*;
use queues::Queue;
use crate::car::{
    Car, Direction, GridLocation, Key, key_direction, updated_car, update_fits, on_road,
    lemma_car_stays_on_road, MIDDLE_X, GRID_WIDTH, GRID_HEIGHT, CELL_WIDTH, CELL_HEIGHT,
};
use crate::lanes::{
    LaneDice, pick_lane, lane_draws, picked_lane, is_lane, lane_position, is_lane_position, LANE_1,
    LANE_2, LANE_3, NO_LANE,
};
use crate::lane_queue::{queue_items, queue_new, queue_add, queue_remove, queue_peek, queue_size};

verus! {

/// Divides the elapsed milliseconds into the pixels the road has scrolled.
pub const DIFFICULTY: u32 = 7;
/// Vertical distance between two consecutive barriers of the course (upwards).
pub const BARRIER_DISTANCE: i32 = -200;
/// Vertical position of the first barrier of the course.
pub const FIRST_BARRIER_Y: i32 = 50;
/// Number of barriers on a course.
pub const BARRIER_COUNT: i32 = 450;
/// Length of the scroll period after which the barrier pattern repeats.
pub const BARRIER_PERIOD: u32 = 200;
/// Least number of milliseconds between two updates of the game.
pub const MS_PER_UPDATE: u128 = 62;
/// Milliseconds of play per point of score.
pub const MS_PER_POINT: u128 = 64;
/// Number of road tiles drawn one above the other.
pub const ROAD_TILE_COUNT: i32 = 150;
/// Height of one road tile, in pixels.
pub const ROAD_TILE_HEIGHT: i32 = 450;
/// Vertical position of the lowest road tile.
pub const FIRST_ROAD_TILE_Y: i32 = 600;

/// Whether the game shows its start screen, is being played, or is over.
#[derive(Clone, Copy, Debug, PartialEq, Eq, Structural)]
pub enum PlayState {
    Start,
    Play,
    End,
}

/// What the caller is to do after a key press.
#[derive(Clone, Copy, Debug, PartialEq, Eq, Structural)]
pub enum KeyAction {
    Continue,
    Quit,
}

/// The abstract state of a game: the car, the score, the time play began,
/// the play state, whether the car is between the window that marks the next
/// barrier and the one where it is passed (`1`) or not (`0`), the barrier
/// positions still ahead in order, and where each barrier of the course was
/// placed, and the record of the random draws made to lay the course out.
pub struct GameView {
    pub car: Car,
    pub score: u128,
    pub start_time: u128,
    pub play: PlayState,
    pub next_barrier_lane: i16,
    pub lanes: Seq<i32>,
    pub barriers: Seq<(i32, i32)>,
    pub draws: Seq<(i16, i16, i16)>,
}

/// The scroll position of the barriers, in pixels, `time_x` milliseconds
/// into the game, with `speedup` extra pixels from the game's acceleration.
pub open spec fn course_y(start_time: u128, time_x: u32, speedup: u32) -> int {
    time_x as int / DIFFICULTY as int - (start_time as u32) as int / DIFFICULTY as int + speedup
}

/// Whether, at scroll position `y`, the car is in the window where it has
/// passed the barrier marked as next.
pub open spec fn passing_barrier(y: int, next_barrier_lane: int) -> bool {
    &&& y > 650
    &&& 100 < y % (BARRIER_PERIOD as int) < 155
    &&& next_barrier_lane == 1
}

/// Whether, at scroll position `y`, the car is in the window where the next
/// barrier is marked.
pub open spec fn approaching_barrier(y: int, next_barrier_lane: int) -> bool {
    &&& y > 450
    &&& 25 < y % (BARRIER_PERIOD as int) < 65
    &&& next_barrier_lane == 0
}

/// Whether, at scroll position `y`, the car is level with a barrier, so that
/// a collision is checked.
pub open spec fn level_with_barrier(y: int) -> bool {
    &&& (y % (BARRIER_PERIOD as int) < 10 || y % (BARRIER_PERIOD as int) > 120)
    &&& y > 500
}

/// Whether a car at horizontal position `x` hits a barrier at position `lane`.
pub open spec fn hits(lane: int, x: int) -> bool {
    lane - x < 15 && lane - x > -35
}

/// The barriers still ahead after the update at scroll position `y`: the
/// front one is dropped once the car has passed it.
pub open spec fn lanes_after(v: GameView, y: int) -> Seq<i32> {
    if passing_barrier(y, v.next_barrier_lane as int) && v.lanes.len() > 0 {
        v.lanes.drop_first()
    } else {
        v.lanes
    }
}

/// The barrier mark after the update at scroll position `y`.
pub open spec fn next_lane_after(v: GameView, y: int) -> i16 {
    let n = if passing_barrier(y, v.next_barrier_lane as int) {
        0i16
    } else {
        v.next_barrier_lane
    };
    if approaching_barrier(y, n as int) {
        1
    } else {
        n
    }
}

/// Whether an update is due: the game is being played and at least
/// `MS_PER_UPDATE` milliseconds have gone by since the last one.
pub open spec fn update_due(v: GameView, since_last_ms: u128) -> bool {
    v.play == PlayState::Play && since_last_ms >= MS_PER_UPDATE
}

/// The inputs on which an update is defined: where one is due, the car's step
/// fits, the clocks are not behind the start of play, the scroll position
/// and the scroll position fits a `u32`.
pub open spec fn update_defined(
    v: GameView,
    since_last_ms: u128,
    time_x: u32,
    speedup: u32,
    now_ms: u128,
) -> bool {
    update_due(v, since_last_ms) ==> {
        let y = course_y(v.start_time, time_x, speedup);
        &&& update_fits(v.car)
        &&& time_x / DIFFICULTY >= (v.start_time as u32) / DIFFICULTY
        &&& y <= u32::MAX
        &&& now_ms >= v.start_time
    }
}

/// The game after the update with the given clock readings: the car takes its
/// step, a passed barrier leaves the course, the game ends when the car is
/// level with the next barrier and in its lane (once the course is used up
/// nothing can be hit and play goes on), and the score is the number
/// of `MS_PER_POINT` milliseconds played.
pub open spec fn after_update(
    v: GameView,
    since_last_ms: u128,
    time_x: u32,
    speedup: u32,
    now_ms: u128,
) -> GameView {
    if update_due(v, since_last_ms) {
        let y = course_y(v.start_time, time_x, speedup);
        let car = updated_car(v.car);
        let lanes = lanes_after(v, y);
        let crashed = level_with_barrier(y) && lanes.len() > 0 && hits(
            lanes[0] as int,
            car.car.x as int,
        );
        GameView {
            car,
            score: ((now_ms - v.start_time) / (MS_PER_POINT as int)) as u128,
            start_time: v.start_time,
            play: if crashed {
                PlayState::End
            } else {
                PlayState::Play
            },
            next_barrier_lane: next_lane_after(v, y),
            lanes,
            barriers: v.barriers,
            draws: v.draws,
        }
    } else {
        v
    }
}

/// The game after a key press at time `now_ms`, and what the caller is to do:
/// an arrow key in play asks the car for a step; `Return` on the start screen
/// starts play; `Escape` in play ends it and elsewhere quits.
pub open spec fn after_key(v: GameView, key: Key, now_ms: u128) -> (GameView, KeyAction) {
    match key_direction(key) {
        Some(d) => {
            if v.play == PlayState::Play {
                (GameView { car: Car { next_dir: Some(d), ..v.car }, ..v }, KeyAction::Continue)
            } else {
                (v, KeyAction::Continue)
            }
        },
        None => {
            if key == Key::Return && v.play == PlayState::Start {
                (GameView { play: PlayState::Play, start_time: now_ms, ..v }, KeyAction::Continue)
            } else if key == Key::Escape && v.play == PlayState::Play {
                (GameView { play: PlayState::End, ..v }, KeyAction::Continue)
            } else if key == Key::Escape {
                (v, KeyAction::Quit)
            } else {
                (v, KeyAction::Continue)
            }
        },
    }
}

/// The game's state, without what only drawing needs.
pub struct MainState {
    car: Car,
    score: u128,
    start_time: u128,
    play: PlayState,
    next_barrier_lane: i16,
    lane_queue: Queue<i32>,
    barriers: Vec<(i32, i32)>,
    dice: LaneDice,
}

impl View for MainState {
    type V = GameView;

    closed spec fn view(&self) -> GameView {
        GameView {
            car: self.car,
            score: self.score,
            start_time: self.start_time,
            play: self.play,
            next_barrier_lane: self.next_barrier_lane,
            lanes: queue_items(self.lane_queue),
            barriers: self.barriers@,
            draws: self.dice.draws(),
        }
    }
}

/// Whether `lanes` is a course: barrier positions of lanes, no two
/// consecutive ones in the same lane.
pub open spec fn is_course(lanes: Seq<i32>) -> bool {
    &&& forall|i: int| 0 <= i < lanes.len() ==> is_lane_position(#[trigger] lanes[i] as int)
    &&& forall|i: int| 0 <= i < lanes.len() - 1 ==> #[trigger] lanes[i] != lanes[i + 1]
}

/// The number of the lane whose barrier position is `pos`, `NO_LANE` if none.
pub open spec fn lane_number(pos: int) -> int {
    if pos == LANE_1 {
        0
    } else if pos == LANE_2 {
        1
    } else if pos == LANE_3 {
        2
    } else {
        NO_LANE as int
    }
}

/// The lane of the barrier before the `i`-th one of `lanes`; `NO_LANE` for
/// the first.
pub open spec fn lane_before(lanes: Seq<i32>, i: int) -> int {
    if i == 0 {
        NO_LANE as int
    } else {
        lane_number(lanes[i - 1] as int)
    }
}

/// Whether the course `lanes` was drawn by the draws `draws`, cut at `cuts`:
/// the draws fall, in order, into one run per barrier, from `cuts[i]` up to
/// `cuts[i + 1]`, and each barrier is in the lane picked from its run given
/// the lane of the barrier before it.
pub open spec fn course_drawn(draws: Seq<(i16, i16, i16)>, cuts: Seq<int>, lanes: Seq<i32>) -> bool {
    &&& cuts.len() == lanes.len() + 1
    &&& cuts[0] == 0
    &&& cuts[lanes.len() as int] == draws.len()
    &&& forall|i: int|
        0 <= i < lanes.len() ==> {
            &&& 0 <= cuts[i] < cuts[i + 1] <= draws.len()
            &&& lane_draws(draws.subrange(cuts[i], cuts[i + 1]), lane_before(lanes, i))
            &&& #[trigger] lanes[i] == lane_position(
                picked_lane(draws.subrange(cuts[i], cuts[i + 1]), lane_before(lanes, i)),
            )
        }
}

/// A course drawn by some draws stays drawn when the draws go on with a run
/// that picks one more barrier after the last one.
#[verifier::rlimit(60)]
proof fn lemma_course_drawn_extend(
    drawn: Seq<(i16, i16, i16)>,
    d2: Seq<(i16, i16, i16)>,
    cuts: Seq<int>,
    lanes: Seq<i32>,
    pos: i32,
    prev: int,
)
    requires
        course_drawn(drawn, cuts, lanes),
        d2.len() > drawn.len(),
        d2.take(drawn.len() as int) == drawn,
        lane_draws(d2.skip(drawn.len() as int), prev),
        pos == lane_position(picked_lane(d2.skip(drawn.len() as int), prev)),
        lane_before(lanes.push(pos), lanes.len() as int) == prev,
    ensures
        course_drawn(d2, cuts.push(d2.len() as int), lanes.push(pos)),
{
    let n = drawn.len() as int;
    let after = lanes.push(pos);
    let cuts2 = cuts.push(d2.len() as int);
    let x = lanes.len() as int;
    assert forall|k: int| 0 <= k < after.len() implies {
        &&& 0 <= cuts2[k] < cuts2[k + 1] <= d2.len()
        &&& lane_draws(d2.subrange(cuts2[k], cuts2[k + 1]), lane_before(after, k))
        &&& #[trigger] after[k] == lane_position(
            picked_lane(d2.subrange(cuts2[k], cuts2[k + 1]), lane_before(after, k)),
        )
    } by {
        if k < x {
            assert(lanes[k] == after[k]);
            assert(cuts2[k] == cuts[k] && cuts2[k + 1] == cuts[k + 1]);
            assert(0 <= cuts[k] < cuts[k + 1] <= drawn.len());
            assert(d2.subrange(cuts[k], cuts[k + 1]) =~= drawn.subrange(cuts[k], cuts[k + 1])) by {
                assert forall|j: int| 0 <= j < cuts[k + 1] - cuts[k] implies #[trigger] d2.subrange(
                    cuts[k],
                    cuts[k + 1],
                )[j] == drawn.subrange(cuts[k], cuts[k + 1])[j] by {
                    assert(d2.take(n)[cuts[k] + j] == d2[cuts[k] + j]);
                }
            }
            assert(lane_before(after, k) == lane_before(lanes, k)) by {
                if k > 0 {
                    assert(after[k - 1] == lanes[k - 1]);
                }
            }
        } else {
            assert(cuts2[k] == n && cuts2[k + 1] == d2.len());
            assert(d2.subrange(n, d2.len() as int) =~= d2.skip(n));
        }
    }
    assert(cuts2.len() == after.len() + 1);
    assert(cuts2[0] == cuts[0]);
    assert(cuts2[after.len() as int] == d2.len());
}

/// Where the `i`-th barrier of a course stands, given its lane position.
pub open spec fn barrier_placement(lane: i32, i: int) -> (i32, i32) {
    (lane, (i * BARRIER_DISTANCE + FIRST_BARRIER_Y) as i32)
}

impl MainState {
    /// A new game on its start screen: the car stands in the middle lane near
    /// the bottom of the field, and a course of `BARRIER_COUNT` barriers is
    /// laid out at random, `BARRIER_DISTANCE` apart, never two consecutive
    /// ones in the same lane.
    pub fn new() -> (s: Self)
        ensures
            s@.car == (Car {
                car: GridLocation { x: MIDDLE_X, y: (GRID_HEIGHT * CELL_HEIGHT - 100) as i16 },
                dir: Direction::Up,
                next_dir: None,
            }),
            s@.score == 0,
            s@.start_time == 0,
            s@.play == PlayState::Start,
            s@.next_barrier_lane == 0,
            s@.lanes.len() == BARRIER_COUNT,
            is_course(s@.lanes),
            game_invariant(s@),
            s@.barriers.len() == BARRIER_COUNT,
            exists|cuts: Seq<int>| course_drawn(s@.draws, cuts, s@.lanes),
            forall|i: int|
                0 <= i < BARRIER_COUNT ==> #[trigger] s@.barriers[i] == barrier_placement(
                    s@.lanes[i],
                    i,
                ),
    {
        let car_pos = GridLocation::from(
            ((GRID_WIDTH * CELL_WIDTH) / 2 - 28, GRID_HEIGHT * CELL_HEIGHT - 100),
        );
        let mut lane_queue = queue_new();
        let mut barriers: Vec<(i32, i32)> = Vec::new();
        let mut dice = LaneDice::new();
        let ghost mut cuts: Seq<int> = seq![0int];
        let mut test_last: i16 = NO_LANE;
        let mut x: i32 = 0;
        while x < BARRIER_COUNT
            invariant
                0 <= x <= BARRIER_COUNT,
                queue_items(lane_queue).len() == x,
                barriers@.len() == x,
                is_course(queue_items(lane_queue)),
                forall|i: int|
                    0 <= i < x ==> #[trigger] barriers@[i] == barrier_placement(
                        queue_items(lane_queue)[i],
                        i,
                    ),
                x > 0 ==> is_lane(test_last as int) && queue_items(lane_queue)[x - 1]
                    == lane_position(test_last as int),
                x == 0 ==> test_last == NO_LANE,
                course_drawn(dice.draws(), cuts, queue_items(lane_queue)),
            decreases BARRIER_COUNT - x,
        {
            let ghost before = queue_items(lane_queue);
            let ghost drawn = dice.draws();
            let ghost prev_lane = test_last as int;
            let (i, last) = pick_lane(&mut dice, test_last);
            test_last = last;
            queue_add(&mut lane_queue, i);
            proof {
                let after = queue_items(lane_queue);
                assert(after == before.push(i));
                assert(lane_before(after, x as int) == prev_lane) by {
                    if x > 0 {
                        assert(after[x - 1] == before[x - 1]);
                    }
                }
                lemma_course_drawn_extend(drawn, dice.draws(), cuts, before, i, prev_lane);
            }
            proof {
                cuts = cuts.push(dice.draws().len() as int);
            }
            assert(-100000 <= x * BARRIER_DISTANCE <= 0) by (nonlinear_arith)
                requires
                    0 <= x < BARRIER_COUNT,
            ;
            barriers.push((i, x * BARRIER_DISTANCE + FIRST_BARRIER_Y));
            proof {
                let after = queue_items(lane_queue);
                assert(after == before.push(i));
                assert forall|k: int| 0 <= k < after.len() - 1 implies #[trigger] after[k]
                    != after[k + 1] by {
                    if k < before.len() - 1 {
                        assert(after[k] == before[k] && after[k + 1] == before[k + 1]);
                    }
                }
            }
            x = x + 1;
        }
        let s = MainState {
            car: Car::new(car_pos),
            score: 0,
            start_time: 0,
            play: PlayState::Start,
            next_barrier_lane: 0,
            lane_queue,
            barriers,
            dice,
        };
        assert(course_drawn(s@.draws, cuts, s@.lanes));
        s
    }
}

impl MainState {
    /// One frame of play. When an update is due (the game is being played and
    /// `since_last_ms` milliseconds, at least `MS_PER_UPDATE`, have gone by
    /// since the last one) the car takes its step, the barrier marks move on
    /// with the scroll position of the course at `time_x` milliseconds plus
    /// `speedup` pixels, the game ends if the car is level with the next
    /// barrier and in its lane, and the score becomes the number of
    /// `MS_PER_POINT` milliseconds between the start of play and `now_ms`.
    /// Returns whether the update was made; otherwise nothing changes.
    pub fn update(&mut self, since_last_ms: u128, time_x: u32, speedup: u32, now_ms: u128) -> (updated: bool)
        requires
            update_defined(old(self)@, since_last_ms, time_x, speedup, now_ms),
        ensures
            updated == update_due(old(self)@, since_last_ms),
            final(self)@ == after_update(old(self)@, since_last_ms, time_x, speedup, now_ms),
    {
        if self.play == PlayState::Play {
            if since_last_ms >= MS_PER_UPDATE {
                self.car.update();
                let offset_distance: u32 = (self.start_time as u32) / DIFFICULTY;
                let y_position: u32 = (time_x / DIFFICULTY) - offset_distance + speedup;
                let temp: u32 = y_position % BARRIER_PERIOD;
                if y_position > 650 && temp > 100 && temp < 155 && self.next_barrier_lane == 1 {
                    let _ = queue_remove(&mut self.lane_queue);
                    self.next_barrier_lane = 0;
                }
                if y_position > 450 && temp > 25 && temp < 65 && self.next_barrier_lane == 0 {
                    self.next_barrier_lane = 1;
                }
                if temp < 10 || temp > 120 {
                    if y_position > 500 {
                        let x_pos: i64 = self.car.car.x as i64;
                        match queue_peek(&self.lane_queue) {
                            Some(next) => {
                                let lane: i64 = next as i64;
                                if lane - x_pos < 15 && lane - x_pos > -35 {
                                    self.play = PlayState::End;
                                }
                            },
                            None => {},
                        }
                    }
                }
                self.score = (now_ms - self.start_time) / MS_PER_POINT;
                return true;
            }
        }
        false
    }

    /// A key press at `now_ms` milliseconds: in play an arrow key asks the car
    /// for a step; `Return` on the start screen starts play at `now_ms`;
    /// `Escape` in play ends the game and on the start or end screen asks the
    /// caller to quit. Other keys, and arrow keys outside play, change nothing.
    pub fn key_down_event(&mut self, key: Key, now_ms: u128) -> (action: KeyAction)
        ensures
            (final(self)@, action) == after_key(old(self)@, key, now_ms),
    {
        if let Some(dir) = Direction::from_keycode(key) {
            if self.play == PlayState::Play {
                self.car.next_dir = Some(dir);
            }
            KeyAction::Continue
        } else {
            match key {
                Key::Return => {
                    if self.play == PlayState::Start {
                        self.play = PlayState::Play;
                        self.start_time = now_ms;
                    }
                    KeyAction::Continue
                },
                Key::Escape => {
                    if self.play == PlayState::Start || self.play == PlayState::End {
                        KeyAction::Quit
                    } else {
                        self.play = PlayState::End;
                        KeyAction::Continue
                    }
                },
                _ => KeyAction::Continue,
            }
        }
    }
}

impl MainState {
    /// Whether `update` may be called with these clock readings: the test of
    /// `update_defined`, for callers that cannot prove it.
    pub fn update_is_defined(&self, since_last_ms: u128, time_x: u32, speedup: u32, now_ms: u128) -> (r: bool)
        ensures
            r == update_defined(self@, since_last_ms, time_x, speedup, now_ms),
    {
        if !(self.play == PlayState::Play && since_last_ms >= MS_PER_UPDATE) {
            return true;
        }
        if !GridLocation::move_fits(self.car.car, self.car.step_direction()) {
            return false;
        }
        let offset_distance: u32 = (self.start_time as u32) / DIFFICULTY;
        if time_x / DIFFICULTY < offset_distance {
            return false;
        }
        let y: u64 = (time_x / DIFFICULTY - offset_distance) as u64 + speedup as u64;
        if y > u32::MAX as u64 {
            return false;
        }
        now_ms >= self.start_time
    }

    /// The play state.
    pub fn play(&self) -> (r: PlayState)
        ensures
            r == self@.play,
    {
        self.play
    }

    /// The score.
    pub fn score(&self) -> (r: u128)
        ensures
            r == self@.score,
    {
        self.score
    }

    /// The time at which play began.
    pub fn start_time(&self) -> (r: u128)
        ensures
            r == self@.start_time,
    {
        self.start_time
    }

    /// The car.
    pub fn car(&self) -> (r: Car)
        ensures
            r == self@.car,
    {
        self.car
    }

    /// Where each barrier of the course was placed, as (horizontal, vertical)
    /// pixel positions.
    pub fn barriers(&self) -> (r: &Vec<(i32, i32)>)
        ensures
            r@ == self@.barriers,
    {
        &self.barriers
    }

    /// How many barriers of the course are still ahead.
    pub fn lanes_remaining(&self) -> (r: usize)
        ensures
            r == self@.lanes.len(),
    {
        queue_size(&self.lane_queue)
    }

    /// The position of the next barrier ahead, if any is left.
    pub fn next_lane(&self) -> (r: Option<i32>)
        ensures
            self@.lanes.len() == 0 ==> r is None,
            self@.lanes.len() > 0 ==> r == Some(self@.lanes[0]),
    {
        queue_peek(&self.lane_queue)
    }

    /// The vertical offset at which the road is drawn `time` milliseconds into
    /// the game: the scroll, plus `speedup` pixels of acceleration while the
    /// game is being played.
    pub fn road_offset(&self, time: u32, speedup: u32) -> (r: u32)
        requires
            time / DIFFICULTY + (if self@.play == PlayState::Play { speedup as int } else { 0 })
                <= u32::MAX,
        ensures
            r == time / DIFFICULTY + (if self@.play == PlayState::Play {
                speedup as int
            } else {
                0
            }),
    {
        let mut speedup_calc: u32 = 0;
        if self.play == PlayState::Play {
            speedup_calc = speedup;
        }
        (time / DIFFICULTY) + speedup_calc
    }

    /// The vertical offset at which the course of barriers is drawn `time`
    /// milliseconds into the game, with `speedup` pixels of acceleration.
    pub fn barrier_offset(&self, time: u32, speedup: u32) -> (r: u32)
        requires
            time / DIFFICULTY >= (self@.start_time as u32) / DIFFICULTY,
            course_y(self@.start_time, time, speedup) <= u32::MAX,
        ensures
            r == course_y(self@.start_time, time, speedup),
    {
        let offset_distance: u32 = (self.start_time as u32) / DIFFICULTY;
        (time / DIFFICULTY) - offset_distance + speedup
    }
}

/// The vertical position of the `i`-th road tile.
pub open spec fn road_tile_y(i: int) -> int {
    i * (-ROAD_TILE_HEIGHT) + FIRST_ROAD_TILE_Y
}

/// The positions of the `ROAD_TILE_COUNT` road tiles, stacked upwards from
/// the bottom of the field, one `ROAD_TILE_HEIGHT` above the other.
pub fn road_tiles() -> (r: Vec<(i32, i32)>)
    ensures
        r@.len() == ROAD_TILE_COUNT,
        forall|i: int| 0 <= i < ROAD_TILE_COUNT ==> #[trigger] r@[i] == (0i32, road_tile_y(i) as i32),
{
    let mut r: Vec<(i32, i32)> = Vec::new();
    let mut x: i32 = 0;
    while x < ROAD_TILE_COUNT
        invariant
            0 <= x <= ROAD_TILE_COUNT,
            r@.len() == x,
            forall|i: int| 0 <= i < x ==> #[trigger] r@[i] == (0i32, road_tile_y(i) as i32),
        decreases ROAD_TILE_COUNT - x,
    {
        assert(-100000 <= x * (-ROAD_TILE_HEIGHT) <= 0) by (nonlinear_arith)
            requires
                0 <= x < ROAD_TILE_COUNT,
        ;
        r.push((0, x * (-ROAD_TILE_HEIGHT) + FIRST_ROAD_TILE_Y));
        x = x + 1;
    }
    r
}

/// The invariant of a game in progress: the barriers ahead form a course,
/// the car is in one of the lanes, and the barrier mark is 0 or 1.
pub open spec fn game_invariant(v: GameView) -> bool {
    &&& is_course(v.lanes)
    &&& on_road(v.car.car.x as int)
    &&& (v.next_barrier_lane == 0 || v.next_barrier_lane == 1)
}

/// Every frame and every key press keeps the invariant, and under it the
/// car's step always fits.
pub proof fn lemma_game_invariant(
    v: GameView,
    since_last_ms: u128,
    time_x: u32,
    speedup: u32,
    now_ms: u128,
    key: Key,
)
    requires
        game_invariant(v),
    ensures
        update_fits(v.car),
        game_invariant(after_update(v, since_last_ms, time_x, speedup, now_ms)),
        game_invariant(after_key(v, key, now_ms).0),
{
    lemma_car_stays_on_road(v.car);
    let w = after_update(v, since_last_ms, time_x, speedup, now_ms);
    if update_due(v, since_last_ms) {
        let y = course_y(v.start_time, time_x, speedup);
        if passing_barrier(y, v.next_barrier_lane as int) && v.lanes.len() > 0 {
            assert forall|i: int| 0 <= i < w.lanes.len() - 1 implies #[trigger] w.lanes[i]
                != w.lanes[i + 1] by {
                assert(w.lanes[i] == v.lanes[i + 1] && w.lanes[i + 1] == v.lanes[i + 2]);
            }
            assert forall|i: int| 0 <= i < w.lanes.len() implies is_lane_position(
                #[trigger] w.lanes[i] as int,
            ) by {
                assert(w.lanes[i] == v.lanes[i + 1]);
            }
        }
    }
}

/// Once the game is over it stays over: no frame changes it and no key
/// brings it back into play.
pub proof fn lemma_end_is_final(
    v: GameView,
    since_last_ms: u128,
    time_x: u32,
    speedup: u32,
    now_ms: u128,
    key: Key,
)
    requires
        v.play == PlayState::End,
    ensures
        after_update(v, since_last_ms, time_x, speedup, now_ms) == v,
        after_key(v, key, now_ms).0 == v,
{
}

/// Nothing but an update due in play changes the game on a frame, and the
/// start screen changes only by `Return`, which starts play at the time of
/// the key press.
pub proof fn lemma_start_screen(v: GameView, since_last_ms: u128, time_x: u32, speedup: u32, now_ms: u128, key: Key)
    requires
        v.play == PlayState::Start,
    ensures
        after_update(v, since_last_ms, time_x, speedup, now_ms) == v,
        key != Key::Return && key != Key::Escape ==> after_key(v, key, now_ms) == (
        v,
        KeyAction::Continue,
        ),
        after_key(v, Key::Return, now_ms).0.play == PlayState::Play,
        after_key(v, Key::Return, now_ms).0.start_time == now_ms,
        after_key(v, Key::Escape, now_ms) == (v, KeyAction::Quit),
{
}

/// The caller is asked to quit exactly on `Escape` outside play.
pub proof fn lemma_quit_only_on_escape(v: GameView, key: Key, now_ms: u128)
    ensures
        (after_key(v, key, now_ms).1 == KeyAction::Quit) <==> (key == Key::Escape && v.play
            != PlayState::Play),
{
}

/// Arrow keys steer the car only while the game is being played; there they
/// change nothing but the step the car is asked to take.
pub proof fn lemma_steering(v: GameView, key: Key, now_ms: u128)
    requires
        key_direction(key) is Some,
    ensures
        v.play != PlayState::Play ==> after_key(v, key, now_ms).0 == v,
        v.play == PlayState::Play ==> after_key(v, key, now_ms).0.car.next_dir == key_direction(key),
        v.play == PlayState::Play ==> after_key(v, key, now_ms).0.car.car == v.car.car,
        after_key(v, key, now_ms).0.play == v.play,
{
}

/// On each update the course only loses barriers from its front, at most
/// one, and the placements drawn stay as they were.
pub proof fn lemma_course_consumed_from_front(
    v: GameView,
    since_last_ms: u128,
    time_x: u32,
    speedup: u32,
    now_ms: u128,
)
    ensures
        after_update(v, since_last_ms, time_x, speedup, now_ms).lanes == v.lanes
            || (v.lanes.len() > 0 && after_update(v, since_last_ms, time_x, speedup, now_ms).lanes
            == v.lanes.drop_first()),
        after_update(v, since_last_ms, time_x, speedup, now_ms).barriers == v.barriers,
{
}

/// The score never goes down as the clock goes on: of two updates from the
/// same state, the later one scores at least as much.
pub proof fn lemma_score_monotone(
    v: GameView,
    since_last_ms: u128,
    time_x: u32,
    speedup: u32,
    now1: u128,
    now2: u128,
)
    requires
        update_due(v, since_last_ms),
        v.start_time <= now1 <= now2,
    ensures
        after_update(v, since_last_ms, time_x, speedup, now1).score <= after_update(
            v,
            since_last_ms,
            time_x,
            speedup,
            now2,
        ).score,
{
    vstd::arithmetic::div_mod::lemma_div_is_ordered(
        now1 - v.start_time,
        now2 - v.start_time,
        MS_PER_POINT as int,
    );
}

/// Successive updates never lower the score: after an update made in play
/// with the clock reading `now1`, any following update with a later reading
/// `now2` leaves a score at least as high.
pub proof fn lemma_score_monotone_across_updates(
    v: GameView,
    since1: u128,
    time1: u32,
    speedup1: u32,
    now1: u128,
    since2: u128,
    time2: u32,
    speedup2: u32,
    now2: u128,
)
    requires
        update_due(v, since1),
        v.start_time <= now1 <= now2,
    ensures
        after_update(after_update(v, since1, time1, speedup1, now1), since2, time2, speedup2, now2).score
            >= after_update(v, since1, time1, speedup1, now1).score,
{
    vstd::arithmetic::div_mod::lemma_div_is_ordered(
        now1 - v.start_time,
        now2 - v.start_time,
        MS_PER_POINT as int,
    );
}

/// One update keeps a barrier mark of 0 or 1 at 0 or 1, keeps the barriers
/// ahead or drops the front one, keeps the start time, and changes the play
/// state only from `Play` to `End`.
pub proof fn lemma_update_step(
    v: GameView,
    since_last_ms: u128,
    time_x: u32,
    speedup: u32,
    now_ms: u128,
)
    requires
        v.next_barrier_lane == 0 || v.next_barrier_lane == 1,
    ensures
        ({
            let w = after_update(v, since_last_ms, time_x, speedup, now_ms);
            &&& w.next_barrier_lane == 0 || w.next_barrier_lane == 1
            &&& w.lanes == v.lanes || (v.lanes.len() > 0 && w.lanes == v.lanes.drop_first())
            &&& w.start_time == v.start_time
            &&& w.play == v.play || (v.play == PlayState::Play && w.play == PlayState::End)
        }),
{
}

/// Something that happens to a game: a frame with its clock readings, or a
/// key press at a time.
#[derive(Clone, Copy, Debug)]
pub enum GameEvent {
    Frame { since_last_ms: u128, time_x: u32, speedup: u32, now_ms: u128 },
    Press { key: Key, now_ms: u128 },
}

/// The game after one event.
pub open spec fn step(v: GameView, e: GameEvent) -> GameView {
    match e {
        GameEvent::Frame { since_last_ms, time_x, speedup, now_ms } => after_update(
            v,
            since_last_ms,
            time_x,
            speedup,
            now_ms,
        ),
        GameEvent::Press { key, now_ms } => after_key(v, key, now_ms).0,
    }
}

/// The game after a sequence of events, in order.
pub open spec fn run(v: GameView, events: Seq<GameEvent>) -> GameView
    decreases events.len(),
{
    if events.len() == 0 {
        v
    } else {
        run(step(v, events[0]), events.drop_first())
    }
}

/// The order of the play states: start screen, play, end.
pub open spec fn play_rank(p: PlayState) -> int {
    match p {
        PlayState::Start => 0,
        PlayState::Play => 1,
        PlayState::End => 2,
    }
}

/// One event moves the play state only from `Start` to `Play` (by `Return`,
/// setting the start time to the time of the key press) or from `Play` to
/// `End`; the start time changes only on the first of these, and the score
/// only on a frame in play.
pub proof fn lemma_event_transitions(v: GameView, e: GameEvent)
    ensures
        ({
            let w = step(v, e);
            &&& w.play == v.play || (v.play == PlayState::Start && w.play == PlayState::Play)
                || (v.play == PlayState::Play && w.play == PlayState::End)
            &&& (v.play == PlayState::Start && w.play == PlayState::Play) ==> (e matches GameEvent::Press {
                key,
                now_ms,
            } && key == Key::Return && w.start_time == now_ms)
            &&& !(v.play == PlayState::Start && w.play == PlayState::Play) ==> w.start_time
                == v.start_time
            &&& w.score != v.score ==> (v.play == PlayState::Play && e is Frame)
            &&& v.play == PlayState::End ==> w == v
            &&& v.play == PlayState::Start && w.play == PlayState::Start ==> w == v
        }),
{
}

/// Over any sequence of events the play state only moves forward, from the
/// start screen to play to the end; a game that has ended is left as it is;
/// a game that is still on its start screen is unchanged; once in play the
/// start time stays; and the invariant of a game holds throughout.
pub proof fn lemma_run(v: GameView, events: Seq<GameEvent>)
    ensures
        play_rank(run(v, events).play) >= play_rank(v.play),
        v.play == PlayState::End ==> run(v, events) == v,
        run(v, events).play == PlayState::Start ==> run(v, events) == v,
        v.play != PlayState::Start ==> run(v, events).start_time == v.start_time,
        game_invariant(v) ==> game_invariant(run(v, events)),
    decreases events.len(),
{
    if events.len() > 0 {
        let w = step(v, events[0]);
        lemma_event_transitions(v, events[0]);
        lemma_run(w, events.drop_first());
        if game_invariant(v) {
            match events[0] {
                GameEvent::Frame { since_last_ms, time_x, speedup, now_ms } => {
                    lemma_game_invariant(v, since_last_ms, time_x, speedup, now_ms, Key::Other);
                },
                GameEvent::Press { key, now_ms } => {
                    lemma_game_invariant(v, 0, 0, 0, now_ms, key);
                },
            }
        }
    }
}

/// Whether event `e` may be applied to game `v`: a frame must meet
/// `update_defined`; a key press always may.
pub open spec fn event_defined(v: GameView, e: GameEvent) -> bool {
    match e {
        GameEvent::Frame { since_last_ms, time_x, speedup, now_ms } => update_defined(
            v,
            since_last_ms,
            time_x,
            speedup,
            now_ms,
        ),
        GameEvent::Press { .. } => true,
    }
}

/// Whether each event of the sequence may be applied to the game it meets.
pub open spec fn events_defined(v: GameView, events: Seq<GameEvent>) -> bool
    decreases events.len(),
{
    events.len() == 0 || (event_defined(v, events[0]) && events_defined(
        step(v, events[0]),
        events.drop_first(),
    ))
}

impl MainState {
    /// Applies one event: a frame is an `update` with its clock readings, a
    /// key press a `key_down_event`. Returns what the caller is to do.
    pub fn apply_event(&mut self, e: GameEvent) -> (action: KeyAction)
        requires
            event_defined(old(self)@, e),
        ensures
            final(self)@ == step(old(self)@, e),
            e is Frame ==> action == KeyAction::Continue,
            (e matches GameEvent::Press { key, now_ms } ==> action == after_key(
                old(self)@,
                key,
                now_ms,
            ).1),
    {
        match e {
            GameEvent::Frame { since_last_ms, time_x, speedup, now_ms } => {
                let _ = self.update(since_last_ms, time_x, speedup, now_ms);
                KeyAction::Continue
            },
            GameEvent::Press { key, now_ms } => self.key_down_event(key, now_ms),
        }
    }

    /// Applies a sequence of events in order. The play state only moves
    /// forward, from the start screen to play to the end; an ended game is left
    /// as it is; a game still on its start screen afterwards was not changed;
    /// once in play the start time stays; the invariant of a game is kept.
    pub fn apply_events(&mut self, events: &Vec<GameEvent>)
        requires
            events_defined(old(self)@, events@),
        ensures
            final(self)@ == run(old(self)@, events@),
            play_rank(final(self)@.play) >= play_rank(old(self)@.play),
            old(self)@.play == PlayState::End ==> final(self)@ == old(self)@,
            final(self)@.play == PlayState::Start ==> final(self)@ == old(self)@,
            old(self)@.play != PlayState::Start ==> final(self)@.start_time == old(self)@.start_time,
            game_invariant(old(self)@) ==> game_invariant(final(self)@),
    {
        let ghost v0 = self@;
        proof {
            lemma_run(v0, events@);
            assert(events@.skip(0) =~= events@);
        }
        let mut i: usize = 0;
        while i < events.len()
            invariant
                0 <= i <= events@.len(),
                run(v0, events@) == run(self@, events@.skip(i as int)),
                events_defined(self@, events@.skip(i as int)),
            decreases events@.len() - i,
        {
            let ghost rest = events@.skip(i as int);
            assert(rest[0] == events@[i as int]);
            assert(rest.drop_first() =~= events@.skip(i + 1));
            let _ = self.apply_event(events[i]);
            i = i + 1;
        }
        proof {
            assert(events@.skip(i as int).len() == 0);
        }
    }
}

/// What a frame due in play does, in terms of the scroll position
/// `y = time_x / 7 - (start_time as u32) / 7 + speedup` of the course:
/// - the car takes its step, the score becomes `(now_ms - start_time) / 64`,
///   the start time and the placements stay;
/// - the front barrier leaves the course exactly when it is marked
///   (`next_barrier_lane == 1`) and `y > 650` with `100 < y % 200 < 155`;
/// - the next barrier is marked when `y > 450` with `25 < y % 200 < 65`;
/// - the game ends exactly when a barrier is left, the barriers are level with
///   the car's row (`y > 500` and `y % 200 < 10` or `> 120`) and the front one
///   is less than 35 pixels left or 15 right of the car; otherwise play goes on.
pub proof fn lemma_frame_rules(
    v: GameView,
    since_last_ms: u128,
    time_x: u32,
    speedup: u32,
    now_ms: u128,
)
    requires
        v.play == PlayState::Play,
        since_last_ms >= 62,
    ensures
        ({
            let y = time_x as int / 7 - (v.start_time as u32) as int / 7 + speedup as int;
            let w = after_update(v, since_last_ms, time_x, speedup, now_ms);
            let passed = y > 650 && 100 < y % 200 < 155 && v.next_barrier_lane == 1;
            let n = if passed { 0 } else { v.next_barrier_lane as int };
            &&& w.car == updated_car(v.car)
            &&& w.score == ((now_ms - v.start_time) / 64) as u128
            &&& w.start_time == v.start_time
            &&& w.barriers == v.barriers
            &&& (passed && v.lanes.len() > 0) ==> w.lanes == v.lanes.drop_first()
            &&& !(passed && v.lanes.len() > 0) ==> w.lanes == v.lanes
            &&& w.next_barrier_lane == (if y > 450 && 25 < y % 200 < 65 && n == 0 { 1 } else { n })
            &&& (w.play == PlayState::End) <==> (y > 500 && (y % 200 < 10 || y % 200 > 120)
                && w.lanes.len() > 0 && -35 < w.lanes[0] - w.car.car.x < 15)
            &&& w.play == PlayState::End || w.play == PlayState::Play
            &&& y <= 500 ==> w.play == PlayState::Play
        }),
{
}

/// A frame that is not due in play (the game is not being played, or fewer
/// than 62 milliseconds have gone by) changes nothing.
pub proof fn lemma_idle_frame(v: GameView, since_last_ms: u128, time_x: u32, speedup: u32, now_ms: u128)
    requires
        v.play != PlayState::Play || since_last_ms < 62,
    ensures
        after_update(v, since_last_ms, time_x, speedup, now_ms) == v,
{
}

/// What each key does, in every play state: an arrow key in play asks for
/// the step in its own direction and changes nothing else, outside play it
/// changes nothing; `Return` starts play on the start screen at the time of
/// the press and otherwise changes nothing; `Escape` ends play, and on the
/// start or end screen changes nothing and asks to quit; any other key
/// changes nothing. Only that `Escape` ever asks to quit.
pub proof fn lemma_key_rules(v: GameView, now_ms: u128)
    ensures
        after_key(v, Key::Other, now_ms) == (v, KeyAction::Continue),
        v.play == PlayState::Play ==> after_key(v, Key::Left, now_ms) == (GameView {
            car: Car { next_dir: Some(Direction::Left), ..v.car },
            ..v
        }, KeyAction::Continue),
        v.play == PlayState::Play ==> after_key(v, Key::Right, now_ms) == (GameView {
            car: Car { next_dir: Some(Direction::Right), ..v.car },
            ..v
        }, KeyAction::Continue),
        v.play == PlayState::Play ==> after_key(v, Key::Up, now_ms) == (GameView {
            car: Car { next_dir: Some(Direction::Up), ..v.car },
            ..v
        }, KeyAction::Continue),
        v.play != PlayState::Play ==> after_key(v, Key::Left, now_ms) == (v, KeyAction::Continue)
            && after_key(v, Key::Right, now_ms) == (v, KeyAction::Continue) && after_key(
            v,
            Key::Up,
            now_ms,
        ) == (v, KeyAction::Continue),
        v.play == PlayState::Start ==> after_key(v, Key::Return, now_ms) == (GameView {
            play: PlayState::Play,
            start_time: now_ms,
            ..v
        }, KeyAction::Continue),
        v.play != PlayState::Start ==> after_key(v, Key::Return, now_ms) == (v, KeyAction::Continue),
        v.play == PlayState::Play ==> after_key(v, Key::Escape, now_ms) == (GameView {
            play: PlayState::End,
            ..v
        }, KeyAction::Continue),
        v.play != PlayState::Play ==> after_key(v, Key::Escape, now_ms) == (v, KeyAction::Quit),
{
}

} // verus!
