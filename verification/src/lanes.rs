//! The three lanes of the road and the choice of the lane of the next barrier.

use vstd::prelude::*;
use crate::rng::{new_thread_rng, gen_range_i16};

verus! {

/// Horizontal pixel position of a barrier in the left lane.
pub const LANE_1: i32 = 68;
/// Horizontal pixel position of a barrier in the middle lane.
pub const LANE_2: i32 = 174;
/// Horizontal pixel position of a barrier in the right lane.
pub const LANE_3: i32 = 280;

/// The number of lanes; lanes are numbered `0 .. LANE_COUNT`.
pub const LANE_COUNT: i16 = 3;

/// Index returned with the position 0 for a lane number out of range.
pub const NO_LANE: i16 = 4;

/// How many times a draw that repeats the previous lane is drawn again before
/// the next lane to the right (cyclically) is taken instead.
pub const MAX_REDRAWS: u32 = 100;

/// Whether `idx` numbers one of the lanes.
pub open spec fn is_lane(idx: int) -> bool {
    0 <= idx < LANE_COUNT
}

/// The barrier position of lane `idx`, 0 outside the lanes.
pub open spec fn lane_position(idx: int) -> int {
    if idx == 0 {
        LANE_1 as int
    } else if idx == 1 {
        LANE_2 as int
    } else if idx == 2 {
        LANE_3 as int
    } else {
        0
    }
}

/// Whether `x` is the barrier position of one of the lanes.
pub open spec fn is_lane_position(x: int) -> bool {
    x == LANE_1 || x == LANE_2 || x == LANE_3
}

/// Maps a lane number to its barrier position and lane number; a number out
/// of range gives position 0 and lane `NO_LANE`.
pub fn lane_of_index(x: i16) -> (res: (i32, i16))
    ensures
        res.0 == lane_position(x as int),
        is_lane(x as int) ==> res.1 == x,
        !is_lane(x as int) ==> res.1 == NO_LANE,
{
    if x == 0 {
        (LANE_1, 0)
    } else if x == 1 {
        (LANE_2, 1)
    } else if x == 2 {
        (LANE_3, 2)
    } else {
        (0, NO_LANE)
    }
}

/// Whether a draw `x` of the lane must be drawn again after `redraws`
/// redraws: it repeats the previous lane `last` and redraws are left.
pub open spec fn needs_redraw(x: int, last: int, redraws: int) -> bool {
    x == last && redraws < MAX_REDRAWS
}

/// The lane taken for the final draw `x`: the drawn lane, or the one after it
/// (cyclically) when it still repeats `last`.
pub open spec fn settled_lane(x: int, last: int) -> int {
    if x == last {
        (x + 1) % (LANE_COUNT as int)
    } else {
        x
    }
}

/// Whether the draw `x` is drawn again after `redraws` redraws.
pub fn redraw_needed(x: i16, last: i16, redraws: u32) -> (r: bool)
    ensures
        r == needs_redraw(x as int, last as int, redraws as int),
{
    x == last && redraws < MAX_REDRAWS
}

/// The barrier position and number of the lane taken for the final draw `x`
/// of a lane, given the previous lane `last`.
pub fn settle_lane(x: i16, last: i16) -> (res: (i32, i16))
    requires
        is_lane(x as int),
    ensures
        res.1 == settled_lane(x as int, last as int),
        res.0 == lane_position(res.1 as int),
        is_lane(res.1 as int),
        res.1 != last,
        x != last ==> res.1 == x,
        x == last ==> res.1 == (x + 1) % 3,
{
    let mut lane = x;
    if x == last {
        lane = (x + 1) % LANE_COUNT;
    }
    lane_of_index(lane)
}

/// A source of random draws that keeps, for the proofs, a record of every
/// draw made from it: its bounds and the value drawn, in order.
pub struct LaneDice {
    rng: rand::rngs::ThreadRng,
    record: Ghost<Seq<(i16, i16, i16)>>,
}

impl LaneDice {
    /// The draws made so far, as `(low, high, value)`, oldest first.
    pub closed spec fn draws(&self) -> Seq<(i16, i16, i16)> {
        self.record@
    }

    /// Dice over the generator of the current thread, with no draw made yet.
    pub fn new() -> (d: Self)
        ensures
            d.draws() == Seq::<(i16, i16, i16)>::empty(),
    {
        LaneDice { rng: new_thread_rng(), record: Ghost(Seq::empty()) }
    }

    /// Draws a value from `low .. high` and records the draw.
    pub fn gen_range(&mut self, low: i16, high: i16) -> (r: i16)
        requires
            low < high,
        ensures
            low <= r < high,
            final(self).draws() == old(self).draws().push((low, high, r)),
    {
        let r = gen_range_i16(&mut self.rng, low, high);
        self.record = Ghost(self.record@.push((low, high, r)));
        r
    }
}

/// Whether `d` is the record of the draws made to pick the lane after `last`:
/// each draw is over all the lanes, `0 .. LANE_COUNT`; every draw but the
/// last repeats `last`; and the last one differs from `last`, unless it
/// is the draw after `MAX_REDRAWS` redraws.
pub open spec fn lane_draws(d: Seq<(i16, i16, i16)>, last: int) -> bool {
    &&& 1 <= d.len() <= MAX_REDRAWS + 1
    &&& forall|j: int| 0 <= j < d.len() ==> (#[trigger] d[j]).0 == 0 && d[j].1 == LANE_COUNT && is_lane(d[j].2 as int)
    &&& forall|j: int| 0 <= j < d.len() - 1 ==> (#[trigger] d[j]).2 == last
    &&& d.last().2 == last ==> d.len() == MAX_REDRAWS + 1
}

/// The lane picked after `last` from the draws `d`: the first drawn lane that
/// differs from `last`, or after `MAX_REDRAWS` redraws the lane following it.
pub open spec fn picked_lane(d: Seq<(i16, i16, i16)>, last: int) -> int {
    settled_lane(d.last().2 as int, last)
}

/// Picks the lane of the next barrier with `dice`, never the lane `last` of
/// the previous one, and returns its barrier position with its number.
///
/// A lane is drawn uniformly from `0 .. LANE_COUNT`; while `redraw_needed`
/// holds it is drawn again, and `settle_lane` gives the lane for the last
/// draw: after `MAX_REDRAWS` repeats of `last`, the lane following it.
pub fn pick_lane(dice: &mut LaneDice, last: i16) -> (res: (i32, i16))
    ensures
        final(dice).draws().len() > old(dice).draws().len(),
        final(dice).draws().take(old(dice).draws().len() as int) == old(dice).draws(),
        lane_draws(final(dice).draws().skip(old(dice).draws().len() as int), last as int),
        res.1 == picked_lane(final(dice).draws().skip(old(dice).draws().len() as int), last as int),
        final(dice).draws().last().2 != last ==> res.1 == final(dice).draws().last().2,
        final(dice).draws().len() == old(dice).draws().len() + MAX_REDRAWS + 1
            || final(dice).draws().last().2 != last,
        is_lane(res.1 as int),
        res.1 != last,
        res.0 == lane_position(res.1 as int),
{
    let ghost n0 = dice.draws().len() as int;
    let ghost before = dice.draws();
    let mut x: i16 = dice.gen_range(0, LANE_COUNT);
    let mut redraws: u32 = 0;
    while redraw_needed(x, last, redraws)
        invariant
            is_lane(x as int),
            redraws <= MAX_REDRAWS,
            0 <= n0,
            dice.draws().len() == n0 + redraws + 1,
            dice.draws().take(n0) == before,
            forall|j: int|
                n0 <= j < dice.draws().len() ==> (#[trigger] dice.draws()[j]).0 == 0
                    && dice.draws()[j].1 == LANE_COUNT && is_lane(dice.draws()[j].2 as int),
            forall|j: int| n0 <= j < dice.draws().len() - 1 ==> (#[trigger] dice.draws()[j]).2 == last,
            dice.draws().last().2 == x,
        decreases MAX_REDRAWS - redraws,
    {
        let ghost prev = dice.draws();
        x = dice.gen_range(0, LANE_COUNT);
        proof {
            let now = dice.draws();
            assert(now == prev.push((0i16, LANE_COUNT, x)));
            assert forall|j: int| 0 <= j < prev.len() implies now[j] == prev[j] by {
                assert(prev.push((0i16, LANE_COUNT, x))[j] == prev[j]);
            }
            assert(now.take(n0) =~= prev.take(n0));
        }
        redraws = redraws + 1;
    }
    proof {
        let d = dice.draws().skip(n0);
        assert(d.len() == redraws + 1);
        assert forall|j: int| 0 <= j < d.len() implies (#[trigger] d[j]).0 == 0 && d[j].1
            == LANE_COUNT && is_lane(d[j].2 as int) by {
            assert(d[j] == dice.draws()[n0 + j]);
        }
        assert forall|j: int| 0 <= j < d.len() - 1 implies (#[trigger] d[j]).2 == last by {
            assert(d[j] == dice.draws()[n0 + j]);
        }
        assert(d.last() == dice.draws().last());
    }
    settle_lane(x, last)
}

/// Picks the lane of the next barrier at random, never the lane `last` of the
/// previous one, and returns its barrier position with its number: the lane
/// `pick_lane` picks with fresh dice over the generator of the thread. The
/// result is the lane picked from some record of draws over all the lanes.
pub fn get_lane(last: i16) -> (res: (i32, i16))
    ensures
        is_lane(res.1 as int),
        res.1 != last,
        res.0 == lane_position(res.1 as int),
        is_lane_position(res.0 as int),
        exists|d: Seq<(i16, i16, i16)>| lane_draws(d, last as int) && res.1 == picked_lane(d, last as int),
{
    let mut dice = LaneDice::new();
    let res = pick_lane(&mut dice, last);
    proof {
        let d = dice.draws().skip(0);
        assert(lane_draws(d, last as int) && res.1 == picked_lane(d, last as int));
    }
    res
}

/// The lane picked from a record of draws is the last lane drawn when that
/// differs from the previous lane `last`; only when every one of the
/// `MAX_REDRAWS + 1` draws repeated `last` is it the lane following `last`.
/// Either way it is a lane other than `last`, and every draw before the
/// last one repeated `last`.
pub proof fn lemma_picked_lane(d: Seq<(i16, i16, i16)>, last: int)
    requires
        lane_draws(d, last),
    ensures
        d.last().2 != last ==> picked_lane(d, last) == d.last().2,
        d.last().2 == last ==> d.len() == MAX_REDRAWS + 1 && picked_lane(d, last) == (last + 1) % 3,
        0 <= picked_lane(d, last) < 3,
        picked_lane(d, last) != last,
        forall|j: int| 0 <= j < d.len() ==> 0 <= (#[trigger] d[j]).2 < 3,
        forall|j: int| 0 <= j < d.len() - 1 ==> (#[trigger] d[j]).2 == last,
{
    assert(d.last() == d[d.len() - 1]);
}

} // verus!
