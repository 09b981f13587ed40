//! The scrolling-road demonstration: a column of road tiles that scrolls
//! down the window, with frame statistics reported now and then.

use vstd::prelude::*;

verus! {

/// Number of frames between two reports of the frame statistics.
pub const REPORT_EVERY: usize = 100;
/// Number of tiles in the column.
pub const TILE_COUNT: i32 = 150;
/// Height of one tile, in pixels.
pub const TILE_HEIGHT: i32 = 450;
/// Horizontal position of the column.
pub const COLUMN_X: i32 = 190;
/// Milliseconds per pixel of scroll.
pub const MS_PER_PIXEL: u32 = 10;

/// Whether the frame statistics are reported on frame `ticks`: every
/// `REPORT_EVERY` frames, starting with frame 0.
pub fn reports_frame_stats(ticks: usize) -> (r: bool)
    ensures
        r == (ticks % REPORT_EVERY == 0),
{
    ticks % REPORT_EVERY == 0
}

/// The vertical position of the `i`-th tile of the column.
pub open spec fn tile_y(i: int) -> int {
    i * (-TILE_HEIGHT)
}

/// The positions of the tiles of the column, stacked upwards from the top of
/// the window.
pub fn scroll_tiles() -> (r: Vec<(i32, i32)>)
    ensures
        r@.len() == TILE_COUNT,
        forall|i: int| 0 <= i < TILE_COUNT ==> #[trigger] r@[i] == (COLUMN_X, tile_y(i) as i32),
{
    let mut r: Vec<(i32, i32)> = Vec::new();
    let mut x: i32 = 0;
    while x < TILE_COUNT
        invariant
            0 <= x <= TILE_COUNT,
            r@.len() == x,
            forall|i: int| 0 <= i < x ==> #[trigger] r@[i] == (COLUMN_X, tile_y(i) as i32),
        decreases TILE_COUNT - x,
    {
        assert(-100000 <= x * (-TILE_HEIGHT) <= 0) by (nonlinear_arith)
            requires
                0 <= x < TILE_COUNT,
        ;
        r.push((COLUMN_X, x * (-TILE_HEIGHT)));
        x = x + 1;
    }
    r
}

/// The vertical offset of the column `time` milliseconds after the start.
pub fn scroll_offset(time: u32) -> (r: u32)
    ensures
        r == time / MS_PER_PIXEL,
{
    time / MS_PER_PIXEL
}

} // verus!
