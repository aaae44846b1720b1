//! The four animations: each is a finite, timed sequence of frames.

use crate::frame::{
    blank_frame, blank_grid, grid, is_bit_mask, lemma_rotation_period, lemma_scaled_cells,
    rotate_rows_down, rotated_down_by, scale_mask, scaled_grid, Frame,
};
use vstd::prelude::*;

verus! {

/// One published frame of an animation, with the pauses around it: wait
/// `wait_before_ms`, publish `frame`, wait `wait_after_ms`.
#[derive(Clone, Copy, Debug, PartialEq, Eq)]
pub struct TimedFrame {
    pub wait_before_ms: u32,
    pub frame: Frame,
    pub wait_after_ms: u32,
}

/// What a [`TimedFrame`] stands for in contracts.
pub ghost struct Cue {
    pub wait_before_ms: int,
    pub grid: Seq<Seq<u8>>,
    pub wait_after_ms: int,
}

impl View for TimedFrame {
    type V = Cue;

    open spec fn view(&self) -> Cue {
        Cue {
            wait_before_ms: self.wait_before_ms as int,
            grid: grid(self.frame),
            wait_after_ms: self.wait_after_ms as int,
        }
    }
}

/// Brightness of the lit cells of the rotating bar and the triangle.
pub const DEFAULT_BRIGHTNESS: u8 = 127;

/// The four positions of the rotating bar, as bit masks.
pub const ROTATING_BAR: [Frame; 4] = [
    [
        [1, 0, 1, 0, 1],
        [1, 1, 0, 0, 1],
        [1, 0, 1, 0, 1],
        [1, 0, 0, 1, 1],
        [1, 0, 1, 0, 1],
    ],
    [
        [1, 0, 1, 0, 1],
        [1, 0, 1, 0, 1],
        [1, 0, 1, 0, 1],
        [1, 0, 1, 0, 1],
        [1, 0, 1, 0, 1],
    ],
    [
        [1, 0, 1, 0, 1],
        [1, 0, 0, 1, 1],
        [1, 0, 1, 0, 1],
        [1, 1, 0, 0, 1],
        [1, 0, 1, 0, 1],
    ],
    [
        [1, 0, 1, 0, 1],
        [1, 0, 0, 0, 1],
        [1, 1, 1, 1, 1],
        [1, 0, 0, 0, 1],
        [1, 0, 1, 0, 1],
    ],
];

/// Frames of one run of the rotating bar: ten turns of four positions.
pub const ROTATING_BAR_FRAMES: usize = 40;

/// Pause before each frame of the rotating bar.
pub const ROTATING_BAR_PERIOD_MS: u32 = 100;

/// The grid that the rotating bar shows at `step`: position `step % 4`, lit
/// cells at the default brightness.
pub open spec fn rotating_bar_grid(step: int) -> Seq<Seq<u8>> {
    scaled_grid(grid(ROTATING_BAR[step % 4]), DEFAULT_BRIGHTNESS)
}

/// Cue `k` of the rotating bar: 100 ms, then the bar at step `k`.
pub open spec fn rotating_bar_cue(k: int) -> Cue {
    Cue {
        wait_before_ms: ROTATING_BAR_PERIOD_MS as int,
        grid: rotating_bar_grid(k),
        wait_after_ms: 0,
    }
}

/// The script is one run of the rotating bar: its forty cues in order.
pub open spec fn plays_rotating_bar(script: Seq<TimedFrame>) -> bool {
    &&& script.len() == ROTATING_BAR_FRAMES
    &&& forall|k: int|
        0 <= k < ROTATING_BAR_FRAMES ==> (#[trigger] script[k])@ == rotating_bar_cue(k)
}

proof fn lemma_rotating_bar_masks()
    ensures
        forall|p: int| 0 <= p < 4 ==> is_bit_mask(#[trigger] grid(ROTATING_BAR[p])),
{
    assert forall|p: int| 0 <= p < 4 implies is_bit_mask(#[trigger] grid(ROTATING_BAR[p])) by {
        assert forall|r: int, c: int| 0 <= r < 5 && 0 <= c < 5 implies #[trigger] grid(
            ROTATING_BAR[p],
        )[r][c] <= 1 by {
            assert(grid(ROTATING_BAR[p])[r][c] == ROTATING_BAR[p][r][c]);
        }
    }
}

/// The frame of the rotating bar at `step`.
pub fn rotating_bar_frame(step: usize) -> (frame: Frame)
    ensures
        grid(frame) == rotating_bar_grid(step as int),
{
    let position: usize = step % 4;
    proof {
        lemma_rotating_bar_masks();
    }
    scale_mask(&ROTATING_BAR[position], DEFAULT_BRIGHTNESS)
}

/// Runs the rotating bar once: forty frames, one every 100 ms, stepping
/// through the four positions in order.
pub fn rotating_bar_animation() -> (script: Vec<TimedFrame>)
    ensures
        plays_rotating_bar(script@),
{
    let mut script: Vec<TimedFrame> = Vec::new();
    let mut step: usize = 0;
    while step < ROTATING_BAR_FRAMES
        invariant
            step <= ROTATING_BAR_FRAMES,
            script@.len() == step,
            forall|k: int| 0 <= k < step ==> (#[trigger] script@[k])@ == rotating_bar_cue(k),
        decreases ROTATING_BAR_FRAMES - step,
    {
        let frame = rotating_bar_frame(step);
        script.push(
            TimedFrame { wait_before_ms: ROTATING_BAR_PERIOD_MS, frame, wait_after_ms: 0 },
        );
        step += 1;
    }
    script
}

/// Every cell of the rotating bar is either off or at the default brightness.
pub proof fn lemma_rotating_bar_levels(step: int, row: int, column: int)
    requires
        0 <= step,
        0 <= row < 5,
        0 <= column < 5,
    ensures
        rotating_bar_grid(step)[row][column] == 0 || rotating_bar_grid(step)[row][column]
            == DEFAULT_BRIGHTNESS,
{
    lemma_rotating_bar_masks();
    lemma_scaled_cells(grid(ROTATING_BAR[step % 4]), DEFAULT_BRIGHTNESS, row, column);
}

/// The rotating bar shows the same frame every four steps.
pub proof fn lemma_rotating_bar_period(step: int)
    requires
        0 <= step,
    ensures
        rotating_bar_grid(step + 4) == rotating_bar_grid(step),
{
    assert((step + 4) % 4 == step % 4);
}

/// The triangle, as a bit mask.
pub const TRIANGLE: Frame = [
    [0, 0, 0, 0, 1],
    [0, 0, 0, 1, 1],
    [0, 0, 1, 1, 1],
    [0, 1, 1, 1, 1],
    [1, 1, 1, 1, 1],
];

/// Rotations in one run of the moving triangle: four turns of five rows.
pub const TRIANGLE_ROTATIONS: usize = 20;

/// Pause before each rotation of the triangle.
pub const TRIANGLE_PERIOD_MS: u32 = 100;

/// The triangle at the default brightness.
pub open spec fn triangle_grid() -> Seq<Seq<u8>> {
    scaled_grid(grid(TRIANGLE), DEFAULT_BRIGHTNESS)
}

/// Cue `k` of the moving triangle: the triangle at once, then one more
/// rotation every 100 ms.
pub open spec fn moving_triangle_cue(k: int) -> Cue {
    Cue {
        wait_before_ms: if k == 0 { 0 } else { TRIANGLE_PERIOD_MS as int },
        grid: rotated_down_by(triangle_grid(), k as nat),
        wait_after_ms: 0,
    }
}

/// The script is one run of the moving triangle: the triangle and its twenty
/// rotations in order.
pub open spec fn plays_moving_triangle(script: Seq<TimedFrame>) -> bool {
    &&& script.len() == TRIANGLE_ROTATIONS + 1
    &&& forall|k: int|
        0 <= k <= TRIANGLE_ROTATIONS ==> (#[trigger] script[k])@ == moving_triangle_cue(k)
}

proof fn lemma_triangle_mask()
    ensures
        is_bit_mask(grid(TRIANGLE)),
{
    assert forall|r: int, c: int| 0 <= r < 5 && 0 <= c < 5 implies #[trigger] grid(
        TRIANGLE,
    )[r][c] <= 1 by {
        assert(grid(TRIANGLE)[r][c] == TRIANGLE[r][c]);
    }
}

/// The first frame of the moving triangle.
pub fn triangle_frame() -> (frame: Frame)
    ensures
        grid(frame) == triangle_grid(),
{
    proof {
        lemma_triangle_mask();
    }
    scale_mask(&TRIANGLE, DEFAULT_BRIGHTNESS)
}

/// Runs the moving triangle once: publishes the triangle, then rotates its
/// rows down by one every 100 ms, twenty times.
pub fn moving_triangle_animation() -> (script: Vec<TimedFrame>)
    ensures
        plays_moving_triangle(script@),
{
    let mut frame = triangle_frame();
    let mut script: Vec<TimedFrame> = Vec::new();
    script.push(TimedFrame { wait_before_ms: 0, frame, wait_after_ms: 0 });
    let mut done: usize = 0;
    while done < TRIANGLE_ROTATIONS
        invariant
            done <= TRIANGLE_ROTATIONS,
            script@.len() == done + 1,
            grid(frame) == rotated_down_by(triangle_grid(), done as nat),
            forall|k: int|
                0 <= k <= done ==> (#[trigger] script@[k])@ == moving_triangle_cue(k),
        decreases TRIANGLE_ROTATIONS - done,
    {
        frame = rotate_rows_down(&frame);
        done += 1;
        script.push(TimedFrame { wait_before_ms: TRIANGLE_PERIOD_MS, frame, wait_after_ms: 0 });
    }
    script
}

/// Five rotations bring the triangle back: the moving triangle shows the
/// same frame every five rotations, and its last frame is its first.
pub proof fn lemma_moving_triangle_cycles(k: int)
    requires
        0 <= k <= TRIANGLE_ROTATIONS - 5,
    ensures
        rotated_down_by(triangle_grid(), 5) == triangle_grid(),
        moving_triangle_cue(k + 5).grid == moving_triangle_cue(k).grid,
        moving_triangle_cue(TRIANGLE_ROTATIONS as int).grid == triangle_grid(),
{
    lemma_rotation_period(triangle_grid(), k as nat);
    lemma_rotation_period(triangle_grid(), 0);
    lemma_rotation_period(triangle_grid(), 5);
    lemma_rotation_period(triangle_grid(), 10);
    lemma_rotation_period(triangle_grid(), 15);
}

/// The heart, as a bit mask.
pub const HEART: Frame = [
    [0, 1, 0, 1, 0],
    [1, 1, 1, 1, 1],
    [1, 1, 1, 1, 1],
    [0, 1, 1, 1, 0],
    [0, 0, 1, 0, 0],
];

/// Ticks, and so frames, of one run of the beating heart.
pub const HEART_TICKS: usize = 500;

/// Pause after each frame of the beating heart.
pub const HEART_PERIOD_MS: u32 = 20;

/// The heart with its lit cells at `level`.
pub open spec fn heart_grid(level: u8) -> Seq<Seq<u8>> {
    scaled_grid(grid(HEART), level)
}

/// A cue of the beating heart: the heart at `level`, then 20 ms.
pub open spec fn beating_heart_cue(level: u8) -> Cue {
    Cue { wait_before_ms: 0, grid: heart_grid(level), wait_after_ms: HEART_PERIOD_MS as int }
}

/// The script is one run of the beating heart over `levels`: its 500 cues in
/// order, cue `k` at the level of tick `k`.
pub open spec fn plays_beating_heart(levels: Seq<u8>, script: Seq<TimedFrame>) -> bool {
    &&& script.len() == HEART_TICKS
    &&& forall|k: int|
        0 <= k < HEART_TICKS ==> (#[trigger] script[k])@ == beating_heart_cue(levels[k])
}

/// Every cell of the heart is at `level` where the mask is lit and off
/// elsewhere, so within 0 and 255.
pub proof fn lemma_heart_levels(level: u8, row: int, column: int)
    requires
        0 <= row < 5,
        0 <= column < 5,
    ensures
        heart_grid(level)[row][column] == (if HEART[row][column] == 0 {
            0
        } else {
            level
        }),
{
    lemma_heart_mask();
    lemma_scaled_cells(grid(HEART), level, row, column);
}

proof fn lemma_heart_mask()
    ensures
        is_bit_mask(grid(HEART)),
{
    assert forall|r: int, c: int| 0 <= r < 5 && 0 <= c < 5 implies #[trigger] grid(HEART)[r][c]
        <= 1 by {
        assert(grid(HEART)[r][c] == HEART[r][c]);
    }
}

/// The heart at brightness `level`.
pub fn heart_frame(level: u8) -> (frame: Frame)
    ensures
        grid(frame) == heart_grid(level),
{
    proof {
        lemma_heart_mask();
    }
    scale_mask(&HEART, level)
}

/// Runs the beating heart once: 500 frames, each followed by 20 ms. `levels`
/// holds the brightness of each tick, as computed from the pulse envelope.
pub fn beatin_heart_animation(levels: &[u8; HEART_TICKS]) -> (script: Vec<TimedFrame>)
    ensures
        plays_beating_heart(levels@, script@),
{
    let mut script: Vec<TimedFrame> = Vec::new();
    let mut tick: usize = 0;
    while tick < HEART_TICKS
        invariant
            tick <= HEART_TICKS,
            script@.len() == tick,
            forall|k: int|
                0 <= k < tick ==> (#[trigger] script@[k])@ == beating_heart_cue(levels@[k]),
        decreases HEART_TICKS - tick,
    {
        let frame = heart_frame(levels[tick]);
        script.push(TimedFrame { wait_before_ms: 0, frame, wait_after_ms: HEART_PERIOD_MS });
        tick += 1;
    }
    script
}

/// Brightness below which the dimmed line never goes.
pub const MIN_BRIGHTNESS: u8 = 15;

/// Positions that the dimmed line steps through above position 0.
pub const DIM_STEPS: u8 = 4;

/// Brightness added for each position of distance in the first two sweeps;
/// the third sweep adds half of it.
pub const SWEEP_STEP: u8 = (255 - MIN_BRIGHTNESS) / DIM_STEPS;

/// Ticks of one sweep: four runs of four steps.
pub const SWEEP_TICKS: usize = 16;

/// Ticks of one run of the dimmed line: three sweeps of equal length.
pub const DIMMED_LINE_TICKS: usize = 3 * SWEEP_TICKS;

/// Pause before each tick of the dimmed line.
pub const DIMMED_LINE_PERIOD_MS: u32 = 100;

/// The distance between two positions.
pub open spec fn distance(a: int, b: int) -> int {
    if a > b {
        a - b
    } else {
        b - a
    }
}

/// Where the dimmed line stands at `tick`: it climbs from 0 to the last
/// position and comes back, step by step.
pub open spec fn dimmed_position(tick: int) -> int {
    let phase = tick % (2 * DIM_STEPS);
    if phase <= DIM_STEPS {
        phase
    } else {
        2 * DIM_STEPS - phase
    }
}

/// Brightness of one cell at `tick`, with the dimmed line at `dimmed`. The
/// first sweep (ticks 0 to 15) measures the distance by columns, the second
/// (ticks 16 to 31) by rows, the third (from tick 32) along the diagonals at
/// half the step.
pub open spec fn band_level(tick: int, dimmed: int, row: int, column: int) -> int {
    if tick < SWEEP_TICKS {
        MIN_BRIGHTNESS + distance(dimmed, column) * SWEEP_STEP
    } else if tick < 2 * SWEEP_TICKS {
        MIN_BRIGHTNESS + distance(dimmed, row) * SWEEP_STEP
    } else {
        MIN_BRIGHTNESS + distance(2 * dimmed, row + column) * (SWEEP_STEP / 2)
    }
}

/// The grid of the dimmed line at `tick`, with the line at `dimmed`.
pub open spec fn band_grid(tick: int, dimmed: int) -> Seq<Seq<u8>> {
    Seq::new(5, |r: int| Seq::new(5, |c: int| band_level(tick, dimmed, r, c) as u8))
}

/// Cue `k` of the dimmed line: a blank frame at once, then, 100 ms apart,
/// the frame of each tick, cue `k` showing tick `k - 1`.
pub open spec fn dimmed_line_cue(k: int) -> Cue {
    if k == 0 {
        Cue { wait_before_ms: 0, grid: blank_grid(), wait_after_ms: 0 }
    } else {
        Cue {
            wait_before_ms: DIMMED_LINE_PERIOD_MS as int,
            grid: band_grid(k - 1, dimmed_position(k - 1)),
            wait_after_ms: 0,
        }
    }
}

/// The script is one run of the dimmed line: the blank frame and the frames
/// of its 48 ticks, in order.
pub open spec fn plays_dimmed_line(script: Seq<TimedFrame>) -> bool {
    &&& script.len() == DIMMED_LINE_TICKS + 1
    &&& forall|k: int|
        0 <= k <= DIMMED_LINE_TICKS ==> (#[trigger] script[k])@ == dimmed_line_cue(k)
}

/// The brightness of a cell stays between the minimum and full brightness.
pub proof fn lemma_band_level_bounds(tick: int, dimmed: int, row: int, column: int)
    requires
        0 <= dimmed <= DIM_STEPS,
        0 <= row < 5,
        0 <= column < 5,
    ensures
        MIN_BRIGHTNESS <= band_level(tick, dimmed, row, column) <= 255,
        band_grid(tick, dimmed)[row][column] == band_level(tick, dimmed, row, column),
{
    assert(SWEEP_STEP == 60);
}

/// The dimmed line never leaves the positions 0 to 4.
pub proof fn lemma_dimmed_position_bounds(tick: int)
    requires
        0 <= tick,
    ensures
        0 <= dimmed_position(tick) <= DIM_STEPS,
{
}

/// At every tick of the dimmed line every cell is between 15 and 255.
pub proof fn lemma_dimmed_line_brightness(k: int, row: int, column: int)
    requires
        1 <= k <= DIMMED_LINE_TICKS,
        0 <= row < 5,
        0 <= column < 5,
    ensures
        MIN_BRIGHTNESS <= dimmed_line_cue(k).grid[row][column] <= 255,
{
    lemma_dimmed_position_bounds(k - 1);
    lemma_band_level_bounds(k - 1, dimmed_position(k - 1), row, column);
}

/// The brightness of one cell at `tick` with the dimmed line at `dimmed`.
pub fn dimmed_line_level(tick: usize, dimmed: u8, row: usize, column: usize) -> (level: u8)
    requires
        dimmed <= DIM_STEPS,
        row < 5,
        column < 5,
    ensures
        level == band_level(tick as int, dimmed as int, row as int, column as int),
{
    assert(SWEEP_STEP == 60);
    if tick < SWEEP_TICKS {
        let at: u8 = column as u8;
        let diff: u8 = if dimmed > at {
            dimmed - at
        } else {
            at - dimmed
        };
        MIN_BRIGHTNESS + diff * SWEEP_STEP
    } else if tick < 2 * SWEEP_TICKS {
        let at: u8 = row as u8;
        let diff: u8 = if dimmed > at {
            dimmed - at
        } else {
            at - dimmed
        };
        MIN_BRIGHTNESS + diff * SWEEP_STEP
    } else {
        let at: u8 = (column + row) as u8;
        let diff: u8 = if 2 * dimmed > at {
            2 * dimmed - at
        } else {
            at - 2 * dimmed
        };
        let half_step: u8 = SWEEP_STEP / 2;
        MIN_BRIGHTNESS + diff * half_step
    }
}

/// The frame of the dimmed line at `tick`, with the line at `dimmed`.
pub fn dimmed_line_frame(tick: usize, dimmed: u8) -> (frame: Frame)
    requires
        dimmed <= DIM_STEPS,
    ensures
        grid(frame) == band_grid(tick as int, dimmed as int),
{
    let mut frame: Frame = [[0u8; 5]; 5];
    let mut column: usize = 0;
    while column < 5
        invariant
            column <= 5,
            dimmed <= DIM_STEPS,
            forall|r: int, c: int|
                0 <= r < 5 && 0 <= c < column ==> frame[r][c] == band_level(
                    tick as int,
                    dimmed as int,
                    r,
                    c,
                ),
        decreases 5 - column,
    {
        let mut row: usize = 0;
        while row < 5
            invariant
                column < 5,
                row <= 5,
                dimmed <= DIM_STEPS,
                forall|r: int, c: int|
                    0 <= r < 5 && 0 <= c < column ==> frame[r][c] == band_level(
                        tick as int,
                        dimmed as int,
                        r,
                        c,
                    ),
                forall|r: int|
                    0 <= r < row ==> frame[r][column as int] == band_level(
                        tick as int,
                        dimmed as int,
                        r,
                        column as int,
                    ),
            decreases 5 - row,
        {
            frame[row][column] = dimmed_line_level(tick, dimmed, row, column);
            row += 1;
        }
        column += 1;
    }
    assert(grid(frame) =~~= band_grid(tick as int, dimmed as int));
    frame
}

/// Runs the dimmed line once: a blank frame, then three sweeps of 16 ticks,
/// 100 ms apart, while the line steps up and down between the positions 0
/// and 4.
pub fn dimmed_line_animation() -> (script: Vec<TimedFrame>)
    ensures
        plays_dimmed_line(script@),
{
    let mut dimmed: u8 = 0;
    let mut rising = false;
    let mut script: Vec<TimedFrame> = Vec::new();
    script.push(TimedFrame { wait_before_ms: 0, frame: blank_frame(), wait_after_ms: 0 });
    let mut tick: usize = 0;
    while tick < DIMMED_LINE_TICKS
        invariant
            tick <= DIMMED_LINE_TICKS,
            script@.len() == tick + 1,
            dimmed == dimmed_position(tick as int),
            rising == (dimmed_position(tick as int) > dimmed_position(tick - 1)),
            forall|k: int| 0 <= k <= tick ==> (#[trigger] script@[k])@ == dimmed_line_cue(k),
        decreases DIMMED_LINE_TICKS - tick,
    {
        let frame = dimmed_line_frame(tick, dimmed);
        script.push(
            TimedFrame { wait_before_ms: DIMMED_LINE_PERIOD_MS, frame, wait_after_ms: 0 },
        );
        if dimmed == 0 || dimmed == DIM_STEPS {
            rising = !rising;
        }
        if rising {
            dimmed += 1;
        } else {
            dimmed -= 1;
        }
        tick += 1;
    }
    script
}

} // verus!
