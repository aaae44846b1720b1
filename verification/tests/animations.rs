use pixel_dim_display::animations::{
    beatin_heart_animation, dimmed_line_animation, dimmed_line_frame, dimmed_line_level,
    heart_frame, moving_triangle_animation, rotating_bar_animation, rotating_bar_frame,
    triangle_frame, TimedFrame, DEFAULT_BRIGHTNESS, DIMMED_LINE_PERIOD_MS, DIMMED_LINE_TICKS,
    DIM_STEPS, HEART, HEART_PERIOD_MS, HEART_TICKS, MIN_BRIGHTNESS, ROTATING_BAR,
    ROTATING_BAR_FRAMES, ROTATING_BAR_PERIOD_MS, SWEEP_TICKS, TRIANGLE, TRIANGLE_PERIOD_MS,
    TRIANGLE_ROTATIONS,
};
use pixel_dim_display::frame::{blank_frame, rotate_rows_down, Frame};
use pixel_dim_display::mailbox::FrameMailbox;
use pixel_dim_display::scanner::RowScanner;

fn times(mask: &Frame, level: u8) -> Frame {
    let mut out = [[0u8; 5]; 5];
    for r in 0..5 {
        for c in 0..5 {
            out[r][c] = mask[r][c] * level;
        }
    }
    out
}

fn heart_level(phase: f32) -> u8 {
    let intensity = (libm::sinf(phase) + 1.0) / 2.0;
    (intensity * intensity * 255.0) as u8
}

#[test]
fn animation_constants() {
    assert_eq!(DEFAULT_BRIGHTNESS, 127);
    assert_eq!(ROTATING_BAR_FRAMES, 40);
    assert_eq!(ROTATING_BAR_PERIOD_MS, 100);
    assert_eq!(TRIANGLE_ROTATIONS, 20);
    assert_eq!(TRIANGLE_PERIOD_MS, 100);
    assert_eq!(MIN_BRIGHTNESS, 15);
    assert_eq!(DIM_STEPS, 4);
    assert_eq!(SWEEP_TICKS, 16);
    assert_eq!(DIMMED_LINE_TICKS, 48);
    assert_eq!(DIMMED_LINE_TICKS, 3 * SWEEP_TICKS);
    assert_eq!(DIMMED_LINE_PERIOD_MS, 100);
    assert_eq!(HEART_TICKS, 500);
    assert_eq!(HEART_PERIOD_MS, 20);
}

#[test]
fn rotating_bar_first_frame() {
    let expected: Frame = [
        [127, 0, 127, 0, 127],
        [127, 127, 0, 0, 127],
        [127, 0, 127, 0, 127],
        [127, 0, 0, 127, 127],
        [127, 0, 127, 0, 127],
    ];
    assert_eq!(rotating_bar_frame(0), expected);
}

#[test]
fn rotating_bar_frame_goes_round_the_four_positions() {
    for step in 0..12 {
        assert_eq!(rotating_bar_frame(step), times(&ROTATING_BAR[step % 4], 127));
    }
    assert_eq!(rotating_bar_frame(usize::MAX), times(&ROTATING_BAR[3], 127));
}

#[test]
fn rotating_bar_publishes_forty_frames() {
    let script = rotating_bar_animation();
    assert_eq!(script.len(), 40);
    for (k, cue) in script.iter().enumerate() {
        assert_eq!(cue.wait_before_ms, 100);
        assert_eq!(cue.wait_after_ms, 0);
        assert_eq!(cue.frame, times(&ROTATING_BAR[k % 4], 127));
    }
}

#[test]
fn rotating_bar_cells_are_off_or_at_127() {
    for cue in rotating_bar_animation() {
        for row in cue.frame.iter() {
            for cell in row.iter() {
                assert!(*cell == 0 || *cell == 127);
            }
        }
    }
}

#[test]
fn triangle_first_frame() {
    let expected: Frame = [
        [0, 0, 0, 0, 127],
        [0, 0, 0, 127, 127],
        [0, 0, 127, 127, 127],
        [0, 127, 127, 127, 127],
        [127, 127, 127, 127, 127],
    ];
    assert_eq!(triangle_frame(), expected);
    assert_eq!(triangle_frame(), times(&TRIANGLE, 127));
}

#[test]
fn moving_triangle_starts_at_once_and_rotates_twenty_times() {
    let script = moving_triangle_animation();
    assert_eq!(script.len(), 21);
    assert_eq!(
        script[0],
        TimedFrame { wait_before_ms: 0, frame: triangle_frame(), wait_after_ms: 0 }
    );
    let mut frame = triangle_frame();
    for k in 1..=20 {
        frame = rotate_rows_down(&frame);
        assert_eq!(
            script[k],
            TimedFrame { wait_before_ms: 100, frame, wait_after_ms: 0 }
        );
    }
}

#[test]
fn moving_triangle_second_frame_has_the_base_on_top() {
    let script = moving_triangle_animation();
    let expected: Frame = [
        [127, 127, 127, 127, 127],
        [0, 0, 0, 0, 127],
        [0, 0, 0, 127, 127],
        [0, 0, 127, 127, 127],
        [0, 127, 127, 127, 127],
    ];
    assert_eq!(script[1].frame, expected);
}

#[test]
fn moving_triangle_returns_every_five_rotations() {
    let script = moving_triangle_animation();
    for k in 0..=15 {
        assert_eq!(script[k + 5].frame, script[k].frame);
    }
    for k in 1..5 {
        assert_ne!(script[k].frame, script[0].frame);
    }
    assert_eq!(script[20].frame, triangle_frame());
}

#[test]
fn five_rotations_restore_the_triangle() {
    let mut frame = triangle_frame();
    for _ in 0..5 {
        frame = rotate_rows_down(&frame);
    }
    assert_eq!(frame, triangle_frame());
}

#[test]
fn dimmed_line_level_in_each_sweep() {
    assert_eq!(dimmed_line_level(0, 0, 3, 0), 15);
    assert_eq!(dimmed_line_level(0, 0, 3, 4), 255);
    assert_eq!(dimmed_line_level(3, 3, 0, 1), 135);
    assert_eq!(dimmed_line_level(15, 1, 4, 2), 75);
    assert_eq!(dimmed_line_level(16, 0, 3, 0), 195);
    assert_eq!(dimmed_line_level(31, 1, 1, 4), 15);
    assert_eq!(dimmed_line_level(32, 0, 4, 4), 255);
    assert_eq!(dimmed_line_level(32, 0, 0, 0), 15);
    assert_eq!(dimmed_line_level(36, 4, 0, 0), 255);
    assert_eq!(dimmed_line_level(36, 4, 4, 4), 15);
    assert_eq!(dimmed_line_level(40, 2, 1, 2), 45);
    assert_eq!(dimmed_line_level(usize::MAX, 1, 0, 0), 75);
}

#[test]
fn dimmed_line_frame_of_the_column_sweep() {
    assert_eq!(dimmed_line_frame(0, 0), [[15, 75, 135, 195, 255]; 5]);
    assert_eq!(dimmed_line_frame(4, 4), [[255, 195, 135, 75, 15]; 5]);
    assert_eq!(dimmed_line_frame(2, 2), [[135, 75, 15, 75, 135]; 5]);
}

#[test]
fn dimmed_line_frame_of_the_row_sweep() {
    let expected: Frame = [[75; 5], [15; 5], [75; 5], [135; 5], [195; 5]];
    assert_eq!(dimmed_line_frame(17, 1), expected);
}

#[test]
fn dimmed_line_frame_of_the_diagonal_sweep() {
    let expected: Frame = [
        [75, 45, 15, 45, 75],
        [45, 15, 45, 75, 105],
        [15, 45, 75, 105, 135],
        [45, 75, 105, 135, 165],
        [75, 105, 135, 165, 195],
    ];
    assert_eq!(dimmed_line_frame(33, 1), expected);
}

#[test]
fn dimmed_line_starts_blank_and_runs_forty_eight_ticks() {
    let script = dimmed_line_animation();
    assert_eq!(script.len(), 49);
    assert_eq!(
        script[0],
        TimedFrame { wait_before_ms: 0, frame: blank_frame(), wait_after_ms: 0 }
    );
    for cue in &script[1..] {
        assert_eq!(cue.wait_before_ms, 100);
        assert_eq!(cue.wait_after_ms, 0);
    }
}

#[test]
fn dimmed_line_steps_up_and_down() {
    let script = dimmed_line_animation();
    let ramp = [0u8, 1, 2, 3, 4, 3, 2, 1];
    for tick in 0..48 {
        assert_eq!(script[tick + 1].frame, dimmed_line_frame(tick, ramp[tick % 8]));
    }
    assert_eq!(script[1].frame, [[15, 75, 135, 195, 255]; 5]);
    assert_eq!(script[5].frame, [[255, 195, 135, 75, 15]; 5]);
    assert_eq!(script[6].frame, [[195, 135, 75, 15, 75]; 5]);
    assert_eq!(script[17].frame, [[15; 5], [75; 5], [135; 5], [195; 5], [255; 5]]);
    assert_eq!(script[33].frame[0], [15, 45, 75, 105, 135]);
    assert_eq!(script[33].frame[4], [135, 165, 195, 225, 255]);
    assert_eq!(script[48].frame[0], [75, 45, 15, 45, 75]);
    assert_eq!(script[48].frame[4], [75, 105, 135, 165, 195]);
}

#[test]
fn dimmed_line_has_three_sweeps_of_sixteen_ticks() {
    let script = dimmed_line_animation();
    let ticks = &script[1..];
    assert_eq!(ticks.len(), 3 * 16);
    for cue in &ticks[..16] {
        for row in cue.frame.iter() {
            assert_eq!(*row, cue.frame[0]);
        }
    }
    for cue in &ticks[16..32] {
        for row in cue.frame.iter() {
            assert_eq!(*row, [row[0]; 5]);
        }
    }
    for cue in &ticks[32..] {
        for r in 0..4 {
            for c in 1..5 {
                assert_eq!(cue.frame[r][c], cue.frame[r + 1][c - 1]);
            }
        }
    }
    assert_ne!(ticks[16].frame[0], ticks[16].frame[1]);
    assert_ne!(ticks[32].frame[0], ticks[32].frame[1]);
}

#[test]
fn dimmed_line_brightness_stays_between_15_and_255() {
    let script = dimmed_line_animation();
    for cue in &script[1..] {
        for row in cue.frame.iter() {
            for cell in row.iter() {
                assert!(*cell >= 15);
            }
        }
    }
    let mut lowest = 255u8;
    let mut highest = 0u8;
    for tick in 0..48 {
        for dimmed in 0..=4 {
            for r in 0..5 {
                for c in 0..5 {
                    let level = dimmed_line_level(tick, dimmed, r, c);
                    lowest = lowest.min(level);
                    highest = highest.max(level);
                }
            }
        }
    }
    assert_eq!(lowest, 15);
    assert_eq!(highest, 255);
}

#[test]
fn heart_frame_at_a_level() {
    let expected: Frame = [
        [0, 63, 0, 63, 0],
        [63, 63, 63, 63, 63],
        [63, 63, 63, 63, 63],
        [0, 63, 63, 63, 0],
        [0, 0, 63, 0, 0],
    ];
    assert_eq!(heart_frame(63), expected);
    assert_eq!(heart_frame(0), blank_frame());
    assert_eq!(heart_frame(255), times(&HEART, 255));
}

#[test]
fn heart_at_tick_zero_is_at_63() {
    assert_eq!(heart_level(0.0), 63);
    let mut levels = [0u8; HEART_TICKS];
    levels[0] = heart_level(0.0);
    let script = beatin_heart_animation(&levels);
    assert_eq!(script[0].frame, times(&HEART, 63));
    assert_eq!(script[0].frame[0], [0, 63, 0, 63, 0]);
    assert_eq!(script[1].frame, blank_frame());
}

#[test]
fn beating_heart_shows_one_heart_per_level() {
    let mut levels = [0u8; HEART_TICKS];
    let mut phase: f32 = 0.0;
    for tick in 0..HEART_TICKS {
        levels[tick] = heart_level(phase);
        phase += 0.05;
        if phase > 2.0 * core::f32::consts::PI {
            phase -= 2.0 * core::f32::consts::PI;
        }
        assert!(phase <= 2.0 * core::f32::consts::PI + 0.05);
    }
    let script = beatin_heart_animation(&levels);
    assert_eq!(script.len(), 500);
    for (k, cue) in script.iter().enumerate() {
        assert_eq!(
            *cue,
            TimedFrame { wait_before_ms: 0, frame: times(&HEART, levels[k]), wait_after_ms: 20 }
        );
    }
}

#[test]
fn beating_heart_always_publishes_five_hundred_frames() {
    for level in [0u8, 1, 63, 255] {
        let script = beatin_heart_animation(&[level; HEART_TICKS]);
        assert_eq!(script.len(), 500);
        assert_eq!(script[0].wait_before_ms, 0);
        assert_eq!(script[499].wait_after_ms, 20);
        assert_eq!(script[499].frame, times(&HEART, level));
    }
}

#[test]
fn published_animation_reaches_the_display() {
    let mut mailbox = FrameMailbox::new();
    let mut scanner = RowScanner::new();
    let script = moving_triangle_animation();
    for cue in script.iter() {
        mailbox.publish(cue.frame);
        for _ in 0..5 {
            scanner.tick(&mut mailbox);
        }
        assert_eq!(scanner.frame_buffer(), cue.frame);
    }
}
