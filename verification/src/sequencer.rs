//! The sequencer: runs the four animations in a fixed order, for ever, with
//! a pause after each.

use crate::animations::{
    beatin_heart_animation, dimmed_line_animation, moving_triangle_animation,
    plays_beating_heart, plays_dimmed_line, plays_moving_triangle, plays_rotating_bar,
    rotating_bar_animation, TimedFrame, HEART_TICKS,
};
use vstd::prelude::*;

verus! {

/// Pause after each animation.
pub const STAGE_PAUSE_MS: u32 = 500;

/// The animations, in the order in which they run.
#[derive(Clone, Copy, Debug, PartialEq, Eq, Structural)]
pub enum Stage {
    RotatingBar,
    MovingTriangle,
    DimmedLine,
    BeatingHeart,
}

impl Stage {
    /// The stage that runs after this one.
    pub open spec fn following(self) -> Stage {
        match self {
            Stage::RotatingBar => Stage::MovingTriangle,
            Stage::MovingTriangle => Stage::DimmedLine,
            Stage::DimmedLine => Stage::BeatingHeart,
            Stage::BeatingHeart => Stage::RotatingBar,
        }
    }

    /// The stage that runs after this one.
    pub fn next(self) -> (stage: Stage)
        ensures
            stage == self.following(),
    {
        match self {
            Stage::RotatingBar => Stage::MovingTriangle,
            Stage::MovingTriangle => Stage::DimmedLine,
            Stage::DimmedLine => Stage::BeatingHeart,
            Stage::BeatingHeart => Stage::RotatingBar,
        }
    }
}

/// The stage that runs `count` stages after `stage`.
pub open spec fn stage_after(stage: Stage, count: nat) -> Stage
    decreases count,
{
    if count == 0 {
        stage
    } else {
        stage_after(stage, (count - 1) as nat).following()
    }
}

/// The stage with the given place in the order, counted round the four.
pub open spec fn stage_at(place: int) -> Stage {
    if place % 4 == 0 {
        Stage::RotatingBar
    } else if place % 4 == 1 {
        Stage::MovingTriangle
    } else if place % 4 == 2 {
        Stage::DimmedLine
    } else {
        Stage::BeatingHeart
    }
}

/// The script of `stage` is the script of its animation.
pub open spec fn plays_stage(stage: Stage, heart_levels: Seq<u8>, script: Seq<TimedFrame>) -> bool {
    match stage {
        Stage::RotatingBar => plays_rotating_bar(script),
        Stage::MovingTriangle => plays_moving_triangle(script),
        Stage::DimmedLine => plays_dimmed_line(script),
        Stage::BeatingHeart => plays_beating_heart(heart_levels, script),
    }
}

/// The script of one stage. `heart_levels` holds the brightness of the heart
/// at each of its ticks; the other stages do not read it.
pub fn stage_script(stage: Stage, heart_levels: &[u8; HEART_TICKS]) -> (script: Vec<
    TimedFrame,
>)
    ensures
        plays_stage(stage, heart_levels@, script@),
{
    match stage {
        Stage::RotatingBar => rotating_bar_animation(),
        Stage::MovingTriangle => moving_triangle_animation(),
        Stage::DimmedLine => dimmed_line_animation(),
        Stage::BeatingHeart => beatin_heart_animation(heart_levels),
    }
}

/// Decides which animation runs next.
pub struct AnimationSequencer {
    upcoming: Stage,
}

impl AnimationSequencer {
    /// The stage that the next call of `begin_stage` returns.
    pub closed spec fn upcoming(&self) -> Stage {
        self.upcoming
    }

    /// A sequencer that starts with the rotating bar.
    pub fn new() -> (sequencer: Self)
        ensures
            sequencer.upcoming() == Stage::RotatingBar,
    {
        AnimationSequencer { upcoming: Stage::RotatingBar }
    }

    /// Returns the stage to run now and moves on to the one after it.
    pub fn begin_stage(&mut self) -> (stage: Stage)
        ensures
            stage == old(self).upcoming(),
            final(self).upcoming() == stage.following(),
    {
        let stage = self.upcoming;
        self.upcoming = stage.next();
        stage
    }
}

/// The stages run in the order rotating bar, moving triangle, dimmed line,
/// beating heart, and then again: the stage that runs `count` stages after
/// the first is the one with place `count`.
pub proof fn lemma_stage_order(count: nat)
    ensures
        stage_after(Stage::RotatingBar, count) == stage_at(count as int),
    decreases count,
{
    if count > 0 {
        lemma_stage_order((count - 1) as nat);
    }
}

/// After four stages the sequence starts again.
pub proof fn lemma_stage_cycle(stage: Stage, count: nat)
    ensures
        stage_after(stage, count + 4) == stage_after(stage, count),
    decreases count,
{
    if count > 0 {
        lemma_stage_cycle(stage, (count - 1) as nat);
    } else {
        reveal_with_fuel(stage_after, 5);
    }
}

} // verus!
