//! The greeting of the character display: it moves one column per step
//! between the first column and the fifth, turning at either end.

use vstd::prelude::*;

verus! {

/// The last column at which the greeting starts.
pub const LAST_COLUMN: u8 = 4;

/// Time between two steps of the greeting.
pub const MARQUEE_PERIOD_MS: u32 = 500;

/// What a [`Marquee`] stands for in contracts: the column of the next
/// drawing and the way the greeting is moving.
pub ghost struct MarqueeState {
    pub column: int,
    pub forward: bool,
}

/// A state that the greeting can be in: within the columns, and moving away
/// from the end it stands at.
pub open spec fn marquee_valid(state: MarqueeState) -> bool {
    &&& 0 <= state.column <= 4
    &&& state.column == 0 ==> state.forward
    &&& state.column == 4 ==> !state.forward
}

/// The state after one step: one column further, turned round if that was an
/// end.
pub open spec fn marquee_step(state: MarqueeState) -> MarqueeState {
    let column = if state.forward {
        state.column + 1
    } else {
        state.column - 1
    };
    MarqueeState {
        column,
        forward: if column == 4 {
            false
        } else if column == 0 {
            true
        } else {
            state.forward
        },
    }
}

/// The state after `steps` steps.
pub open spec fn marquee_run(state: MarqueeState, steps: nat) -> MarqueeState
    decreases steps,
{
    if steps == 0 {
        state
    } else {
        marquee_step(marquee_run(state, (steps - 1) as nat))
    }
}

/// The moving greeting.
pub struct Marquee {
    column: u8,
    forward: bool,
}

impl View for Marquee {
    type V = MarqueeState;

    closed spec fn view(&self) -> MarqueeState {
        MarqueeState { column: self.column as int, forward: self.forward }
    }
}

impl Marquee {
    #[verifier::type_invariant]
    spec fn within_columns(&self) -> bool {
        marquee_valid(self@)
    }

    /// The greeting at the first column, about to move forward.
    pub fn new() -> (marquee: Self)
        ensures
            marquee@ == (MarqueeState { column: 0, forward: true }),
    {
        Marquee { column: 0, forward: true }
    }

    /// The column at which the greeting is drawn next.
    pub fn column(&self) -> (column: u8)
        ensures
            column == self@.column,
            marquee_valid(self@),
    {
        proof {
            use_type_invariant(self);
        }
        self.column
    }

    /// Returns the column at which to draw the greeting now, and moves it on
    /// by one step.
    pub fn advance(&mut self) -> (column: u8)
        ensures
            marquee_valid(old(self)@),
            column == old(self)@.column,
            final(self)@ == marquee_step(old(self)@),
    {
        proof {
            use_type_invariant(&*self);
        }
        let column: u8 = self.column;
        let moved: u8 = if self.forward {
            column + 1
        } else {
            column - 1
        };
        let forward: bool = if moved == LAST_COLUMN {
            false
        } else if moved == 0 {
            true
        } else {
            self.forward
        };
        *self = Marquee { column: moved, forward };
        column
    }
}

/// A step leads from a valid state to a valid state.
pub proof fn lemma_marquee_stays_valid(state: MarqueeState, steps: nat)
    requires
        marquee_valid(state),
    ensures
        marquee_valid(marquee_run(state, steps)),
    decreases steps,
{
    if steps > 0 {
        lemma_marquee_stays_valid(state, (steps - 1) as nat);
    }
}

/// The greeting is back where it was, moving the same way, after eight steps.
pub proof fn lemma_marquee_period(state: MarqueeState)
    requires
        marquee_valid(state),
    ensures
        marquee_run(state, 8) == state,
{
    reveal_with_fuel(marquee_run, 9);
}

} // verus!
