//! The row scanner: lights one row of the matrix at a time, always from the
//! frame it acquired last.

use crate::frame::{blank_frame, blank_grid, grid, Frame};
use crate::mailbox::FrameMailbox;
use vstd::prelude::*;

verus! {

/// Time that each row stays lit.
pub const ROW_PERIOD_MS: u32 = 2;

/// Commands of one scan tick: five rows off, five column duties, one row on.
pub const COMMANDS_PER_TICK: usize = 11;

/// One write to the pins of the matrix.
#[derive(Clone, Copy, Debug, PartialEq, Eq)]
pub enum PinCommand {
    /// Drive the line of `row` high (`active`) or low.
    RowActive { row: usize, active: bool },
    /// Set the pulse width of `column` to `duty` parts of 255.
    ColumnDuty { column: usize, duty: u8 },
}

/// What a [`RowScanner`] stands for in contracts: the row it will light next
/// and the grid it shows.
pub ghost struct ScanState {
    pub row: int,
    pub buffer: Seq<Seq<u8>>,
}

/// The grid of an acquired frame, if there is one.
pub open spec fn incoming_grid(incoming: Option<Frame>) -> Option<Seq<Seq<u8>>> {
    match incoming {
        Some(frame) => Some(grid(frame)),
        None => None,
    }
}

/// The buffer after a tick: the acquired grid if there is one, else the buffer
/// as it was.
pub open spec fn refreshed(buffer: Seq<Seq<u8>>, incoming: Option<Seq<Seq<u8>>>) -> Seq<Seq<u8>> {
    match incoming {
        Some(g) => g,
        None => buffer,
    }
}

/// The state after one tick.
pub open spec fn scan_step(state: ScanState, incoming: Option<Seq<Seq<u8>>>) -> ScanState {
    ScanState { row: (state.row + 1) % 5, buffer: refreshed(state.buffer, incoming) }
}

/// The commands of the tick that lights `row` from `buffer`: every row off,
/// then the five duties of the row, then the row on.
pub open spec fn scan_commands(row: int, buffer: Seq<Seq<u8>>) -> Seq<PinCommand> {
    Seq::new(
        11,
        |i: int|
            if i < 5 {
                PinCommand::RowActive { row: i as usize, active: false }
            } else if i < 10 {
                PinCommand::ColumnDuty { column: (i - 5) as usize, duty: buffer[row][i - 5] }
            } else {
                PinCommand::RowActive { row: row as usize, active: true }
            },
    )
}

/// The commands that a tick issues from `state` when it acquires `incoming`.
pub open spec fn tick_commands(state: ScanState, incoming: Option<Seq<Seq<u8>>>) -> Seq<
    PinCommand,
> {
    scan_commands(state.row, refreshed(state.buffer, incoming))
}

/// The state after a run of ticks, one per entry of `incoming`.
pub open spec fn scan_run(state: ScanState, incoming: Seq<Option<Seq<Seq<u8>>>>) -> ScanState
    decreases incoming.len(),
{
    if incoming.len() == 0 {
        state
    } else {
        scan_step(scan_run(state, incoming.drop_last()), incoming.last())
    }
}

/// A run of `ticks` ticks in which no frame arrives.
pub open spec fn idle(ticks: nat) -> Seq<Option<Seq<Seq<u8>>>> {
    Seq::new(ticks, |k: int| None::<Seq<Seq<u8>>>)
}

/// The row lines after one command.
pub open spec fn apply_command(lines: Seq<bool>, command: PinCommand) -> Seq<bool> {
    match command {
        PinCommand::RowActive { row, active } => if row < lines.len() {
            lines.update(row as int, active)
        } else {
            lines
        },
        PinCommand::ColumnDuty { .. } => lines,
    }
}

/// The row lines after a sequence of commands.
pub open spec fn apply_commands(lines: Seq<bool>, commands: Seq<PinCommand>) -> Seq<bool>
    decreases commands.len(),
{
    if commands.len() == 0 {
        lines
    } else {
        apply_command(apply_commands(lines, commands.drop_last()), commands.last())
    }
}

/// No two row lines are high.
pub open spec fn at_most_one_active(lines: Seq<bool>) -> bool {
    forall|i: int, j: int|
        0 <= i < lines.len() && 0 <= j < lines.len() && lines[i] && lines[j] ==> i == j
}

/// The line of `row` is high and no other.
pub open spec fn only_active(lines: Seq<bool>, row: int) -> bool {
    forall|i: int| 0 <= i < lines.len() ==> (lines[i] <==> i == row)
}

/// The scanner of the matrix.
pub struct RowScanner {
    current_row: usize,
    frame_buffer: Frame,
}

impl View for RowScanner {
    type V = ScanState;

    closed spec fn view(&self) -> ScanState {
        ScanState { row: self.current_row as int, buffer: grid(self.frame_buffer) }
    }
}

impl RowScanner {
    #[verifier::type_invariant]
    spec fn row_in_range(&self) -> bool {
        self.current_row < 5
    }

    /// A scanner at row 0 that shows a blank frame.
    pub fn new() -> (scanner: Self)
        ensures
            scanner@ == (ScanState { row: 0, buffer: blank_grid() }),
    {
        RowScanner { current_row: 0, frame_buffer: blank_frame() }
    }

    /// The row that the next tick lights.
    pub fn current_row(&self) -> (row: usize)
        ensures
            row == self@.row,
            row < 5,
    {
        proof {
            use_type_invariant(self);
        }
        self.current_row
    }

    /// The frame that the scanner shows.
    pub fn frame_buffer(&self) -> (frame: Frame)
        ensures
            grid(frame) == self@.buffer,
    {
        self.frame_buffer
    }

    /// One tick with the result of polling the mailbox: takes `incoming` as
    /// the new buffer if there is one, issues the commands for the current
    /// row and moves on to the next row.
    pub fn step(&mut self, incoming: Option<Frame>) -> (commands: [PinCommand;
        COMMANDS_PER_TICK])
        ensures
            0 <= old(self)@.row < 5,
            final(self)@ == scan_step(old(self)@, incoming_grid(incoming)),
            commands@ == tick_commands(old(self)@, incoming_grid(incoming)),
    {
        proof {
            use_type_invariant(&*self);
        }
        if let Some(frame) = incoming {
            self.frame_buffer = frame;
        }
        let row: usize = self.current_row;
        let duties: [u8; 5] = self.frame_buffer[row];
        let commands: [PinCommand; COMMANDS_PER_TICK] = [
            PinCommand::RowActive { row: 0, active: false },
            PinCommand::RowActive { row: 1, active: false },
            PinCommand::RowActive { row: 2, active: false },
            PinCommand::RowActive { row: 3, active: false },
            PinCommand::RowActive { row: 4, active: false },
            PinCommand::ColumnDuty { column: 0, duty: duties[0] },
            PinCommand::ColumnDuty { column: 1, duty: duties[1] },
            PinCommand::ColumnDuty { column: 2, duty: duties[2] },
            PinCommand::ColumnDuty { column: 3, duty: duties[3] },
            PinCommand::ColumnDuty { column: 4, duty: duties[4] },
            PinCommand::RowActive { row, active: true },
        ];
        self.current_row = (row + 1) % 5;
        assert(commands@ =~= tick_commands(old(self)@, incoming_grid(incoming)));
        commands
    }

    /// One tick against the mailbox: polls it without waiting, then does
    /// what [`RowScanner::step`] does with the result.
    pub fn tick(&mut self, mailbox: &mut FrameMailbox) -> (commands: [PinCommand;
        COMMANDS_PER_TICK])
        ensures
            0 <= old(self)@.row < 5,
            final(self)@ == scan_step(old(self)@, incoming_grid(old(mailbox).pending())),
            commands@ == tick_commands(old(self)@, incoming_grid(old(mailbox).pending())),
            final(mailbox).pending() is None,
    {
        let incoming = mailbox.try_acquire();
        self.step(incoming)
    }
}

/// The rows are lit in the order 0, 1, 2, 3, 4, 0, 1 and so on: after any run
/// of ticks the scanner stands at the row that the count of ticks gives,
/// whatever arrived.
pub proof fn lemma_rows_in_cyclic_order(state: ScanState, incoming: Seq<Option<Seq<Seq<u8>>>>)
    requires
        0 <= state.row < 5,
    ensures
        scan_run(state, incoming).row == (state.row + incoming.len()) % 5,
    decreases incoming.len(),
{
    if incoming.len() > 0 {
        lemma_rows_in_cyclic_order(state, incoming.drop_last());
    }
}

/// While no frame arrives the buffer stays as it is.
pub proof fn lemma_idle_keeps_buffer(state: ScanState, ticks: nat)
    requires
        0 <= state.row < 5,
    ensures
        scan_run(state, idle(ticks)).buffer == state.buffer,
        scan_run(state, idle(ticks)).row == (state.row + ticks) % 5,
    decreases ticks,
{
    if ticks > 0 {
        assert(idle(ticks).drop_last() =~= idle((ticks - 1) as nat));
        lemma_idle_keeps_buffer(state, (ticks - 1) as nat);
    }
}

/// If no frame arrives, the scanner repeats itself every five ticks: tick
/// `k + 5` issues the very commands of tick `k`.
pub proof fn lemma_idle_redisplay(state: ScanState, k: nat)
    requires
        0 <= state.row < 5,
    ensures
        scan_run(state, idle(k + 5)) == scan_run(state, idle(k)),
        tick_commands(scan_run(state, idle(k + 5)), None) == tick_commands(
            scan_run(state, idle(k)),
            None,
        ),
{
    lemma_idle_keeps_buffer(state, k);
    lemma_idle_keeps_buffer(state, k + 5);
    assert((state.row + (k + 5)) % 5 == (state.row + k) % 5);
}

/// The row lines while the commands of a tick go out one by one: each row
/// handled so far is low, the others are as they were, and the last command
/// raises the row of the tick.
pub open spec fn lines_during_tick(lines: Seq<bool>, row: int, issued: int) -> Seq<bool> {
    Seq::new(
        5,
        |i: int|
            if issued == 11 {
                i == row
            } else if i < issued {
                false
            } else {
                lines[i]
            },
    )
}

/// What the row lines are after the first `issued` commands of a tick.
pub proof fn lemma_lines_during_tick(
    lines: Seq<bool>,
    row: int,
    buffer: Seq<Seq<u8>>,
    issued: int,
)
    requires
        lines.len() == 5,
        0 <= row < 5,
        0 <= issued <= 11,
    ensures
        apply_commands(lines, scan_commands(row, buffer).take(issued)) == lines_during_tick(
            lines,
            row,
            issued,
        ),
    decreases issued,
{
    let commands = scan_commands(row, buffer);
    if issued == 0 {
        assert(apply_commands(lines, commands.take(0)) =~= lines_during_tick(lines, row, 0));
    } else {
        lemma_lines_during_tick(lines, row, buffer, issued - 1);
        assert(commands.take(issued).drop_last() =~= commands.take(issued - 1));
        assert(commands.take(issued).last() == commands[issued - 1]);
        assert(apply_commands(lines, commands.take(issued)) =~= lines_during_tick(
            lines,
            row,
            issued,
        ));
    }
}

/// At every moment of a tick at most one row line is high, provided that at
/// most one was high before it; when the tick is over, exactly the line of its
/// row is high.
pub proof fn lemma_one_row_at_a_time(
    lines: Seq<bool>,
    row: int,
    buffer: Seq<Seq<u8>>,
    issued: int,
)
    requires
        lines.len() == 5,
        at_most_one_active(lines),
        0 <= row < 5,
        0 <= issued <= 11,
    ensures
        at_most_one_active(apply_commands(lines, scan_commands(row, buffer).take(issued))),
        only_active(apply_commands(lines, scan_commands(row, buffer)), row),
{
    lemma_lines_during_tick(lines, row, buffer, issued);
    lemma_lines_during_tick(lines, row, buffer, 11);
    assert(scan_commands(row, buffer).take(11) =~= scan_commands(row, buffer));
}

} // verus!
