//! The frame mailbox: a single slot between the animations and the scanner.
//! Publishing overwrites what is pending; acquiring never waits.
//!
//! The slot is embassy-sync's `Signal`. The mailbox owns it and reaches it
//! only through `&mut self`, so nothing else can signal or take in between,
//! and what is pending is a function of the calls made on the mailbox. For
//! the same reason the signal's own lock has nothing to guard, and is the
//! no-op one. Tasks that share a mailbox put it behind a lock of their own.
//!
//! Verus does not look inside `Signal`. What this module takes on trust is
//! written on [`mailbox_slot`] and on the three private functions that call
//! the signal; everything else is proved from them.

use crate::frame::Frame;
use embassy_sync::blocking_mutex::raw::NoopRawMutex;
use embassy_sync::signal::Signal;
use vstd::prelude::*;

verus! {

/// Holds at most one pending frame, in a `Signal` that Verus treats as
/// opaque.
#[verifier::external_body]
pub struct FrameMailbox {
    signal: Signal<NoopRawMutex, Frame>,
}

/// The frame that the signal of `mailbox` holds, if it holds one.
pub uninterp spec fn mailbox_slot(mailbox: FrameMailbox) -> Option<Frame>;

/// `Signal::new`: the new signal holds no value.
#[verifier::external_body]
fn signal_new() -> (mailbox: FrameMailbox)
    ensures
        mailbox_slot(mailbox) is None,
{
    FrameMailbox { signal: Signal::new() }
}

/// `Signal::signal`: the signal holds `frame` afterwards, whatever it held
/// before.
#[verifier::external_body]
fn signal_store(mailbox: &mut FrameMailbox, frame: Frame)
    ensures
        mailbox_slot(*final(mailbox)) == Some(frame),
{
    mailbox.signal.signal(frame)
}

/// `Signal::try_take`: returns the value that the signal held, if it held
/// one, and leaves the signal without a value.
#[verifier::external_body]
fn signal_try_take(mailbox: &mut FrameMailbox) -> (taken: Option<Frame>)
    ensures
        taken == mailbox_slot(*old(mailbox)),
        mailbox_slot(*final(mailbox)) is None,
{
    mailbox.signal.try_take()
}

impl FrameMailbox {
    /// The pending frame, if there is one.
    pub open spec fn pending(&self) -> Option<Frame> {
        mailbox_slot(*self)
    }

    /// An empty mailbox.
    pub fn new() -> (mailbox: Self)
        ensures
            mailbox.pending() is None,
    {
        signal_new()
    }

    /// Stores `frame`, discarding a pending frame that was not acquired.
    pub fn publish(&mut self, frame: Frame)
        ensures
            final(self).pending() == Some(frame),
    {
        signal_store(self, frame);
    }

    /// Removes and returns the pending frame, if there is one.
    pub fn try_acquire(&mut self) -> (frame: Option<Frame>)
        ensures
            frame == old(self).pending(),
            final(self).pending() is None,
    {
        signal_try_take(self)
    }
}

} // verus!
