//! Display engine of a row-scanned 5x5 LED matrix.
//!
//! - [`frame`]: frames and the operations on them;
//! - [`mailbox`]: the single-slot mailbox that carries frames to the scanner;
//! - [`scanner`]: the row scanner, which turns the latest frame into pin
//!   commands, one row per tick;
//! - [`animations`]: the four animations, as timed sequences of frames;
//! - [`sequencer`]: the order in which the animations run;
//! - [`marquee`]: the moving greeting of the character display.
//!
//! The library decides; the caller waits and drives the pins.

pub mod animations;
pub mod frame;
pub mod mailbox;
pub mod marquee;
pub mod scanner;
pub mod sequencer;
