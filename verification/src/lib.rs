//! A discrete-event simulation kernel.
//!
//! The kernel keeps one clock and one queue of time-stamped commands, the
//! [`timeline`]. Taking the next command off the timeline moves the clock to
//! that command's time; the clock never runs backwards and never passes a
//! command that is still pending. A model runs in rounds of three phases; in
//! each round at most one command is taken off the timeline and executed.
//! After each round the tick loop reads a control signal and either goes on
//! or stops for good ([`model`]).
//!
//! The kernel decides and does not act: it never looks inside a command,
//! runs no behavior and touches no file. The world in which commands are
//! executed belongs to whoever drives the kernel.

mod heap;

pub mod model;
pub mod random;
pub mod report;
pub mod time;
pub mod timeline;
pub mod timeline_event;
