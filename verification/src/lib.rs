//! Mouse-keys core: turns key presses and releases from a keyboard into the
//! pointer motion, scroll and click events of a virtual mouse.
//!
//! The crate holds the decisions only. A host program reads key events from
//! its input device, hands them to [`scheduler::Scheduler::step`], performs
//! the returned commands on its output device, and calls `step` with a tick
//! whenever one is due by [`scheduler::Scheduler::next_wait`].
//!
//! All times are in microseconds; timestamps count from any fixed moment,
//! the same for key events and ticks.

pub mod accel;
pub mod action;
pub mod arith;
pub mod diagonal;
pub mod laws;
pub mod output;
pub mod scheduler;
pub mod tracker;
