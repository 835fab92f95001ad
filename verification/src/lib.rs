//! A delay queue: an unbounded queue whose items can only be taken out once
//! their delay has expired, earliest deadline first.
//!
//! The verified core lives here: the time arithmetic on deadlines, the
//! `Delay` wrapper, the priority order of queue entries, and the queue itself
//! as a state machine that says, for a reading of the clock, whether the head
//! can be taken or how long a consumer has to wait.

pub mod time;
pub mod delayed;
pub mod entry;
pub mod delay_queue;

pub use delayed::{Delay, Delayed};
pub use entry::Entry;
pub use delay_queue::{DelayQueue, PopStep};
