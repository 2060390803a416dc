//! Timers for the leader windows that a validator waits for.

pub mod draining;
pub mod fire_queue;
pub mod history;
pub mod stats;
pub mod timer_state;
pub mod timers;
