# votor

Timing and coordination logic of an Alpenglow voting validator, verified with Verus.

- `src/timer_manager/` keeps the timers of leader windows. `timer_state.rs` is the state machine
  of one window, `timers.rs` holds all active timers, `fire_queue.rs` is the queue of their next
  deadlines. `draining.rs` says what timers report and what is left of them, `history.rs` what
  holds over all calls that are made on them.
- `src/standstill.rs` is the standstill signal, with the backoff that a standstill has reached and
  the timeouts that are scaled by it. `src/multiplier.rs` keeps the factor, a power of 1.05, as its
  exponent.
- `src/common.rs` holds the constants of the protocol, which votes conflict, which certificates a
  vote counts towards, and the scaling of the timers' timeouts.
- `src/bank_forks_controller.rs` decides how the sender of a command to the replay stage proceeds.
- `src/time.rs` and `src/leader_schedule.rs` are what the others are built on.
- `app/` is ordinary Rust around the library: floating point, clocks, channels and locks.

A timer is specified by its schedule: the deadlines that it still has, each with the event that it
reports. Making progress takes due deadlines off the schedules, earliest first.
