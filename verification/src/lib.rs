//! A verified countdown timer core.
//!
//! The library holds the state machine of a single countdown timer that can be
//! started, paused, resumed, stopped and queried, together with the decision
//! logic of its periodic background tick task. Time is modelled as
//! milliseconds on a monotonic clock and is always passed in by the caller as
//! a plain `u64`: the library owns no clock, spawns no task and delivers no
//! notification itself. Each operation instead tells its host what to do —
//! which task action to perform and which notifications to emit — so that the
//! whole decision logic is verified while the host keeps the clock, the lock,
//! the task handles and the delivery channel.

pub mod controller;
pub mod task;
