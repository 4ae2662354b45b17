//! The countdown controller: start, pause, resume, stop and query of a single
//! timer.
//!
//! The controller owns no clock and spawns no task. Every operation takes the
//! current monotonic time in milliseconds as an argument, and each mutating
//! operation returns a [`TaskAction`] telling the host what to do with the
//! background tick task: leave it alone, cancel it, or replace it with a fresh
//! one counting down to a given deadline.

use vstd::prelude::*;

verus! {

/// Interval between periodic tick notifications, in milliseconds.
pub const TICK_CADENCE_MS: u64 = 100;

/// Remaining milliseconds at `now_ms` for a deadline of `end_ms`, clamped to
/// zero once the deadline has passed.
pub open spec fn remaining_at(end_ms: u64, now_ms: u64) -> u64 {
    if now_ms >= end_ms {
        0
    } else {
        (end_ms - now_ms) as u64
    }
}

/// Executable counterpart of [`remaining_at`].
pub fn remaining_ms_between(end_ms: u64, now_ms: u64) -> (r: u64)
    ensures
        r == remaining_at(end_ms, now_ms),
{
    if now_ms >= end_ms {
        0
    } else {
        end_ms - now_ms
    }
}

/// What the host must do with the background tick task after an operation.
#[derive(Clone, Copy, Debug, PartialEq, Eq)]
pub enum TaskAction {
    /// Leave any existing task untouched.
    Retain,
    /// Send the cancellation signal to any existing task and abort it; do not
    /// spawn a new one.
    Cancel,
    /// Cancel and abort any existing task, then spawn a fresh tick task that
    /// counts down to the given absolute deadline.
    Replace { end_instant_ms: u64 },
}

/// State of the single countdown timer.
///
/// The host keeps the actual task handle and cancellation sender; their
/// presence is mirrored here by [`has_task`](TimerState::has_task), so that
/// the state invariant can speak of them.
#[derive(Clone, Copy, Debug, PartialEq, Eq)]
pub struct TimerState {
    /// An active countdown task exists and is not paused.
    pub running: bool,
    /// A countdown has been suspended with its remaining time preserved.
    pub paused: bool,
    /// Absolute deadline on the monotonic clock, in milliseconds; present
    /// only while running.
    pub end_instant: Option<u64>,
    /// Remaining milliseconds captured at the moment of pausing; present only
    /// while paused.
    pub paused_remaining: Option<u64>,
    /// The host holds a live task handle and its paired cancellation sender.
    pub has_task: bool,
}

impl TimerState {
    /// The idle configuration: no countdown in progress, nothing preserved,
    /// no background task.
    pub open spec fn idle_state() -> TimerState {
        TimerState {
            running: false,
            paused: false,
            end_instant: None,
            paused_remaining: None,
            has_task: false,
        }
    }

    pub open spec fn is_idle(self) -> bool {
        self == Self::idle_state()
    }

    /// The state invariant: at most one of `running` and `paused` holds, the
    /// deadline is present exactly while running, the captured remainder
    /// exactly while paused, and a task is held exactly while running.
    pub open spec fn wf(self) -> bool {
        &&& !(self.running && self.paused)
        &&& (self.end_instant is Some) <==> self.running
        &&& (self.paused_remaining is Some) <==> self.paused
        &&& self.has_task <==> self.running
    }

    /// What `start` does to the state, and the task action it asks of the
    /// host. A zero-length countdown never starts: the state is left idle and
    /// only the cancellation of any prior task remains.
    pub open spec fn spec_start(self, now_ms: u64, total_ms: u64) -> (TimerState, TaskAction)
        recommends
            now_ms + total_ms <= u64::MAX,
    {
        if total_ms == 0 {
            (Self::idle_state(), TaskAction::Cancel)
        } else {
            let end = (now_ms + total_ms) as u64;
            (
                TimerState {
                    running: true,
                    paused: false,
                    end_instant: Some(end),
                    paused_remaining: None,
                    has_task: true,
                },
                TaskAction::Replace { end_instant_ms: end },
            )
        }
    }

    /// Start a fresh countdown of `total_ms` milliseconds at time `now_ms`.
    ///
    /// Any prior task is always cancelled. With `total_ms == 0` the state is
    /// left idle and nothing is spawned; otherwise the deadline becomes
    /// `now_ms + total_ms` and the host is asked to spawn a tick task for it.
    pub fn start(&mut self, now_ms: u64, total_ms: u64) -> (action: TaskAction)
        requires
            now_ms + total_ms <= u64::MAX,
        ensures
            (*final(self), action) == old(self).spec_start(now_ms, total_ms),
            final(self).wf(),
    {
        if total_ms == 0 {
            self.running = false;
            self.paused = false;
            self.end_instant = None;
            self.paused_remaining = None;
            self.has_task = false;
            return TaskAction::Cancel;
        }
        let end = now_ms + total_ms;
        self.running = true;
        self.paused = false;
        self.end_instant = Some(end);
        self.paused_remaining = None;
        self.has_task = true;
        TaskAction::Replace { end_instant_ms: end }
    }

    /// What `pause` does to the state. A pause that finds no countdown in
    /// progress changes nothing; otherwise the clamped remaining time is
    /// captured, the deadline is dropped and the task is cancelled. The arm
    /// that finds no deadline while running is defensive; it cannot be
    /// reached from a well-formed state.
    pub open spec fn spec_pause(self, now_ms: u64) -> (TimerState, TaskAction) {
        if !self.running || self.paused {
            (self, TaskAction::Retain)
        } else {
            let captured = match self.end_instant {
                Some(end) => Some(remaining_at(end, now_ms)),
                None => self.paused_remaining,
            };
            (
                TimerState {
                    running: false,
                    paused: true,
                    end_instant: None,
                    paused_remaining: captured,
                    has_task: false,
                },
                TaskAction::Cancel,
            )
        }
    }

    /// Suspend the countdown at time `now_ms`, preserving its remaining time.
    ///
    /// A no-op when not running or already paused. Otherwise the remaining
    /// time (zero once the deadline has passed) is captured and the host is
    /// asked to cancel the tick task; the cancelled task emits one final tick
    /// carrying this same remaining value as it unwinds.
    pub fn pause(&mut self, now_ms: u64) -> (action: TaskAction)
        ensures
            (*final(self), action) == old(self).spec_pause(now_ms),
            old(self).wf() ==> final(self).wf(),
    {
        if !self.running || self.paused {
            return TaskAction::Retain;
        }
        if let Some(end) = self.end_instant {
            self.paused_remaining = Some(remaining_ms_between(end, now_ms));
        }
        self.running = false;
        self.paused = true;
        self.end_instant = None;
        self.has_task = false;
        TaskAction::Cancel
    }

    /// What `resume` does to the state. Resuming a timer that is not paused
    /// changes nothing; resuming with nothing left goes straight to idle
    /// without spawning a task; otherwise a new deadline is set the captured
    /// remainder past `now_ms`. The missing-remainder fallback to zero is
    /// defensive; it cannot be reached from a well-formed state.
    pub open spec fn spec_resume(self, now_ms: u64) -> (TimerState, TaskAction)
        recommends
            now_ms + self.captured_remaining() <= u64::MAX,
    {
        if !self.paused {
            (self, TaskAction::Retain)
        } else {
            let rem = self.captured_remaining();
            if rem == 0 {
                (
                    TimerState {
                        running: false,
                        paused: false,
                        end_instant: self.end_instant,
                        paused_remaining: None,
                        has_task: self.has_task,
                    },
                    TaskAction::Retain,
                )
            } else {
                let end = (now_ms + rem) as u64;
                (
                    TimerState {
                        running: true,
                        paused: false,
                        end_instant: Some(end),
                        paused_remaining: None,
                        has_task: true,
                    },
                    TaskAction::Replace { end_instant_ms: end },
                )
            }
        }
    }

    /// The remainder that `resume` would pick up: the value captured at the
    /// last pause, or zero if none is stored.
    pub open spec fn captured_remaining(self) -> u64 {
        match self.paused_remaining {
            Some(rem) => rem,
            None => 0,
        }
    }

    /// Resume a paused countdown at time `now_ms`.
    ///
    /// A no-op when not paused. A paused countdown with nothing left goes
    /// straight to idle, with no task and no notification; otherwise the
    /// countdown continues towards `now_ms` plus the captured remainder, and
    /// the host is asked to spawn a tick task for that deadline.
    pub fn resume(&mut self, now_ms: u64) -> (action: TaskAction)
        requires
            now_ms + old(self).captured_remaining() <= u64::MAX,
        ensures
            (*final(self), action) == old(self).spec_resume(now_ms),
            old(self).wf() ==> final(self).wf(),
    {
        if !self.paused {
            return TaskAction::Retain;
        }
        let rem = match self.paused_remaining.take() {
            Some(rem) => rem,
            None => 0,
        };
        if rem == 0 {
            self.running = false;
            self.paused = false;
            return TaskAction::Retain;
        }
        let end = now_ms + rem;
        self.running = true;
        self.paused = false;
        self.end_instant = Some(end);
        self.has_task = true;
        TaskAction::Replace { end_instant_ms: end }
    }

    /// What `stop` does: the state is reset to idle whatever it was, and any
    /// task is cancelled.
    pub open spec fn spec_stop(self) -> (TimerState, TaskAction) {
        (Self::idle_state(), TaskAction::Cancel)
    }

    /// Stop the timer: cancel any task and reset every field to idle.
    /// Idempotent, and safe to call in any state.
    pub fn stop(&mut self) -> (action: TaskAction)
        ensures
            (*final(self), action) == old(self).spec_stop(),
            final(self).is_idle(),
            final(self).wf(),
    {
        self.running = false;
        self.paused = false;
        self.end_instant = None;
        self.paused_remaining = None;
        self.has_task = false;
        TaskAction::Cancel
    }

    /// The remaining time reported to a query at time `now_ms`: the clamped
    /// distance to the deadline while running, the captured remainder while
    /// paused, and nothing while idle. The arms that find no stored value in
    /// a state that claims one are defensive; they cannot be reached from a
    /// well-formed state.
    pub open spec fn spec_remaining(self, now_ms: u64) -> Option<u64> {
        if self.running && !self.paused {
            match self.end_instant {
                Some(end) => Some(remaining_at(end, now_ms)),
                None => None,
            }
        } else if self.paused {
            self.paused_remaining
        } else {
            None
        }
    }

    /// Query the remaining time at `now_ms` without changing any state.
    pub fn get_remaining(&self, now_ms: u64) -> (r: Option<u64>)
        ensures
            r == self.spec_remaining(now_ms),
    {
        if self.running && !self.paused {
            match self.end_instant {
                Some(end) => Some(remaining_ms_between(end, now_ms)),
                None => None,
            }
        } else if self.paused {
            self.paused_remaining
        } else {
            None
        }
    }
}

/// Immediately after a fresh start of a positive duration, a query made
/// before the first tick cadence has elapsed reports a value that is at most
/// the requested total and greater than the total less one cadence.
pub proof fn lemma_start_then_query(s: TimerState, now_ms: u64, query_ms: u64, total_ms: u64)
    requires
        total_ms > 0,
        now_ms + total_ms <= u64::MAX,
        now_ms <= query_ms < now_ms + TICK_CADENCE_MS,
    ensures
        ({
            let (started, _) = s.spec_start(now_ms, total_ms);
            &&& started.spec_remaining(query_ms) is Some
            &&& started.spec_remaining(query_ms).unwrap() <= total_ms
            &&& started.spec_remaining(query_ms).unwrap() > total_ms - TICK_CADENCE_MS
        }),
{
}

/// Starting a zero-length countdown leaves the timer idle: no task is
/// spawned (only a prior one is cancelled, so no tick or done notification
/// can ever follow from this call), and every later query reports nothing.
pub proof fn lemma_start_zero_idle(s: TimerState, now_ms: u64, query_ms: u64)
    ensures
        ({
            let (started, action) = s.spec_start(now_ms, 0);
            &&& started.is_idle()
            &&& action == TaskAction::Cancel
            &&& started.spec_remaining(query_ms) is None
        }),
{
}

/// Pausing right after a start and then resuming yields a countdown whose
/// remaining time is exactly the value captured at the pause: while paused,
/// every query reports that value, and the resumed deadline lies the same
/// value past the resume instant. A pause at or past the deadline captures
/// zero, and resuming then goes straight to idle.
pub proof fn lemma_pause_resume_roundtrip(
    s: TimerState,
    start_ms: u64,
    pause_ms: u64,
    resume_ms: u64,
    total_ms: u64,
    query_ms: u64,
)
    requires
        total_ms > 0,
        start_ms + total_ms <= u64::MAX,
        start_ms <= pause_ms,
        resume_ms + total_ms <= u64::MAX,
    ensures
        ({
            let (started, _) = s.spec_start(start_ms, total_ms);
            let (paused, _) = started.spec_pause(pause_ms);
            let captured = remaining_at((start_ms + total_ms) as u64, pause_ms);
            let (resumed, resume_action) = paused.spec_resume(resume_ms);
            &&& paused.spec_remaining(query_ms) == Some(captured)
            &&& captured > 0 ==> {
                &&& resumed.running
                &&& !resumed.paused
                &&& resumed.end_instant == Some((resume_ms + captured) as u64)
                &&& resume_action == (TaskAction::Replace {
                    end_instant_ms: (resume_ms + captured) as u64,
                })
                &&& resumed.spec_remaining(resume_ms) == Some(captured)
            }
            &&& captured == 0 ==> resumed.is_idle() && resume_action == TaskAction::Retain
        }),
{
}

/// Stop is idempotent: stopping leaves the timer idle from any state, and
/// stopping an already idle timer changes nothing. The operations are total,
/// so neither call can fail.
pub proof fn lemma_stop_idempotent(s: TimerState)
    ensures
        ({
            let (stopped_once, first_action) = s.spec_stop();
            let (stopped_twice, second_action) = stopped_once.spec_stop();
            &&& stopped_once.is_idle()
            &&& stopped_twice == stopped_once
            &&& first_action == TaskAction::Cancel && second_action == TaskAction::Cancel
            &&& s.is_idle() ==> stopped_once == s
        }),
{
}

impl Default for TimerState {
    /// The timer is created idle.
    fn default() -> (s: TimerState)
        ensures
            s == TimerState::idle_state(),
            s.wf(),
    {
        TimerState {
            running: false,
            paused: false,
            end_instant: None,
            paused_remaining: None,
            has_task: false,
        }
    }
}

} // verus!
