//! The background tick task, modelled as a state machine.
//!
//! The task has two states, ticking and terminated, and each loop iteration
//! is driven by one of two competing events: the periodic timer fires, or the
//! cancellation signal arrives. [`tick_task_step`] decides, from the deadline
//! and the event (each carrying the time sampled when it was handled), which
//! notifications to emit and whether the task terminates; the host performs
//! the waiting and the delivery. A whole task lifetime is a sequence of such
//! events, whose emitted notifications [`run_notes`] describes.

use vstd::prelude::*;

use crate::controller::remaining_at;
use crate::controller::TimerState;

verus! {

/// A notification handed to the external sink.
#[derive(Clone, Copy, Debug, PartialEq, Eq)]
pub enum Notification {
    /// A periodic report of the remaining countdown time.
    Tick { remaining_ms: u64 },
    /// The terminal report of natural countdown expiry.
    Done,
}

/// One of the two events a loop iteration of the tick task can wake on,
/// carrying the time sampled right after waking.
#[derive(Clone, Copy, Debug, PartialEq, Eq)]
pub enum TickEvent {
    /// The periodic timer fired.
    Periodic { now_ms: u64 },
    /// The cancellation signal arrived (or its sender went away).
    Cancel { now_ms: u64 },
}

/// The time sampled when the event was handled.
pub open spec fn event_time(ev: TickEvent) -> u64 {
    match ev {
        TickEvent::Periodic { now_ms } => now_ms,
        TickEvent::Cancel { now_ms } => now_ms,
    }
}

/// The notifications one step emits, in order. A periodic wake past the
/// deadline emits a final zero tick followed by done; an earlier one reports
/// the remaining time. Cancellation before the deadline emits one last tick
/// carrying the exact remaining time at the cancellation instant, and never
/// a done; past the deadline it emits nothing.
pub open spec fn step_notes(end_ms: u64, ev: TickEvent) -> Seq<Notification> {
    match ev {
        TickEvent::Periodic { now_ms } => {
            if now_ms >= end_ms {
                seq![Notification::Tick { remaining_ms: 0 }, Notification::Done]
            } else {
                seq![Notification::Tick { remaining_ms: (end_ms - now_ms) as u64 }]
            }
        },
        TickEvent::Cancel { now_ms } => {
            if now_ms < end_ms {
                seq![Notification::Tick { remaining_ms: (end_ms - now_ms) as u64 }]
            } else {
                Seq::empty()
            }
        },
    }
}

/// Whether the step ends the task: every cancellation does, and so does the
/// periodic wake that reaches the deadline.
pub open spec fn step_terminates(end_ms: u64, ev: TickEvent) -> bool {
    match ev {
        TickEvent::Periodic { now_ms } => now_ms >= end_ms,
        TickEvent::Cancel { .. } => true,
    }
}

/// The outcome of one loop iteration of the tick task.
pub struct TickStep {
    /// The notifications to emit, in order.
    pub notifications: Vec<Notification>,
    /// Whether the task terminates after emitting them.
    pub terminate: bool,
}

/// Decide one loop iteration of the tick task counting down to `end_ms`.
pub fn tick_task_step(end_ms: u64, event: TickEvent) -> (step: TickStep)
    ensures
        step.notifications@ == step_notes(end_ms, event),
        step.terminate == step_terminates(end_ms, event),
{
    let mut notifications: Vec<Notification> = Vec::new();
    match event {
        TickEvent::Periodic { now_ms } => {
            if now_ms >= end_ms {
                notifications.push(Notification::Tick { remaining_ms: 0 });
                notifications.push(Notification::Done);
                proof {
                    assert(notifications@ =~= step_notes(end_ms, event));
                }
                TickStep { notifications, terminate: true }
            } else {
                notifications.push(Notification::Tick { remaining_ms: end_ms - now_ms });
                proof {
                    assert(notifications@ =~= step_notes(end_ms, event));
                }
                TickStep { notifications, terminate: false }
            }
        },
        TickEvent::Cancel { now_ms } => {
            if now_ms < end_ms {
                notifications.push(Notification::Tick { remaining_ms: end_ms - now_ms });
            }
            proof {
                assert(notifications@ =~= step_notes(end_ms, event));
            }
            TickStep { notifications, terminate: true }
        },
    }
}

/// All notifications of one task lifetime woken by `events`, in order: the
/// steps are taken until the first terminating one, whose notifications end
/// the run; events after it never wake anything.
pub open spec fn run_notes(end_ms: u64, events: Seq<TickEvent>) -> Seq<Notification>
    decreases events.len(),
{
    if events.len() == 0 {
        Seq::empty()
    } else if step_terminates(end_ms, events[0]) {
        step_notes(end_ms, events[0])
    } else {
        step_notes(end_ms, events[0]) + run_notes(end_ms, events.drop_first())
    }
}

/// Whether a run woken by `events` reaches its terminated state.
pub open spec fn run_terminated(end_ms: u64, events: Seq<TickEvent>) -> bool {
    exists|j: int| 0 <= j < events.len() && step_terminates(end_ms, events[j])
}

/// Replay a whole task lifetime from its wake events: the emitted
/// notifications in order, and whether the task terminated.
pub fn simulate_task(end_ms: u64, events: &Vec<TickEvent>) -> (out: (Vec<Notification>, bool))
    ensures
        out.0@ == run_notes(end_ms, events@),
        out.1 == run_terminated(end_ms, events@),
{
    let mut notes: Vec<Notification> = Vec::new();
    let mut i: usize = 0;
    proof {
        assert(events@.skip(0) =~= events@);
        assert(notes@ + run_notes(end_ms, events@) =~= run_notes(end_ms, events@));
    }
    while i < events.len()
        invariant
            0 <= i <= events@.len(),
            forall|j: int| 0 <= j < i ==> !step_terminates(end_ms, events@[j]),
            run_notes(end_ms, events@) == notes@ + run_notes(end_ms, events@.skip(i as int)),
        decreases events@.len() - i,
    {
        let step = tick_task_step(end_ms, events[i]);
        proof {
            assert(events@.skip(i as int)[0] == events@[i as int]);
            assert(events@.skip(i as int).drop_first() =~= events@.skip(i as int + 1));
        }
        let ghost notes_before = notes@;
        let mut k: usize = 0;
        let emitted = step.notifications;
        proof {
            assert(notes@ =~= notes_before + emitted@.take(0));
        }
        while k < emitted.len()
            invariant
                0 <= k <= emitted@.len(),
                notes@ == notes_before + emitted@.take(k as int),
            decreases emitted@.len() - k,
        {
            notes.push(emitted[k]);
            k += 1;
            proof {
                assert(notes@ =~= notes_before + emitted@.take(k as int));
            }
        }
        proof {
            assert(emitted@.take(emitted@.len() as int) =~= emitted@);
        }
        if step.terminate {
            proof {
                assert(run_terminated(end_ms, events@)) by {
                    assert(step_terminates(end_ms, events@[i as int]));
                }
                assert(run_notes(end_ms, events@.skip(i as int)) == step_notes(
                    end_ms,
                    events@[i as int],
                ));
                assert(notes@ =~= notes_before + step_notes(end_ms, events@[i as int]));
            }
            return (notes, true);
        }
        proof {
            assert(run_notes(end_ms, events@.skip(i as int)) == step_notes(
                end_ms,
                events@[i as int],
            ) + run_notes(end_ms, events@.skip(i as int + 1)));
            assert(notes_before + run_notes(end_ms, events@.skip(i as int)) =~= notes@ + run_notes(
                end_ms,
                events@.skip(i as int + 1),
            ));
        }
        i += 1;
    }
    proof {
        assert(events@.skip(i as int) =~= Seq::<TickEvent>::empty());
        assert(notes@ + Seq::<Notification>::empty() =~= notes@);
    }
    (notes, false)
}

/// The remaining time a tick notification carries.
pub open spec fn tick_remaining(n: Notification) -> u64
    recommends
        n is Tick,
{
    match n {
        Notification::Tick { remaining_ms } => remaining_ms,
        Notification::Done => 0,
    }
}

/// Within one task lifetime, the done notification can only stand last:
/// whatever the events, at most one done is emitted, and nothing follows it.
pub proof fn lemma_done_is_last(end_ms: u64, events: Seq<TickEvent>)
    ensures
        forall|i: int|
            0 <= i < run_notes(end_ms, events).len() && run_notes(end_ms, events)[i]
                == Notification::Done ==> i == run_notes(end_ms, events).len() - 1,
    decreases events.len(),
{
    if events.len() == 0 {
    } else if step_terminates(end_ms, events[0]) {
    } else {
        lemma_done_is_last(end_ms, events.drop_first());
        let notes = run_notes(end_ms, events);
        let rest = run_notes(end_ms, events.drop_first());
        assert forall|i: int|
            0 <= i < notes.len() && notes[i] == Notification::Done implies i == notes.len()
            - 1 by {
            assert(notes[0] is Tick);
            assert(notes[i] == rest[i - 1]);
        }
    }
}

/// A run whose periodic wakes stay short of the deadline until a final wake
/// at or past it: every wake before the last emits a tick with the remaining
/// time at that wake, and the run ends with a zero tick followed by exactly
/// one done.
pub proof fn lemma_natural_expiry(end_ms: u64, events: Seq<TickEvent>)
    requires
        events.len() > 0,
        forall|j: int| 0 <= j < events.len() ==> events[j] is Periodic,
        forall|j: int| 0 <= j < events.len() - 1 ==> event_time(events[j]) < end_ms,
        event_time(events.last()) >= end_ms,
    ensures
        run_notes(end_ms, events).len() == events.len() + 1,
        run_notes(end_ms, events).last() == Notification::Done,
        forall|j: int|
            0 <= j < events.len() ==> run_notes(end_ms, events)[j] == (Notification::Tick {
                remaining_ms: remaining_at(end_ms, event_time(events[j])),
            }),
    decreases events.len(),
{
    if events.len() == 1 {
        assert(step_terminates(end_ms, events[0]));
    } else {
        assert(event_time(events[0]) < end_ms);
        assert(!step_terminates(end_ms, events[0]));
        let rest = events.drop_first();
        assert(rest.last() == events.last());
        lemma_natural_expiry(end_ms, rest);
        let notes = run_notes(end_ms, events);
        assert(notes == step_notes(end_ms, events[0]) + run_notes(end_ms, rest));
        assert forall|j: int|
            0 <= j < events.len() implies notes[j] == (Notification::Tick {
            remaining_ms: remaining_at(end_ms, event_time(events[j])),
        }) by {
            if j > 0 {
                assert(notes[j] == run_notes(end_ms, rest)[j - 1]);
                assert(rest[j - 1] == events[j]);
            }
        }
    }
}

/// A run cancelled strictly before the deadline, after any number of
/// non-terminating periodic wakes: every emitted notification is a tick —
/// no done ever follows a cancellation — and the last one carries the exact
/// remaining time at the cancellation instant.
pub proof fn lemma_cancelled_run(end_ms: u64, events: Seq<TickEvent>, cancel_ms: u64)
    requires
        events.len() > 0,
        events.last() == (TickEvent::Cancel { now_ms: cancel_ms }),
        cancel_ms < end_ms,
        forall|j: int| 0 <= j < events.len() - 1 ==> !step_terminates(end_ms, events[j]),
    ensures
        run_notes(end_ms, events).len() == events.len(),
        run_notes(end_ms, events).last() == (Notification::Tick {
            remaining_ms: (end_ms - cancel_ms) as u64,
        }),
        forall|i: int| 0 <= i < run_notes(end_ms, events).len() ==> run_notes(end_ms, events)[i]
            is Tick,
    decreases events.len(),
{
    if events.len() == 1 {
        assert(step_terminates(end_ms, events[0]));
    } else {
        assert(!step_terminates(end_ms, events[0]));
        let rest = events.drop_first();
        assert(rest.last() == events.last());
        lemma_cancelled_run(end_ms, rest, cancel_ms);
        let notes = run_notes(end_ms, events);
        assert(notes == step_notes(end_ms, events[0]) + run_notes(end_ms, rest));
        assert forall|i: int| 0 <= i < notes.len() implies notes[i] is Tick by {
            if i > 0 {
                assert(notes[i] == run_notes(end_ms, rest)[i - 1]);
            }
        }
    }
}

/// When pause cancels a task mid-countdown, the last notification of the
/// cancelled run is a tick carrying exactly the remaining time that pause
/// captured — the true value at the pause instant, not a stale periodic
/// sample — and no done notification is ever part of that run.
pub proof fn lemma_pause_matches_final_tick(s: TimerState, events: Seq<TickEvent>, pause_ms: u64)
    requires
        s.wf(),
        s.running,
        pause_ms < s.end_instant.unwrap(),
        events.len() > 0,
        events.last() == (TickEvent::Cancel { now_ms: pause_ms }),
        forall|j: int|
            0 <= j < events.len() - 1 ==> !step_terminates(s.end_instant.unwrap(), events[j]),
    ensures
        ({
            let notes = run_notes(s.end_instant.unwrap(), events);
            let (paused, _) = s.spec_pause(pause_ms);
            &&& notes.last() == (Notification::Tick {
                remaining_ms: paused.paused_remaining.unwrap(),
            })
            &&& forall|i: int| 0 <= i < notes.len() ==> notes[i] is Tick
        }),
{
    lemma_cancelled_run(s.end_instant.unwrap(), events, pause_ms);
}

/// A countdown paused mid-flight and then resumed carries its captured
/// remaining time forward: the resumed deadline lies that remainder past the
/// resume instant, and the resumed task, woken periodically until it reaches
/// that deadline, emits done exactly once — as its very last notification —
/// and never a second one.
pub proof fn lemma_roundtrip_runs_to_done(
    s: TimerState,
    start_ms: u64,
    pause_ms: u64,
    resume_ms: u64,
    total_ms: u64,
    events: Seq<TickEvent>,
)
    requires
        total_ms > 0,
        start_ms + total_ms <= u64::MAX,
        start_ms <= pause_ms < start_ms + total_ms,
        resume_ms + total_ms <= u64::MAX,
        events.len() > 0,
        forall|j: int| 0 <= j < events.len() ==> events[j] is Periodic,
        ({
            let end = (resume_ms + remaining_at((start_ms + total_ms) as u64, pause_ms)) as u64;
            &&& forall|j: int| 0 <= j < events.len() - 1 ==> event_time(events[j]) < end
            &&& event_time(events.last()) >= end
        }),
    ensures
        ({
            let captured = remaining_at((start_ms + total_ms) as u64, pause_ms);
            let end = (resume_ms + captured) as u64;
            let (started, _) = s.spec_start(start_ms, total_ms);
            let (paused, _) = started.spec_pause(pause_ms);
            let (resumed, _) = paused.spec_resume(resume_ms);
            let notes = run_notes(end, events);
            &&& resumed.running
            &&& resumed.end_instant == Some(end)
            &&& captured == total_ms - (pause_ms - start_ms)
            &&& notes.last() == Notification::Done
            &&& forall|i: int|
                0 <= i < notes.len() && notes[i] == Notification::Done ==> i == notes.len() - 1
        }),
{
    let captured = remaining_at((start_ms + total_ms) as u64, pause_ms);
    let end = (resume_ms + captured) as u64;
    lemma_natural_expiry(end, events);
    lemma_done_is_last(end, events);
}

/// Every tick of a run whose wakes all happen at or after `floor_ms` reports
/// at most the remaining time at `floor_ms`.
pub proof fn lemma_run_ticks_bounded(end_ms: u64, events: Seq<TickEvent>, floor_ms: u64)
    requires
        forall|j: int| 0 <= j < events.len() ==> event_time(events[j]) >= floor_ms,
    ensures
        forall|i: int|
            0 <= i < run_notes(end_ms, events).len() ==> tick_remaining(
                run_notes(end_ms, events)[i],
            ) <= remaining_at(end_ms, floor_ms),
    decreases events.len(),
{
    if events.len() == 0 {
    } else if step_terminates(end_ms, events[0]) {
    } else {
        lemma_run_ticks_bounded(end_ms, events.drop_first(), floor_ms);
        let notes = run_notes(end_ms, events);
        let rest = run_notes(end_ms, events.drop_first());
        assert forall|i: int|
            0 <= i < notes.len() implies tick_remaining(notes[i]) <= remaining_at(
            end_ms,
            floor_ms,
        ) by {
            if i > 0 {
                assert(notes[i] == rest[i - 1]);
            }
        }
    }
}

/// Within one task lifetime whose wakes happen in non-decreasing time order,
/// the reported remaining times of the tick notifications are non-increasing.
pub proof fn lemma_ticks_nonincreasing(end_ms: u64, events: Seq<TickEvent>)
    requires
        forall|i: int, j: int|
            0 <= i <= j < events.len() ==> event_time(events[i]) <= event_time(events[j]),
    ensures
        forall|i: int, j: int|
            0 <= i <= j < run_notes(end_ms, events).len() && run_notes(end_ms, events)[i] is Tick
                && run_notes(end_ms, events)[j] is Tick ==> tick_remaining(
                run_notes(end_ms, events)[i],
            ) >= tick_remaining(run_notes(end_ms, events)[j]),
    decreases events.len(),
{
    if events.len() == 0 {
    } else if step_terminates(end_ms, events[0]) {
    } else {
        let rest_events = events.drop_first();
        let t0 = event_time(events[0]);
        assert(t0 < end_ms);
        assert forall|j: int| 0 <= j < rest_events.len() implies event_time(rest_events[j])
            >= t0 by {
            assert(rest_events[j] == events[j + 1]);
        }
        lemma_run_ticks_bounded(end_ms, rest_events, t0);
        lemma_ticks_nonincreasing(end_ms, rest_events);
        let notes = run_notes(end_ms, events);
        let rest = run_notes(end_ms, rest_events);
        assert forall|i: int, j: int|
            0 <= i <= j < notes.len() && notes[i] is Tick && notes[j]
                is Tick implies tick_remaining(notes[i]) >= tick_remaining(notes[j]) by {
            if i == 0 && j > 0 {
                assert(notes[j] == rest[j - 1]);
                assert(tick_remaining(notes[0]) == remaining_at(end_ms, t0));
            } else if i > 0 {
                assert(notes[i] == rest[i - 1]);
                assert(notes[j] == rest[j - 1]);
            }
        }
    }
}

} // verus!
