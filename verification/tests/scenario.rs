//! One full lifetime of the timer, driven with explicit clock values:
//! start, query, pause mid-countdown, resume, natural expiry, stop.

use countdown_timer::controller::{TaskAction, TimerState};
use countdown_timer::task::{simulate_task, Notification, TickEvent};

#[test]
fn a_whole_countdown_lifetime() {
    let mut s = TimerState::default();

    // start a one-second countdown at clock 0
    let action = s.start(0, 1000);
    assert_eq!(action, TaskAction::Replace { end_instant_ms: 1000 });

    // queried around 300 ms in, the report lies within the expected window
    let reported = s.get_remaining(300).unwrap();
    assert!(reported > 600 && reported <= 750);
    assert_eq!(reported, 700);

    // pause at that instant: the task is cancelled, and the final tick of the
    // cancelled run carries exactly the value the query reported
    let action = s.pause(300);
    assert_eq!(action, TaskAction::Cancel);
    let run = vec![
        TickEvent::Periodic { now_ms: 100 },
        TickEvent::Periodic { now_ms: 200 },
        TickEvent::Cancel { now_ms: 300 },
    ];
    let (notes, terminated) = simulate_task(1000, &run);
    assert!(terminated);
    assert_eq!(notes.last(), Some(&Notification::Tick { remaining_ms: 700 }));
    assert!(!notes.contains(&Notification::Done));
    assert_eq!(s.get_remaining(300), Some(700));
    assert_eq!(s.get_remaining(450), Some(700));

    // resume at 500: the countdown continues towards 1200
    let action = s.resume(500);
    assert_eq!(action, TaskAction::Replace { end_instant_ms: 1200 });
    assert_eq!(s.get_remaining(500), Some(700));

    // the resumed task ticks to its natural expiry: done fires exactly once
    let resumed_run: Vec<TickEvent> = (6..=12)
        .map(|k| TickEvent::Periodic { now_ms: 100 * k })
        .collect();
    let (notes, terminated) = simulate_task(1200, &resumed_run);
    assert!(terminated);
    assert_eq!(notes.last(), Some(&Notification::Done));
    let dones = notes.iter().filter(|n| **n == Notification::Done).count();
    assert_eq!(dones, 1);
    assert_eq!(notes[notes.len() - 2], Notification::Tick { remaining_ms: 0 });

    // natural expiry does not reset the state fields: the query keeps
    // reporting a clamped zero until an explicit stop
    assert_eq!(s.get_remaining(1250), Some(0));
    let action = s.stop();
    assert_eq!(action, TaskAction::Cancel);
    assert_eq!(s.get_remaining(1250), None);
}
