use countdown_timer::controller::{remaining_ms_between, TaskAction, TimerState};

fn idle() -> TimerState {
    TimerState::default()
}

fn assert_idle(s: &TimerState) {
    assert!(!s.running);
    assert!(!s.paused);
    assert_eq!(s.end_instant, None);
    assert_eq!(s.paused_remaining, None);
    assert!(!s.has_task);
}

#[test]
fn default_is_idle() {
    let s = idle();
    assert_idle(&s);
    assert_eq!(s.get_remaining(0), None);
    assert_eq!(s.get_remaining(12345), None);
}

#[test]
fn start_sets_deadline_and_spawns() {
    let mut s = idle();
    let action = s.start(50, 1000);
    assert_eq!(action, TaskAction::Replace { end_instant_ms: 1050 });
    assert!(s.running);
    assert!(!s.paused);
    assert_eq!(s.end_instant, Some(1050));
    assert_eq!(s.paused_remaining, None);
    assert!(s.has_task);
}

#[test]
fn fresh_start_reports_nearly_all_of_it() {
    let mut s = idle();
    s.start(0, 1000);
    // queried immediately and just before the first tick cadence elapses
    assert_eq!(s.get_remaining(0), Some(1000));
    let r = s.get_remaining(99).unwrap();
    assert!(r <= 1000 && r > 900);
    assert_eq!(r, 901);
}

#[test]
fn start_zero_leaves_idle() {
    let mut s = idle();
    let action = s.start(500, 0);
    assert_eq!(action, TaskAction::Cancel);
    assert_idle(&s);
    assert_eq!(s.get_remaining(500), None);
}

#[test]
fn start_zero_interrupts_a_running_countdown() {
    let mut s = idle();
    s.start(0, 1000);
    let action = s.start(400, 0);
    assert_eq!(action, TaskAction::Cancel);
    assert_idle(&s);
    assert_eq!(s.get_remaining(400), None);
}

#[test]
fn restart_replaces_the_countdown() {
    let mut s = idle();
    s.start(0, 1000);
    let action = s.start(200, 5000);
    assert_eq!(action, TaskAction::Replace { end_instant_ms: 5200 });
    assert_eq!(s.end_instant, Some(5200));
    assert_eq!(s.get_remaining(200), Some(5000));
}

#[test]
fn pause_captures_remaining() {
    let mut s = idle();
    s.start(0, 1000);
    let action = s.pause(300);
    assert_eq!(action, TaskAction::Cancel);
    assert!(!s.running);
    assert!(s.paused);
    assert_eq!(s.end_instant, None);
    assert_eq!(s.paused_remaining, Some(700));
    assert!(!s.has_task);
    // a paused timer reports the captured value whenever it is asked
    assert_eq!(s.get_remaining(300), Some(700));
    assert_eq!(s.get_remaining(9999), Some(700));
}

#[test]
fn pause_past_deadline_captures_zero() {
    let mut s = idle();
    s.start(0, 100);
    let action = s.pause(250);
    assert_eq!(action, TaskAction::Cancel);
    assert_eq!(s.paused_remaining, Some(0));
    assert_eq!(s.get_remaining(250), Some(0));
}

#[test]
fn pause_when_idle_is_a_noop() {
    let mut s = idle();
    let action = s.pause(123);
    assert_eq!(action, TaskAction::Retain);
    assert_idle(&s);
}

#[test]
fn pause_when_paused_is_a_noop() {
    let mut s = idle();
    s.start(0, 1000);
    s.pause(300);
    let before = s;
    let action = s.pause(400);
    assert_eq!(action, TaskAction::Retain);
    assert_eq!(s, before);
    assert_eq!(s.paused_remaining, Some(700));
}

#[test]
fn resume_when_not_paused_is_a_noop() {
    let mut s = idle();
    let action = s.resume(10);
    assert_eq!(action, TaskAction::Retain);
    assert_idle(&s);

    s.start(0, 1000);
    let before = s;
    let action = s.resume(100);
    assert_eq!(action, TaskAction::Retain);
    assert_eq!(s, before);
}

#[test]
fn resume_continues_from_captured_remaining() {
    let mut s = idle();
    s.start(0, 1000);
    s.pause(300);
    let action = s.resume(500);
    assert_eq!(action, TaskAction::Replace { end_instant_ms: 1200 });
    assert!(s.running);
    assert!(!s.paused);
    assert_eq!(s.end_instant, Some(1200));
    assert_eq!(s.paused_remaining, None);
    assert!(s.has_task);
    assert_eq!(s.get_remaining(500), Some(700));
}

#[test]
fn resume_with_nothing_left_goes_idle() {
    let mut s = idle();
    s.start(0, 100);
    s.pause(100);
    assert_eq!(s.paused_remaining, Some(0));
    let action = s.resume(400);
    assert_eq!(action, TaskAction::Retain);
    assert_idle(&s);
    assert_eq!(s.get_remaining(400), None);
}

#[test]
fn stop_resets_everything() {
    let mut s = idle();
    s.start(0, 1000);
    let action = s.stop();
    assert_eq!(action, TaskAction::Cancel);
    assert_idle(&s);
    assert_eq!(s.get_remaining(100), None);
}

#[test]
fn stop_is_idempotent() {
    let mut s = idle();
    let first = s.stop();
    assert_eq!(first, TaskAction::Cancel);
    assert_idle(&s);
    let second = s.stop();
    assert_eq!(second, TaskAction::Cancel);
    assert_idle(&s);
}

#[test]
fn stop_while_paused_discards_the_remainder() {
    let mut s = idle();
    s.start(0, 1000);
    s.pause(250);
    s.stop();
    assert_idle(&s);
    assert_eq!(s.get_remaining(250), None);
}

#[test]
fn remaining_clamps_to_zero_past_the_deadline() {
    let mut s = idle();
    s.start(0, 100);
    // after natural expiry the fields are not reset until stop or start:
    // the query keeps reporting a clamped zero
    assert_eq!(s.get_remaining(100), Some(0));
    assert_eq!(s.get_remaining(25000), Some(0));
    assert!(s.running);
    s.stop();
    assert_eq!(s.get_remaining(25000), None);
}

#[test]
fn remaining_ms_between_clamps() {
    assert_eq!(remaining_ms_between(1000, 0), 1000);
    assert_eq!(remaining_ms_between(1000, 999), 1);
    assert_eq!(remaining_ms_between(1000, 1000), 0);
    assert_eq!(remaining_ms_between(1000, 5000), 0);
    assert_eq!(remaining_ms_between(u64::MAX, 0), u64::MAX);
}
