use asset_forge::watch::{LoopAction, LoopInput};
use asset_forge::{EventKind, EventPath, WatchEvent, WatchSession};

fn event(kind: EventKind, paths: &[(&str, bool)]) -> WatchEvent {
    WatchEvent {
        kind,
        paths: paths.iter().map(|(p, f)| EventPath { path: p.to_string(), is_file: *f }).collect(),
    }
}

#[test]
fn create_event_yields_mirrored_jobs() {
    let mut s = WatchSession::new("assets".to_string(), "out".to_string(), 300, 0);
    let jobs = s.handle_event(
        &event(EventKind::Create, &[("assets/a.png", true), ("assets/dir", false), ("assets/x.txt", true)]),
        1000,
    );
    assert_eq!(jobs.len(), 1);
    assert_eq!(jobs[0].input, "assets/a.png");
    assert_eq!(jobs[0].output, "out/a.png");
    assert_eq!(s.stats.skipped, 0);
}

#[test]
fn other_events_are_ignored() {
    let mut s = WatchSession::new("assets".to_string(), "out".to_string(), 300, 0);
    let jobs = s.handle_event(&event(EventKind::Other, &[("assets/a.png", true)]), 1000);
    assert!(jobs.is_empty());
    assert_eq!(s.debouncer.last_events.len(), 0);
}

#[test]
fn duplicate_notifications_are_debounced() {
    let mut s = WatchSession::new("assets".to_string(), "out".to_string(), 300, 0);
    assert_eq!(s.handle_event(&event(EventKind::Modify, &[("assets/a.png", true)]), 1000).len(), 1);
    assert_eq!(s.handle_event(&event(EventKind::Modify, &[("assets/a.png", true)]), 1100).len(), 0);
    assert_eq!(s.stats.skipped, 1);
    assert_eq!(s.handle_event(&event(EventKind::Modify, &[("assets/a.png", true)]), 1400).len(), 1);
}

#[test]
fn outcomes_are_counted() {
    let mut s = WatchSession::new("assets".to_string(), "out".to_string(), 300, 7);
    s.record_outcome(true);
    s.record_outcome(false);
    s.record_outcome(true);
    assert_eq!(s.stats.processed, 2);
    assert_eq!(s.stats.errors, 1);
    assert_eq!(s.stats.start_ms, 7);
}

#[test]
fn idle_polls_sweep_the_debouncer() {
    let mut s = WatchSession::new("assets".to_string(), "out".to_string(), 300, 0);
    s.handle_event(&event(EventKind::Create, &[("assets/a.png", true)]), 0);
    for _ in 0..119 {
        s.on_idle(100_000);
    }
    assert_eq!(s.idle_polls, 119);
    assert_eq!(s.debouncer.last_events.len(), 1);
    s.on_idle(100_000);
    assert_eq!(s.idle_polls, 0);
    assert_eq!(s.debouncer.last_events.len(), 0);
}

#[test]
fn loop_steps() {
    let mut s = WatchSession::new("assets".to_string(), "out".to_string(), 300, 0);
    match s.step(LoopInput::Notified(event(EventKind::Create, &[("assets/a.png", true)])), 10) {
        LoopAction::Process(jobs) => assert_eq!(jobs.len(), 1),
        _ => panic!("expected jobs"),
    }
    assert!(matches!(s.step(LoopInput::SourceError, 20), LoopAction::ReportAndContinue));
    assert!(matches!(s.step(LoopInput::Idle, 30), LoopAction::Continue));
    assert_eq!(s.idle_polls, 1);
    assert!(matches!(s.step(LoopInput::Disconnected, 40), LoopAction::Stop));
}
