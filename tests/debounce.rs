use asset_forge::Debouncer;

#[test]
fn second_call_in_window_is_suppressed() {
    let mut d = Debouncer::new(300);
    let p = "assets/a.png".to_string();
    assert!(d.should_process(&p, 1000));
    assert!(!d.should_process(&p, 1100));
    assert!(d.should_process(&p, 1400));
}

#[test]
fn suppressed_call_does_not_reset_the_window() {
    let mut d = Debouncer::new(300);
    let p = "a.png".to_string();
    assert!(d.should_process(&p, 1000));
    assert!(!d.should_process(&p, 1299));
    assert_eq!(*d.last_events.get(&p).unwrap(), 1000);
    assert!(d.should_process(&p, 1301));
    assert_eq!(*d.last_events.get(&p).unwrap(), 1301);
}

#[test]
fn window_boundary_is_still_suppressed() {
    let mut d = Debouncer::new(300);
    let p = "a.png".to_string();
    assert!(d.should_process(&p, 1000));
    assert!(!d.should_process(&p, 1300));
}

#[test]
fn paths_are_debounced_separately() {
    let mut d = Debouncer::new(300);
    assert!(d.should_process(&"a.png".to_string(), 1000));
    assert!(d.should_process(&"b.png".to_string(), 1001));
    assert!(!d.should_process(&"a.png".to_string(), 1002));
}

#[test]
fn zero_window_accepts_any_later_call() {
    let mut d = Debouncer::new(0);
    let p = "a.png".to_string();
    assert!(d.should_process(&p, 5));
    assert!(!d.should_process(&p, 5));
    assert!(d.should_process(&p, 6));
}

#[test]
fn cleanup_forgets_old_entries_only() {
    let mut d = Debouncer::new(300);
    assert!(d.should_process(&"old.png".to_string(), 0));
    assert!(d.should_process(&"edge.png".to_string(), 10_000));
    assert!(d.should_process(&"new.png".to_string(), 60_000));
    d.cleanup(70_000);
    assert!(!d.last_events.contains_key(&"old.png".to_string()));
    assert!(d.last_events.contains_key(&"edge.png".to_string()));
    assert!(d.last_events.contains_key(&"new.png".to_string()));
    assert_eq!(d.last_events.len(), 2);
}
