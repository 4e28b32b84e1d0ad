use hotkey_engine::watcher::{watcher_step, WatcherControl};

#[test]
fn start_spawns_only_once() {
    let mut w = WatcherControl::new();
    assert!(w.start(), "the first start must spawn the task");
    assert!(!w.start(), "starting a running watcher is a no-op");
    assert!(!w.start());
}

#[test]
fn stop_joins_only_a_running_task() {
    let mut w = WatcherControl::new();
    assert!(!w.stop(), "nothing to join before the first start");
    w.start();
    assert!(w.stop(), "stopping a running watcher joins the task");
    assert!(!w.stop(), "stopping twice has nothing left to join");
}

#[test]
fn new_text_is_observed_and_emitted() {
    let (go, last, emit) = watcher_step(true, None, Some("  hello  "));
    assert!(go);
    assert_eq!(last.as_deref(), Some("hello"));
    assert_eq!(emit.as_deref(), Some("hello"));
}

#[test]
fn unchanged_text_is_debounced() {
    let (go, last, emit) = watcher_step(true, Some("hello".to_string()), Some("hello"));
    assert!(go);
    assert_eq!(last.as_deref(), Some("hello"));
    assert!(emit.is_none());
}

#[test]
fn changed_text_replaces_the_last_observation() {
    let (_, last, emit) = watcher_step(true, Some("old".to_string()), Some("new"));
    assert_eq!(last.as_deref(), Some("new"));
    assert_eq!(emit.as_deref(), Some("new"));
}

#[test]
fn blank_or_unreadable_clipboard_is_no_observation() {
    let (go, last, emit) = watcher_step(true, Some("kept".to_string()), Some("   "));
    assert!(go);
    assert_eq!(last.as_deref(), Some("kept"));
    assert!(emit.is_none());

    let (_, last2, emit2) = watcher_step(true, Some("kept".to_string()), None);
    assert_eq!(last2.as_deref(), Some("kept"));
    assert!(emit2.is_none());
}

#[test]
fn no_notification_after_stop() {
    let mut w = WatcherControl::new();
    w.start();
    assert!(w.stop());
    // Even with fresh clipboard content queued up — as a fake clock firing
    // one more poll would present it — an iteration that observes the
    // stopped flag emits nothing and ceases.
    let (go, last, emit) = watcher_step(false, Some("old".to_string()), Some("fresh content"));
    assert!(!go);
    assert_eq!(last.as_deref(), Some("old"));
    assert!(emit.is_none());
}
