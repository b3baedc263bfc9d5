use eve_reporting::event::{Event, EventKind};
use eve_reporting::gateway::WarnDebounce;
use eve_reporting::sinks::{notification_content, PlaybackGuard, RelayAction, RelayPolicy};
use eve_reporting::wire::snapshot_json;

fn warn(t: &str) -> Event {
    Event::Warn { title: t.to_string() }
}

fn reminder(t: &str) -> Event {
    Event::Reminder { title: t.to_string() }
}

#[test]
fn wire_form_is_tagged_json() {
    assert_eq!(warn("EVE - A").to_json(), "{\"type\":\"Warn\",\"title\":\"EVE - A\"}");
    assert_eq!(reminder("B").to_json(), "{\"type\":\"Reminder\",\"title\":\"B\"}");
}

#[test]
fn wire_form_escapes_the_title() {
    assert_eq!(warn("a\"b\\c").to_json(), "{\"type\":\"Warn\",\"title\":\"a\\\"b\\\\c\"}");
}

#[test]
fn snapshot_lists_titles() {
    assert_eq!(snapshot_json(&Vec::new()), "[]");
    assert_eq!(snapshot_json(&vec!["A".to_string()]), "[\"A\"]");
    assert_eq!(
        snapshot_json(&vec!["EVE - 1".to_string(), "x\"y".to_string()]),
        "[\"EVE - 1\",\"x\\\"y\"]"
    );
}

#[test]
fn warns_within_the_window_are_sent_once() {
    let mut d = WarnDebounce::new(5000);
    assert_eq!(d.on_event(1000, &warn("A")), Some("Warn A".to_string()));
    assert_eq!(d.on_event(3000, &warn("A")), None);
    assert_eq!(d.on_event(6000, &warn("A")), Some("Warn A".to_string()));
    assert_eq!(d.on_event(10999, &warn("A")), None);
    assert_eq!(d.on_event(11000, &warn("B")), Some("Warn B".to_string()));
}

#[test]
fn reminders_are_never_debounced() {
    let mut d = WarnDebounce::new(5000);
    assert!(d.on_event(0, &warn("A")).is_some());
    assert_eq!(d.on_event(1, &reminder("A")), Some("Reminder A".to_string()));
    assert_eq!(d.on_event(2, &reminder("A")), Some("Reminder A".to_string()));
    assert_eq!(d.suppressed_until, Some(5000));
}

#[test]
fn debounce_window_saturates() {
    let mut d = WarnDebounce::new(u64::MAX);
    assert!(d.on_event(7, &warn("A")).is_some());
    assert_eq!(d.suppressed_until, Some(u64::MAX));
    assert!(d.on_event(u64::MAX - 1, &warn("A")).is_none());
}

#[test]
fn playback_guards_are_per_kind() {
    let mut g = PlaybackGuard::new();
    assert!(g.try_begin(EventKind::Warn));
    assert!(!g.try_begin(EventKind::Warn));
    assert!(g.try_begin(EventKind::Reminder));
    g.finish(EventKind::Warn);
    assert!(!g.warn_playing);
    assert!(g.reminder_playing);
    assert!(g.try_begin(EventKind::Warn));
}

#[test]
fn popup_has_kind_and_title() {
    assert_eq!(notification_content(&warn("A")), ("Warn".to_string(), "A".to_string()));
    assert_eq!(notification_content(&reminder("B")), ("Reminder".to_string(), "B".to_string()));
}

#[test]
fn relay_retries_only_when_asked() {
    let forever = RelayPolicy { try_forever: true, try_spacing: 5000 };
    assert_eq!(forever.after_failure(), RelayAction::Reconnect { after_ms: 5000 });
    let once = RelayPolicy { try_forever: false, try_spacing: 5000 };
    assert_eq!(once.after_failure(), RelayAction::GiveUp);
}

#[test]
fn event_accessors() {
    let e = warn("A");
    assert_eq!(e.kind(), EventKind::Warn);
    assert_eq!(e.title(), "A");
    assert_eq!(reminder("B").kind(), EventKind::Reminder);
}
