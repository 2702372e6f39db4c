use frost::listener::{FrostListener, TermEvent, TerminalState};

#[test]
fn title_event_is_captured() {
    let listener = FrostListener::dummy();
    let state = listener.state();
    listener.send_event(TermEvent::Title("hello".into()));
    let s = state.lock().unwrap();
    assert_eq!(s.title.as_deref(), Some("hello"));
}

#[test]
fn reset_title_clears_title() {
    let listener = FrostListener::dummy();
    let state = listener.state();
    listener.send_event(TermEvent::Title("hello".into()));
    listener.send_event(TermEvent::ResetTitle);
    let s = state.lock().unwrap();
    assert!(s.title.is_none());
}

#[test]
fn bell_event_records_timestamp() {
    let listener = FrostListener::dummy();
    let state = listener.state();
    assert!(state.lock().unwrap().bell_at.is_none());
    listener.send_event(TermEvent::Bell);
    assert!(state.lock().unwrap().bell_at.is_some());
}

#[test]
fn ignored_events_do_not_panic() {
    let listener = FrostListener::dummy();
    listener.send_event(TermEvent::Other);
    listener.send_event(TermEvent::Other);
    let state = listener.state();
    let s = state.lock().unwrap();
    assert!(s.title.is_none());
    assert!(s.bell_at.is_none());
}

#[test]
fn listeners_share_one_state() {
    let shared = FrostListener::dummy().state();
    let a = FrostListener::new(shared.clone());
    let b = FrostListener::new(shared.clone());
    a.send_event(TermEvent::Title("from a".into()));
    assert_eq!(b.state().lock().unwrap().title.as_deref(), Some("from a"));
}

#[test]
fn apply_keeps_title_across_bell() {
    let mut s = TerminalState::new();
    let now = std::time::Instant::now();
    s.apply(TermEvent::Title("t".into()), now);
    s.apply(TermEvent::Bell, now);
    assert_eq!(s.title.as_deref(), Some("t"));
    assert_eq!(s.bell_at, Some(now));
    s.apply(TermEvent::ResetTitle, now);
    assert!(s.title.is_none());
    assert_eq!(s.bell_at, Some(now));
}
