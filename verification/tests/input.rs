use frost::input::{handle_event, handle_key, key_to_bytes, Action, Event, Focus, KeyCode, KeyEvent, Overlay};
use frost::pane::KeyModifiers;

fn key(code: KeyCode) -> KeyEvent {
    KeyEvent { code, modifiers: KeyModifiers::none() }
}

fn ctrl(code: KeyCode) -> KeyEvent {
    KeyEvent { code, modifiers: KeyModifiers::control_only() }
}

#[test]
fn sidebar_keys() {
    assert!(matches!(handle_key(key(KeyCode::Char('q')), None, Focus::Sidebar), Some(Action::Quit)));
    assert!(matches!(handle_key(ctrl(KeyCode::Char('c')), None, Focus::Sidebar), Some(Action::Quit)));
    assert!(matches!(handle_key(key(KeyCode::Char('j')), None, Focus::Sidebar), Some(Action::Down)));
    assert!(matches!(handle_key(key(KeyCode::Up), None, Focus::Sidebar), Some(Action::Up)));
    assert!(matches!(handle_key(key(KeyCode::Enter), None, Focus::Sidebar), Some(Action::Toggle)));
    assert!(matches!(handle_key(key(KeyCode::Char(' ')), None, Focus::Sidebar), Some(Action::Toggle)));
    assert!(matches!(handle_key(key(KeyCode::PageUp), None, Focus::Sidebar), Some(Action::ScrollUp)));
    assert!(matches!(handle_key(key(KeyCode::End), None, Focus::Sidebar), Some(Action::ScrollBottom)));
    assert!(matches!(handle_key(key(KeyCode::Tab), None, Focus::Sidebar), Some(Action::ToggleFocus)));
    assert!(matches!(handle_key(ctrl(KeyCode::Char('p')), None, Focus::Sidebar), Some(Action::OpenPalette)));
    assert!(matches!(handle_key(key(KeyCode::Char('/')), None, Focus::Sidebar), Some(Action::OpenSearch)));
    assert!(handle_key(key(KeyCode::Char('x')), None, Focus::Sidebar).is_none());
}

#[test]
fn log_viewer_forwards_keys() {
    match handle_key(ctrl(KeyCode::Char('c')), None, Focus::LogViewer) {
        Some(Action::WriteInput(b)) => assert_eq!(b, vec![0x03]),
        _ => panic!("expected the interrupt byte"),
    }
    assert!(matches!(handle_key(ctrl(KeyCode::Char('q')), None, Focus::LogViewer), Some(Action::Quit)));
    assert!(matches!(handle_key(ctrl(KeyCode::Char('c')), None, Focus::Sidebar), Some(Action::Quit)));
    assert!(matches!(handle_key(key(KeyCode::Esc), None, Focus::LogViewer), Some(Action::ToggleFocus)));
    match handle_key(key(KeyCode::Char('a')), None, Focus::LogViewer) {
        Some(Action::WriteInput(b)) => assert_eq!(b, b"a".to_vec()),
        _ => panic!("expected input"),
    }
    match handle_key(ctrl(KeyCode::Char('d')), None, Focus::LogViewer) {
        Some(Action::WriteInput(b)) => assert_eq!(b, vec![0x04]),
        _ => panic!("expected input"),
    }
}

#[test]
fn overlay_keys() {
    let o = Some(Overlay::Search);
    assert!(matches!(handle_key(key(KeyCode::Esc), o, Focus::Sidebar), Some(Action::CloseOverlay)));
    assert!(matches!(handle_key(key(KeyCode::Enter), o, Focus::Sidebar), Some(Action::Confirm)));
    assert!(matches!(handle_key(key(KeyCode::Char('k')), o, Focus::Sidebar), Some(Action::Up)));
    assert!(matches!(handle_key(key(KeyCode::PageDown), o, Focus::Sidebar), Some(Action::Down)));
    assert!(matches!(handle_key(key(KeyCode::Backspace), o, Focus::Sidebar), Some(Action::FilterBackspace)));
    assert!(matches!(handle_key(ctrl(KeyCode::Char('u')), o, Focus::Sidebar), Some(Action::FilterClear)));
    let shift_a = KeyEvent { code: KeyCode::Char('A'), modifiers: KeyModifiers::shift_only() };
    assert!(matches!(handle_key(shift_a, o, Focus::Sidebar), Some(Action::FilterChar('A'))));
    assert!(handle_key(ctrl(KeyCode::Char('x')), o, Focus::Sidebar).is_none());
}

#[test]
fn key_bytes() {
    assert_eq!(key_to_bytes(key(KeyCode::Enter)).unwrap(), vec![b'\r']);
    assert_eq!(key_to_bytes(key(KeyCode::Backspace)).unwrap(), vec![0x7F]);
    assert_eq!(key_to_bytes(key(KeyCode::Up)).unwrap(), b"\x1B[A".to_vec());
    assert_eq!(key_to_bytes(key(KeyCode::F(1))).unwrap(), b"\x1BOP".to_vec());
    assert_eq!(key_to_bytes(key(KeyCode::F(5))).unwrap(), b"\x1B[12~".to_vec());
    assert_eq!(key_to_bytes(key(KeyCode::F(12))).unwrap(), b"\x1B[19~".to_vec());
    assert!(key_to_bytes(key(KeyCode::F(13))).is_none());
    assert_eq!(key_to_bytes(key(KeyCode::Delete)).unwrap(), b"\x1B[3~".to_vec());
    assert_eq!(key_to_bytes(key(KeyCode::Char('é'))).unwrap(), "é".as_bytes().to_vec());
    let alt_x = KeyEvent { code: KeyCode::Char('x'), modifiers: KeyModifiers { alt: true, ..KeyModifiers::none() } };
    assert_eq!(key_to_bytes(alt_x).unwrap(), vec![0x1B, b'x']);
    assert!(key_to_bytes(key(KeyCode::Other)).is_none());
}

#[test]
fn events_map_to_actions() {
    assert!(matches!(handle_event(Event::Resize(80, 24), None, Focus::Sidebar), Some(Action::Resize { width: 80, height: 24 })));
    assert!(handle_event(Event::Other, None, Focus::Sidebar).is_none());
    assert!(matches!(handle_event(Event::Key(key(KeyCode::Char('q'))), None, Focus::Sidebar), Some(Action::Quit)));
}
