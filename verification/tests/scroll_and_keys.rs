use live_panel::keys::{classify, Key, KeyAction};
use live_panel::scroll::ScrollState;

#[test]
fn up_from_zero_stays_zero() {
    let mut s = ScrollState::new();
    assert_eq!(s.offset, 0);
    for _ in 0..50 {
        let changed = s.scroll_up();
        assert!(!changed);
        assert_eq!(s.offset, 0);
    }
}

#[test]
fn down_then_up_round_trip() {
    let mut s = ScrollState::new();
    assert!(s.scroll_down());
    assert_eq!(s.offset, 1);
    assert!(s.scroll_down());
    assert_eq!(s.offset, 2);
    assert!(s.scroll_up());
    assert!(s.scroll_up());
    assert_eq!(s.offset, 0);
    assert!(!s.scroll_up());
    assert_eq!(s.offset, 0);
}

#[test]
fn down_saturates_at_machine_limit() {
    let mut s = ScrollState { offset: usize::MAX };
    let changed = s.scroll_down();
    assert!(!changed);
    assert_eq!(s.offset, usize::MAX);
}

#[test]
fn quit_keys_classify_as_quit() {
    assert_eq!(classify(Key::Esc), KeyAction::Quit);
    assert_eq!(classify(Key::Char('q')), KeyAction::Quit);
}

#[test]
fn scroll_keys_classify() {
    assert_eq!(classify(Key::Up), KeyAction::ScrollUp);
    assert_eq!(classify(Key::Char('k')), KeyAction::ScrollUp);
    assert_eq!(classify(Key::Down), KeyAction::ScrollDown);
    assert_eq!(classify(Key::Char('j')), KeyAction::ScrollDown);
}

#[test]
fn other_keys_are_ignored() {
    assert_eq!(classify(Key::Char('x')), KeyAction::Ignore);
    assert_eq!(classify(Key::Char('Q')), KeyAction::Ignore);
    assert_eq!(classify(Key::Other), KeyAction::Ignore);
}
