use mailpane::keymap::{Event, Key, KeyEvent, KeyMode, Keybind, Keymap, Modifiers};

#[test]
fn default_keymap_starts_in_motion() {
    let keymap = Keymap::default_keymap();
    assert_eq!(keymap.mode, KeyMode::Motion);
    assert_eq!(keymap.prev_mode, KeyMode::Motion);
}

#[test]
fn motion_keys_resolve_to_their_events() {
    let keymap = Keymap::default_keymap();
    let none = Modifiers::none();
    assert_eq!(keymap.on_key(KeyEvent::new(Key::Char('j'), none)), vec![Event::SelectNextMsg]);
    assert_eq!(keymap.on_key(KeyEvent::new(Key::Char('k'), none)), vec![Event::SelectPrevMsg]);
    assert_eq!(keymap.on_key(KeyEvent::new(Key::Esc, none)), vec![Event::ExitApp]);
    assert_eq!(
        keymap.on_key(KeyEvent::new(Key::Char(':'), none)),
        vec![Event::SwitchMode(KeyMode::Insert)]
    );
    assert_eq!(keymap.on_key(KeyEvent::new(Key::Char('q'), none)), vec![Event::CancelFilter]);
    assert_eq!(keymap.on_key(KeyEvent::new(Key::Enter, none)), vec![Event::ReviewMsg]);
}

#[test]
fn unbound_key_resolves_to_nothing() {
    let keymap = Keymap::default_keymap();
    assert_eq!(keymap.on_key(KeyEvent::new(Key::Char('x'), Modifiers::none())), vec![]);
    assert_eq!(keymap.on_key(KeyEvent::new(Key::F(1), Modifiers::none())), vec![]);
}

#[test]
fn modifiers_must_match_exactly() {
    let keymap = Keymap::default_keymap();
    assert_eq!(keymap.on_key(KeyEvent::new(Key::Char('j'), Modifiers::control())), vec![]);
    let shift = Modifiers { shift: true, control: false, alt: false };
    assert_eq!(keymap.on_key(KeyEvent::new(Key::Enter, shift)), vec![]);
}

#[test]
fn insert_mode_adds_the_typed_character() {
    let mut keymap = Keymap::default_keymap();
    keymap.switch_to(KeyMode::Insert);
    let none = Modifiers::none();
    assert_eq!(keymap.on_key(KeyEvent::new(Key::Char('x'), none)), vec![Event::RawInput('x')]);
    assert_eq!(keymap.on_key(KeyEvent::new(Key::Char(' '), none)), vec![Event::RawInput(' ')]);
    assert_eq!(keymap.on_key(KeyEvent::new(Key::Enter, none)), vec![Event::Submit]);
    assert_eq!(keymap.on_key(KeyEvent::new(Key::Esc, none)), vec![Event::Quit]);
    assert_eq!(keymap.on_key(KeyEvent::new(Key::Backspace, none)), vec![Event::Backspace]);
    assert_eq!(keymap.on_key(KeyEvent::new(Key::Tab, none)), vec![]);
}

#[test]
fn insert_mode_bound_character_gives_both_events() {
    let mut keymap = Keymap::default_keymap();
    keymap.switch_to(KeyMode::Insert);
    assert_eq!(
        keymap.on_key(KeyEvent::new(Key::Char('d'), Modifiers::control())),
        vec![Event::Quit, Event::RawInput('d')]
    );
}

#[test]
fn review_keys_resolve_to_their_events() {
    let mut keymap = Keymap::default_keymap();
    keymap.switch_to(KeyMode::Review);
    let none = Modifiers::none();
    assert_eq!(keymap.on_key(KeyEvent::new(Key::Char('q'), none)), vec![Event::Quit]);
    assert_eq!(keymap.on_key(KeyEvent::new(Key::Char('j'), none)), vec![Event::ScrollDown]);
    assert_eq!(keymap.on_key(KeyEvent::new(Key::Char('k'), none)), vec![Event::ScrollUp]);
    assert_eq!(keymap.on_key(KeyEvent::new(Key::Char('f'), none)), vec![Event::ShowLinks]);
    assert_eq!(keymap.on_key(KeyEvent::new(Key::Char('s'), none)), vec![Event::ShowStats]);
    assert_eq!(keymap.on_key(KeyEvent::new(Key::Char('x'), none)), vec![]);
}

#[test]
fn match_key_needs_key_and_modifiers() {
    let bind = Keybind(Key::Char('d'), Modifiers::control(), Event::Quit);
    assert_eq!(bind.match_key(Key::Char('d'), Modifiers::control()), Some(Event::Quit));
    assert_eq!(bind.match_key(Key::Char('d'), Modifiers::none()), None);
    assert_eq!(bind.match_key(Key::Char('e'), Modifiers::control()), None);
}

#[test]
fn switch_to_then_back_restores_every_mode() {
    for prior in [KeyMode::Motion, KeyMode::Insert, KeyMode::Review] {
        let mut keymap = Keymap::default_keymap();
        keymap.switch_to(prior);
        keymap.switch_to(KeyMode::Insert);
        assert_eq!(keymap.mode, KeyMode::Insert);
        assert_eq!(keymap.prev_mode, prior);
        keymap.switch_back();
        assert_eq!(keymap.mode, prior);
    }
}

#[test]
fn switch_back_toggles_between_two_modes() {
    let mut keymap = Keymap::default_keymap();
    keymap.switch_to(KeyMode::Review);
    keymap.switch_to(KeyMode::Insert);
    keymap.switch_back();
    assert_eq!((keymap.mode, keymap.prev_mode), (KeyMode::Review, KeyMode::Insert));
    keymap.switch_back();
    assert_eq!((keymap.mode, keymap.prev_mode), (KeyMode::Insert, KeyMode::Review));
    keymap.switch_back();
    assert_eq!((keymap.mode, keymap.prev_mode), (KeyMode::Review, KeyMode::Insert));
}

#[test]
fn mode_labels() {
    assert_eq!(KeyMode::Insert.label(), "INSERT");
    assert_eq!(KeyMode::Motion.label(), "MOTION");
    assert_eq!(KeyMode::Review.label(), "REVIEW");
}
