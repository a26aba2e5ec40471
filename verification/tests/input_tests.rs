use gitui::input_config::{InputAction, InputConfig, KeyCode, KeyEvent, KeyEventKind, KeyModifiers, Shortcut};

fn press(code: KeyCode) -> KeyEvent {
    KeyEvent { code, modifiers: KeyModifiers::none(), kind: KeyEventKind::Press }
}

#[test]
fn default_bindings_map_keys_to_actions() {
    let config = InputConfig::default();
    let cases = [
        (KeyCode::Char('k'), InputAction::Up),
        (KeyCode::Up, InputAction::Up),
        (KeyCode::Char('j'), InputAction::Down),
        (KeyCode::Down, InputAction::Down),
        (KeyCode::Char('h'), InputAction::Left),
        (KeyCode::Left, InputAction::Left),
        (KeyCode::Char('l'), InputAction::Right),
        (KeyCode::Right, InputAction::Right),
        (KeyCode::Enter, InputAction::Select),
        (KeyCode::Esc, InputAction::Back),
        (KeyCode::Char('q'), InputAction::Quit),
    ];
    for (code, action) in cases {
        assert_eq!(config.action_for(press(code)), Some(action), "{code:?}");
    }
}

#[test]
fn unbound_keys_give_no_action() {
    let config = InputConfig::default();
    assert_eq!(config.action_for(press(KeyCode::Char('x'))), None);
    assert_eq!(config.action_for(press(KeyCode::Tab)), None);
    assert_eq!(config.action_for(press(KeyCode::F(1))), None);
    let ctrl_k = KeyEvent { code: KeyCode::Char('k'), modifiers: KeyModifiers { bits: 2 }, kind: KeyEventKind::Press };
    assert_eq!(config.action_for(ctrl_k), None);
    let upper_q = press(KeyCode::Char('Q'));
    assert_eq!(config.action_for(upper_q), None);
}

#[test]
fn shortcuts_match_key_and_modifiers() {
    let s = Shortcut::char('a');
    assert_eq!(s, Shortcut { code: KeyCode::Char('a'), modifiers: KeyModifiers { bits: 0 } });
    assert!(s.matches(press(KeyCode::Char('a'))));
    assert!(!s.matches(press(KeyCode::Char('b'))));
    let shifted = KeyEvent { code: KeyCode::Char('a'), modifiers: KeyModifiers { bits: 1 }, kind: KeyEventKind::Press };
    assert!(!s.matches(shifted));
    let alt_up = Shortcut::new(KeyCode::Up, KeyModifiers { bits: 4 });
    assert!(alt_up.matches(KeyEvent { code: KeyCode::Up, modifiers: KeyModifiers { bits: 4 }, kind: KeyEventKind::Release }));
}
