use baofzf::finder::{finder_outcome, key_action, FinderOutcome, KeyAction, KeyCode, KeyPress, CONTROL};

#[test]
fn finder_outcomes() {
    assert!(matches!(finder_outcome(true, Some("p/x".to_string())), FinderOutcome::Aborted));
    assert!(matches!(finder_outcome(false, None), FinderOutcome::NothingSelected));
    assert!(matches!(
        finder_outcome(false, Some("p/x".to_string())),
        FinderOutcome::Selected(s) if s == "p/x"
    ));
}

#[test]
fn keys() {
    let press = |code, modifiers| KeyPress { code, modifiers };
    assert_eq!(key_action(press(KeyCode::Enter, 0)), KeyAction::Show);
    assert_eq!(key_action(press(KeyCode::Enter, CONTROL)), KeyAction::Show);
    assert_eq!(key_action(press(KeyCode::Char('e'), CONTROL)), KeyAction::EditThenShow);
    assert_eq!(key_action(press(KeyCode::Char('e'), 0)), KeyAction::Ignore);
    assert_eq!(key_action(press(KeyCode::Char('e'), CONTROL | 1)), KeyAction::Ignore);
    assert_eq!(key_action(press(KeyCode::Char('E'), CONTROL)), KeyAction::Ignore);
    assert_eq!(key_action(press(KeyCode::Other, CONTROL)), KeyAction::Ignore);
}
