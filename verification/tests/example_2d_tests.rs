use termgfx::example_2d::{key_action, Action, Key};

#[test]
fn letter_keys_move_the_point() {
    assert_eq!(key_action(Key::Char('w')), Action::MovePoint { dx: 0, dy: 1 });
    assert_eq!(key_action(Key::Char('s')), Action::MovePoint { dx: 0, dy: -1 });
    assert_eq!(key_action(Key::Char('a')), Action::MovePoint { dx: -1, dy: 0 });
    assert_eq!(key_action(Key::Char('d')), Action::MovePoint { dx: 1, dy: 0 });
}

#[test]
fn arrow_keys_move_the_window() {
    assert_eq!(key_action(Key::Up), Action::MoveWindow { dx: 0, dy: 1 });
    assert_eq!(key_action(Key::Down), Action::MoveWindow { dx: 0, dy: -1 });
    assert_eq!(key_action(Key::Left), Action::MoveWindow { dx: -1, dy: 0 });
    assert_eq!(key_action(Key::Right), Action::MoveWindow { dx: 1, dy: 0 });
}

#[test]
fn q_quits_and_other_keys_are_ignored() {
    assert_eq!(key_action(Key::Char('q')), Action::Quit);
    assert_eq!(key_action(Key::Char('W')), Action::Ignore);
    assert_eq!(key_action(Key::Char('x')), Action::Ignore);
    assert_eq!(key_action(Key::Other), Action::Ignore);
}
