//! What the keys do in the interactive 2D example.
use vstd::prelude::*;

verus! {

/// A key press, as far as the example tells keys apart.
#[derive(PartialEq, Eq, Structural, Debug, Clone, Copy)]
pub enum Key {
    Char(char),
    Up,
    Down,
    Left,
    Right,
    Other,
}

/// What the example does in answer to a key press. Moves are by one
/// unit along one axis; `dx` and `dy` are -1, 0 or 1.
#[derive(PartialEq, Eq, Structural, Debug, Clone, Copy)]
pub enum Action {
    MovePoint { dx: i8, dy: i8 },
    MoveWindow { dx: i8, dy: i8 },
    Quit,
    Ignore,
}

/// The example's key map: `w`/`s`/`a`/`d` move the point up, down,
/// left and right; the arrow keys move the window; `q` quits; any other
/// key is ignored.
pub open spec fn key_action_spec(key: Key) -> Action {
    match key {
        Key::Char('w') => Action::MovePoint { dx: 0, dy: 1 },
        Key::Char('s') => Action::MovePoint { dx: 0, dy: -1i8 },
        Key::Char('a') => Action::MovePoint { dx: -1i8, dy: 0 },
        Key::Char('d') => Action::MovePoint { dx: 1, dy: 0 },
        Key::Up => Action::MoveWindow { dx: 0, dy: 1 },
        Key::Down => Action::MoveWindow { dx: 0, dy: -1i8 },
        Key::Left => Action::MoveWindow { dx: -1i8, dy: 0 },
        Key::Right => Action::MoveWindow { dx: 1, dy: 0 },
        Key::Char('q') => Action::Quit,
        _ => Action::Ignore,
    }
}

/// Whether a key has a meaning in the example: `w`, `s`, `a`, `d`, `q`
/// or one of the four arrows.
pub open spec fn is_mapped_key(key: Key) -> bool {
    ||| key == Key::Char('w')
    ||| key == Key::Char('s')
    ||| key == Key::Char('a')
    ||| key == Key::Char('d')
    ||| key == Key::Char('q')
    ||| key == Key::Up
    ||| key == Key::Down
    ||| key == Key::Left
    ||| key == Key::Right
}

/// Only `q` quits; the letters `w`, `s`, `a`, `d` and only they move the
/// point; the arrows and only they move the window; every other key is
/// ignored.
pub proof fn law_key_map(key: Key)
    ensures
        (key_action_spec(key) == Action::Quit) <==> key == Key::Char('q'),
        (key_action_spec(key) == Action::Ignore) <==> !is_mapped_key(key),
        (key_action_spec(key) is MovePoint) <==> (key == Key::Char('w') || key == Key::Char('s')
            || key == Key::Char('a') || key == Key::Char('d')),
        (key_action_spec(key) is MoveWindow) <==> (key == Key::Up || key == Key::Down || key
            == Key::Left || key == Key::Right),
        key == Key::Char('w') ==> key_action_spec(key) == (Action::MovePoint { dx: 0, dy: 1 }),
        key == Key::Char('s') ==> key_action_spec(key) == (Action::MovePoint { dx: 0, dy: -1i8 }),
        key == Key::Char('a') ==> key_action_spec(key) == (Action::MovePoint { dx: -1i8, dy: 0 }),
        key == Key::Char('d') ==> key_action_spec(key) == (Action::MovePoint { dx: 1, dy: 0 }),
        key == Key::Up ==> key_action_spec(key) == (Action::MoveWindow { dx: 0, dy: 1 }),
        key == Key::Down ==> key_action_spec(key) == (Action::MoveWindow { dx: 0, dy: -1i8 }),
        key == Key::Left ==> key_action_spec(key) == (Action::MoveWindow { dx: -1i8, dy: 0 }),
        key == Key::Right ==> key_action_spec(key) == (Action::MoveWindow { dx: 1, dy: 0 }),
{
}

/// The action the example takes for a key press (see `key_action_spec`).
pub fn key_action(key: Key) -> (a: Action)
    ensures
        a == key_action_spec(key),
        (a == Action::Quit) <==> key == Key::Char('q'),
        (a == Action::Ignore) <==> !is_mapped_key(key),
        (a is MovePoint) <==> (key == Key::Char('w') || key == Key::Char('s') || key == Key::Char(
            'a',
        ) || key == Key::Char('d')),
        (a is MoveWindow) <==> (key == Key::Up || key == Key::Down || key == Key::Left || key
            == Key::Right),
{
    proof {
        law_key_map(key);
    }
    match key {
        Key::Char('w') => Action::MovePoint { dx: 0, dy: 1 },
        Key::Char('s') => Action::MovePoint { dx: 0, dy: -1i8 },
        Key::Char('a') => Action::MovePoint { dx: -1i8, dy: 0 },
        Key::Char('d') => Action::MovePoint { dx: 1, dy: 0 },
        Key::Up => Action::MoveWindow { dx: 0, dy: 1 },
        Key::Down => Action::MoveWindow { dx: 0, dy: -1i8 },
        Key::Left => Action::MoveWindow { dx: -1i8, dy: 0 },
        Key::Right => Action::MoveWindow { dx: 1, dy: 0 },
        Key::Char('q') => Action::Quit,
        _ => Action::Ignore,
    }
}

/// Every move the example makes is one step along exactly one axis.
pub proof fn law_moves_are_unit_steps(key: Key)
    ensures
        match key_action_spec(key) {
            Action::MovePoint { dx, dy } | Action::MoveWindow { dx, dy } => {
                (dx == 0 && (dy == 1 || dy == -1)) || (dy == 0 && (dx == 1 || dx == -1))
            },
            _ => true,
        },
{
}

} // verus!
