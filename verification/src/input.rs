//! From keys to actions.

use vstd::prelude::*;

use crate::user_action::UserAction;
use crate::user_move::UserMove;

verus! {

/// A key of the keyboard, as far as the game tells keys apart.
#[derive(Debug, PartialEq, Eq, Structural, Copy, Clone)]
pub enum Key {
    Down,
    Left,
    Right,
    Up,
    Space,
    Slash,
    Q,
    Enter,
    Other,
}

/// What the player chooses once the game is over.
#[derive(Debug, PartialEq, Eq, Structural, Copy, Clone)]
pub enum GameOverChoice {
    PlayAgain,
    Exit,
    Undecided,
}

/// The action of a key that repeats while it is held down, if it has one.
pub open spec fn autorepeat_action(key: Key) -> Option<UserAction> {
    match key {
        Key::Down => Some(UserAction::UM(UserMove::SoftDown)),
        Key::Left => Some(UserAction::UM(UserMove::Left)),
        Key::Right => Some(UserAction::UM(UserMove::Right)),
        _ => None,
    }
}

/// The action of a key that acts once when it is pressed, if it has one.
pub open spec fn non_autorepeat_action(key: Key) -> Option<UserAction> {
    match key {
        Key::Space => Some(UserAction::UM(UserMove::HardDown)),
        Key::Up => Some(UserAction::UM(UserMove::RotateCW)),
        Key::Slash => Some(UserAction::UM(UserMove::RotateCCW)),
        Key::Q => Some(UserAction::Quit),
        _ => None,
    }
}

/// The action of the first key at or after `from` that has one: its
/// autorepeat action if `autorepeat` is set, else its action on a press.
pub open spec fn first_action_from(keys: Seq<Key>, autorepeat: bool, from: int) -> Option<
    UserAction,
>
    decreases keys.len() - from,
{
    if from < 0 || from >= keys.len() {
        None
    } else {
        let action = if autorepeat {
            autorepeat_action(keys[from])
        } else {
            non_autorepeat_action(keys[from])
        };
        if action is Some {
            action
        } else {
            first_action_from(keys, autorepeat, from + 1)
        }
    }
}

/// The action that the keys ask for. While the last key is still being
/// debounced there is none. Else it is the action of the first of the keys
/// held down that has an autorepeat action; if none has one, the action of
/// the first of the keys just pressed that has an action of its own.
pub open spec fn user_action(debounce_is_over: bool, keys_down: Seq<Key>, keys_pressed: Seq<Key>)
    -> Option<UserAction> {
    if !debounce_is_over {
        None
    } else if first_action_from(keys_down, true, 0) is Some {
        first_action_from(keys_down, true, 0)
    } else {
        first_action_from(keys_pressed, false, 0)
    }
}

/// The action of a key that repeats while it is held down: the soft drop
/// and the moves to the side.
pub fn autorepeat_key_to_action(key: Key) -> (action: Option<UserAction>)
    ensures
        action == autorepeat_action(key),
{
    match key {
        Key::Down => Some(UserAction::UM(UserMove::SoftDown)),
        Key::Left => Some(UserAction::UM(UserMove::Left)),
        Key::Right => Some(UserAction::UM(UserMove::Right)),
        _ => None,
    }
}

/// The action of a key that acts once when it is pressed: the hard drop,
/// the turns, and leaving the game.
pub fn non_autorepeat_key_to_action(key: Key) -> (action: Option<UserAction>)
    ensures
        action == non_autorepeat_action(key),
{
    match key {
        Key::Space => Some(UserAction::UM(UserMove::HardDown)),
        Key::Up => Some(UserAction::UM(UserMove::RotateCW)),
        Key::Slash => Some(UserAction::UM(UserMove::RotateCCW)),
        Key::Q => Some(UserAction::Quit),
        _ => None,
    }
}

/// The action that the keys ask for, given whether the time in which keys
/// are ignored after the last one is over, the keys that are held down and
/// the keys that were just pressed, each in the order in which the
/// keyboard handed them out. When the result is an action, the time in
/// which keys are ignored starts anew.
pub fn get_user_action(debounce_is_over: bool, keys_down: &[Key], keys_pressed: &[Key]) -> (action:
    Option<UserAction>)
    ensures
        action == user_action(debounce_is_over, keys_down@, keys_pressed@),
{
    if !debounce_is_over {
        return None;
    }
    {
        // Keys that repeat:
        let mut i: usize = 0;
        while i < keys_down.len()
            invariant
                debounce_is_over,
                i <= keys_down.len(),
                first_action_from(keys_down@, true, 0) == first_action_from(
                    keys_down@,
                    true,
                    i as int,
                ),
            decreases keys_down.len() - i,
        {
            let opt_action = autorepeat_key_to_action(keys_down[i]);
            if opt_action.is_some() {
                return opt_action;
            }
            i += 1;
        }
    }
    {
        // Keys that act once:
        let mut i: usize = 0;
        while i < keys_pressed.len()
            invariant
                debounce_is_over,
                i <= keys_pressed.len(),
                first_action_from(keys_down@, true, 0) is None,
                first_action_from(keys_pressed@, false, 0) == first_action_from(
                    keys_pressed@,
                    false,
                    i as int,
                ),
            decreases keys_pressed.len() - i,
        {
            let opt_action = non_autorepeat_key_to_action(keys_pressed[i]);
            if opt_action.is_some() {
                return opt_action;
            }
            i += 1;
        }
    }
    None
}

/// What the player chooses once the game is over: Enter plays again, and
/// without it Q leaves.
pub fn reset_or_quit_game_when_apt(enter_is_pressed: bool, q_is_pressed: bool) -> (choice:
    GameOverChoice)
    ensures
        choice == if enter_is_pressed {
            GameOverChoice::PlayAgain
        } else if q_is_pressed {
            GameOverChoice::Exit
        } else {
            GameOverChoice::Undecided
        },
{
    if enter_is_pressed {
        GameOverChoice::PlayAgain
    } else if q_is_pressed {
        GameOverChoice::Exit
    } else {
        GameOverChoice::Undecided
    }
}

} // verus!
