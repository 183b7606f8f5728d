use quads::input::{
    autorepeat_key_to_action, get_user_action, non_autorepeat_key_to_action,
    reset_or_quit_game_when_apt, GameOverChoice, Key,
};
use quads::pacing::{get_next_game_step, Leveling, NextGameStep};
use quads::tetromino_move::TetrominoMove;
use quads::user_action::UserAction;
use quads::user_move::UserMove;

const ALL_KEYS: [Key; 9] = [
    Key::Down,
    Key::Left,
    Key::Right,
    Key::Up,
    Key::Space,
    Key::Slash,
    Key::Q,
    Key::Enter,
    Key::Other,
];

#[test]
fn the_keys_that_repeat() {
    assert_eq!(autorepeat_key_to_action(Key::Down), Some(UserAction::UM(UserMove::SoftDown)));
    assert_eq!(autorepeat_key_to_action(Key::Left), Some(UserAction::UM(UserMove::Left)));
    assert_eq!(autorepeat_key_to_action(Key::Right), Some(UserAction::UM(UserMove::Right)));
    for key in [Key::Up, Key::Space, Key::Slash, Key::Q, Key::Enter, Key::Other] {
        assert_eq!(autorepeat_key_to_action(key), None);
    }
}

#[test]
fn the_keys_that_act_once() {
    assert_eq!(non_autorepeat_key_to_action(Key::Space), Some(UserAction::UM(UserMove::HardDown)));
    assert_eq!(non_autorepeat_key_to_action(Key::Up), Some(UserAction::UM(UserMove::RotateCW)));
    assert_eq!(
        non_autorepeat_key_to_action(Key::Slash),
        Some(UserAction::UM(UserMove::RotateCCW))
    );
    assert_eq!(non_autorepeat_key_to_action(Key::Q), Some(UserAction::Quit));
    for key in [Key::Down, Key::Left, Key::Right, Key::Enter, Key::Other] {
        assert_eq!(non_autorepeat_key_to_action(key), None);
    }
}

#[test]
fn no_key_is_heard_while_the_last_one_is_debounced() {
    for key in ALL_KEYS {
        assert_eq!(get_user_action(false, &[key], &[key]), None);
    }
}

#[test]
fn a_key_held_down_comes_before_a_key_just_pressed() {
    assert_eq!(
        get_user_action(true, &[Key::Left], &[Key::Space]),
        Some(UserAction::UM(UserMove::Left))
    );
    assert_eq!(
        get_user_action(true, &[Key::Space], &[Key::Space]),
        Some(UserAction::UM(UserMove::HardDown))
    );
    assert_eq!(
        get_user_action(true, &[Key::Up, Key::Other], &[Key::Left, Key::Q, Key::Up]),
        Some(UserAction::Quit)
    );
}

#[test]
fn the_first_key_with_an_action_wins() {
    assert_eq!(
        get_user_action(true, &[Key::Other, Key::Right, Key::Down], &[]),
        Some(UserAction::UM(UserMove::Right))
    );
    assert_eq!(
        get_user_action(true, &[], &[Key::Enter, Key::Slash, Key::Up]),
        Some(UserAction::UM(UserMove::RotateCCW))
    );
    assert_eq!(get_user_action(true, &[], &[]), None);
    assert_eq!(get_user_action(true, &[Key::Enter, Key::Q], &[Key::Down, Key::Other]), None);
}

#[test]
fn enter_plays_again_and_q_leaves() {
    assert_eq!(reset_or_quit_game_when_apt(true, false), GameOverChoice::PlayAgain);
    assert_eq!(reset_or_quit_game_when_apt(true, true), GameOverChoice::PlayAgain);
    assert_eq!(reset_or_quit_game_when_apt(false, true), GameOverChoice::Exit);
    assert_eq!(reset_or_quit_game_when_apt(false, false), GameOverChoice::Undecided);
}

#[test]
fn a_due_descent_comes_first() {
    let due = NextGameStep {
        opt_tetromino_move: Some(TetrominoMove::AutoDown),
        restarts_down_timer: true,
        game_over: false,
    };
    assert_eq!(get_next_game_step(true, None), due);
    assert_eq!(get_next_game_step(true, Some(UserAction::Quit)), due);
    assert_eq!(get_next_game_step(true, Some(UserAction::UM(UserMove::Left))), due);
}

#[test]
fn the_player_is_heard_when_no_descent_is_due() {
    assert_eq!(
        get_next_game_step(false, None),
        NextGameStep { opt_tetromino_move: None, restarts_down_timer: false, game_over: false }
    );
    assert_eq!(
        get_next_game_step(false, Some(UserAction::Quit)),
        NextGameStep { opt_tetromino_move: None, restarts_down_timer: false, game_over: true }
    );
    for user_move in [UserMove::SoftDown, UserMove::HardDown] {
        assert_eq!(
            get_next_game_step(false, Some(UserAction::UM(user_move))),
            NextGameStep {
                opt_tetromino_move: Some(TetrominoMove::UM(user_move)),
                restarts_down_timer: true,
                game_over: false
            }
        );
    }
    for user_move in [UserMove::Left, UserMove::Right, UserMove::RotateCW, UserMove::RotateCCW] {
        assert_eq!(
            get_next_game_step(false, Some(UserAction::UM(user_move))),
            NextGameStep {
                opt_tetromino_move: Some(TetrominoMove::UM(user_move)),
                restarts_down_timer: false,
                game_over: false
            }
        );
    }
}

#[test]
fn the_threshold_doubles_each_time_it_is_reached() {
    let mut leveling = Leveling::new();
    assert_eq!(leveling, Leveling { total_rows_cleared: 0, next_row_thresh_for_speedup: 4 });
    assert!(!leveling.record_rows_cleared(0));
    assert!(!leveling.record_rows_cleared(3));
    assert_eq!(leveling, Leveling { total_rows_cleared: 3, next_row_thresh_for_speedup: 4 });
    assert!(leveling.record_rows_cleared(1));
    assert_eq!(leveling, Leveling { total_rows_cleared: 4, next_row_thresh_for_speedup: 8 });
    assert!(!leveling.record_rows_cleared(3));
    assert!(leveling.record_rows_cleared(4));
    assert_eq!(leveling, Leveling { total_rows_cleared: 11, next_row_thresh_for_speedup: 16 });
    // The threshold doubles once, however far the count goes past it.
    assert!(leveling.record_rows_cleared(100));
    assert_eq!(leveling, Leveling { total_rows_cleared: 111, next_row_thresh_for_speedup: 32 });
    assert!(leveling.record_rows_cleared(0));
    assert_eq!(leveling, Leveling { total_rows_cleared: 111, next_row_thresh_for_speedup: 64 });
}
