use quads::action::{self, Action};
use quads::tetromino_move::TetrominoMove;
use quads::user_action::{self, UserAction};
use quads::user_move::UserMove;

#[test]
fn only_the_drops_of_the_player_reset_the_timer() {
    assert!(TetrominoMove::UM(UserMove::SoftDown).resets_down_timer());
    assert!(TetrominoMove::UM(UserMove::HardDown).resets_down_timer());
    assert!(!TetrominoMove::AutoDown.resets_down_timer());
    assert!(!TetrominoMove::UM(UserMove::Left).resets_down_timer());
    assert!(!TetrominoMove::UM(UserMove::Right).resets_down_timer());
    assert!(!TetrominoMove::UM(UserMove::RotateCW).resets_down_timer());
    assert!(!TetrominoMove::UM(UserMove::RotateCCW).resets_down_timer());
}

#[test]
fn a_user_action_is_its_move_or_none() {
    let moves = [
        UserMove::SoftDown,
        UserMove::HardDown,
        UserMove::Left,
        UserMove::Right,
        UserMove::RotateCW,
        UserMove::RotateCCW,
    ];
    for user_move in moves {
        assert_eq!(
            user_action::to_tetromino_move(UserAction::UM(user_move)),
            Some(TetrominoMove::UM(user_move))
        );
    }
    assert_eq!(user_action::to_tetromino_move(UserAction::Quit), None);
}

#[test]
fn an_action_is_its_move_or_none() {
    assert_eq!(
        action::to_tetromino_move(Action::Down),
        Some(TetrominoMove::UM(UserMove::SoftDown))
    );
    assert_eq!(action::to_tetromino_move(Action::Left), Some(TetrominoMove::UM(UserMove::Left)));
    assert_eq!(action::to_tetromino_move(Action::Right), Some(TetrominoMove::UM(UserMove::Right)));
    assert_eq!(
        action::to_tetromino_move(Action::RotateCW),
        Some(TetrominoMove::UM(UserMove::RotateCW))
    );
    assert_eq!(
        action::to_tetromino_move(Action::RotateCCW),
        Some(TetrominoMove::UM(UserMove::RotateCCW))
    );
    assert_eq!(action::to_tetromino_move(Action::Quit), None);
}
