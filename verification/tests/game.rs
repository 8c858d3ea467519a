use tictactoe::board::Cell;
use tictactoe::game::{opponent_for_choice, Game, MoveError, Opponent, Status};

const E: Cell = Cell::Empty;
const X: Cell = Cell::X;
const O: Cell = Cell::O;

#[test]
fn menu_entries_name_the_two_opponents() {
    assert_eq!(opponent_for_choice(1), Some(Opponent::Engine));
    assert_eq!(opponent_for_choice(2), Some(Opponent::Human));
    assert_eq!(opponent_for_choice(0), None);
    for choice in 3..=u8::MAX {
        assert_eq!(opponent_for_choice(choice), None);
    }
}

#[test]
fn a_new_game_is_empty_and_in_play() {
    let game = Game::new(Opponent::Engine, 7);
    assert_eq!(*game.board(), [[E; 3]; 3]);
    assert_eq!(game.turns(), 0);
    assert_eq!(game.opponent(), Opponent::Engine);
    assert_eq!(game.max_depth(), 7);
    assert_eq!(game.status(), Status::InPlay);
    assert_eq!(game.player(), X);
}

#[test]
fn the_marks_take_turns() {
    let mut game = Game::new(Opponent::Human, 0);
    let moves = [(1, 1), (0, 0), (2, 2), (0, 2)];
    let players = [X, O, X, O];
    for (turn, &(row, col)) in moves.iter().enumerate() {
        assert_eq!(game.player(), players[turn]);
        assert_eq!(game.play(row, col), Ok(Status::InPlay));
        assert_eq!(game.board()[row][col], players[turn]);
        assert_eq!(usize::from(game.turns()), turn + 1);
    }
    assert_eq!(*game.board(), [[O, E, O], [E, X, E], [E, E, X]]);
    assert_eq!(game.player(), X);
}

#[test]
fn the_first_player_can_win() {
    let mut game = Game::new(Opponent::Human, 0);
    assert_eq!(game.play(0, 0), Ok(Status::InPlay));
    assert_eq!(game.play(1, 0), Ok(Status::InPlay));
    assert_eq!(game.play(0, 1), Ok(Status::InPlay));
    assert_eq!(game.play(1, 1), Ok(Status::InPlay));
    assert_eq!(game.play(0, 2), Ok(Status::Won(X)));
    assert_eq!(game.status(), Status::Won(X));
    assert_eq!(game.turns(), 5);
}

#[test]
fn the_second_player_can_win() {
    let mut game = Game::new(Opponent::Human, 0);
    assert_eq!(game.play(0, 0), Ok(Status::InPlay));
    assert_eq!(game.play(0, 2), Ok(Status::InPlay));
    assert_eq!(game.play(0, 1), Ok(Status::InPlay));
    assert_eq!(game.play(1, 1), Ok(Status::InPlay));
    assert_eq!(game.play(2, 2), Ok(Status::InPlay));
    assert_eq!(game.play(2, 0), Ok(Status::Won(O)));
    assert_eq!(game.status(), Status::Won(O));
}

#[test]
fn nine_moves_without_a_line_are_a_draw() {
    let mut game = Game::new(Opponent::Human, 0);
    let moves = [(0, 0), (0, 1), (0, 2), (1, 1), (1, 0), (1, 2), (2, 1), (2, 0)];
    for (row, col) in moves {
        assert_eq!(game.play(row, col), Ok(Status::InPlay));
    }
    assert_eq!(game.play(2, 2), Ok(Status::Drawn));
    assert_eq!(game.status(), Status::Drawn);
    assert_eq!(game.turns(), 9);
    assert_eq!(*game.board(), [[X, O, X], [X, O, O], [O, X, X]]);
    assert_eq!(game.engine_move(), None);
}

#[test]
fn a_line_on_the_ninth_move_wins() {
    let mut game = Game::new(Opponent::Human, 0);
    let moves = [(0, 0), (0, 1), (0, 2), (1, 1), (1, 0), (1, 2), (2, 1), (2, 2)];
    for (row, col) in moves {
        assert_eq!(game.play(row, col), Ok(Status::InPlay));
    }
    assert_eq!(game.play(2, 0), Ok(Status::Won(X)));
}

#[test]
fn a_move_outside_the_grid_is_turned_down() {
    let mut game = Game::new(Opponent::Human, 0);
    assert_eq!(game.play(3, 0), Err(MoveError::OutOfGrid));
    assert_eq!(game.play(0, 3), Err(MoveError::OutOfGrid));
    assert_eq!(game.play(usize::MAX, usize::MAX), Err(MoveError::OutOfGrid));
    assert_eq!(game.turns(), 0);
    assert_eq!(*game.board(), [[E; 3]; 3]);
}

#[test]
fn a_move_onto_a_taken_square_is_turned_down() {
    let mut game = Game::new(Opponent::Human, 0);
    assert_eq!(game.play(1, 1), Ok(Status::InPlay));
    assert_eq!(game.play(1, 1), Err(MoveError::Taken));
    assert_eq!(game.turns(), 1);
    assert_eq!(game.player(), O);
    assert_eq!(*game.board(), [[E, E, E], [E, X, E], [E, E, E]]);
}

#[test]
fn a_move_after_the_end_is_turned_down() {
    let mut game = Game::new(Opponent::Human, 0);
    for (row, col) in [(0, 0), (1, 0), (0, 1), (1, 1), (0, 2)] {
        assert!(game.play(row, col).is_ok());
    }
    assert_eq!(game.play(2, 2), Err(MoveError::GameOver));
    assert_eq!(game.play(0, 0), Err(MoveError::GameOver));
    assert_eq!(game.play(9, 9), Err(MoveError::GameOver));
    assert_eq!(game.turns(), 5);
    assert_eq!(*game.board(), [[X, X, X], [O, O, E], [E, E, E]]);
}

#[test]
fn the_engine_moves_on_the_turns_of_the_second_mark() {
    let mut game = Game::new(Opponent::Engine, i32::MAX);
    assert!(!game.engine_to_move());
    assert_eq!(game.play(1, 1), Ok(Status::InPlay));
    assert!(game.engine_to_move());
    assert_eq!(game.play(0, 0), Ok(Status::InPlay));
    assert!(!game.engine_to_move());
}

#[test]
fn a_second_human_keeps_the_engine_out() {
    let mut game = Game::new(Opponent::Human, 0);
    assert!(!game.engine_to_move());
    assert_eq!(game.play(1, 1), Ok(Status::InPlay));
    assert!(!game.engine_to_move());
}

#[test]
fn the_engine_does_not_move_after_the_end() {
    let mut game = Game::new(Opponent::Engine, i32::MAX);
    for (row, col) in [(0, 0), (1, 0), (0, 1), (1, 1), (0, 2)] {
        assert!(game.play(row, col).is_ok());
    }
    assert_eq!(game.status(), Status::Won(X));
    assert_eq!(game.player(), O);
    assert!(!game.engine_to_move());
}

#[test]
fn the_engine_answers_with_its_best_move() {
    let mut game = Game::new(Opponent::Engine, i32::MAX);
    assert_eq!(game.play(1, 1), Ok(Status::InPlay));
    assert_eq!(game.engine_move(), Some((0, 0)));
    assert_eq!(*game.board(), [[E, E, E], [E, X, E], [E, E, E]]);
    assert_eq!(game.play(0, 0), Ok(Status::InPlay));
    assert_eq!(game.play(2, 2), Ok(Status::InPlay));
    assert_eq!(game.engine_move(), Some((0, 1)));
    assert_eq!(game.play(0, 1), Ok(Status::InPlay));
    assert_eq!(game.play(2, 1), Ok(Status::InPlay));
    assert_eq!(game.engine_move(), Some((0, 2)));
    assert_eq!(game.play(0, 2), Ok(Status::Won(O)));
}

#[test]
fn the_engine_loses_to_a_threat_it_does_not_see() {
    let mut game = Game::new(Opponent::Engine, i32::MAX);
    assert_eq!(game.play(1, 1), Ok(Status::InPlay));
    let reply = game.engine_move();
    assert_eq!(reply, Some((0, 0)));
    assert_eq!(game.play(0, 0), Ok(Status::InPlay));
    assert_eq!(game.play(0, 1), Ok(Status::InPlay));
    let reply = game.engine_move();
    assert_eq!(reply, Some((0, 2)));
    assert_eq!(game.play(0, 2), Ok(Status::InPlay));
    assert_eq!(game.play(2, 1), Ok(Status::Won(X)));
}

#[test]
fn an_engine_game_on_easy_fills_the_grid_in_order() {
    let mut game = Game::new(Opponent::Engine, 0);
    assert_eq!(game.play(2, 2), Ok(Status::InPlay));
    assert_eq!(game.engine_move(), Some((0, 0)));
    assert_eq!(game.play(0, 0), Ok(Status::InPlay));
    assert_eq!(game.play(0, 1), Ok(Status::InPlay));
    assert_eq!(game.engine_move(), Some((0, 2)));
}
