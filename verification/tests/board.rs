use tictactoe::board::{check_win, is_full, Board, Cell};

const E: Cell = Cell::Empty;
const X: Cell = Cell::X;
const O: Cell = Cell::O;

fn empty_board() -> Board {
    [[E; 3]; 3]
}

#[test]
fn every_row_wins() {
    for row in 0..3 {
        let mut board = empty_board();
        board[row] = [X, X, X];
        assert!(check_win(&board, X));
        assert!(!check_win(&board, O));
    }
}

#[test]
fn every_column_wins() {
    for col in 0..3 {
        let mut board = empty_board();
        for row in 0..3 {
            board[row][col] = O;
        }
        assert!(check_win(&board, O));
        assert!(!check_win(&board, X));
    }
}

#[test]
fn both_diagonals_win() {
    let diagonal = [[X, E, E], [E, X, E], [E, E, X]];
    assert!(check_win(&diagonal, X));
    assert!(!check_win(&diagonal, O));
    let anti_diagonal = [[O, X, O], [X, O, E], [O, E, X]];
    assert!(check_win(&anti_diagonal, O));
    assert!(!check_win(&anti_diagonal, X));
}

#[test]
fn two_in_a_line_do_not_win() {
    let board = [[X, X, E], [O, O, E], [E, E, E]];
    assert!(!check_win(&board, X));
    assert!(!check_win(&board, O));
}

#[test]
fn a_line_of_mixed_marks_does_not_win() {
    let board = [[X, O, X], [O, X, O], [O, X, E]];
    assert!(!check_win(&board, X));
    assert!(!check_win(&board, O));
}

#[test]
fn an_empty_board_has_no_winner() {
    let board = empty_board();
    assert!(!check_win(&board, X));
    assert!(!check_win(&board, O));
}

#[test]
fn an_empty_line_counts_for_the_empty_mark() {
    let board = [[X, O, X], [E, E, E], [O, X, O]];
    assert!(check_win(&board, E));
    let board = [[X, O, X], [E, O, E], [O, X, O]];
    assert!(!check_win(&board, E));
}

#[test]
fn both_sides_can_hold_a_line_at_once() {
    let board = [[X, X, X], [O, O, O], [E, E, E]];
    assert!(check_win(&board, X));
    assert!(check_win(&board, O));
}

#[test]
fn check_win_agrees_with_the_eight_lines_on_every_grid() {
    let marks = [E, X, O];
    let lines: [[(usize, usize); 3]; 8] = [
        [(0, 0), (0, 1), (0, 2)],
        [(1, 0), (1, 1), (1, 2)],
        [(2, 0), (2, 1), (2, 2)],
        [(0, 0), (1, 0), (2, 0)],
        [(0, 1), (1, 1), (2, 1)],
        [(0, 2), (1, 2), (2, 2)],
        [(0, 0), (1, 1), (2, 2)],
        [(0, 2), (1, 1), (2, 0)],
    ];
    for code in 0..19683usize {
        let mut board = empty_board();
        let mut rest = code;
        for k in 0..9 {
            board[k / 3][k % 3] = marks[rest % 3];
            rest /= 3;
        }
        for mark in marks {
            let expected = lines
                .iter()
                .any(|line| line.iter().all(|&(r, c)| board[r][c] == mark));
            assert_eq!(check_win(&board, mark), expected);
        }
        let empties = (0..9).filter(|k| board[k / 3][k % 3] == E).count();
        assert_eq!(is_full(&board), empties == 0);
    }
}

#[test]
fn a_full_board_without_a_line_is_a_draw() {
    let board = [[X, O, X], [X, O, O], [O, X, X]];
    assert!(!check_win(&board, X));
    assert!(!check_win(&board, O));
    assert!(is_full(&board));
}

#[test]
fn an_empty_board_is_not_full() {
    assert!(!is_full(&empty_board()));
}

#[test]
fn one_empty_square_keeps_the_board_from_full() {
    for k in 0..9 {
        let mut board = [[X, O, X], [X, O, O], [O, X, X]];
        board[k / 3][k % 3] = E;
        assert!(!is_full(&board));
    }
}

#[test]
fn a_full_board_with_a_line_is_full() {
    let board = [[X, X, X], [O, O, X], [O, X, O]];
    assert!(is_full(&board));
    assert!(check_win(&board, X));
}
