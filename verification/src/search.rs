//! The move search: every empty square is tried in turn, and the resulting
//! position is scored by playing it out.

use crate::board::{check_win, empty_count, full, in_grid, is_full, place, wins, Board, Cell};
use crate::board::{lemma_place_fills, lemma_place_undo};
use vstd::prelude::*;

verus! {

/// The horizon that no search reaches: with it every line of play is
/// followed to its end.
pub const UNBOUNDED: i32 = i32::MAX;

/// The mark that a ply writes: the engine's `O` when it maximises, the
/// opponent's `X` when it minimises.
pub open spec fn mover(is_maxing: bool) -> Cell {
    if is_maxing {
        Cell::O
    } else {
        Cell::X
    }
}

/// The score that every other score improves on for the given role: the
/// lowest one for the maximiser, the highest one for the minimiser.
pub open spec fn worst_score(is_maxing: bool) -> int {
    if is_maxing {
        -1
    } else {
        1
    }
}

/// The better of two scores for the given role.
pub open spec fn better_score(is_maxing: bool, a: int, b: int) -> int {
    if is_maxing {
        if a >= b {
            a
        } else {
            b
        }
    } else {
        if a <= b {
            a
        } else {
            b
        }
    }
}

/// The score of position `b`, reached after `depth` plies, for a search that
/// stops at `max_depth` plies.
///
/// A position at the horizon scores -1 whoever is to move. Before the
/// horizon a line of `O` scores 1, a line of `X` scores -1 and a full grid
/// scores 0, in that order. Any other position takes the best score, for
/// the role given, of the positions that one more mark leads to. Those are
/// all scored in the minimising role: below the first ply the search no
/// longer alternates.
pub open spec fn search_value(b: Board, is_maxing: bool, depth: int, max_depth: int) -> int
    decreases empty_count(b), 11int,
{
    if depth >= max_depth {
        -1
    } else if wins(b, Cell::O) {
        1
    } else if wins(b, Cell::X) {
        -1
    } else if full(b) {
        0
    } else {
        children_value(b, is_maxing, depth, max_depth, 9)
    }
}

/// The score of the position that the role's mark on square `(r, c)` of `b`
/// leads to.
pub open spec fn child_value(
    b: Board,
    is_maxing: bool,
    r: int,
    c: int,
    depth: int,
    max_depth: int,
) -> int
    decreases empty_count(b), 0int,
{
    if in_grid(r, c) && b[r][c] == Cell::Empty {
        search_value(place(b, r, c, mover(is_maxing)), false, depth + 1, max_depth)
    } else {
        worst_score(is_maxing)
    }
}

/// The best score, for the role given, among the positions reached by
/// writing the role's mark to one of the first `k` squares in row-major order
/// that is empty; the role's worst score where none of them is.
pub open spec fn children_value(
    b: Board,
    is_maxing: bool,
    depth: int,
    max_depth: int,
    k: int,
) -> int
    decreases empty_count(b), 1 + k,
{
    if k <= 0 {
        worst_score(is_maxing)
    } else {
        let rest = children_value(b, is_maxing, depth, max_depth, k - 1);
        let r = (k - 1) / 3;
        let c = (k - 1) % 3;
        if k <= 9 && b[r][c] == Cell::Empty {
            better_score(is_maxing, rest, child_value(b, is_maxing, r, c, depth, max_depth))
        } else {
            rest
        }
    }
}

/// Scores the position on `board`, reached after `depth` plies, for a search
/// that stops at `max_depth` plies, and leaves `board` as it found it.
///
/// The squares are tried in row-major order; each trial mark is taken off
/// again before the next one is placed.
pub fn minmax(board: &mut Board, is_maxing: bool, depth: i32, max_depth: i32) -> (score: i8)
    ensures
        *final(board) == *old(board),
        score == search_value(*old(board), is_maxing, depth as int, max_depth as int),
        -1 <= score <= 1,
    decreases empty_count(*old(board)),
{
    if depth >= max_depth {
        return -1;
    }
    if check_win(board, Cell::O) {
        return 1;
    }
    if check_win(board, Cell::X) {
        return -1;
    }
    if is_full(board) {
        return 0;
    }
    let mark = if is_maxing {
        Cell::O
    } else {
        Cell::X
    };
    let mut best_score: i8 = if is_maxing {
        -1
    } else {
        1
    };
    let mut row: usize = 0;
    while row < 3
        invariant
            row <= 3,
            depth < max_depth,
            mark == mover(is_maxing),
            *board == *old(board),
            -1 <= best_score <= 1,
            best_score == children_value(
                *old(board),
                is_maxing,
                depth as int,
                max_depth as int,
                3 * row,
            ),
        decreases 3 - row,
    {
        let mut col: usize = 0;
        while col < 3
            invariant
                row < 3,
                col <= 3,
                depth < max_depth,
                mark == mover(is_maxing),
                *board == *old(board),
                -1 <= best_score <= 1,
                best_score == children_value(
                    *old(board),
                    is_maxing,
                    depth as int,
                    max_depth as int,
                    3 * row + col,
                ),
            decreases 3 - col,
        {
            if board[row][col] == Cell::Empty {
                proof {
                    lemma_place_fills(*old(board), row as int, col as int, mark);
                    lemma_place_undo(*old(board), row as int, col as int, mark);
                }
                board[row][col] = mark;
                let score = minmax(board, false, depth + 1, max_depth);
                board[row][col] = Cell::Empty;
                assert(score == child_value(
                    *old(board),
                    is_maxing,
                    row as int,
                    col as int,
                    depth as int,
                    max_depth as int,
                ));
                if is_maxing {
                    if score > best_score {
                        best_score = score;
                    }
                } else {
                    if score < best_score {
                        best_score = score;
                    }
                }
            }
            col += 1;
        }
        row += 1;
    }
    best_score
}

/// What the engine's mark on the empty square `(r, c)` of `b` is worth: the
/// score of the position it leads to, with the opponent to move.
pub open spec fn candidate_value(b: Board, r: int, c: int, max_depth: int) -> int {
    search_value(place(b, r, c, Cell::O), false, 0, max_depth)
}

/// Square `(r1, c1)` is tried before square `(r2, c2)`: rows from the top,
/// and within a row columns from the left.
pub open spec fn comes_before(r1: int, c1: int, r2: int, c2: int) -> bool {
    r1 < r2 || (r1 == r2 && c1 < c2)
}

/// `(r, c)` is empty, no empty square is worth more, and every empty square
/// that is tried before it is worth less.
pub open spec fn is_best_move(b: Board, max_depth: int, r: int, c: int) -> bool {
    &&& in_grid(r, c)
    &&& b[r][c] == Cell::Empty
    &&& forall|r2: int, c2: int|
        in_grid(r2, c2) && b[r2][c2] == Cell::Empty ==> #[trigger] candidate_value(
            b,
            r2,
            c2,
            max_depth,
        ) <= candidate_value(b, r, c, max_depth)
    &&& forall|r2: int, c2: int|
        in_grid(r2, c2) && b[r2][c2] == Cell::Empty && comes_before(r2, c2, r, c)
            ==> #[trigger] candidate_value(b, r2, c2, max_depth) < candidate_value(
            b,
            r,
            c,
            max_depth,
        )
}

/// `(r, c)` is the best move among the squares tried before `(row, col)`, if
/// any of them is empty.
spec fn best_so_far(
    b: Board,
    max_depth: int,
    row: int,
    col: int,
    best: Option<(usize, usize)>,
    best_score: int,
) -> bool {
    match best {
        None => forall|r: int, c: int|
            in_grid(r, c) && comes_before(r, c, row, col) ==> #[trigger] b[r][c] != Cell::Empty,
        Some((br, bc)) => {
            &&& in_grid(br as int, bc as int)
            &&& comes_before(br as int, bc as int, row, col)
            &&& b[br as int][bc as int] == Cell::Empty
            &&& best_score == candidate_value(b, br as int, bc as int, max_depth)
            &&& forall|r: int, c: int|
                in_grid(r, c) && comes_before(r, c, row, col) && b[r][c] == Cell::Empty
                    ==> #[trigger] candidate_value(b, r, c, max_depth) <= best_score
            &&& forall|r: int, c: int|
                in_grid(r, c) && comes_before(r, c, br as int, bc as int) && b[r][c]
                    == Cell::Empty ==> #[trigger] candidate_value(b, r, c, max_depth)
                    < best_score
        },
    }
}

/// The engine's move on `board` for a search that stops at `max_depth` plies:
/// the empty square that is worth most, the first such square in row-major
/// order where several are; `None` where no square is empty. `board` is left
/// as it was found.
pub fn best_move(board: &mut Board, max_depth: i32) -> (chosen: Option<(usize, usize)>)
    ensures
        *final(board) == *old(board),
        chosen is None <==> full(*old(board)),
        chosen matches Some((r, c)) ==> r < 3 && c < 3 && old(board)[r as int][c as int]
            == Cell::Empty,
        chosen matches Some((r, c)) ==> is_best_move(
            *old(board),
            max_depth as int,
            r as int,
            c as int,
        ),
{
    let mut best_score: i8 = -1;
    let mut best: Option<(usize, usize)> = None;
    let mut row: usize = 0;
    while row < 3
        invariant
            row <= 3,
            *board == *old(board),
            best_so_far(*old(board), max_depth as int, row as int, 0, best, best_score as int),
        decreases 3 - row,
    {
        let mut col: usize = 0;
        while col < 3
            invariant
                row < 3,
                col <= 3,
                *board == *old(board),
                best_so_far(
                    *old(board),
                    max_depth as int,
                    row as int,
                    col as int,
                    best,
                    best_score as int,
                ),
            decreases 3 - col,
        {
            if board[row][col] == Cell::Empty {
                proof {
                    lemma_place_undo(*old(board), row as int, col as int, Cell::O);
                }
                board[row][col] = Cell::O;
                let score = minmax(board, false, 0, max_depth);
                board[row][col] = Cell::Empty;
                if best.is_none() || score > best_score {
                    best_score = score;
                    best = Some((row, col));
                }
            }
            col += 1;
        }
        row += 1;
    }
    best
}

} // verus!
