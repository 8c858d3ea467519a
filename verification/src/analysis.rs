//! What holds of the search on every grid: the range of its scores, how a
//! score follows from the scores one ply down, and what the search comes to
//! in the minimising role, at a horizon of zero and for the chosen move.

use crate::board::{empty_count, full, in_grid, place, wins, Board, Cell};
use crate::board::{lemma_full_iff_no_empty, lemma_place_fills, lemma_place_reads};
use crate::search::{
    candidate_value, child_value, children_value, comes_before, is_best_move, mover, search_value,
    worst_score,
};
use vstd::prelude::*;

verus! {

/// Every score is -1, 0 or 1.
pub proof fn lemma_search_value_range(b: Board, is_maxing: bool, depth: int, max_depth: int)
    ensures
        -1 <= search_value(b, is_maxing, depth, max_depth) <= 1,
    decreases empty_count(b), 11int,
{
    if depth < max_depth && !wins(b, Cell::O) && !wins(b, Cell::X) && !full(b) {
        lemma_children_value_range(b, is_maxing, depth, max_depth, 9);
    }
}

/// The score of the position one mark further is -1, 0 or 1.
pub proof fn lemma_child_value_range(
    b: Board,
    is_maxing: bool,
    r: int,
    c: int,
    depth: int,
    max_depth: int,
)
    ensures
        -1 <= child_value(b, is_maxing, r, c, depth, max_depth) <= 1,
    decreases empty_count(b), 0int,
{
    if in_grid(r, c) && b[r][c] == Cell::Empty {
        lemma_place_fills(b, r, c, mover(is_maxing));
        lemma_search_value_range(place(b, r, c, mover(is_maxing)), false, depth + 1, max_depth);
    }
}

/// The best score over the first `k` squares is -1, 0 or 1.
pub proof fn lemma_children_value_range(
    b: Board,
    is_maxing: bool,
    depth: int,
    max_depth: int,
    k: int,
)
    ensures
        -1 <= children_value(b, is_maxing, depth, max_depth, k) <= 1,
    decreases empty_count(b), 1 + k,
{
    if k > 0 {
        lemma_children_value_range(b, is_maxing, depth, max_depth, k - 1);
        lemma_child_value_range(b, is_maxing, (k - 1) / 3, (k - 1) % 3, depth, max_depth);
    }
}

/// Score `a` is at least as good as score `b` for the role given.
pub open spec fn no_worse(is_maxing: bool, a: int, b: int) -> bool {
    if is_maxing {
        a >= b
    } else {
        a <= b
    }
}

/// The best score over the first `k` squares is no worse than the score behind
/// any empty square among them, and is the score behind one of them, if any
/// of them is empty.
proof fn lemma_children_value_is_best(
    b: Board,
    is_maxing: bool,
    depth: int,
    max_depth: int,
    k: int,
)
    requires
        0 <= k <= 9,
    ensures
        forall|r: int, c: int|
            in_grid(r, c) && 3 * r + c < k && b[r][c] == Cell::Empty ==> no_worse(
                is_maxing,
                children_value(b, is_maxing, depth, max_depth, k),
                #[trigger] child_value(b, is_maxing, r, c, depth, max_depth),
            ),
        (exists|r: int, c: int|
            in_grid(r, c) && 3 * r + c < k && b[r][c] == Cell::Empty && #[trigger] child_value(
                b,
                is_maxing,
                r,
                c,
                depth,
                max_depth,
            ) == children_value(b, is_maxing, depth, max_depth, k)) || (children_value(
            b,
            is_maxing,
            depth,
            max_depth,
            k,
        ) == worst_score(is_maxing) && forall|r: int, c: int|
            in_grid(r, c) && 3 * r + c < k ==> #[trigger] b[r][c] != Cell::Empty),
    decreases k,
{
    if k > 0 {
        lemma_children_value_is_best(b, is_maxing, depth, max_depth, k - 1);
        lemma_children_value_range(b, is_maxing, depth, max_depth, k - 1);
        lemma_child_value_range(b, is_maxing, (k - 1) / 3, (k - 1) % 3, depth, max_depth);
    }
}

/// Where the game goes on, the score of a position is the best, for the role
/// to move, of the scores behind its empty squares: no empty square leads to
/// a better one, and one of them leads to exactly this one.
pub proof fn lemma_search_value_is_best_child(
    b: Board,
    is_maxing: bool,
    depth: int,
    max_depth: int,
)
    requires
        depth < max_depth,
        !wins(b, Cell::O),
        !wins(b, Cell::X),
        !full(b),
    ensures
        forall|r: int, c: int|
            in_grid(r, c) && b[r][c] == Cell::Empty ==> no_worse(
                is_maxing,
                search_value(b, is_maxing, depth, max_depth),
                #[trigger] child_value(b, is_maxing, r, c, depth, max_depth),
            ),
        exists|r: int, c: int|
            in_grid(r, c) && b[r][c] == Cell::Empty && #[trigger] child_value(
                b,
                is_maxing,
                r,
                c,
                depth,
                max_depth,
            ) == search_value(b, is_maxing, depth, max_depth),
{
    lemma_children_value_is_best(b, is_maxing, depth, max_depth, 9);
}

/// At most one square of a grid is its best move.
pub proof fn lemma_best_move_is_unique(
    b: Board,
    max_depth: int,
    r1: int,
    c1: int,
    r2: int,
    c2: int,
)
    requires
        is_best_move(b, max_depth, r1, c1),
        is_best_move(b, max_depth, r2, c2),
    ensures
        r1 == r2,
        c1 == c2,
{
    // Of two distinct best moves the earlier one would be worth less than
    // the later one, and the later one no more than the earlier one.
    if comes_before(r1, c1, r2, c2) {
        assert(candidate_value(b, r1, c1, max_depth) < candidate_value(b, r2, c2, max_depth));
    } else if comes_before(r2, c2, r1, c1) {
        assert(candidate_value(b, r2, c2, max_depth) < candidate_value(b, r1, c1, max_depth));
    }
}

/// `(r, c)` is the first empty square of `b` in row-major order.
pub open spec fn is_first_empty(b: Board, r: int, c: int) -> bool {
    &&& in_grid(r, c)
    &&& b[r][c] == Cell::Empty
    &&& forall|r2: int, c2: int|
        in_grid(r2, c2) && comes_before(r2, c2, r, c) ==> #[trigger] b[r2][c2] != Cell::Empty
}

/// With a horizon of zero plies every square is worth the same, so the best
/// move is the first empty square in row-major order.
pub proof fn lemma_zero_horizon_picks_first_empty(b: Board, max_depth: int, r: int, c: int)
    requires
        max_depth <= 0,
    ensures
        is_best_move(b, max_depth, r, c) <==> is_first_empty(b, r, c),
{
    if is_best_move(b, max_depth, r, c) {
        assert forall|r2: int, c2: int|
            in_grid(r2, c2) && comes_before(r2, c2, r, c) implies #[trigger] b[r2][c2]
            != Cell::Empty by {
            if b[r2][c2] == Cell::Empty {
                assert(candidate_value(b, r2, c2, max_depth) < candidate_value(
                    b,
                    r,
                    c,
                    max_depth,
                ));
            }
        }
    }
}

/// One of the eight lines holds no `mark`: its three squares are empty or
/// belong to the other side.
pub open spec fn has_line_without(b: Board, mark: Cell) -> bool {
    ||| b[0][0] != mark && b[0][1] != mark && b[0][2] != mark
    ||| b[1][0] != mark && b[1][1] != mark && b[1][2] != mark
    ||| b[2][0] != mark && b[2][1] != mark && b[2][2] != mark
    ||| b[0][0] != mark && b[1][0] != mark && b[2][0] != mark
    ||| b[0][1] != mark && b[1][1] != mark && b[2][1] != mark
    ||| b[0][2] != mark && b[1][2] != mark && b[2][2] != mark
    ||| b[0][0] != mark && b[1][1] != mark && b[2][2] != mark
    ||| b[0][2] != mark && b[1][1] != mark && b[2][0] != mark
}

/// What the minimising role comes to. Only `X` is written from here on, so
/// the marks of `O` settle the score: 1 where `O` holds a line already, -1
/// where some line is free of `O` and `X` can have it, and otherwise 0 if
/// the grid fills up before the horizon and -1 if it does not.
pub open spec fn minimising_value(b: Board, depth: int, max_depth: int) -> int {
    if depth >= max_depth {
        -1
    } else if wins(b, Cell::O) {
        1
    } else if has_line_without(b, Cell::O) {
        -1
    } else if depth + empty_count(b) >= max_depth {
        -1
    } else {
        0
    }
}

/// The score that every position one `X` further has, where the game goes on
/// from `b` and `O` holds no line.
spec fn minimising_child_value(b: Board, depth: int, max_depth: int) -> int {
    if has_line_without(b, Cell::O) || depth + empty_count(b) >= max_depth {
        -1
    } else {
        0
    }
}

/// In the minimising role the search computes `minimising_value`.
pub proof fn lemma_minimising_value(b: Board, depth: int, max_depth: int)
    ensures
        search_value(b, false, depth, max_depth) == minimising_value(b, depth, max_depth),
    decreases empty_count(b), 11int,
{
    lemma_full_iff_no_empty(b);
    if depth < max_depth && !wins(b, Cell::O) && !wins(b, Cell::X) && !full(b) {
        lemma_minimising_children(b, depth, max_depth, 9);
    }
}

/// In the minimising role every empty square leads to the same score, so
/// the best score over the first `k` squares is that score as soon as one of
/// them is empty.
proof fn lemma_minimising_children(b: Board, depth: int, max_depth: int, k: int)
    requires
        0 <= k <= 9,
        depth < max_depth,
        !wins(b, Cell::O),
    ensures
        children_value(b, false, depth, max_depth, k) == (if exists|r: int, c: int|
            in_grid(r, c) && 3 * r + c < k && #[trigger] b[r][c] == Cell::Empty {
            minimising_child_value(b, depth, max_depth)
        } else {
            1
        }),
    decreases empty_count(b), 1 + k,
{
    if k > 0 {
        let r0 = (k - 1) / 3;
        let c0 = (k - 1) % 3;
        lemma_minimising_children(b, depth, max_depth, k - 1);
        if b[r0][c0] == Cell::Empty {
            let next = place(b, r0, c0, Cell::X);
            lemma_place_reads(b, r0, c0, Cell::X);
            lemma_place_fills(b, r0, c0, Cell::X);
            lemma_minimising_value(next, depth + 1, max_depth);
            assert(child_value(b, false, r0, c0, depth, max_depth) == minimising_child_value(
                b,
                depth,
                max_depth,
            ));
        }
    }
}

/// What the engine's mark on an empty square is worth follows from where its
/// own marks then stand, not from any reply.
pub proof fn lemma_candidate_value(b: Board, r: int, c: int, max_depth: int)
    ensures
        candidate_value(b, r, c, max_depth) == minimising_value(
            place(b, r, c, Cell::O),
            0,
            max_depth,
        ),
{
    lemma_minimising_value(place(b, r, c, Cell::O), 0, max_depth);
}

/// Where every line holds an `O` and none is all `O`, at least four squares
/// hold an `O`, so at most five are empty.
pub proof fn lemma_blocked_grid_has_few_empty(b: Board)
    requires
        !wins(b, Cell::O),
        !has_line_without(b, Cell::O),
    ensures
        empty_count(b) <= 5,
{
}

/// A horizon of six plies or more is as good as none: every square is worth
/// what it is worth to the search without a bound.
pub proof fn lemma_six_plies_suffice(b: Board, r: int, c: int, max_depth: int, further: int)
    requires
        6 <= max_depth <= further,
    ensures
        candidate_value(b, r, c, max_depth) == candidate_value(b, r, c, further),
{
    let next = place(b, r, c, Cell::O);
    lemma_candidate_value(b, r, c, max_depth);
    lemma_candidate_value(b, r, c, further);
    if !wins(next, Cell::O) && !has_line_without(next, Cell::O) {
        lemma_blocked_grid_has_few_empty(next);
    }
}

/// With a horizon of six plies or more the best move is the best move of the
/// search without a bound.
pub proof fn lemma_six_plies_choose_alike(b: Board, r: int, c: int, max_depth: int, further: int)
    requires
        6 <= max_depth <= further,
    ensures
        is_best_move(b, max_depth, r, c) <==> is_best_move(b, further, r, c),
{
    assert forall|r2: int, c2: int| #[trigger]
        candidate_value(b, r2, c2, max_depth) == candidate_value(b, r2, c2, further) by {
        lemma_six_plies_suffice(b, r2, c2, max_depth, further);
    }
    assert forall|r2: int, c2: int| #[trigger]
        candidate_value(b, r2, c2, further) == candidate_value(b, r2, c2, max_depth) by {
        lemma_six_plies_suffice(b, r2, c2, max_depth, further);
    }
}

} // verus!
