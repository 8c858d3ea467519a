//! The grid and what can be read off a snapshot of it: who holds a line,
//! whether any square is left, how many are.

use vstd::array::spec_array_update;
use vstd::prelude::*;

verus! {

/// What one square of the grid holds.
#[derive(Clone, Copy, Debug, PartialEq, Eq, Structural)]
pub enum Cell {
    Empty,
    X,
    O,
}

impl Cell {
    /// The character that stands for the mark: a blank for an empty square.
    pub open spec fn glyph(self) -> char {
        match self {
            Cell::Empty => ' ',
            Cell::X => 'X',
            Cell::O => 'O',
        }
    }

    /// The character to print for the mark.
    pub fn symbol(self) -> (symbol: char)
        ensures
            symbol == self.glyph(),
    {
        match self {
            Cell::Empty => ' ',
            Cell::X => 'X',
            Cell::O => 'O',
        }
    }
}

/// The grid: three rows of three squares, indexed `[row][column]`.
pub type Board = [[Cell; 3]; 3];

/// `(r, c)` names a square of the grid.
pub open spec fn in_grid(r: int, c: int) -> bool {
    0 <= r < 3 && 0 <= c < 3
}

/// Row `r` is entirely `mark`.
pub open spec fn row_is(b: Board, r: int, mark: Cell) -> bool {
    b[r][0] == mark && b[r][1] == mark && b[r][2] == mark
}

/// Column `c` is entirely `mark`.
pub open spec fn column_is(b: Board, c: int, mark: Cell) -> bool {
    b[0][c] == mark && b[1][c] == mark && b[2][c] == mark
}

/// The diagonal from the top left corner is entirely `mark`.
pub open spec fn diagonal_is(b: Board, mark: Cell) -> bool {
    b[0][0] == mark && b[1][1] == mark && b[2][2] == mark
}

/// The diagonal from the top right corner is entirely `mark`.
pub open spec fn anti_diagonal_is(b: Board, mark: Cell) -> bool {
    b[0][2] == mark && b[1][1] == mark && b[2][0] == mark
}

/// `mark` fills one of the eight lines: a row, a column or a diagonal.
pub open spec fn wins(b: Board, mark: Cell) -> bool {
    ||| row_is(b, 0, mark)
    ||| row_is(b, 1, mark)
    ||| row_is(b, 2, mark)
    ||| column_is(b, 0, mark)
    ||| column_is(b, 1, mark)
    ||| column_is(b, 2, mark)
    ||| diagonal_is(b, mark)
    ||| anti_diagonal_is(b, mark)
}

/// No square is empty.
pub open spec fn full(b: Board) -> bool {
    forall|r: int, c: int| in_grid(r, c) ==> #[trigger] b[r][c] != Cell::Empty
}

/// One for an empty square, nothing for a taken one.
pub open spec fn vacancy(cell: Cell) -> nat {
    if cell == Cell::Empty {
        1
    } else {
        0
    }
}

/// How many of the three squares of row `r` are empty.
pub open spec fn row_empty_count(b: Board, r: int) -> nat {
    vacancy(b[r][0]) + vacancy(b[r][1]) + vacancy(b[r][2])
}

/// How many of the nine squares are empty.
pub open spec fn empty_count(b: Board) -> nat {
    row_empty_count(b, 0) + row_empty_count(b, 1) + row_empty_count(b, 2)
}

/// The grid `b` with `mark` written to square `(r, c)`.
pub open spec fn place(b: Board, r: int, c: int, mark: Cell) -> Board {
    spec_array_update(b, r, spec_array_update(b[r], c, mark))
}

/// Two grids that agree square by square are the same grid.
pub proof fn lemma_board_ext(a: Board, b: Board)
    requires
        forall|r: int, c: int| in_grid(r, c) ==> a[r][c] == b[r][c],
    ensures
        a == b,
{
    assert forall|r: int| 0 <= r < 3 implies a[r] == b[r] by {
        assert(in_grid(r, 0) && in_grid(r, 1) && in_grid(r, 2));
    }
}

/// `place` changes the square it names and no other.
pub proof fn lemma_place_reads(b: Board, r: int, c: int, mark: Cell)
    requires
        in_grid(r, c),
    ensures
        place(b, r, c, mark)[r][c] == mark,
        forall|r2: int, c2: int|
            in_grid(r2, c2) && !(r2 == r && c2 == c) ==> #[trigger] place(b, r, c, mark)[r2][c2]
                == b[r2][c2],
{
}

/// Emptying the square that was just filled gives the grid back.
pub proof fn lemma_place_undo(b: Board, r: int, c: int, mark: Cell)
    requires
        in_grid(r, c),
    ensures
        place(place(b, r, c, mark), r, c, b[r][c]) == b,
{
    lemma_place_reads(b, r, c, mark);
    let filled = place(b, r, c, mark);
    lemma_place_reads(filled, r, c, b[r][c]);
    lemma_board_ext(place(filled, r, c, b[r][c]), b);
}

/// A mark written to an empty square leaves one empty square fewer.
pub proof fn lemma_place_fills(b: Board, r: int, c: int, mark: Cell)
    requires
        in_grid(r, c),
        b[r][c] == Cell::Empty,
        mark != Cell::Empty,
    ensures
        empty_count(place(b, r, c, mark)) + 1 == empty_count(b),
{
    lemma_place_reads(b, r, c, mark);
}

/// A grid is full exactly when it counts no empty square.
pub proof fn lemma_full_iff_no_empty(b: Board)
    ensures
        full(b) <==> empty_count(b) == 0,
{
}

/// Whether `player` holds a full row, a full column or one of the two
/// diagonals of `board`.
pub fn check_win(board: &Board, player: Cell) -> (won: bool)
    ensures
        won == wins(*board, player),
{
    let mut i: usize = 0;
    while i < 3
        invariant
            i <= 3,
            forall|k: int| 0 <= k < i ==> !row_is(*board, k, player),
            forall|k: int| 0 <= k < i ==> !column_is(*board, k, player),
        decreases 3 - i,
    {
        if board[i][0] == player && board[i][1] == player && board[i][2] == player {
            return true;
        }
        if board[0][i] == player && board[1][i] == player && board[2][i] == player {
            return true;
        }
        i += 1;
    }
    (board[0][0] == player && board[1][1] == player && board[2][2] == player) || (board[0][2]
        == player && board[1][1] == player && board[2][0] == player)
}

/// Whether every square of `board` is taken.
pub fn is_full(board: &Board) -> (filled: bool)
    ensures
        filled == full(*board),
        filled <==> empty_count(*board) == 0,
{
    proof {
        lemma_full_iff_no_empty(*board);
    }
    let mut row: usize = 0;
    while row < 3
        invariant
            row <= 3,
            forall|r: int, c: int| 0 <= r < row && 0 <= c < 3 ==> #[trigger] board[r][c] != Cell::Empty,
        decreases 3 - row,
    {
        let mut col: usize = 0;
        while col < 3
            invariant
                row < 3,
                col <= 3,
                forall|r: int, c: int|
                    0 <= r < row && 0 <= c < 3 ==> #[trigger] board[r][c] != Cell::Empty,
                forall|c: int| 0 <= c < col ==> #[trigger] board[row as int][c] != Cell::Empty,
            decreases 3 - col,
        {
            if board[row][col] == Cell::Empty {
                return false;
            }
            col += 1;
        }
        row += 1;
    }
    true
}

} // verus!
