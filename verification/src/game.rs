//! One game from the empty grid to its end: whose turn it is, which moves are
//! legal, and when the game is over.

use crate::board::{check_win, empty_count, full, in_grid, place, wins, Board, Cell};
use crate::board::{lemma_full_iff_no_empty, lemma_place_fills, lemma_place_reads};
use crate::search::{best_move, is_best_move};
use vstd::prelude::*;

verus! {

/// Who plays `O` against the human who plays `X`.
#[derive(Clone, Copy, Debug, PartialEq, Eq, Structural)]
pub enum Opponent {
    Engine,
    Human,
}

/// How a game stands.
#[derive(Clone, Copy, Debug, PartialEq, Eq, Structural)]
pub enum Status {
    /// The next move is awaited.
    InPlay,
    /// The mark named filled a line with its last move.
    Won(Cell),
    /// Nine moves were made and none of them filled a line.
    Drawn,
}

/// Why a move was turned down.
#[derive(Clone, Copy, Debug, PartialEq, Eq, Structural)]
pub enum MoveError {
    /// The game is won or drawn already.
    GameOver,
    /// The row or the column is not 0, 1 or 2.
    OutOfGrid,
    /// The square holds a mark already.
    Taken,
}

/// The opponent behind a menu entry: 1 stands for the engine, 2 for a second
/// human, and no other number stands for anything.
pub fn opponent_for_choice(choice: u8) -> (opponent: Option<Opponent>)
    ensures
        opponent == match choice {
            1 => Some(Opponent::Engine),
            2 => Some(Opponent::Human),
            _ => None,
        },
{
    match choice {
        1 => Some(Opponent::Engine),
        2 => Some(Opponent::Human),
        _ => None,
    }
}

/// The mark that moves after `turns` moves: `X` opens, and the two marks
/// take turns.
pub open spec fn player_after(turns: int) -> Cell {
    if turns % 2 == 0 {
        Cell::X
    } else {
        Cell::O
    }
}

/// What a game is at any moment: the grid, how many moves were made, who
/// plays `O`, and the engine's search horizon.
pub struct GameView {
    pub board: Board,
    pub turns: int,
    pub opponent: Opponent,
    pub max_depth: int,
}

impl GameView {
    /// The mark that made the last move. Meaningful once a move was made.
    pub open spec fn last_player(self) -> Cell {
        player_after(self.turns - 1)
    }

    /// The mark that is to move.
    pub open spec fn player(self) -> Cell {
        player_after(self.turns)
    }

    /// Won as soon as the last move filled a line, drawn after nine moves
    /// without one.
    pub open spec fn status(self) -> Status {
        if self.turns > 0 && wins(self.board, self.last_player()) {
            Status::Won(self.last_player())
        } else if self.turns >= 9 {
            Status::Drawn
        } else {
            Status::InPlay
        }
    }

    /// The game as it stands after the mark to move is written to `(r, c)`.
    pub open spec fn after_move(self, r: int, c: int) -> GameView {
        GameView { board: place(self.board, r, c, self.player()), turns: self.turns + 1, ..self }
    }

    /// What holds of every game that was played by the rules: each move
    /// filled one empty square, and only the last one may have filled a line.
    pub open spec fn reachable(self) -> bool {
        &&& 0 <= self.turns <= 9
        &&& empty_count(self.board) + self.turns == 9
        &&& wins(self.board, Cell::X) ==> self.turns > 0 && self.last_player() == Cell::X
        &&& wins(self.board, Cell::O) ==> self.turns > 0 && self.last_player() == Cell::O
    }
}

/// A legal move keeps a game within the rules.
pub proof fn lemma_move_keeps_reachable(game: GameView, r: int, c: int)
    requires
        game.reachable(),
        game.status() == Status::InPlay,
        in_grid(r, c),
        game.board[r][c] == Cell::Empty,
    ensures
        game.after_move(r, c).reachable(),
        game.after_move(r, c).last_player() == game.player(),
{
    lemma_place_reads(game.board, r, c, game.player());
    lemma_place_fills(game.board, r, c, game.player());
}

/// In a game played by the rules the two marks never both hold a line.
pub proof fn lemma_at_most_one_winner(game: GameView)
    requires
        game.reachable(),
    ensures
        !(wins(game.board, Cell::X) && wins(game.board, Cell::O)),
{
}

/// A game played by the rules is in play as long as a square is empty and no
/// line is filled, and a game in play has an empty square.
pub proof fn lemma_in_play_has_empty_square(game: GameView)
    requires
        game.reachable(),
    ensures
        game.status() == Status::InPlay <==> !full(game.board) && !wins(game.board, Cell::X)
            && !wins(game.board, Cell::O),
{
    lemma_full_iff_no_empty(game.board);
}

/// A game in progress or at its end.
pub struct Game {
    board: Board,
    turns: u8,
    opponent: Opponent,
    max_depth: i32,
}

impl View for Game {
    type V = GameView;

    closed spec fn view(&self) -> GameView {
        GameView {
            board: self.board,
            turns: self.turns as int,
            opponent: self.opponent,
            max_depth: self.max_depth as int,
        }
    }
}

impl Game {
    #[verifier::type_invariant]
    spec fn played_by_the_rules(self) -> bool {
        self@.reachable()
    }

    /// A game on the empty grid, with `X` to move.
    pub fn new(opponent: Opponent, max_depth: i32) -> (game: Game)
        ensures
            game@.turns == 0,
            game@.opponent == opponent,
            game@.max_depth == max_depth,
            forall|r: int, c: int| in_grid(r, c) ==> #[trigger] game@.board[r][c] == Cell::Empty,
            game@.status() == Status::InPlay,
    {
        let board: Board = [[Cell::Empty; 3]; 3];
        Game { board, turns: 0, opponent, max_depth }
    }

    /// The grid as it stands.
    pub fn board(&self) -> (board: &Board)
        ensures
            *board == self@.board,
            self@.reachable(),
    {
        proof {
            use_type_invariant(self);
        }
        &self.board
    }

    /// How many moves were made.
    pub fn turns(&self) -> (turns: u8)
        ensures
            turns == self@.turns,
            turns <= 9,
    {
        proof {
            use_type_invariant(self);
        }
        self.turns
    }

    /// Who plays `O`.
    pub fn opponent(&self) -> (opponent: Opponent)
        ensures
            opponent == self@.opponent,
    {
        self.opponent
    }

    /// The engine's search horizon.
    pub fn max_depth(&self) -> (max_depth: i32)
        ensures
            max_depth == self@.max_depth,
    {
        self.max_depth
    }

    /// The mark that is to move: `X` on the first move and then in turns.
    pub fn player(&self) -> (player: Cell)
        ensures
            player == self@.player(),
    {
        if self.turns % 2 == 0 {
            Cell::X
        } else {
            Cell::O
        }
    }

    /// How the game stands.
    pub fn status(&self) -> (status: Status)
        ensures
            status == self@.status(),
    {
        if self.turns > 0 {
            let last = if (self.turns - 1) % 2 == 0 {
                Cell::X
            } else {
                Cell::O
            };
            if check_win(&self.board, last) {
                return Status::Won(last);
            }
        }
        if self.turns >= 9 {
            Status::Drawn
        } else {
            Status::InPlay
        }
    }

    /// Whether the next move is the engine's to make: the game is in play, it
    /// is the turn of `O`, and the engine plays `O`.
    pub fn engine_to_move(&self) -> (engine: bool)
        ensures
            engine == (self@.status() == Status::InPlay && self@.player() == Cell::O
                && self@.opponent == Opponent::Engine),
    {
        self.status() == Status::InPlay && self.player() == Cell::O && self.opponent
            == Opponent::Engine
    }

    /// The square that the engine picks on the grid as it stands, searching
    /// to the game's horizon; `None` where no square is empty.
    pub fn engine_move(&self) -> (chosen: Option<(usize, usize)>)
        ensures
            chosen is None <==> full(self@.board),
            chosen matches Some((r, c)) ==> is_best_move(
                self@.board,
                self@.max_depth,
                r as int,
                c as int,
            ),
    {
        let mut scratch = self.board;
        best_move(&mut scratch, self.max_depth)
    }

    /// Writes the mark of the player to move to square `(row, col)` and says
    /// how the game then stands. A move after the end of the game, outside
    /// the grid or onto a taken square is turned down, in that order, and the
    /// game stays as it was.
    pub fn play(&mut self, row: usize, col: usize) -> (outcome: Result<Status, MoveError>)
        ensures
            old(self)@.status() != Status::InPlay ==> outcome == Err::<Status, MoveError>(
                MoveError::GameOver,
            ),
            old(self)@.status() == Status::InPlay && !in_grid(row as int, col as int) ==> outcome
                == Err::<Status, MoveError>(MoveError::OutOfGrid),
            old(self)@.status() == Status::InPlay && in_grid(row as int, col as int) && old(
                self,
            )@.board[row as int][col as int] != Cell::Empty ==> outcome == Err::<
                Status,
                MoveError,
            >(MoveError::Taken),
            old(self)@.status() == Status::InPlay && in_grid(row as int, col as int) && old(
                self,
            )@.board[row as int][col as int] == Cell::Empty ==> outcome == Ok::<Status, MoveError>(
                final(self)@.status(),
            ),
            outcome is Err ==> final(self)@ == old(self)@,
            outcome is Ok ==> final(self)@ == old(self)@.after_move(row as int, col as int),
            final(self)@.reachable(),
    {
        proof {
            use_type_invariant(&*self);
        }
        if self.status() != Status::InPlay {
            return Err(MoveError::GameOver);
        }
        if row >= 3 || col >= 3 {
            return Err(MoveError::OutOfGrid);
        }
        if self.board[row][col] != Cell::Empty {
            return Err(MoveError::Taken);
        }
        proof {
            lemma_move_keeps_reachable(self@, row as int, col as int);
        }
        let mut board = self.board;
        board[row][col] = self.player();
        *self = Game {
            board,
            turns: self.turns + 1,
            opponent: self.opponent,
            max_depth: self.max_depth,
        };
        Ok(self.status())
    }
}

} // verus!
