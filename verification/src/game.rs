//! The engine: it owns the board and the turn, accepts or rejects moves, and
//! classifies the position.

use vstd::prelude::*;
use crate::player::Player;
use crate::board::{Board, CELLS, LINES, has_line, line, owns_line};
use crate::position::{GameState, Position, initial, legal, outcome, place, reachable};

verus! {

/// The one error of the engine: the move names no cell of the board, or a
/// cell that already holds a marker.
#[derive(Clone, Copy, PartialEq, Eq, Debug, Structural)]
pub struct InvalidMoveError;

/// A game in progress.
pub struct TicTacToe {
    board: Board,
    current_player: Player,
}

impl View for TicTacToe {
    type V = Position;

    closed spec fn view(&self) -> Position {
        Position { cells: self.board@, to_move: self.current_player }
    }
}

/// The three positions of winning line `l`.
fn line_positions(l: usize) -> (at: (usize, usize, usize))
    requires
        l < LINES,
    ensures
        (at.0 as int, at.1 as int, at.2 as int) == line(l as int),
        at.0 < CELLS,
        at.1 < CELLS,
        at.2 < CELLS,
{
    match l {
        0 => (0, 1, 2),
        1 => (3, 4, 5),
        2 => (6, 7, 8),
        3 => (0, 3, 6),
        4 => (1, 4, 7),
        5 => (2, 5, 8),
        6 => (0, 4, 8),
        _ => (2, 4, 6),
    }
}

impl TicTacToe {
    /// The game has come about by legal moves from the start.
    pub open spec fn wf(&self) -> bool {
        reachable(self@)
    }

    /// Every game has a board of nine cells.
    pub proof fn lemma_nine_cells(&self)
        ensures
            self@.cells.len() == 9,
    {
    }

    /// A new game: an empty board, Cross to move.
    pub fn new() -> (game: TicTacToe)
        ensures
            game@ == initial(),
            game.wf(),
    {
        let game = TicTacToe { board: Board::empty(), current_player: Player::Cross };
        proof {
            crate::laws::lemma_start_is_reachable();
        }
        game
    }

    /// The board as it stands.
    pub fn board(&self) -> (board: &Board)
        ensures
            board@ == self@.cells,
    {
        &self.board
    }

    /// The marker of the player whose turn it is.
    pub fn current_player(&self) -> (player: Player)
        ensures
            player == self@.to_move,
    {
        self.current_player
    }

    /// Marks `space` for the player to move and passes the turn. A move that
    /// names no cell, or a cell that is taken, is rejected and changes
    /// nothing.
    pub fn play(&mut self, space: usize) -> (result: Result<(), InvalidMoveError>)
        ensures
            result is Ok <==> legal(old(self)@, space as int),
            result is Ok ==> final(self)@ == place(old(self)@, space as int),
            result is Err ==> *final(self) == *old(self),
            old(self).wf() ==> final(self).wf(),
    {
        if space >= CELLS {
            return Err(InvalidMoveError);
        }
        if self.board.0[space].is_some() {
            return Err(InvalidMoveError);
        }
        proof {
            if self.wf() {
                crate::laws::lemma_reachable_is_kept(self@, space as int);
            }
        }
        self.board.0[space] = Some(self.current_player);
        self.current_player = self.current_player.opponent();
        Ok(())
    }

    /// The classification of the position: won by Cross, won by Circle,
    /// drawn, or still open, looked for in that order.
    pub fn get_state(&self) -> (state: GameState)
        ensures
            state == outcome(self@.cells),
    {
        if self.is_win(Player::Cross) {
            return GameState::Winner(Player::Cross);
        }
        if self.is_win(Player::Circle) {
            return GameState::Winner(Player::Circle);
        }
        let mut i: usize = 0;
        while i < CELLS
            invariant
                i <= CELLS,
                !has_line(self@.cells, Player::Cross),
                !has_line(self@.cells, Player::Circle),
                forall|j: int| 0 <= j < i ==> self.board@[j] is Some,
            decreases CELLS - i,
        {
            if self.board.0[i].is_none() {
                assert(self@.cells[i as int] is None);
                return GameState::Ongoing;
            }
            i += 1;
        }
        GameState::Draw
    }

    /// Whether `player` owns one of the eight lines.
    pub fn is_win(&self, player: Player) -> (won: bool)
        ensures
            won == has_line(self@.cells, player),
    {
        let mut l: usize = 0;
        while l < LINES
            invariant
                l <= LINES,
                forall|k: int| 0 <= k < l ==> !owns_line(self.board@, player, k),
            decreases LINES - l,
        {
            let (a, b, c) = line_positions(l);
            if self.board.0[a] == Some(player) && self.board.0[b] == Some(player) && self.board.0[c]
                == Some(player) {
                assert(owns_line(self.board@, player, l as int));
                return true;
            }
            l += 1;
        }
        false
    }
}

} // verus!
