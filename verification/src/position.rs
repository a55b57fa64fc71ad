//! The game as mathematics: a position, the moves that are legal in it, the
//! position a move leads to, and how a position is classified.

use vstd::prelude::*;
use crate::player::Player;
use crate::board::{Cells, has_line, is_full};

verus! {

/// How a position is classified. It is computed from the board whenever it
/// is asked for and stored nowhere.
#[derive(Clone, Copy, PartialEq, Eq, Debug, Structural)]
pub enum GameState {
    Winner(Player),
    Draw,
    Ongoing,
}

/// What the engine knows: the nine cells and whose turn it is.
pub ghost struct Position {
    pub cells: Cells,
    pub to_move: Player,
}

/// The position before the first move: an empty board, Cross to move.
pub open spec fn initial() -> Position {
    Position { cells: Seq::new(9, |i: int| None::<Player>), to_move: Player::Cross }
}

/// A move is legal when it names one of the nine cells and that cell is
/// empty.
pub open spec fn legal(pos: Position, space: int) -> bool {
    0 <= space < 9 && pos.cells[space] is None
}

/// The position after the player to move has marked `space`.
pub open spec fn place(pos: Position, space: int) -> Position {
    Position { cells: pos.cells.update(space, Some(pos.to_move)), to_move: pos.to_move.other() }
}

/// The classification of a board. A line of Cross is looked for first, so a
/// board on which both markers own a line counts as won by Cross.
pub open spec fn outcome(cells: Cells) -> GameState {
    if has_line(cells, Player::Cross) {
        GameState::Winner(Player::Cross)
    } else if has_line(cells, Player::Circle) {
        GameState::Winner(Player::Circle)
    } else if is_full(cells) {
        GameState::Draw
    } else {
        GameState::Ongoing
    }
}

/// The position reached from the start by making `moves` in order.
pub open spec fn replay(moves: Seq<int>) -> Position
    decreases moves.len(),
{
    if moves.len() == 0 {
        initial()
    } else {
        place(replay(moves.drop_last()), moves.last())
    }
}

/// Each of `moves` is legal in the position in which it is made.
pub open spec fn all_legal(moves: Seq<int>) -> bool {
    forall|k: int| 0 <= k < moves.len() ==> legal(#[trigger] replay(moves.take(k)), moves[k])
}

/// The position can be reached from the start by legal moves alone.
pub open spec fn reachable(pos: Position) -> bool {
    exists|moves: Seq<int>| all_legal(moves) && replay(moves) == pos
}

/// The marker of the player who makes move number `k`, counted from zero.
pub open spec fn mover(k: int) -> Player {
    if k % 2 == 0 {
        Player::Cross
    } else {
        Player::Circle
    }
}

} // verus!
