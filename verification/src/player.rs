//! The two markers of the game.

use vstd::prelude::*;

verus! {

/// The marker of one of the two players.
#[derive(Clone, Copy, PartialEq, Eq, Debug, Structural)]
pub enum Player {
    Cross,
    Circle,
}

impl Player {
    /// The marker that is not `self`.
    pub open spec fn other(self) -> Player {
        match self {
            Player::Cross => Player::Circle,
            Player::Circle => Player::Cross,
        }
    }

    /// The marker of the player who moves after `self`.
    pub fn opponent(self) -> (next: Player)
        ensures
            next == self.other(),
    {
        match self {
            Player::Circle => Player::Cross,
            Player::Cross => Player::Circle,
        }
    }
}

} // verus!
