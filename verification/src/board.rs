//! The 3x3 grid, its eight winning lines, and what a cell shows when drawn.

use vstd::prelude::*;
use crate::player::Player;

verus! {

/// What the nine cells hold, in row-major order.
pub type Cells = Seq<Option<Player>>;

/// The number of cells on the board.
pub const CELLS: usize = 9;

/// The number of winning lines.
pub const LINES: usize = 8;

/// The three positions of winning line `l`: rows first, then columns, then
/// the two diagonals.
pub open spec fn line(l: int) -> (int, int, int) {
    if l == 0 {
        (0, 1, 2)
    } else if l == 1 {
        (3, 4, 5)
    } else if l == 2 {
        (6, 7, 8)
    } else if l == 3 {
        (0, 3, 6)
    } else if l == 4 {
        (1, 4, 7)
    } else if l == 5 {
        (2, 5, 8)
    } else if l == 6 {
        (0, 4, 8)
    } else {
        (2, 4, 6)
    }
}

/// All three positions of line `l` hold the marker `p`.
pub open spec fn owns_line(cells: Cells, p: Player, l: int) -> bool {
    let (a, b, c) = line(l);
    cells[a] == Some(p) && cells[b] == Some(p) && cells[c] == Some(p)
}

/// The marker `p` owns at least one of the eight lines.
pub open spec fn has_line(cells: Cells, p: Player) -> bool {
    exists|l: int| 0 <= l < LINES && owns_line(cells, p, l)
}

/// Every cell holds a marker.
pub open spec fn is_full(cells: Cells) -> bool {
    forall|i: int| 0 <= i < cells.len() ==> cells[i] is Some
}

/// How many cells hold the marker `p`.
pub open spec fn marks(cells: Cells, p: Player) -> nat
    decreases cells.len(),
{
    if cells.len() == 0 {
        0
    } else {
        marks(cells.drop_last(), p) + if cells.last() == Some(p) {
            1nat
        } else {
            0nat
        }
    }
}

/// How many cells hold a marker.
pub open spec fn occupied(cells: Cells) -> nat {
    marks(cells, Player::Cross) + marks(cells, Player::Circle)
}

/// The character that stands for the empty cell at `index`: its own number.
pub open spec fn placeholder(index: int) -> char {
    seq!['0', '1', '2', '3', '4', '5', '6', '7', '8'][index]
}

/// What a cell shows when the board is drawn: the marker's symbol, or the
/// cell's own number while it is empty.
pub open spec fn identifier(cell: Option<Player>, index: int) -> Seq<char> {
    match cell {
        Some(Player::Cross) => seq!['X'],
        Some(Player::Circle) => seq!['O'],
        None => seq![placeholder(index)],
    }
}

/// The grid: nine cells, each empty or holding one marker.
pub struct Board(pub [Option<Player>; 9]);

impl View for Board {
    type V = Cells;

    open spec fn view(&self) -> Cells {
        self.0@
    }
}

impl Board {
    /// A board on which no cell holds a marker.
    pub fn empty() -> (board: Board)
        ensures
            board@ == Seq::new(9, |i: int| None::<Player>),
    {
        let board = Board([None, None, None, None, None, None, None, None, None]);
        assert(board@ =~= Seq::new(9, |i: int| None::<Player>));
        board
    }

    /// The text shown for the cell at `index`: "X" or "O" for a marker, the
    /// cell's number for an empty cell.
    pub fn get_identifier(&self, index: usize) -> (text: &'static str)
        requires
            index < CELLS,
        ensures
            text@ == identifier(self@[index as int], index as int),
    {
        let num_string: [&'static str; 9] = ["0", "1", "2", "3", "4", "5", "6", "7", "8"];
        proof {
            reveal_strlit("0");
            reveal_strlit("1");
            reveal_strlit("2");
            reveal_strlit("3");
            reveal_strlit("4");
            reveal_strlit("5");
            reveal_strlit("6");
            reveal_strlit("7");
            reveal_strlit("8");
            reveal_strlit("X");
            reveal_strlit("O");
        }
        let text = match self.0[index] {
            Some(player) => match player {
                Player::Cross => "X",
                Player::Circle => "O",
            },
            None => num_string[index],
        };
        assert(text@ =~= identifier(self@[index as int], index as int));
        text
    }
}

} // verus!
