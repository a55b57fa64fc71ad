//! The board as text: three rows of three cells, with a rule between rows.

use vstd::prelude::*;
use vstd::string::StringExecFns;
use crate::board::{Board, Cells, identifier};

verus! {

/// One row of the grid: its three cells, set apart by bars, with a blank at
/// either end.
pub open spec fn row_text(cells: Cells, row: int) -> Seq<char> {
    " "@ + identifier(cells[3 * row], 3 * row) + " | "@ + identifier(
        cells[3 * row + 1],
        3 * row + 1,
    ) + " | "@ + identifier(cells[3 * row + 2], 3 * row + 2) + " "@
}

/// The line drawn between two rows, with the line breaks around it.
pub open spec fn rule_text() -> Seq<char> {
    "\n-----------\n"@
}

/// The whole grid: an empty cell shows its number, a taken cell its marker.
pub open spec fn grid_text(cells: Cells) -> Seq<char> {
    row_text(cells, 0) + rule_text() + row_text(cells, 1) + rule_text() + row_text(cells, 2)
}

impl Board {
    /// Appends row `row` of the grid to `out`.
    fn push_row(&self, out: &mut String, row: usize)
        requires
            row < 3,
        ensures
            final(out)@ == old(out)@ + row_text(self@, row as int),
    {
        let first: usize = 3 * row;
        out.append(" ");
        out.append(self.get_identifier(first));
        out.append(" | ");
        out.append(self.get_identifier(first + 1));
        out.append(" | ");
        out.append(self.get_identifier(first + 2));
        out.append(" ");
        assert(final(out)@ =~= old(out)@ + row_text(self@, row as int));
    }

    /// The grid as text, without a line break at its end.
    pub fn render(&self) -> (text: String)
        ensures
            text@ == grid_text(self@),
    {
        let mut text = String::new();
        self.push_row(&mut text, 0);
        text.append("\n-----------\n");
        self.push_row(&mut text, 1);
        text.append("\n-----------\n");
        self.push_row(&mut text, 2);
        assert(text@ =~= grid_text(self@));
        text
    }
}

} // verus!
