//! Mathematical model of a 4x4 four-in-a-row grid.
//!
//! A grid is a sequence of 16 cells in column-major order: the cell in
//! column `c` (0..4, left to right) and row `r` (0..4, top to bottom) sits
//! at index `c * 4 + r`.  Pieces stack bottom-up within a column, so row 3
//! is the bottom row.

use vstd::prelude::*;

verus! {

/// One of the two sides that can occupy a cell of the board.
#[derive(Clone, Copy, PartialEq, Eq, Structural, Debug)]
pub enum Team {
    Cookie,
    Milk,
}

/// The state a board is in, derived afresh from its cells on every read.
#[derive(Clone, Copy, PartialEq, Eq, Structural, Debug)]
pub enum Outcome {
    InProgress,
    Won(Team),
    Draw,
}

/// A grid is well formed when it has exactly 16 cells.
pub open spec fn wf_grid(g: Seq<Option<Team>>) -> bool {
    g.len() == 16
}

/// The cell in column `c`, row `r` (row 0 is the top, row 3 the bottom).
pub open spec fn cell_at(g: Seq<Option<Team>>, c: int, r: int) -> Option<Team> {
    g[c * 4 + r]
}

/// The grid with every cell empty.
pub open spec fn empty_grid() -> Seq<Option<Team>> {
    Seq::new(16, |i: int| None)
}

/// The team holding all four cells `a`, `b`, `c`, `d`, if any.
pub open spec fn line_winner(g: Seq<Option<Team>>, a: int, b: int, c: int, d: int) -> Option<
    Team,
> {
    match g[a] {
        Some(t) => if g[b] == Some(t) && g[c] == Some(t) && g[d] == Some(t) {
            Some(t)
        } else {
            None
        },
        None => None,
    }
}

/// The team holding all of column `c`, if any.
pub open spec fn col_winner(g: Seq<Option<Team>>, c: int) -> Option<Team> {
    line_winner(g, c * 4, c * 4 + 1, c * 4 + 2, c * 4 + 3)
}

/// The team holding all of row `r`, if any.
pub open spec fn row_winner(g: Seq<Option<Team>>, r: int) -> Option<Team> {
    line_winner(g, r, 4 + r, 8 + r, 12 + r)
}

/// The team holding the top-left to bottom-right diagonal, if any.
pub open spec fn diag_winner(g: Seq<Option<Team>>) -> Option<Team> {
    line_winner(g, 0, 5, 10, 15)
}

/// The team holding the top-right to bottom-left diagonal, if any.
pub open spec fn anti_diag_winner(g: Seq<Option<Team>>) -> Option<Team> {
    line_winner(g, 3, 6, 9, 12)
}

/// The winner reported for a grid: the ten possible lines are inspected in a
/// fixed order (column 0, row 0, column 1, row 1, ..., then the two
/// diagonals) and the first complete one decides.
pub open spec fn winner_of(g: Seq<Option<Team>>) -> Option<Team> {
    if col_winner(g, 0) is Some {
        col_winner(g, 0)
    } else if row_winner(g, 0) is Some {
        row_winner(g, 0)
    } else if col_winner(g, 1) is Some {
        col_winner(g, 1)
    } else if row_winner(g, 1) is Some {
        row_winner(g, 1)
    } else if col_winner(g, 2) is Some {
        col_winner(g, 2)
    } else if row_winner(g, 2) is Some {
        row_winner(g, 2)
    } else if col_winner(g, 3) is Some {
        col_winner(g, 3)
    } else if row_winner(g, 3) is Some {
        row_winner(g, 3)
    } else if diag_winner(g) is Some {
        diag_winner(g)
    } else {
        anti_diag_winner(g)
    }
}

/// Whether team `t` holds some complete row, column or diagonal.
pub open spec fn has_line(g: Seq<Option<Team>>, t: Team) -> bool {
    col_winner(g, 0) == Some(t) || col_winner(g, 1) == Some(t) || col_winner(g, 2) == Some(t)
        || col_winner(g, 3) == Some(t) || row_winner(g, 0) == Some(t) || row_winner(g, 1) == Some(
        t,
    ) || row_winner(g, 2) == Some(t) || row_winner(g, 3) == Some(t) || diag_winner(g) == Some(t)
        || anti_diag_winner(g) == Some(t)
}

/// Whether every cell of the grid is occupied.
pub open spec fn is_full(g: Seq<Option<Team>>) -> bool {
    forall|i: int| 0 <= i < 16 ==> g[i] is Some
}

/// The outcome derived from a grid: a winner if a line is complete, a draw
/// if the grid is full without one, and in progress otherwise.
pub open spec fn outcome_of(g: Seq<Option<Team>>) -> Outcome {
    match winner_of(g) {
        Some(t) => Outcome::Won(t),
        None => if is_full(g) {
            Outcome::Draw
        } else {
            Outcome::InProgress
        },
    }
}

/// A terminal grid accepts no further placements until a reset.
pub open spec fn is_terminal(g: Seq<Option<Team>>) -> bool {
    outcome_of(g) != Outcome::InProgress
}

/// The row a piece dropped into column `c` comes to rest in: the bottom-most
/// empty row, or -1 when the column is full.
pub open spec fn drop_row(g: Seq<Option<Team>>, c: int) -> int {
    if cell_at(g, c, 3) is None {
        3
    } else if cell_at(g, c, 2) is None {
        2
    } else if cell_at(g, c, 1) is None {
        1
    } else if cell_at(g, c, 0) is None {
        0
    } else {
        -1
    }
}

/// The grid after dropping a piece of team `t` into column `c`.
/// Meaningful only when the column is not full.
pub open spec fn place_grid(g: Seq<Option<Team>>, c: int, t: Team) -> Seq<Option<Team>> {
    g.update(c * 4 + drop_row(g, c), Some(t))
}

/// The grid after dropping the pieces of `ts` one by one into column `c`.
pub open spec fn place_seq(g: Seq<Option<Team>>, c: int, ts: Seq<Team>) -> Seq<Option<Team>>
    decreases ts.len(),
{
    if ts.len() == 0 {
        g
    } else {
        place_grid(place_seq(g, c, ts.drop_last()), c, ts.last())
    }
}

} // verus!
