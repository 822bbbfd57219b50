//! Textual rendering of a grid: a bordered 4x4 block of markers, one grid
//! row per line, optionally followed by an outcome suffix.

use vstd::prelude::*;

use crate::grid::Team;
use crate::grid::cell_at;
use crate::grid::is_full;
use crate::grid::wf_grid;
use crate::grid::winner_of;
use vstd::string::StringExecFns;

verus! {

/// The marker drawn for a piece of team `t`.
pub open spec fn team_char(t: Team) -> char {
    match t {
        Team::Cookie => '🍪',
        Team::Milk => '🥛',
    }
}

/// The marker drawn for a cell: the team's marker, or the empty-cell marker.
pub open spec fn cell_char(c: Option<Team>) -> char {
    match c {
        Some(t) => team_char(t),
        None => '⬛',
    }
}

/// One rendered grid row: border, the four cells left to right, border,
/// newline.
pub open spec fn row_chars(g: Seq<Option<Team>>, r: int) -> Seq<char> {
    seq![
        '⬜',
        cell_char(cell_at(g, 0, r)),
        cell_char(cell_at(g, 1, r)),
        cell_char(cell_at(g, 2, r)),
        cell_char(cell_at(g, 3, r)),
        '⬜',
        '\n',
    ]
}

/// The bottom border line closing the frame.
pub open spec fn bottom_chars() -> Seq<char> {
    seq!['⬜', '⬜', '⬜', '⬜', '⬜', '⬜', '\n']
}

/// The plain rendering of a grid: the four rows top to bottom, then the
/// bottom border.
pub open spec fn grid_chars(g: Seq<Option<Team>>) -> Seq<char> {
    row_chars(g, 0) + row_chars(g, 1) + row_chars(g, 2) + row_chars(g, 3) + bottom_chars()
}

/// The suffix announcing a winner, without a trailing newline.
pub open spec fn wins_chars(t: Team) -> Seq<char> {
    seq![team_char(t), ' ', 'w', 'i', 'n', 's', '!']
}

/// The suffix announcing a draw, without a trailing newline.
pub open spec fn draw_chars() -> Seq<char> {
    seq!['N', 'o', ' ', 'w', 'i', 'n', 'n', 'e', 'r', '.']
}

/// The terminal rendering of a grid, if it is terminal: the grid followed
/// by the winner or draw suffix and a newline.  `None` for a game still in
/// progress.
pub open spec fn result_chars(g: Seq<Option<Team>>) -> Option<Seq<char>> {
    match winner_of(g) {
        Some(t) => Some(grid_chars(g) + wins_chars(t) + seq!['\n']),
        None => if is_full(g) {
            Some(grid_chars(g) + draw_chars() + seq!['\n'])
        } else {
            None
        },
    }
}

/// The rendering returned for a state read: the terminal rendering when the
/// grid is terminal, the plain rendering otherwise.
pub open spec fn render_chars(g: Seq<Option<Team>>) -> Seq<char> {
    match result_chars(g) {
        Some(s) => s,
        None => grid_chars(g),
    }
}

/// The rendering of an ephemeral snapshot grid: as for a state read, but
/// without a newline after the outcome suffix.
pub open spec fn snapshot_chars(g: Seq<Option<Team>>) -> Seq<char> {
    match winner_of(g) {
        Some(t) => grid_chars(g) + wins_chars(t),
        None => if is_full(g) {
            grid_chars(g) + draw_chars()
        } else {
            grid_chars(g)
        },
    }
}

/// The marker for one cell, as a one-character string slice.
fn cell_marker(cell: &Option<Team>) -> (r: &'static str)
    ensures
        r@ == seq![cell_char(*cell)],
{
    match cell {
        Some(Team::Cookie) => {
            proof {
                reveal_strlit("🍪");
            }
            let m = "🍪";
            proof {
                assert(m@ =~= seq![cell_char(*cell)]);
            }
            m
        },
        Some(Team::Milk) => {
            proof {
                reveal_strlit("🥛");
            }
            let m = "🥛";
            proof {
                assert(m@ =~= seq![cell_char(*cell)]);
            }
            m
        },
        None => {
            proof {
                reveal_strlit("⬛");
            }
            let m = "⬛";
            proof {
                assert(m@ =~= seq![cell_char(*cell)]);
            }
            m
        },
    }
}

/// Appends the rendering of grid row `r` to `s`.
fn push_row(s: &mut String, cells: &Vec<Option<Team>>, r: usize)
    requires
        wf_grid(cells@),
        r < 4,
    ensures
        final(s)@ == old(s)@ + row_chars(cells@, r as int),
{
    proof {
        reveal_strlit("⬜");
        reveal_strlit("⬜\n");
    }
    s.append("⬜");
    s.append(cell_marker(&cells[r]));
    s.append(cell_marker(&cells[4 + r]));
    s.append(cell_marker(&cells[8 + r]));
    s.append(cell_marker(&cells[12 + r]));
    s.append("⬜\n");
    proof {
        assert(s@ =~= old(s)@ + row_chars(cells@, r as int));
    }
}

/// The plain rendering of a board's cells.
pub fn grid_string(cells: &Vec<Option<Team>>) -> (out: String)
    requires
        wf_grid(cells@),
    ensures
        out@ == grid_chars(cells@),
{
    let mut s = String::new();
    push_row(&mut s, cells, 0);
    push_row(&mut s, cells, 1);
    push_row(&mut s, cells, 2);
    push_row(&mut s, cells, 3);
    proof {
        reveal_strlit("⬜⬜⬜⬜⬜⬜\n");
    }
    s.append("⬜⬜⬜⬜⬜⬜\n");
    proof {
        assert(s@ =~= grid_chars(cells@));
    }
    s
}

/// Appends the winner suffix for team `t`, without a trailing newline.
pub fn push_wins(s: &mut String, t: Team)
    ensures
        final(s)@ == old(s)@ + wins_chars(t),
{
    match t {
        Team::Cookie => {
            proof {
                reveal_strlit("🍪 wins!");
            }
            s.append("🍪 wins!");
        },
        Team::Milk => {
            proof {
                reveal_strlit("🥛 wins!");
            }
            s.append("🥛 wins!");
        },
    }
    proof {
        assert(s@ =~= old(s)@ + wins_chars(t));
    }
}

/// Appends the draw suffix, without a trailing newline.
pub fn push_draw(s: &mut String)
    ensures
        final(s)@ == old(s)@ + draw_chars(),
{
    proof {
        reveal_strlit("No winner.");
    }
    s.append("No winner.");
    proof {
        assert(s@ =~= old(s)@ + draw_chars());
    }
}

/// Appends a single newline.
pub fn push_newline(s: &mut String)
    ensures
        final(s)@ == old(s)@ + seq!['\n'],
{
    proof {
        reveal_strlit("\n");
    }
    s.append("\n");
    proof {
        assert(s@ =~= old(s)@ + seq!['\n']);
    }
}

} // verus!
