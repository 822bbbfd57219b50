//! Laws of the board game, stated and proved over the grid model: the
//! gravity law, reset idempotence, win-detection symmetry, and draw
//! detection.

use vstd::prelude::*;

use crate::board::Board;
use crate::grid::Outcome;
use crate::grid::Team;
use crate::grid::anti_diag_winner;
use crate::grid::cell_at;
use crate::grid::col_winner;
use crate::grid::diag_winner;
use crate::grid::drop_row;
use crate::grid::empty_grid;
use crate::grid::has_line;
use crate::grid::is_full;
use crate::grid::is_terminal;
use crate::grid::outcome_of;
use crate::grid::place_grid;
use crate::grid::place_seq;
use crate::grid::row_winner;
use crate::grid::wf_grid;
use crate::grid::winner_of;
use crate::render::grid_chars;
use crate::rng::RESET_SEED;
use crate::rng::RandomSource;
use crate::rng::std_rng_bool;

verus! {

/// A winner is only ever reported for a team that holds a complete line.
pub proof fn lemma_winner_sound(g: Seq<Option<Team>>, t: Team)
    requires
        winner_of(g) == Some(t),
    ensures
        has_line(g, t),
{
}

/// No winner is reported exactly when neither team holds a complete line.
pub proof fn lemma_winner_none_iff_no_line(g: Seq<Option<Team>>)
    ensures
        (winner_of(g) is None) <==> (!has_line(g, Team::Cookie) && !has_line(g, Team::Milk)),
{
    if winner_of(g) is Some {
        let t = winner_of(g).unwrap();
        lemma_winner_sound(g, t);
        assert(has_line(g, t));
    }
}

/// Exactly the bottom `ts.len()` rows of column `c` are occupied, holding
/// the pieces of `ts` bottom-up, and every other cell is empty.
pub open spec fn bottom_stacked(g: Seq<Option<Team>>, c: int, ts: Seq<Team>) -> bool {
    &&& wf_grid(g)
    &&& ts.len() <= 4
    &&& forall|col: int, row: int|
        0 <= col < 4 && 0 <= row < 4 ==> cell_at(g, col, row) == (if col == c && row + ts.len()
            >= 4 {
            Some(ts[3 - row])
        } else {
            None
        })
}

/// Restates `bottom_stacked` cell by cell over flat indices.
proof fn lemma_stack_cells(g: Seq<Option<Team>>, c: int, ts: Seq<Team>)
    requires
        0 <= c < 4,
        bottom_stacked(g, c, ts),
    ensures
        forall|i: int|
            0 <= i < 16 ==> #[trigger] g[i] == (if c * 4 <= i < c * 4 + 4 && (i - c * 4)
                + ts.len() >= 4 {
                Some(ts[3 - (i - c * 4)])
            } else {
                None
            }),
{
    assert forall|i: int|
        0 <= i < 16 implies #[trigger] g[i] == (if c * 4 <= i < c * 4 + 4 && (i - c * 4)
        + ts.len() >= 4 {
        Some(ts[3 - (i - c * 4)])
    } else {
        None
    }) by {
        let col = i / 4;
        let row = i % 4;
        assert(col * 4 + row == i);
        assert(cell_at(g, col, row) == (if col == c && row + ts.len() >= 4 {
            Some(ts[3 - row])
        } else {
            None
        }));
    }
}

/// A board holding at most three pieces, stacked in one column, is neither
/// won nor drawn.
proof fn lemma_stack_not_terminal(g: Seq<Option<Team>>, c: int, ts: Seq<Team>)
    requires
        0 <= c < 4,
        ts.len() <= 3,
        bottom_stacked(g, c, ts),
    ensures
        !is_terminal(g),
{
    lemma_stack_cells(g, c, ts);
    let other: int = if c == 0 {
        1
    } else {
        0
    };
    assert(g[other * 4] is None);
    assert(!is_full(g));
    assert(winner_of(g) is None);
}

/// Gravity law: dropping pieces one by one into a single column of an
/// empty board fills exactly that column's bottom rows, bottom-most empty
/// row first.  Before each of the drops the board is not terminal and the
/// piece comes to rest in row `3 - k` after `k` earlier drops, and after
/// all of them the occupied cells are exactly the bottom `ts.len()` rows
/// of column `c`.
pub proof fn lemma_gravity(c: int, ts: Seq<Team>)
    requires
        0 <= c < 4,
        ts.len() <= 4,
    ensures
        bottom_stacked(place_seq(empty_grid(), c, ts), c, ts),
        forall|col: int, row: int|
            0 <= col < 4 && 0 <= row < 4 ==> ((cell_at(place_seq(empty_grid(), c, ts), col, row)
                is Some) <==> (col == c && row + ts.len() >= 4)),
        forall|k: int|
            0 <= k < ts.len() ==> !is_terminal(place_seq(empty_grid(), c, #[trigger] ts.take(k)))
                && drop_row(place_seq(empty_grid(), c, ts.take(k)), c) == 3 - k,
    decreases ts.len(),
{
    if ts.len() == 0 {
        assert(place_seq(empty_grid(), c, ts) == empty_grid());
        assert forall|col: int, row: int| 0 <= col < 4 && 0 <= row < 4 implies cell_at(
            empty_grid(),
            col,
            row,
        ) == (if col == c && row + ts.len() >= 4 {
            Some(ts[3 - row])
        } else {
            None
        }) by {
            assert(empty_grid()[col * 4 + row] is None);
        }
    } else {
        let prefix = ts.drop_last();
        lemma_gravity(c, prefix);
        let g0 = place_seq(empty_grid(), c, prefix);
        let k0 = prefix.len() as int;
        lemma_stack_not_terminal(g0, c, prefix);
        assert(cell_at(g0, c, 3 - k0) is None);
        assert(drop_row(g0, c) == 3 - k0);
        let g1 = place_grid(g0, c, ts.last());
        assert(place_seq(empty_grid(), c, ts) == g1);
        assert forall|col: int, row: int| 0 <= col < 4 && 0 <= row < 4 implies cell_at(
            g1,
            col,
            row,
        ) == (if col == c && row + ts.len() >= 4 {
            Some(ts[3 - row])
        } else {
            None
        }) by {
            assert(cell_at(g0, col, row) == (if col == c && row + prefix.len() >= 4 {
                Some(prefix[3 - row])
            } else {
                None
            }));
            if col == c && row == 3 - k0 {
                assert(cell_at(g1, col, row) == Some(ts.last()));
            } else {
                assert(col * 4 + row != c * 4 + (3 - k0));
                assert(cell_at(g1, col, row) == cell_at(g0, col, row));
            }
        }
        assert forall|k: int|
            0 <= k < ts.len() implies !is_terminal(
            place_seq(empty_grid(), c, #[trigger] ts.take(k)),
        ) && drop_row(place_seq(empty_grid(), c, ts.take(k)), c) == 3 - k by {
            if k < k0 {
                assert(prefix.take(k) =~= ts.take(k));
            } else {
                assert(ts.take(k) =~= prefix);
            }
        }
    }
}

/// The state of the game right after a reset: empty board, random source
/// reseeded to the reset constant with nothing drawn, and the empty
/// rendering returned.
pub open spec fn reset_state(b: Board, src: RandomSource, out: Seq<char>) -> bool {
    &&& b@ == empty_grid()
    &&& src.seed_value() == RESET_SEED
    &&& src.draw_count() == 0
    &&& out == grid_chars(empty_grid())
}

/// Reset idempotence law: two resets in a row return the same empty
/// rendering both times and leave the same board and random-source state,
/// and the draws that follow either reset are the very sequence a fresh
/// start with the reset seed yields.
pub proof fn lemma_reset_idempotent(
    b1: Board,
    src1: RandomSource,
    out1: Seq<char>,
    b2: Board,
    src2: RandomSource,
    out2: Seq<char>,
)
    requires
        reset_state(b1, src1, out1),
        reset_state(b2, src2, out2),
    ensures
        out1 == out2,
        b1@ == b2@,
        src1.seed_value() == src2.seed_value(),
        src1.draw_count() == src2.draw_count(),
        forall|k: nat|
            std_rng_bool(src1.seed_value(), src1.draw_count() + k) == std_rng_bool(RESET_SEED, k),
{
}

/// The flat index of the `k`-th cell of line `ln`: lines 0..4 are the
/// columns, 4..8 the rows, 8 the top-left diagonal and 9 the top-right
/// diagonal.
pub open spec fn line_cell(ln: int, k: int) -> int {
    if ln < 4 {
        ln * 4 + k
    } else if ln < 8 {
        (ln - 4) + 4 * k
    } else if ln == 8 {
        5 * k
    } else {
        3 * k + 3
    }
}

/// Whether flat index `i` lies on line `ln`.
pub open spec fn on_line(ln: int, i: int) -> bool {
    exists|k: int| 0 <= k < 4 && line_cell(ln, k) == i
}

/// The grid holds team `t` on all four cells of line `ln` and nothing
/// anywhere else.
pub open spec fn only_line(g: Seq<Option<Team>>, ln: int, t: Team) -> bool {
    &&& wf_grid(g)
    &&& forall|k: int| 0 <= k < 4 ==> g[line_cell(ln, k)] == Some(t)
    &&& forall|i: int| 0 <= i < 16 && !on_line(ln, i) ==> #[trigger] g[i] is None
}

/// Every occupied cell of a grid satisfying `only_line` holds team `t`.
proof fn lemma_only_line_cells(g: Seq<Option<Team>>, ln: int, t: Team)
    requires
        0 <= ln < 10,
        only_line(g, ln, t),
    ensures
        forall|i: int| 0 <= i < 16 && #[trigger] g[i] is Some ==> g[i] == Some(t),
{
    assert forall|i: int| 0 <= i < 16 && #[trigger] g[i] is Some implies g[i] == Some(t) by {
        if on_line(ln, i) {
            let k = choose|k: int| 0 <= k < 4 && line_cell(ln, k) == i;
            assert(g[line_cell(ln, k)] == Some(t));
        }
    }
}

/// Win-detection symmetry, first half: a board whose only pieces are the
/// four cells of one line, all of team `t`, reports a win for `t`.
pub proof fn lemma_win_line_reported(g: Seq<Option<Team>>, ln: int, t: Team)
    requires
        0 <= ln < 10,
        only_line(g, ln, t),
    ensures
        outcome_of(g) == Outcome::Won(t),
{
    lemma_only_line_cells(g, ln, t);
    assert(g[line_cell(ln, 0)] == Some(t));
    assert(g[line_cell(ln, 1)] == Some(t));
    assert(g[line_cell(ln, 2)] == Some(t));
    assert(g[line_cell(ln, 3)] == Some(t));
    if ln < 4 {
        assert(col_winner(g, ln) == Some(t));
    } else if ln < 8 {
        assert(row_winner(g, ln - 4) == Some(t));
    } else if ln == 8 {
        assert(diag_winner(g) == Some(t));
    } else {
        assert(anti_diag_winner(g) == Some(t));
    }
    assert(winner_of(g) == Some(t));
}

/// Win-detection symmetry, second half: change any one cell of that line
/// to the other team or to empty, and the board is back in progress.
pub proof fn lemma_win_line_broken(
    g: Seq<Option<Team>>,
    ln: int,
    t: Team,
    k: int,
    cell2: Option<Team>,
)
    requires
        0 <= ln < 10,
        only_line(g, ln, t),
        0 <= k < 4,
        cell2 != Some(t),
    ensures
        outcome_of(g.update(line_cell(ln, k), cell2)) == Outcome::InProgress,
{
    lemma_only_line_cells(g, ln, t);
    let idx = line_cell(ln, k);
    let g2 = g.update(idx, cell2);
    assert(g[line_cell(ln, 0)] == Some(t));
    assert(g[line_cell(ln, 1)] == Some(t));
    assert(g[line_cell(ln, 2)] == Some(t));
    assert(g[line_cell(ln, 3)] == Some(t));
    if ln == 0 {
        assert(g2[4] is None);
        assert(winner_of(g2) is None);
        assert(!is_full(g2));
    } else if ln == 1 {
        assert(g2[0] is None);
        assert(winner_of(g2) is None);
        assert(!is_full(g2));
    } else if ln == 2 {
        assert(g2[0] is None);
        assert(winner_of(g2) is None);
        assert(!is_full(g2));
    } else if ln == 3 {
        assert(g2[0] is None);
        assert(winner_of(g2) is None);
        assert(!is_full(g2));
    } else if ln == 4 {
        assert(g2[1] is None);
        assert(winner_of(g2) is None);
        assert(!is_full(g2));
    } else if ln == 5 {
        assert(g2[0] is None);
        assert(winner_of(g2) is None);
        assert(!is_full(g2));
    } else if ln == 6 {
        assert(g2[0] is None);
        assert(winner_of(g2) is None);
        assert(!is_full(g2));
    } else if ln == 7 {
        assert(g2[0] is None);
        assert(winner_of(g2) is None);
        assert(!is_full(g2));
    } else if ln == 8 {
        assert(g2[1] is None);
        assert(winner_of(g2) is None);
        assert(!is_full(g2));
    } else {
        assert(g2[0] is None);
        assert(winner_of(g2) is None);
        assert(!is_full(g2));
    }
}

/// Draw detection law: a full grid is drawn exactly when no line is
/// complete, and a full grid with a complete line reports the win, never
/// the draw.
pub proof fn lemma_draw_detection(g: Seq<Option<Team>>)
    requires
        wf_grid(g),
        is_full(g),
    ensures
        (!has_line(g, Team::Cookie) && !has_line(g, Team::Milk)) <==> outcome_of(g)
            == Outcome::Draw,
        (has_line(g, Team::Cookie) || has_line(g, Team::Milk)) ==> outcome_of(
            g,
        ) matches Outcome::Won(_),
{
    lemma_winner_none_iff_no_line(g);
}

} // verus!
