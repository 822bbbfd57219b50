//! The board engine: a 4x4 grid of cells with gravity placement, win and
//! draw evaluation, rendering, reset, and ephemeral random snapshots.

use vstd::prelude::*;

use crate::grid::Outcome;
use crate::grid::Team;
use crate::grid::cell_at;
use crate::grid::drop_row;
use crate::grid::empty_grid;
use crate::grid::is_full;
use crate::grid::is_terminal;
use crate::grid::line_winner;
use crate::grid::place_grid;
use crate::grid::wf_grid;
use crate::grid::winner_of;
use crate::render::grid_chars;
use crate::render::grid_string;
use crate::render::push_draw;
use crate::render::push_newline;
use crate::render::push_wins;
use crate::render::render_chars;
use crate::render::result_chars;
use crate::render::snapshot_chars;
use crate::rng::RandomSource;
use crate::rng::std_rng_bool;
use vstd::pervasive::VecAdditionalExecFns;

verus! {

/// Why a placement was rejected.
#[derive(Debug)]
pub enum PlaceError {
    /// The requested column lies outside 1..=4; nothing was touched.
    InvalidColumn,
    /// The game is already won or drawn; the payload is the current
    /// terminal rendering.
    GameOver(String),
    /// The requested column has no empty row; the payload is the current
    /// plain rendering.
    ColumnFull(String),
}

/// The team a drawn boolean stands for.
pub open spec fn team_of_bool(b: bool) -> Team {
    if b {
        Team::Cookie
    } else {
        Team::Milk
    }
}

/// The cell filled at column `c`, row `r` of a snapshot grid drawn from a
/// source seeded with `seed` that had already served `start` draws: cells
/// are drawn row by row, left to right.
pub open spec fn random_cell(seed: u64, start: nat, c: int, r: int) -> Option<Team> {
    Some(team_of_bool(std_rng_bool(seed, (start + r * 4 + c) as nat)))
}

/// The whole snapshot grid drawn from a source seeded with `seed` that had
/// already served `start` draws.
pub open spec fn random_grid(seed: u64, start: nat) -> Seq<Option<Team>> {
    Seq::new(16, |i: int| random_cell(seed, start, i / 4, i % 4))
}

/// The live game board: 16 cells in column-major order.
pub struct Board {
    cells: Vec<Option<Team>>,
}

impl View for Board {
    type V = Seq<Option<Team>>;

    closed spec fn view(&self) -> Seq<Option<Team>> {
        self.cells@
    }
}

impl Default for Board {
    /// The default board is empty.
    fn default() -> (b: Board)
        ensures
            b@ == empty_grid(),
    {
        Board::new()
    }
}

/// A vector of 16 empty cells.
fn empty_cells() -> (v: Vec<Option<Team>>)
    ensures
        v@ == empty_grid(),
{
    let mut v: Vec<Option<Team>> = Vec::new();
    let mut i: usize = 0;
    while i < 16
        invariant
            i <= 16,
            v@.len() == i,
            forall|j: int| 0 <= j < i ==> v@[j] is None,
        decreases 16 - i,
    {
        v.push(None);
        i = i + 1;
    }
    proof {
        assert(v@ =~= empty_grid());
    }
    v
}

/// Whether cell `i` holds a piece of team `t`.
fn cell_is(cells: &Vec<Option<Team>>, i: usize, t: Team) -> (r: bool)
    requires
        i < cells@.len(),
    ensures
        r == (cells@[i as int] == Some(t)),
{
    match cells[i] {
        Some(u) => u == t,
        None => false,
    }
}

/// The team holding all four cells `a`, `b`, `c`, `d`, if any.
fn line_check(cells: &Vec<Option<Team>>, a: usize, b: usize, c: usize, d: usize) -> (r: Option<
    Team,
>)
    requires
        wf_grid(cells@),
        a < 16,
        b < 16,
        c < 16,
        d < 16,
    ensures
        r == line_winner(cells@, a as int, b as int, c as int, d as int),
{
    match cells[a] {
        Some(t) => {
            if cell_is(cells, b, t) && cell_is(cells, c, t) && cell_is(cells, d, t) {
                Some(t)
            } else {
                None
            }
        },
        None => None,
    }
}

impl Board {
    /// A board is well formed when its grid is.
    pub open spec fn wf(&self) -> bool {
        wf_grid(self@)
    }

    /// A fresh board with every cell empty.
    pub fn new() -> (b: Board)
        ensures
            b@ == empty_grid(),
    {
        Board { cells: empty_cells() }
    }

    /// A board holding exactly the given 16 cells.
    pub fn from_cells(cells: Vec<Option<Team>>) -> (b: Board)
        requires
            wf_grid(cells@),
        ensures
            b@ == cells@,
    {
        Board { cells }
    }

    /// The team holding a complete row, column or diagonal, if any; the
    /// ten candidate lines are inspected in a fixed order and the first
    /// complete one decides.
    pub fn check_winner(&self) -> (r: Option<Team>)
        requires
            self.wf(),
        ensures
            r == winner_of(self@),
    {
        let mut w = line_check(&self.cells, 0, 1, 2, 3);
        if w.is_none() {
            w = line_check(&self.cells, 0, 4, 8, 12);
        }
        if w.is_none() {
            w = line_check(&self.cells, 4, 5, 6, 7);
        }
        if w.is_none() {
            w = line_check(&self.cells, 1, 5, 9, 13);
        }
        if w.is_none() {
            w = line_check(&self.cells, 8, 9, 10, 11);
        }
        if w.is_none() {
            w = line_check(&self.cells, 2, 6, 10, 14);
        }
        if w.is_none() {
            w = line_check(&self.cells, 12, 13, 14, 15);
        }
        if w.is_none() {
            w = line_check(&self.cells, 3, 7, 11, 15);
        }
        if w.is_none() {
            w = line_check(&self.cells, 0, 5, 10, 15);
        }
        if w.is_none() {
            w = line_check(&self.cells, 3, 6, 9, 12);
        }
        w
    }

    /// Whether the game is drawn: every cell occupied and no winning line.
    pub fn is_draw(&self) -> (r: bool)
        requires
            self.wf(),
        ensures
            r == (is_full(self@) && winner_of(self@) is None),
    {
        let mut i: usize = 0;
        while i < 16
            invariant
                i <= 16,
                self.wf(),
                forall|j: int| 0 <= j < i ==> self@[j] is Some,
            decreases 16 - i,
        {
            if self.cells[i].is_none() {
                proof {
                    assert(!(self@[i as int] is Some));
                }
                return false;
            }
            i = i + 1;
        }
        self.check_winner().is_none()
    }

    /// The terminal rendering — grid, outcome suffix, newline — when the
    /// game is won or drawn, and `None` while it is still in progress.
    pub fn show_result(&self) -> (r: Option<String>)
        requires
            self.wf(),
        ensures
            match r {
                Some(s) => result_chars(self@) == Some(s@),
                None => result_chars(self@) is None,
            },
    {
        let mut s = grid_string(&self.cells);
        match self.check_winner() {
            Some(t) => {
                push_wins(&mut s, t);
                push_newline(&mut s);
                Some(s)
            },
            None => {
                if self.is_draw() {
                    push_draw(&mut s);
                    push_newline(&mut s);
                    Some(s)
                } else {
                    None
                }
            },
        }
    }

    /// The rendering returned for a state read: the terminal rendering when
    /// the game is over, the plain grid otherwise.  Never mutates.
    pub fn render(&self) -> (r: String)
        requires
            self.wf(),
        ensures
            r@ == render_chars(self@),
    {
        match self.show_result() {
            Some(s) => s,
            None => grid_string(&self.cells),
        }
    }

    /// The derived outcome of the current grid.
    pub fn outcome(&self) -> (o: Outcome)
        requires
            self.wf(),
        ensures
            o == crate::grid::outcome_of(self@),
    {
        match self.check_winner() {
            Some(t) => Outcome::Won(t),
            None => {
                if self.is_draw() {
                    Outcome::Draw
                } else {
                    Outcome::InProgress
                }
            },
        }
    }

    /// Clears every cell.  Always succeeds and returns the rendering of the
    /// empty board.
    pub fn reset(&mut self) -> (r: String)
        ensures
            final(self)@ == empty_grid(),
            r@ == grid_chars(empty_grid()),
    {
        self.cells = empty_cells();
        grid_string(&self.cells)
    }

    /// Drops a piece of `team` into `column` (addressed 1..=4).
    ///
    /// Rejects a column outside 1..=4, a game already won or drawn, and a
    /// full column, in that order and without mutating; otherwise fills the
    /// bottom-most empty row of the column and returns the new rendering,
    /// with the outcome suffix when the move ends the game.
    pub fn place(&mut self, team: Team, column: usize) -> (r: Result<String, PlaceError>)
        requires
            old(self).wf(),
        ensures
            final(self).wf(),
            ({
                let g = old(self)@;
                if column < 1 || 4 < column {
                    &&& final(self)@ == g
                    &&& r matches Err(PlaceError::InvalidColumn)
                } else if is_terminal(g) {
                    &&& final(self)@ == g
                    &&& r matches Err(PlaceError::GameOver(s)) && s@ == render_chars(g)
                } else if drop_row(g, column - 1) == -1 {
                    &&& final(self)@ == g
                    &&& r matches Err(PlaceError::ColumnFull(s)) && s@ == grid_chars(g)
                } else {
                    &&& final(self)@ == place_grid(g, column - 1, team)
                    &&& r matches Ok(s) && s@ == render_chars(place_grid(g, column - 1, team))
                }
            }),
    {
        if column < 1 || 4 < column {
            return Err(PlaceError::InvalidColumn);
        }
        if let Some(s) = self.show_result() {
            return Err(PlaceError::GameOver(s));
        }
        let c = column - 1;
        let row: usize = if self.cell_empty(c, 3) {
            3
        } else if self.cell_empty(c, 2) {
            2
        } else if self.cell_empty(c, 1) {
            1
        } else if self.cell_empty(c, 0) {
            0
        } else {
            return Err(PlaceError::ColumnFull(grid_string(&self.cells)));
        };
        self.cells.set(c * 4 + row, Some(team));
        match self.show_result() {
            Some(s) => Ok(s),
            None => Ok(grid_string(&self.cells)),
        }
    }

    /// Whether the cell in column `c`, row `r` is empty.
    fn cell_empty(&self, c: usize, r: usize) -> (b: bool)
        requires
            self.wf(),
            c < 4,
            r < 4,
        ensures
            b == (cell_at(self@, c as int, r as int) is None),
    {
        self.cells[c * 4 + r].is_none()
    }

    /// A separate, ephemeral board whose 16 cells are each drawn from the
    /// shared random source, row by row, left to right.  Never touches the
    /// live board.
    pub fn generate_random(src: &mut RandomSource) -> (b: Board)
        ensures
            b.wf(),
            final(src).seed_value() == old(src).seed_value(),
            final(src).draw_count() == old(src).draw_count() + 16,
            b@ == random_grid(old(src).seed_value(), old(src).draw_count()),
    {
        let ghost seed0 = src.seed_value();
        let ghost start = src.draw_count();
        let mut cells = empty_cells();
        let mut row: usize = 0;
        while row < 4
            invariant
                row <= 4,
                cells@.len() == 16,
                src.seed_value() == seed0,
                src.draw_count() == start + row * 4,
                forall|c2: int, r2: int|
                    0 <= c2 < 4 && 0 <= r2 < row ==> cells@[c2 * 4 + r2] == random_cell(
                        seed0,
                        start,
                        c2,
                        r2,
                    ),
            decreases 4 - row,
        {
            let mut col: usize = 0;
            while col < 4
                invariant
                    row < 4,
                    col <= 4,
                    cells@.len() == 16,
                    src.seed_value() == seed0,
                    src.draw_count() == start + row * 4 + col,
                    forall|c2: int, r2: int|
                        0 <= c2 < 4 && 0 <= r2 < row ==> cells@[c2 * 4 + r2] == random_cell(
                            seed0,
                            start,
                            c2,
                            r2,
                        ),
                    forall|c2: int|
                        0 <= c2 < col ==> cells@[c2 * 4 + row as int] == random_cell(
                            seed0,
                            start,
                            c2,
                            row as int,
                        ),
                decreases 4 - col,
            {
                let b = src.next_bool();
                let t = if b {
                    Team::Cookie
                } else {
                    Team::Milk
                };
                cells.set(col * 4 + row, Some(t));
                col = col + 1;
            }
            row = row + 1;
        }
        proof {
            assert forall|i: int| 0 <= i < 16 implies cells@[i] == random_cell(
                seed0,
                start,
                i / 4,
                i % 4,
            ) by {
                assert(cells@[(i / 4) * 4 + i % 4] == random_cell(seed0, start, i / 4, i % 4));
            }
            assert(cells@ =~= random_grid(seed0, start));
        }
        Board { cells }
    }
}

/// The rendering of a fresh ephemeral snapshot: the random grid, followed
/// by the winner suffix or the draw suffix (without a trailing newline)
/// when the snapshot happens to be terminal.
pub fn random_snapshot(src: &mut RandomSource) -> (r: String)
    ensures
        final(src).seed_value() == old(src).seed_value(),
        final(src).draw_count() == old(src).draw_count() + 16,
        r@ == snapshot_chars(random_grid(old(src).seed_value(), old(src).draw_count())),
{
    let b = Board::generate_random(src);
    let mut s = grid_string(&b.cells);
    match b.check_winner() {
        Some(t) => {
            push_wins(&mut s, t);
        },
        None => {
            if b.is_draw() {
                push_draw(&mut s);
            }
        },
    }
    proof {
        assert(s@ == snapshot_chars(b@));
    }
    s
}

} // verus!
