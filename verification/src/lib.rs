//! A four-in-a-row board game: a 4x4 grid of cookie and milk pieces with
//! gravity semantics, win and draw detection, textual rendering, and a
//! deterministic, reseedable random source for ephemeral snapshot boards.

use vstd::prelude::*;

pub mod board;
pub mod grid;
pub mod ipv6;
pub mod laws;
pub mod render;
pub mod rng;

pub use board::Board;
pub use board::PlaceError;
pub use board::random_snapshot;
pub use grid::Outcome;
pub use grid::Team;
pub use ipv6::parse_ipv6_address;
pub use rng::RESET_SEED;
pub use rng::RandomSource;

verus! {

/// Resets the whole game: clears the board, then reseeds the random source
/// to the reset constant, restarting its stream as at a fresh process
/// start.  Returns the rendering of the empty board.
pub fn reset_game(board: &mut Board, src: &mut RandomSource) -> (r: String)
    ensures
        final(board)@ == grid::empty_grid(),
        final(src).seed_value() == RESET_SEED,
        final(src).draw_count() == 0,
        r@ == render::grid_chars(grid::empty_grid()),
{
    let rendered = board.reset();
    src.seed(RESET_SEED);
    rendered
}

} // verus!
