use four_in_a_row::Board;
use four_in_a_row::RandomSource;
use four_in_a_row::RESET_SEED;
use four_in_a_row::random_snapshot;
use four_in_a_row::reset_game;

fn draws(src: &mut RandomSource, n: usize) -> Vec<bool> {
    let mut out = Vec::new();
    for _ in 0..n {
        out.push(src.next_bool());
    }
    out
}

#[test]
fn same_seed_same_sequence() {
    let mut a = RandomSource::from_seed(42);
    let mut b = RandomSource::from_seed(42);
    assert_eq!(draws(&mut a, 64), draws(&mut b, 64));
}

#[test]
fn different_seeds_differ() {
    let mut a = RandomSource::from_seed(0);
    let mut b = RandomSource::from_seed(1);
    assert_ne!(draws(&mut a, 64), draws(&mut b, 64));
}

#[test]
fn reseed_restarts_the_sequence() {
    let mut src = RandomSource::from_seed(7);
    let first = draws(&mut src, 32);
    src.seed(7);
    assert_eq!(first, draws(&mut src, 32));
}

#[test]
fn reset_restores_the_fresh_start_sequence() {
    let mut board = Board::new();
    let mut src = RandomSource::new();
    draws(&mut src, 10);
    board.place(four_in_a_row::Team::Cookie, 1).unwrap();
    let rendered = reset_game(&mut board, &mut src);
    let mut fresh = RandomSource::new();
    assert_eq!(draws(&mut src, 32), draws(&mut fresh, 32));
    let rendered_again = reset_game(&mut board, &mut src);
    assert_eq!(rendered, rendered_again);
    assert_eq!(RESET_SEED, 2024);
}

#[test]
fn snapshots_in_succession_differ() {
    let mut src = RandomSource::new();
    let first = random_snapshot(&mut src);
    let second = random_snapshot(&mut src);
    assert_ne!(first, second);
}

#[test]
fn snapshot_is_reproducible_from_a_seed() {
    let mut src = RandomSource::from_seed(99);
    let first = random_snapshot(&mut src);
    src.seed(99);
    let second = random_snapshot(&mut src);
    assert_eq!(first, second);
}

#[test]
fn snapshot_fills_every_cell() {
    let mut src = RandomSource::new();
    let rendered = random_snapshot(&mut src);
    assert!(!rendered.contains('⬛'));
    assert!(rendered.ends_with(" wins!") || rendered.ends_with("No winner."));
}

#[test]
fn snapshot_leaves_the_live_board_alone() {
    let mut board = Board::new();
    let mut src = RandomSource::new();
    let before = board.render();
    random_snapshot(&mut src);
    assert_eq!(board.render(), before);
}
