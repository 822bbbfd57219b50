use four_in_a_row::Board;
use four_in_a_row::Outcome;
use four_in_a_row::PlaceError;
use four_in_a_row::Team;

fn empty_render() -> String {
    let row = "⬜⬛⬛⬛⬛⬜\n";
    format!("{}{}{}{}⬜⬜⬜⬜⬜⬜\n", row, row, row, row)
}

#[test]
fn fresh_board_renders_empty() {
    let board = Board::new();
    assert_eq!(board.render(), empty_render());
    assert_eq!(board.outcome(), Outcome::InProgress);
    assert_eq!(board.check_winner(), None);
    assert!(!board.is_draw());
    assert!(board.show_result().is_none());
}

#[test]
fn reset_clears_placed_pieces() {
    let mut board = Board::new();
    board.place(Team::Cookie, 2).unwrap();
    board.place(Team::Milk, 3).unwrap();
    let rendered = board.reset();
    assert_eq!(rendered, empty_render());
    assert_eq!(board.render(), empty_render());
}

#[test]
fn gravity_fills_bottom_row_first() {
    let mut board = Board::new();
    let rendered = board.place(Team::Cookie, 1).unwrap();
    let expected = "⬜⬛⬛⬛⬛⬜\n⬜⬛⬛⬛⬛⬜\n⬜⬛⬛⬛⬛⬜\n⬜🍪⬛⬛⬛⬜\n⬜⬜⬜⬜⬜⬜\n";
    assert_eq!(rendered, expected);
}

#[test]
fn gravity_stacks_upward_in_one_column() {
    let mut board = Board::new();
    board.place(Team::Cookie, 2).unwrap();
    let rendered = board.place(Team::Milk, 2).unwrap();
    let expected = "⬜⬛⬛⬛⬛⬜\n⬜⬛⬛⬛⬛⬜\n⬜⬛🥛⬛⬛⬜\n⬜⬛🍪⬛⬛⬜\n⬜⬜⬜⬜⬜⬜\n";
    assert_eq!(rendered, expected);
}

#[test]
fn invalid_column_is_rejected_without_mutation() {
    let mut board = Board::new();
    assert!(matches!(board.place(Team::Cookie, 0), Err(PlaceError::InvalidColumn)));
    assert!(matches!(board.place(Team::Milk, 5), Err(PlaceError::InvalidColumn)));
    assert_eq!(board.render(), empty_render());
}

#[test]
fn vertical_line_of_four_wins() {
    // Cookie at 1, Milk at 2, three more such rounds: the fourth Cookie
    // tops off column 1 and wins.
    let mut board = Board::new();
    board.place(Team::Cookie, 1).unwrap();
    board.place(Team::Milk, 2).unwrap();
    board.place(Team::Cookie, 1).unwrap();
    board.place(Team::Milk, 2).unwrap();
    board.place(Team::Cookie, 1).unwrap();
    board.place(Team::Milk, 2).unwrap();
    let rendered = board.place(Team::Cookie, 1).unwrap();
    let expected = "⬜🍪⬛⬛⬛⬜\n⬜🍪🥛⬛⬛⬜\n⬜🍪🥛⬛⬛⬜\n⬜🍪🥛⬛⬛⬜\n⬜⬜⬜⬜⬜⬜\n🍪 wins!\n";
    assert_eq!(rendered, expected);
    assert_eq!(board.check_winner(), Some(Team::Cookie));
    assert_eq!(board.outcome(), Outcome::Won(Team::Cookie));
}

#[test]
fn terminal_board_rejects_placements_unchanged() {
    let mut board = Board::new();
    board.place(Team::Cookie, 1).unwrap();
    board.place(Team::Milk, 2).unwrap();
    board.place(Team::Cookie, 1).unwrap();
    board.place(Team::Milk, 2).unwrap();
    board.place(Team::Cookie, 1).unwrap();
    board.place(Team::Milk, 2).unwrap();
    let won = board.place(Team::Cookie, 1).unwrap();
    match board.place(Team::Milk, 3) {
        Err(PlaceError::GameOver(rendered)) => assert_eq!(rendered, won),
        other => panic!("expected a game-over rejection, got {:?}", other),
    }
    assert_eq!(board.render(), won);
}

#[test]
fn full_column_rejects_fifth_placement_unchanged() {
    let mut board = Board::new();
    board.place(Team::Cookie, 1).unwrap();
    board.place(Team::Milk, 1).unwrap();
    board.place(Team::Cookie, 1).unwrap();
    let fourth = board.place(Team::Milk, 1).unwrap();
    match board.place(Team::Cookie, 1) {
        Err(PlaceError::ColumnFull(rendered)) => assert_eq!(rendered, fourth),
        other => panic!("expected a column-full rejection, got {:?}", other),
    }
    assert_eq!(board.render(), fourth);
}

fn draw_cells() -> Vec<Option<Team>> {
    // Column-major: no row, column or diagonal holds four equal pieces.
    let c = Some(Team::Cookie);
    let m = Some(Team::Milk);
    vec![c, c, m, m, m, m, c, c, c, c, m, m, m, m, c, c]
}

#[test]
fn full_board_without_line_is_a_draw() {
    let board = Board::from_cells(draw_cells());
    assert_eq!(board.check_winner(), None);
    assert!(board.is_draw());
    assert_eq!(board.outcome(), Outcome::Draw);
    let rendered = board.show_result().unwrap();
    assert!(rendered.ends_with("No winner.\n"));
    let expected = "⬜🍪🥛🍪🥛⬜\n⬜🍪🥛🍪🥛⬜\n⬜🥛🍪🥛🍪⬜\n⬜🥛🍪🥛🍪⬜\n⬜⬜⬜⬜⬜⬜\nNo winner.\n";
    assert_eq!(rendered, expected);
}

#[test]
fn full_board_with_line_reports_win_not_draw() {
    let mut cells = draw_cells();
    // Make column 1 (indices 0..4) all Cookie: a complete vertical line.
    cells[2] = Some(Team::Cookie);
    cells[3] = Some(Team::Cookie);
    let board = Board::from_cells(cells);
    assert_eq!(board.check_winner(), Some(Team::Cookie));
    assert!(!board.is_draw());
    assert_eq!(board.outcome(), Outcome::Won(Team::Cookie));
    assert!(board.show_result().unwrap().ends_with("🍪 wins!\n"));
}

#[test]
fn row_line_is_detected() {
    let mut cells: Vec<Option<Team>> = vec![None; 16];
    // Row 0 holds the cells at indices 0, 4, 8, 12.
    for c in 0..4 {
        cells[c * 4] = Some(Team::Milk);
    }
    let board = Board::from_cells(cells);
    assert_eq!(board.check_winner(), Some(Team::Milk));
}

#[test]
fn broken_row_line_is_in_progress() {
    let mut cells: Vec<Option<Team>> = vec![None; 16];
    for c in 0..4 {
        cells[c * 4] = Some(Team::Milk);
    }
    cells[8] = Some(Team::Cookie);
    let board = Board::from_cells(cells);
    assert_eq!(board.check_winner(), None);
    assert_eq!(board.outcome(), Outcome::InProgress);
    let mut cells2: Vec<Option<Team>> = vec![None; 16];
    for c in 0..4 {
        cells2[c * 4] = Some(Team::Milk);
    }
    cells2[8] = None;
    let board2 = Board::from_cells(cells2);
    assert_eq!(board2.check_winner(), None);
}

#[test]
fn diagonal_lines_are_detected() {
    let mut cells: Vec<Option<Team>> = vec![None; 16];
    for k in 0..4 {
        cells[k * 4 + k] = Some(Team::Cookie);
    }
    let board = Board::from_cells(cells);
    assert_eq!(board.check_winner(), Some(Team::Cookie));

    let mut cells2: Vec<Option<Team>> = vec![None; 16];
    for k in 0..4 {
        cells2[k * 4 + (3 - k)] = Some(Team::Milk);
    }
    let board2 = Board::from_cells(cells2);
    assert_eq!(board2.check_winner(), Some(Team::Milk));
}
