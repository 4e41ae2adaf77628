use minesweeper::board::{Board, BoardSize, DRAW_LIMIT, LARGE_BOARD_SIDE, MEDIUM_BOARD_SIDE, SMALL_BOARD_SIDE};
use minesweeper::cell::RenderHint;
use minesweeper::grid::{BOARD_CAPACITY, MAX_BOARD_HEIGHT, MAX_BOARD_WIDTH};

fn layout(width: usize, height: usize, mines: &[(usize, usize)]) -> Board {
    Board::with_mines(width, height, &mines.to_vec()).expect("a layout that fits")
}

fn hint(board: &Board, x: usize, y: usize) -> RenderHint {
    board.get_gfx()[y][x]
}

fn uncovered(board: &mut Board, x: usize, y: usize) -> RenderHint {
    board.dbg_gfx()[y][x]
}

fn count_mines(board: &mut Board) -> usize {
    board
        .dbg_gfx()
        .iter()
        .map(|row| row.iter().filter(|h| **h == RenderHint::RevealedMine).count())
        .sum()
}

fn count_hidden(board: &Board) -> usize {
    board
        .get_gfx()
        .iter()
        .map(|row| row.iter().filter(|h| **h == RenderHint::Hidden).count())
        .sum()
}

fn mines_around(board: &mut Board, x: usize, y: usize) -> u8 {
    let rows = board.dbg_gfx();
    let mut n = 0;
    for dy in -1i32..=1 {
        for dx in -1i32..=1 {
            if dx == 0 && dy == 0 {
                continue;
            }
            let nx = x as i32 + dx;
            let ny = y as i32 + dy;
            if nx < 0 || ny < 0 || ny as usize >= rows.len() || nx as usize >= rows[0].len() {
                continue;
            }
            if rows[ny as usize][nx as usize] == RenderHint::RevealedMine {
                n += 1;
            }
        }
    }
    n
}

#[test]
fn size_constants() {
    assert_eq!(SMALL_BOARD_SIDE, 10);
    assert_eq!(MEDIUM_BOARD_SIDE, 20);
    assert_eq!(LARGE_BOARD_SIDE, 30);
    assert_eq!(MAX_BOARD_WIDTH, 30);
    assert_eq!(MAX_BOARD_HEIGHT, 30);
    assert_eq!(BOARD_CAPACITY, 900);
    assert!(DRAW_LIMIT >= 900);
}

#[test]
fn new_board_has_the_size_of_its_tier() {
    let small = Board::new(BoardSize::Small, false);
    assert_eq!((small.get_width(), small.get_height()), (10, 10));
    let medium = Board::new(BoardSize::Medium, false);
    assert_eq!((medium.get_width(), medium.get_height()), (20, 20));
    let large = Board::new(BoardSize::Large, true);
    assert_eq!((large.get_width(), large.get_height()), (30, 30));
    assert_eq!(small.get_gfx().len(), 10);
    assert_eq!(large.get_gfx()[29].len(), 30);
}

#[test]
fn new_board_holds_exactly_its_budget_of_mines() {
    let cases = [
        (BoardSize::Small, false, 10usize),
        (BoardSize::Small, true, 20),
        (BoardSize::Medium, false, 40),
        (BoardSize::Medium, true, 80),
        (BoardSize::Large, false, 90),
        (BoardSize::Large, true, 180),
    ];
    for (size, difficult, budget) in cases {
        let mut board = Board::new(size, difficult);
        assert_eq!(count_mines(&mut board), budget);
        assert_eq!(board.check_correct_flagged_bombs() as usize, budget);
    }
}

#[test]
fn new_board_is_hidden_and_unmarked() {
    let board = Board::new(BoardSize::Medium, true);
    assert_eq!(count_hidden(&board), 400);
    assert!(!board.check_win_condition());
}

#[test]
fn new_board_stores_the_number_of_mines_around_each_free_square() {
    for _ in 0..5 {
        let mut board = Board::new(BoardSize::Small, true);
        for y in 0..10 {
            for x in 0..10 {
                let around = mines_around(&mut board, x, y);
                assert_eq!(board.count_bombs_around(x, y), around);
                match uncovered(&mut board, x, y) {
                    RenderHint::RevealedMine => {}
                    RenderHint::RevealedBlank => assert_eq!(around, 0),
                    RenderHint::RevealedNumber(n) => assert_eq!(n, around),
                    other => panic!("an uncovered square drawn as {:?}", other),
                }
            }
        }
    }
}

#[test]
fn random_boards_differ() {
    let mut first = Board::new(BoardSize::Large, true);
    let shown = first.dbg_gfx();
    let mut differs = false;
    for _ in 0..4 {
        let mut other = Board::new(BoardSize::Large, true);
        if other.dbg_gfx() != shown {
            differs = true;
        }
    }
    assert!(differs);
}

#[test]
fn reset_hides_everything_and_places_the_budget_again() {
    let mut board = Board::new(BoardSize::Small, false);
    for y in 0..10 {
        for x in 0..10 {
            board.pick_cell(x, y);
        }
    }
    board.mark_cell(0, 0);
    board.reset();
    assert_eq!(count_hidden(&board), 100);
    assert_eq!(count_mines(&mut board), 10);
    assert_eq!(board.check_correct_flagged_bombs(), 10);
}

#[test]
fn reset_of_a_laid_out_board_keeps_size_and_budget() {
    let mut board = layout(3, 3, &[(0, 0), (1, 1), (2, 2), (0, 2), (2, 0), (1, 0), (0, 1), (2, 1)]);
    board.reset();
    assert_eq!((board.get_width(), board.get_height()), (3, 3));
    assert_eq!(count_mines(&mut board), 8);
    assert_eq!(count_hidden(&board), 9);
}

#[test]
fn populate_on_a_cleared_board_places_the_budget() {
    let mut board = Board::new(BoardSize::Small, true);
    board.clear();
    assert_eq!(count_mines(&mut board), 0);
    board.populate_cells();
    assert_eq!(count_mines(&mut board), 20);
}

#[test]
fn populate_adds_the_budget_to_the_mines_that_are_there() {
    let mut board = Board::new(BoardSize::Small, false);
    board.populate_cells();
    assert_eq!(count_mines(&mut board), 20);
    for y in 0..10 {
        for x in 0..10 {
            if let RenderHint::RevealedNumber(n) = uncovered(&mut board, x, y) {
                assert_eq!(n, mines_around(&mut board, x, y));
            }
        }
    }
}

#[test]
fn clear_empties_the_board() {
    let mut board = layout(3, 3, &[(1, 1)]);
    board.pick_cell(0, 0);
    board.mark_cell(2, 2);
    board.clear();
    assert_eq!(count_hidden(&board), 9);
    assert_eq!(count_mines(&mut board), 0);
    assert_eq!(uncovered(&mut board, 0, 0), RenderHint::RevealedBlank);
}

#[test]
fn with_mines_lays_out_the_list() {
    let mut board = layout(4, 3, &[(3, 0), (0, 2)]);
    assert_eq!((board.get_width(), board.get_height()), (4, 3));
    let rows = board.dbg_gfx();
    assert_eq!(rows.len(), 3);
    assert_eq!(rows[0].len(), 4);
    assert_eq!(rows[0][3], RenderHint::RevealedMine);
    assert_eq!(rows[2][0], RenderHint::RevealedMine);
    assert_eq!(rows[0][2], RenderHint::RevealedNumber(1));
    assert_eq!(rows[1][1], RenderHint::RevealedNumber(1));
    assert_eq!(rows[0][0], RenderHint::RevealedBlank);
    assert_eq!(rows[2][3], RenderHint::RevealedBlank);
    assert_eq!(count_mines(&mut board), 2);
    assert_eq!(board.check_correct_flagged_bombs(), 2);
}

#[test]
fn with_mines_refuses_what_does_not_fit() {
    assert!(Board::with_mines(31, 3, &vec![]).is_none());
    assert!(Board::with_mines(3, 31, &vec![]).is_none());
    assert!(Board::with_mines(3, 3, &vec![(3, 0)]).is_none());
    assert!(Board::with_mines(3, 3, &vec![(0, 3)]).is_none());
    assert!(Board::with_mines(3, 3, &vec![(1, 1), (0, 0), (1, 1)]).is_none());
    assert!(Board::with_mines(30, 30, &vec![(29, 29)]).is_some());
    assert!(Board::with_mines(0, 0, &vec![]).is_some());
    assert!(Board::with_mines(1, 1, &vec![(0, 0)]).is_some());
}

#[test]
fn valid_cells_are_those_of_the_board() {
    let board = layout(4, 3, &[]);
    assert!(board.is_cell_valid(0, 0));
    assert!(board.is_cell_valid(3, 2));
    assert!(!board.is_cell_valid(4, 2));
    assert!(!board.is_cell_valid(3, 3));
    assert!(!board.is_cell_valid(-1, 0));
    assert!(!board.is_cell_valid(0, -1));
    assert!(!board.is_cell_valid(isize::MIN, isize::MAX));
}

#[test]
fn count_bombs_around_counts_the_eight_neighbours() {
    let board = layout(3, 3, &[(0, 0), (1, 0), (2, 0), (0, 1), (2, 1), (0, 2), (1, 2), (2, 2)]);
    assert_eq!(board.count_bombs_around(1, 1), 8);
    assert_eq!(board.count_bombs_around(0, 0), 2);
    assert_eq!(board.count_bombs_around(1, 0), 4);
    assert_eq!(board.count_bombs_around(3, 1), 3);
    assert_eq!(board.count_bombs_around(5, 5), 0);
    assert_eq!(board.count_bombs_around(usize::MAX, usize::MAX), 0);
    let lone = layout(3, 3, &[(1, 1)]);
    assert_eq!(lone.count_bombs_around(1, 1), 0);
    assert_eq!(lone.count_bombs_around(0, 0), 1);
}

#[test]
fn single_mine_in_the_middle() {
    let mut board = layout(3, 3, &[(1, 1)]);
    for y in 0..3 {
        for x in 0..3 {
            if (x, y) != (1, 1) {
                assert_eq!(uncovered(&mut board, x, y), RenderHint::RevealedNumber(1));
            }
        }
    }
    assert!(!board.pick_cell(0, 0));
    assert_eq!(hint(&board, 0, 0), RenderHint::RevealedNumber(1));
    assert_eq!(count_hidden(&board), 8);
    assert_eq!(board.check_correct_flagged_bombs(), 1);
    board.mark_cell(1, 1);
    assert_eq!(hint(&board, 1, 1), RenderHint::Flagged);
    assert_eq!(board.check_correct_flagged_bombs(), 0);
    assert!(!board.check_win_condition());
    for (x, y) in [(1, 0), (2, 0), (0, 1), (2, 1), (0, 2), (1, 2)] {
        assert!(!board.pick_cell(x, y));
        assert!(!board.check_win_condition());
    }
    assert!(!board.pick_cell(2, 2));
    assert!(board.check_win_condition());
}

#[test]
fn picking_a_mine_detonates_and_touches_nothing_else() {
    let mut board = layout(3, 3, &[(0, 0)]);
    let before = board.get_gfx();
    assert!(board.pick_cell(0, 0));
    let after = board.get_gfx();
    assert_eq!(after[0][0], RenderHint::RevealedMine);
    for y in 0..3 {
        for x in 0..3 {
            if (x, y) != (0, 0) {
                assert_eq!(after[y][x], before[y][x]);
                assert_eq!(after[y][x], RenderHint::Hidden);
            }
        }
    }
    assert!(!board.pick_cell(0, 0));
    assert_eq!(board.get_gfx(), after);
}

#[test]
fn pick_from_an_open_corner_cascades_over_the_board() {
    let mut board = layout(5, 5, &[(4, 4)]);
    assert!(!board.pick_cell(0, 0));
    let rows = board.get_gfx();
    for y in 0..5 {
        for x in 0..5 {
            let expected = if (x, y) == (4, 4) {
                RenderHint::Hidden
            } else if x >= 3 && y >= 3 {
                RenderHint::RevealedNumber(1)
            } else {
                RenderHint::RevealedBlank
            };
            assert_eq!(rows[y][x], expected, "at ({}, {})", x, y);
        }
    }
    board.mark_cell(4, 4);
    assert!(board.check_win_condition());
}

#[test]
fn flood_stops_at_the_numbered_border() {
    let mut board = layout(5, 3, &[(2, 0), (2, 1), (2, 2)]);
    assert!(!board.pick_cell(0, 1));
    let rows = board.get_gfx();
    let expected = [
        [RenderHint::RevealedBlank, RenderHint::RevealedNumber(2), RenderHint::Hidden, RenderHint::Hidden, RenderHint::Hidden],
        [RenderHint::RevealedBlank, RenderHint::RevealedNumber(3), RenderHint::Hidden, RenderHint::Hidden, RenderHint::Hidden],
        [RenderHint::RevealedBlank, RenderHint::RevealedNumber(2), RenderHint::Hidden, RenderHint::Hidden, RenderHint::Hidden],
    ];
    for y in 0..3 {
        for x in 0..5 {
            assert_eq!(rows[y][x], expected[y][x], "at ({}, {})", x, y);
        }
    }
}

#[test]
fn flood_passes_over_no_marked_square() {
    let mut board = layout(5, 1, &[]);
    board.mark_cell(2, 0);
    assert!(!board.pick_cell(0, 0));
    let rows = board.get_gfx();
    assert_eq!(
        rows[0],
        vec![
            RenderHint::RevealedBlank,
            RenderHint::RevealedBlank,
            RenderHint::Flagged,
            RenderHint::Hidden,
            RenderHint::Hidden,
        ]
    );
}

#[test]
fn flood_goes_round_corners_and_diagonals() {
    let mut board = layout(4, 4, &[(1, 0), (0, 3)]);
    assert!(!board.pick_cell(3, 3));
    let rows = board.get_gfx();
    let n = RenderHint::RevealedNumber;
    let b = RenderHint::RevealedBlank;
    let h = RenderHint::Hidden;
    let expected = [
        [h, h, n(1), b],
        [h, n(1), n(1), b],
        [h, n(1), b, b],
        [h, n(1), b, b],
    ];
    for y in 0..4 {
        for x in 0..4 {
            assert_eq!(rows[y][x], expected[y][x], "at ({}, {})", x, y);
        }
    }
}

#[test]
fn pick_of_a_numbered_square_reveals_it_alone() {
    let mut board = layout(4, 4, &[(1, 0), (0, 3)]);
    assert!(!board.pick_cell(2, 0));
    assert_eq!(hint(&board, 2, 0), RenderHint::RevealedNumber(1));
    assert_eq!(count_hidden(&board), 15);
}

#[test]
fn pick_of_a_revealed_square_changes_nothing() {
    let mut board = layout(5, 5, &[(4, 4), (0, 4)]);
    assert!(!board.pick_cell(0, 0));
    let after = board.get_gfx();
    assert!(!board.pick_cell(0, 0));
    assert_eq!(board.get_gfx(), after);
    assert!(!board.pick_cell(3, 3));
    assert_eq!(board.get_gfx(), after);
}

#[test]
fn pick_off_the_board_changes_nothing() {
    let mut board = layout(3, 3, &[(1, 1)]);
    let before = board.get_gfx();
    assert!(!board.pick_cell(3, 0));
    assert!(!board.pick_cell(0, 3));
    assert!(!board.pick_cell(usize::MAX, usize::MAX));
    assert!(!board.pick_cell(-1i16 as usize, 0));
    assert_eq!(board.get_gfx(), before);
}

#[test]
fn pick_of_a_marked_square_is_refused() {
    let mut board = layout(3, 3, &[(1, 1)]);
    board.mark_cell(1, 1);
    assert!(!board.pick_cell(1, 1));
    assert_eq!(hint(&board, 1, 1), RenderHint::Flagged);
    board.mark_cell(1, 1);
    assert!(!board.pick_cell(1, 1));
    assert_eq!(hint(&board, 1, 1), RenderHint::Questioned);
    board.mark_cell(1, 1);
    assert!(board.pick_cell(1, 1));
    assert_eq!(hint(&board, 1, 1), RenderHint::RevealedMine);
}

#[test]
fn marker_cycle() {
    let mut board = layout(3, 3, &[(1, 1)]);
    let start = board.get_gfx();
    assert_eq!(hint(&board, 0, 2), RenderHint::Hidden);
    board.mark_cell(0, 2);
    assert_eq!(hint(&board, 0, 2), RenderHint::Flagged);
    board.mark_cell(0, 2);
    assert_eq!(hint(&board, 0, 2), RenderHint::Questioned);
    board.mark_cell(0, 2);
    assert_eq!(hint(&board, 0, 2), RenderHint::Hidden);
    assert_eq!(board.get_gfx(), start);
}

#[test]
fn marking_off_the_board_or_a_revealed_square_changes_nothing() {
    let mut board = layout(3, 3, &[(1, 1)]);
    board.pick_cell(0, 0);
    let before = board.get_gfx();
    board.mark_cell(0, 0);
    board.mark_cell(3, 0);
    board.mark_cell(0, 3);
    board.mark_cell(usize::MAX, 1);
    assert_eq!(board.get_gfx(), before);
    assert_eq!(board.check_correct_flagged_bombs(), 1);
}

#[test]
fn remaining_flags_count_only_flags_on_mines() {
    let mut board = layout(3, 3, &[(0, 0), (2, 2)]);
    assert_eq!(board.check_correct_flagged_bombs(), 2);
    board.mark_cell(1, 1);
    assert_eq!(board.check_correct_flagged_bombs(), 2);
    board.mark_cell(0, 0);
    assert_eq!(board.check_correct_flagged_bombs(), 1);
    board.mark_cell(2, 2);
    assert_eq!(board.check_correct_flagged_bombs(), 0);
    board.mark_cell(2, 2);
    assert_eq!(board.check_correct_flagged_bombs(), 1);
}

#[test]
fn no_win_while_a_free_square_is_hidden() {
    let mut board = layout(3, 3, &[(1, 1)]);
    board.mark_cell(1, 1);
    for (x, y) in [(0, 0), (1, 0), (2, 0), (0, 1), (2, 1), (0, 2), (1, 2)] {
        board.pick_cell(x, y);
    }
    assert_eq!(board.check_correct_flagged_bombs(), 0);
    assert!(!board.check_win_condition());
    board.mark_cell(2, 2);
    assert!(!board.check_win_condition());
}

#[test]
fn no_win_while_a_mine_is_unflagged() {
    let mut board = layout(3, 3, &[(1, 1)]);
    for y in 0..3 {
        for x in 0..3 {
            if (x, y) != (1, 1) {
                board.pick_cell(x, y);
            }
        }
    }
    assert!(!board.check_win_condition());
    board.mark_cell(1, 1);
    assert!(board.check_win_condition());
    board.mark_cell(1, 1);
    assert!(!board.check_win_condition());
}

#[test]
fn a_board_without_mines_is_won_with_one_pick() {
    let mut board = layout(6, 4, &[]);
    assert!(!board.check_win_condition());
    assert!(!board.pick_cell(5, 3));
    assert_eq!(count_hidden(&board), 0);
    assert!(board.check_win_condition());
}

#[test]
fn large_empty_board_cascades_completely() {
    let mut board = layout(30, 30, &[]);
    assert!(!board.pick_cell(15, 15));
    let rows = board.get_gfx();
    assert_eq!(rows.len(), 30);
    for row in rows {
        assert_eq!(row, vec![RenderHint::RevealedBlank; 30]);
    }
}

#[test]
fn debug_view_uncovers_without_changing_the_board() {
    let mut board = layout(3, 3, &[(1, 1)]);
    board.mark_cell(0, 0);
    let before = board.get_gfx();
    let shown = board.dbg_gfx();
    assert_eq!(shown[1][1], RenderHint::RevealedMine);
    assert_eq!(shown[0][0], RenderHint::RevealedNumber(1));
    assert_eq!(board.get_gfx(), before);
    assert_eq!(before[0][0], RenderHint::Flagged);
}
