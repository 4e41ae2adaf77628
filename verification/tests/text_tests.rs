use minesweeper::board::Board;
use minesweeper::cell::{Cell, CellMarker};
use minesweeper::frame::box_glyph;
use minesweeper::text::{append_blank, append_decimal, append_digit, append_two_digits};

#[test]
fn digits_and_blanks() {
    let mut all = String::from("#");
    for d in 0..10u8 {
        append_digit(&mut all, d);
        append_blank(&mut all);
    }
    assert_eq!(all, "#0 1 2 3 4 5 6 7 8 9 ");
}

#[test]
fn decimal_numerals_are_appended() {
    let mut s = String::from("n=");
    append_decimal(&mut s, 0);
    assert_eq!(s, "n=0");
    append_decimal(&mut s, 7);
    append_decimal(&mut s, 10);
    append_decimal(&mut s, 905);
    assert_eq!(s, "n=0710905");
    let mut big = String::new();
    append_decimal(&mut big, u64::MAX);
    assert_eq!(big, "18446744073709551615");
}

#[test]
fn two_digit_numerals_are_appended() {
    let mut s = String::from(":");
    append_two_digits(&mut s, 0);
    assert_eq!(s, ":00");
    append_two_digits(&mut s, 9);
    append_two_digits(&mut s, 10);
    append_two_digits(&mut s, 59);
    append_two_digits(&mut s, 123);
    assert_eq!(s, ":00091059123");
}

#[test]
fn cell_in_words() {
    let mut c = Cell::new();
    assert_eq!(c.describe(), "Empty");
    c.set_bombs_around(3);
    assert_eq!(c.describe(), "Empty, 3 bombs around");
    c.set_revealed(true);
    assert_eq!(c.describe(), "Empty, 3 bombs around (revealed)");
    c.set_bombs_around(0);
    assert_eq!(c.describe(), "Empty (revealed)");
    c.set_content_bomb();
    c.set_state(CellMarker::HasBomb);
    assert_eq!(c.describe(), "Bomb (revealed)");
    c.set_bombs_around(255);
    c.set_revealed(false);
    assert_eq!(c.describe(), "Bomb, 255 bombs around");
}

#[test]
fn print_cell_describes_the_squares_of_the_board() {
    let mut board = Board::with_mines(3, 3, &vec![(1, 1)]).unwrap();
    assert_eq!(board.print_cell(1, 1), "Bomb");
    assert_eq!(board.print_cell(0, 0), "Empty, 1 bombs around");
    board.pick_cell(0, 0);
    assert_eq!(board.print_cell(0, 0), "Empty, 1 bombs around (revealed)");
    assert_eq!(board.print_cell(3, 0), "No valid cell");
    assert_eq!(board.print_cell(0, 3), "No valid cell");
    assert_eq!(board.print_cell(usize::MAX, usize::MAX), "No valid cell");
    let empty = Board::with_mines(2, 2, &vec![]).unwrap();
    assert_eq!(empty.print_cell(1, 1), "Empty");
}

#[test]
fn box_is_drawn_with_corners_edges_and_a_blank_inside() {
    let expected = ["┌──┐", "│  │", "└──┘"];
    for (j, line) in expected.iter().enumerate() {
        let drawn: String =
            (0..4u16).map(|i| box_glyph(5 + i, 7 + j as u16, 5, 7, 4, 3)).collect();
        assert_eq!(&drawn, line);
    }
}

#[test]
fn narrow_boxes() {
    assert_eq!(box_glyph(2, 2, 2, 2, 1, 1), '┌');
    let column: String = (0..3u16).map(|j| box_glyph(0, j, 0, 0, 1, 3)).collect();
    assert_eq!(column, "┌│└");
    let row: String = (0..3u16).map(|i| box_glyph(i, 0, 0, 0, 3, 1)).collect();
    assert_eq!(row, "┌─┐");
    assert_eq!(box_glyph(u16::MAX, u16::MAX, u16::MAX - 1, u16::MAX - 1, 2, 2), '┘');
    assert_eq!(box_glyph(0, 0, 3, 3, 4, 4), ' ');
}
