//! The frame that is drawn round the board.

use vstd::prelude::*;

verus! {

/// The glyph at column `x` and row `y` of a box whose upper left corner is
/// at `(x_pos, y_pos)` and which is `width` columns wide and `height` rows
/// high: a corner, an edge, or a blank inside.
pub open spec fn frame_glyph(x: int, y: int, x_pos: int, y_pos: int, width: int, height: int) -> char {
    let left = x == x_pos;
    let right = x == x_pos + width - 1;
    let top = y == y_pos;
    let bottom = y == y_pos + height - 1;
    if left && top {
        '┌'
    } else if right && top {
        '┐'
    } else if left && bottom {
        '└'
    } else if right && bottom {
        '┘'
    } else if left || right {
        '│'
    } else if top || bottom {
        '─'
    } else {
        ' '
    }
}

/// The glyph of one place of a box. The box must lie within the columns and
/// rows that a terminal can number.
pub fn box_glyph(x: u16, y: u16, x_pos: u16, y_pos: u16, width: u16, height: u16) -> (glyph: char)
    requires
        width >= 1,
        height >= 1,
        x_pos + width - 1 <= u16::MAX,
        y_pos + height - 1 <= u16::MAX,
    ensures
        glyph == frame_glyph(x as int, y as int, x_pos as int, y_pos as int, width as int, height as int),
{
    let last_x = x_pos + (width - 1);
    let last_y = y_pos + (height - 1);
    if x == x_pos && y == y_pos {
        '┌'
    } else if x == last_x && y == y_pos {
        '┐'
    } else if x == x_pos && y == last_y {
        '└'
    } else if x == last_x && y == last_y {
        '┘'
    } else if x == x_pos || x == last_x {
        '│'
    } else if y == y_pos || y == last_y {
        '─'
    } else {
        ' '
    }
}

} // verus!
