use minesweeper::cell::{Cell, CellMarker, RenderHint};

#[test]
fn new_cell_is_blank() {
    let c = Cell::new();
    assert!(c.is_empty());
    assert!(!c.is_bomb());
    assert!(!c.is_revealed());
    assert_eq!(c.get_bombs_around(), 0);
    assert_eq!(c.get_state(), CellMarker::Unmarked);
    assert_eq!(c.get_gfx(), RenderHint::Hidden);
}

#[test]
fn default_cell_is_blank() {
    let c = Cell::default();
    assert!(c.is_empty());
    assert!(!c.is_revealed());
    assert_eq!(c.get_bombs_around(), 0);
    assert_eq!(c.get_state(), CellMarker::Unmarked);
}

#[test]
fn setters_change_one_thing_each() {
    let mut c = Cell::new();
    c.set_content_bomb();
    assert!(c.is_bomb());
    assert!(!c.is_empty());
    assert!(!c.is_revealed());
    assert_eq!(c.get_state(), CellMarker::Unmarked);
    c.set_state(CellMarker::GuessBomb);
    assert_eq!(c.get_state(), CellMarker::GuessBomb);
    assert!(c.is_bomb());
    c.set_bombs_around(7);
    assert_eq!(c.get_bombs_around(), 7);
    assert_eq!(c.get_state(), CellMarker::GuessBomb);
    c.set_revealed(true);
    assert!(c.is_revealed());
    assert_eq!(c.get_bombs_around(), 7);
    c.set_revealed(false);
    assert!(!c.is_revealed());
    assert!(c.is_bomb());
}

#[test]
fn clear_resets_a_cell() {
    let mut c = Cell::new();
    c.set_content_bomb();
    c.set_state(CellMarker::HasBomb);
    c.set_bombs_around(3);
    c.set_revealed(true);
    c.clear();
    assert!(c.is_empty());
    assert!(!c.is_revealed());
    assert_eq!(c.get_bombs_around(), 0);
    assert_eq!(c.get_state(), CellMarker::Unmarked);
}

#[test]
fn hidden_cell_shows_its_marker() {
    let mut c = Cell::new();
    c.set_content_bomb();
    c.set_bombs_around(2);
    assert_eq!(c.get_gfx(), RenderHint::Hidden);
    c.set_state(CellMarker::HasBomb);
    assert_eq!(c.get_gfx(), RenderHint::Flagged);
    c.set_state(CellMarker::GuessBomb);
    assert_eq!(c.get_gfx(), RenderHint::Questioned);
}

#[test]
fn revealed_cell_shows_its_content() {
    let mut c = Cell::new();
    c.set_revealed(true);
    assert_eq!(c.get_gfx(), RenderHint::RevealedBlank);
    for n in 1..=8u8 {
        c.set_bombs_around(n);
        assert_eq!(c.get_gfx(), RenderHint::RevealedNumber(n));
    }
    c.set_state(CellMarker::HasBomb);
    assert_eq!(c.get_gfx(), RenderHint::RevealedNumber(8));
    c.set_content_bomb();
    assert_eq!(c.get_gfx(), RenderHint::RevealedMine);
}
