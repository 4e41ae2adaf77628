//! A single square of the board.

use vstd::prelude::*;
use vstd::string::StringExecFns;
use crate::text::{append_decimal, decimal};

verus! {

/// What a square holds.
#[derive(Copy, Clone, Debug, PartialEq, Eq, Structural)]
enum CellContent {
    Bomb,
    Empty,
}

/// The mark a player has put on a hidden square.
#[derive(Copy, Clone, Debug, PartialEq, Eq, Structural)]
pub enum CellMarker {
    /// The player suspects a mine (shown as a question mark).
    GuessBomb,
    /// The player claims a mine (shown as a flag).
    HasBomb,
    /// No mark.
    Unmarked,
}

impl Default for CellMarker {
    fn default() -> (m: CellMarker)
        ensures
            m == CellMarker::Unmarked,
    {
        CellMarker::Unmarked
    }
}

/// How a square is to be drawn. Glyphs and colours are the renderer's choice.
#[derive(Copy, Clone, Debug, PartialEq, Eq, Structural)]
pub enum RenderHint {
    RevealedMine,
    RevealedNumber(u8),
    RevealedBlank,
    Flagged,
    Questioned,
    Hidden,
}

/// The mathematical value of a [`Cell`].
pub struct CellState {
    pub mine: bool,
    pub marker: CellMarker,
    pub revealed: bool,
    pub adjacent: u8,
}

impl CellState {
    /// The state of a fresh square: empty, unmarked, hidden, count zero.
    pub open spec fn blank() -> CellState {
        CellState { mine: false, marker: CellMarker::Unmarked, revealed: false, adjacent: 0 }
    }

    /// The square in words: what it holds, the number of mines around it
    /// unless that is zero, and whether it is revealed.
    pub open spec fn description(self) -> Seq<char> {
        (if self.mine {
            "Bomb"@
        } else {
            "Empty"@
        }) + (if self.adjacent > 0 {
            ", "@ + decimal(self.adjacent as nat) + " bombs around"@
        } else {
            Seq::<char>::empty()
        }) + (if self.revealed {
            " (revealed)"@
        } else {
            Seq::<char>::empty()
        })
    }

    /// The drawing of a square: a revealed square shows what it holds, a
    /// hidden one shows its mark.
    pub open spec fn render_hint(self) -> RenderHint {
        if self.revealed {
            if self.mine {
                RenderHint::RevealedMine
            } else if self.adjacent == 0 {
                RenderHint::RevealedBlank
            } else {
                RenderHint::RevealedNumber(self.adjacent)
            }
        } else {
            match self.marker {
                CellMarker::GuessBomb => RenderHint::Questioned,
                CellMarker::HasBomb => RenderHint::Flagged,
                CellMarker::Unmarked => RenderHint::Hidden,
            }
        }
    }
}

/// One square: content, marker, revealed flag and the cached number of
/// neighbouring mines.
#[derive(Copy, Clone, Debug)]
pub struct Cell {
    content: CellContent,
    state: CellMarker,
    is_revealed: bool,
    bombs_around: u8,
}

impl View for Cell {
    type V = CellState;

    closed spec fn view(&self) -> CellState {
        CellState {
            mine: self.content == CellContent::Bomb,
            marker: self.state,
            revealed: self.is_revealed,
            adjacent: self.bombs_around,
        }
    }
}

impl Default for Cell {
    fn default() -> (c: Cell)
        ensures
            c@ == CellState::blank(),
    {
        Cell {
            content: CellContent::Empty,
            state: CellMarker::Unmarked,
            is_revealed: false,
            bombs_around: 0,
        }
    }
}

impl Cell {
    pub fn new() -> (c: Cell)
        ensures
            c@ == CellState::blank(),
    {
        Cell {
            content: CellContent::Empty,
            state: CellMarker::Unmarked,
            is_revealed: false,
            bombs_around: 0,
        }
    }

    pub fn clear(&mut self)
        ensures
            final(self)@ == CellState::blank(),
    {
        self.content = CellContent::Empty;
        self.state = CellMarker::Unmarked;
        self.is_revealed = false;
        self.bombs_around = 0;
    }

    pub fn set_content_bomb(&mut self)
        ensures
            final(self)@ == (CellState { mine: true, ..old(self)@ }),
    {
        self.content = CellContent::Bomb;
    }

    pub fn set_state(&mut self, mark: CellMarker)
        ensures
            final(self)@ == (CellState { marker: mark, ..old(self)@ }),
    {
        self.state = mark;
    }

    pub fn set_bombs_around(&mut self, bombs: u8)
        ensures
            final(self)@ == (CellState { adjacent: bombs, ..old(self)@ }),
    {
        self.bombs_around = bombs;
    }

    pub fn set_revealed(&mut self, state: bool)
        ensures
            final(self)@ == (CellState { revealed: state, ..old(self)@ }),
    {
        self.is_revealed = state;
    }

    pub fn is_revealed(&self) -> (r: bool)
        ensures
            r == self@.revealed,
    {
        self.is_revealed
    }

    pub fn is_bomb(&self) -> (r: bool)
        ensures
            r == self@.mine,
    {
        self.content == CellContent::Bomb
    }

    pub fn is_empty(&self) -> (r: bool)
        ensures
            r == !self@.mine,
    {
        self.content == CellContent::Empty
    }

    pub fn get_bombs_around(&self) -> (r: u8)
        ensures
            r == self@.adjacent,
    {
        self.bombs_around
    }

    pub fn get_state(&self) -> (r: CellMarker)
        ensures
            r == self@.marker,
    {
        self.state
    }

    /// This square in words.
    pub fn describe(&self) -> (text: String)
        ensures
            text@ == self@.description(),
    {
        let mut text = String::new();
        match self.content {
            CellContent::Bomb => text.append("Bomb"),
            CellContent::Empty => text.append("Empty"),
        }
        if self.bombs_around > 0 {
            text.append(", ");
            append_decimal(&mut text, self.bombs_around as u64);
            text.append(" bombs around");
        }
        if self.is_revealed {
            text.append(" (revealed)");
        }
        assert(text@ =~= self@.description());
        text
    }

    /// The drawing of this square.
    pub fn get_gfx(&self) -> (r: RenderHint)
        ensures
            r == self@.render_hint(),
    {
        if self.is_revealed {
            match self.content {
                CellContent::Bomb => RenderHint::RevealedMine,
                CellContent::Empty => {
                    if self.bombs_around == 0 {
                        RenderHint::RevealedBlank
                    } else {
                        RenderHint::RevealedNumber(self.bombs_around)
                    }
                },
            }
        } else {
            match self.state {
                CellMarker::GuessBomb => RenderHint::Questioned,
                CellMarker::HasBomb => RenderHint::Flagged,
                CellMarker::Unmarked => RenderHint::Hidden,
            }
        }
    }
}

} // verus!
