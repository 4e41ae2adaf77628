//! A column and a row on the terminal.

use vstd::prelude::*;

verus! {

#[derive(Copy, Clone, Debug, PartialEq, Eq, Structural)]
pub struct Position {
    x: u16,
    y: u16,
}

impl View for Position {
    type V = (u16, u16);

    closed spec fn view(&self) -> (u16, u16) {
        (self.x, self.y)
    }
}

impl Default for Position {
    fn default() -> (d: Position)
        ensures
            d@ == (0u16, 0u16),
    {
        Position { x: 0, y: 0 }
    }
}

impl Position {
    pub fn new(x_pos: u16, y_pos: u16) -> (p: Position)
        ensures
            p@ == (x_pos, y_pos),
    {
        Position { x: x_pos, y: y_pos }
    }

    pub fn set(&mut self, x_pos: u16, y_pos: u16)
        ensures
            final(self)@ == (x_pos, y_pos),
    {
        self.x = x_pos;
        self.y = y_pos;
    }

    pub fn set_x(&mut self, x_pos: u16)
        ensures
            final(self)@ == (x_pos, old(self)@.1),
    {
        self.x = x_pos;
    }

    pub fn set_y(&mut self, y_pos: u16)
        ensures
            final(self)@ == (old(self)@.0, y_pos),
    {
        self.y = y_pos;
    }

    pub fn get(&self) -> (r: (u16, u16))
        ensures
            r == self@,
    {
        (self.x, self.y)
    }

    pub fn get_x(&self) -> (r: u16)
        ensures
            r == self@.0,
    {
        self.x
    }

    pub fn get_y(&self) -> (r: u16)
        ensures
            r == self@.1,
    {
        self.y
    }
}

} // verus!
