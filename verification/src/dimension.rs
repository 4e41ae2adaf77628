//! A width and a height in terminal columns and rows.

use vstd::prelude::*;

verus! {

#[derive(Copy, Clone, Debug, PartialEq, Eq, Structural)]
pub struct Dimension {
    w: u16,
    h: u16,
}

impl View for Dimension {
    type V = (u16, u16);

    closed spec fn view(&self) -> (u16, u16) {
        (self.w, self.h)
    }
}

impl Default for Dimension {
    fn default() -> (d: Dimension)
        ensures
            d@ == (0u16, 0u16),
    {
        Dimension { w: 0, h: 0 }
    }
}

impl Dimension {
    pub fn new(width: u16, height: u16) -> (d: Dimension)
        ensures
            d@ == (width, height),
    {
        Dimension { w: width, h: height }
    }

    pub fn set(&mut self, width: u16, height: u16)
        ensures
            final(self)@ == (width, height),
    {
        self.w = width;
        self.h = height;
    }

    pub fn get(&self) -> (r: (u16, u16))
        ensures
            r == self@,
    {
        (self.w, self.h)
    }

    pub fn get_width(&self) -> (r: u16)
        ensures
            r == self@.0,
    {
        self.w
    }

    pub fn get_height(&self) -> (r: u16)
        ensures
            r == self@.1,
    {
        self.h
    }
}

} // verus!
