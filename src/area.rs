use vstd::prelude::*;

verus! {

/// An axis-aligned rectangle of terminal cells: origin `(x, y)` and size.
#[derive(Clone, Copy, Debug, PartialEq, Eq, Structural)]
pub struct Area {
    pub x: u16,
    pub y: u16,
    pub width: u16,
    pub height: u16,
}

impl Area {
    pub fn new(x: u16, y: u16, width: u16, height: u16) -> (r: Self)
        ensures
            r == (Area { x, y, width, height }),
    {
        Area { x, y, width, height }
    }

    /// Number of cells, `width * height`.
    pub fn cells(&self) -> (r: usize)
        ensures
            r == self.width * self.height,
    {
        proof {
            vstd::arithmetic::mul::lemma_mul_upper_bound(
                self.width as int,
                65535,
                self.height as int,
                65535,
            );
        }
        self.width as usize * self.height as usize
    }

    /// First column to the right of the area, saturating at `u16::MAX`.
    pub fn right(&self) -> (r: u16)
        ensures
            r == (if self.x + self.width <= u16::MAX { self.x + self.width } else { u16::MAX as int }),
    {
        self.x.saturating_add(self.width)
    }
}

} // verus!
