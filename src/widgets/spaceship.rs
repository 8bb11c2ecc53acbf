use crate::widgets::cave::{is_blocked, CaveModel};
use vstd::prelude::*;

verus! {

/// A cell of the viewport.
#[derive(Clone, Copy, Debug, PartialEq, Eq, Structural)]
pub struct Point {
    pub x: u16,
    pub y: u16,
}

impl Point {
    pub fn new(x: u16, y: u16) -> (r: Self)
        ensures
            r == (Point { x, y }),
    {
        Point { x, y }
    }
}

/// The player's ship: a single cell.
#[derive(Clone, Copy, Debug, PartialEq, Eq, Structural)]
pub struct SpaceshipModel {
    pub position: Point,
}

impl SpaceshipModel {
    pub fn new(x: u16, y: u16) -> (r: Self)
        ensures
            r.position == (Point { x, y }),
    {
        SpaceshipModel { position: Point::new(x, y) }
    }

    /// A ship at column `x`, in the middle of that column's passage,
    /// `floor((top + bottom) / 2)`, brought into the range of `u16`.
    pub fn spawn(cave: &CaveModel, x: u16) -> (r: Self)
        requires
            (x as int) < cave.openings@.len(),
        ensures
            ({
                let m = (cave.openings@[x as int].0 + cave.openings@[x as int].1) / 2;
                &&& r.position.x == x
                &&& r.position.y == (if m < 0 {
                    0
                } else if m > u16::MAX {
                    u16::MAX as int
                } else {
                    m
                })
            }),
    {
        let (top, bottom) = cave.openings[x as usize];
        let s: i128 = top as i128 + bottom as i128;
        let y: u16 = if s < 0 {
            0
        } else if s / 2 > u16::MAX as i128 {
            u16::MAX
        } else {
            (s / 2) as u16
        };
        SpaceshipModel::new(x, y)
    }

    /// Whether the ship's cell is solid rock in `cave`.
    pub fn check_collision(&self, cave: &CaveModel) -> (r: bool)
        requires
            (self.position.x as int) < cave.openings@.len(),
        ensures
            r == (self.position.y < cave.openings@[self.position.x as int].0
                || self.position.y > cave.openings@[self.position.x as int].1),
    {
        is_blocked(cave, self.position.x as usize, self.position.y as i64)
    }

    /// Moves the ship one row up, staying on row zero at the top edge.
    pub fn move_up(&mut self)
        ensures
            final(self).position.x == old(self).position.x,
            final(self).position.y == (if old(self).position.y > 0 {
                old(self).position.y - 1
            } else {
                0
            }),
    {
        self.position.y = self.position.y.saturating_sub(1);
    }

    /// Moves the ship one row down, staying on the last row at `u16::MAX`.
    pub fn move_down(&mut self)
        ensures
            final(self).position.x == old(self).position.x,
            final(self).position.y == (if old(self).position.y < u16::MAX {
                old(self).position.y + 1
            } else {
                u16::MAX as int
            }),
    {
        self.position.y = self.position.y.saturating_add(1);
    }
}

} // verus!
