use vstd::prelude::*;

verus! {

/// A cell coordinate on the grid: `x` grows to the right, `y` grows downward
/// and row 0 is the top row. No bounds are implied by the type itself.
#[derive(Clone, Copy, Debug, PartialEq, Eq, Structural)]
pub struct GridPosition {
    pub x: i32,
    pub y: i32,
}

impl GridPosition {
    pub fn new(x: i32, y: i32) -> (r: GridPosition)
        ensures
            r.x == x,
            r.y == y,
    {
        GridPosition { x, y }
    }

    /// One column to the left.
    pub fn move_left(&self) -> (r: GridPosition)
        requires
            self.x > i32::MIN,
        ensures
            r.x == self.x - 1,
            r.y == self.y,
    {
        GridPosition { x: self.x - 1, y: self.y }
    }

    /// One column to the right.
    pub fn move_right(&self) -> (r: GridPosition)
        requires
            self.x < i32::MAX,
        ensures
            r.x == self.x + 1,
            r.y == self.y,
    {
        GridPosition { x: self.x + 1, y: self.y }
    }

    /// One row down.
    pub fn move_down(&self) -> (r: GridPosition)
        requires
            self.y < i32::MAX,
        ensures
            r.x == self.x,
            r.y == self.y + 1,
    {
        GridPosition { x: self.x, y: self.y + 1 }
    }
}

} // verus!
