//! Screen rectangles, as the drawing layer lays them out.

use vstd::prelude::*;

verus! {

/// A rectangle of terminal cells: top-left corner and size.
#[derive(Clone, Copy, PartialEq, Eq, Debug, Structural)]
pub struct Rect {
    pub x: u16,
    pub y: u16,
    pub width: u16,
    pub height: u16,
}

impl Rect {
    /// The cell (`col`, `row`) lies inside the rectangle. A rectangle of zero
    /// width or height holds no cell.
    pub open spec fn has(self, col: int, row: int) -> bool {
        &&& self.x <= col < self.x + self.width
        &&& self.y <= row < self.y + self.height
    }

    /// The empty rectangle at the origin.
    pub open spec fn zero_spec() -> Rect {
        Rect { x: 0, y: 0, width: 0, height: 0 }
    }

    /// The empty rectangle at the origin.
    pub fn zero() -> (r: Rect)
        ensures
            r == (Rect { x: 0, y: 0, width: 0, height: 0 }),
    {
        Rect { x: 0, y: 0, width: 0, height: 0 }
    }

    /// Whether (`col`, `row`) lies inside the rectangle.
    pub fn contains(&self, col: u16, row: u16) -> (b: bool)
        ensures
            b == self.has(col as int, row as int),
    {
        let c = col as u32;
        let r = row as u32;
        c >= self.x as u32 && c < self.x as u32 + self.width as u32 && r >= self.y as u32 && r
            < self.y as u32 + self.height as u32
    }
}

impl Default for Rect {
    fn default() -> (r: Rect)
        ensures
            r == (Rect { x: 0, y: 0, width: 0, height: 0 }),
    {
        Rect::zero()
    }
}

} // verus!
