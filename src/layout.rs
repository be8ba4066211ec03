//! Plain geometric value types: positions, sizes and rectangles on the
//! terminal's cell grid.
use vstd::prelude::*;

verus! {

/// A cell position: column `x`, row `y`.
#[derive(Debug, Clone, Copy, PartialEq, Eq, Hash, Default, Structural)]
pub struct Position {
    pub x: u16,
    pub y: u16,
}

impl Position {
    pub fn new(x: u16, y: u16) -> (r: Position)
        ensures
            r.x == x,
            r.y == y,
    {
        Position { x, y }
    }
}

/// A width and a height, in cells.
#[derive(Debug, Clone, Copy, PartialEq, Eq, Hash, Default, Structural)]
pub struct Size {
    pub width: u16,
    pub height: u16,
}

impl Size {
    pub fn new(width: u16, height: u16) -> (r: Size)
        ensures
            r.width == width,
            r.height == height,
    {
        Size { width, height }
    }
}

/// A rectangle of cells whose top-left corner is `(x, y)`.
#[derive(Debug, Clone, Copy, PartialEq, Eq, Hash, Default, Structural)]
pub struct Rect {
    pub x: u16,
    pub y: u16,
    pub width: u16,
    pub height: u16,
}

impl Rect {
    /// Number of cells the rectangle covers.
    pub open spec fn area_spec(self) -> nat {
        (self.width as nat) * (self.height as nat)
    }

    /// The rectangle's right and bottom edges stay inside the `u16` coordinate range.
    pub open spec fn fits(self) -> bool {
        self.x + self.width <= u16::MAX && self.y + self.height <= u16::MAX
    }

    pub open spec fn contains_spec(self, x: int, y: int) -> bool {
        self.x <= x < self.x + self.width && self.y <= y < self.y + self.height
    }

    pub fn new(x: u16, y: u16, width: u16, height: u16) -> (r: Rect)
        ensures
            r == (Rect { x, y, width, height }),
    {
        Rect { x, y, width, height }
    }

    /// The rectangle of the given size whose corner is `pos`.
    pub fn from_position_size(pos: Position, size: Size) -> (r: Rect)
        ensures
            r == (Rect { x: pos.x, y: pos.y, width: size.width, height: size.height }),
    {
        Rect { x: pos.x, y: pos.y, width: size.width, height: size.height }
    }

    pub fn area(&self) -> (r: usize)
        ensures
            r == self.area_spec(),
    {
        proof {
            vstd::arithmetic::mul::lemma_mul_upper_bound(
                self.width as int,
                u16::MAX as int,
                self.height as int,
                u16::MAX as int,
            );
        }
        (self.width as usize) * (self.height as usize)
    }

    pub fn left(&self) -> (r: u16)
        ensures
            r == self.x,
    {
        self.x
    }

    /// The column just past the rectangle; saturates at `u16::MAX`.
    pub fn right(&self) -> (r: u16)
        ensures
            r == if self.x + self.width <= u16::MAX {
                (self.x + self.width) as u16
            } else {
                u16::MAX
            },
    {
        self.x.saturating_add(self.width)
    }

    pub fn top(&self) -> (r: u16)
        ensures
            r == self.y,
    {
        self.y
    }

    /// The row just past the rectangle; saturates at `u16::MAX`.
    pub fn bottom(&self) -> (r: u16)
        ensures
            r == if self.y + self.height <= u16::MAX {
                (self.y + self.height) as u16
            } else {
                u16::MAX
            },
    {
        self.y.saturating_add(self.height)
    }

    pub fn contains(&self, p: Position) -> (r: bool)
        ensures
            r == self.contains_spec(p.x as int, p.y as int),
    {
        (p.x as u32) >= (self.x as u32) && (p.x as u32) < (self.x as u32) + (self.width as u32)
            && (p.y as u32) >= (self.y as u32) && (p.y as u32) < (self.y as u32) + (
        self.height as u32)
    }

    pub fn as_position(&self) -> (r: Position)
        ensures
            r == (Position { x: self.x, y: self.y }),
    {
        Position { x: self.x, y: self.y }
    }

    pub fn as_size(&self) -> (r: Size)
        ensures
            r == (Size { width: self.width, height: self.height }),
    {
        Size { width: self.width, height: self.height }
    }
}

} // verus!
