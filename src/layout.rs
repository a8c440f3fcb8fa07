use vstd::prelude::*;

verus! {

/// A rectangle of grid cells, anchored at its top-left corner.
#[derive(Debug, Clone, Copy, PartialEq, Eq, Structural)]
pub struct Rect {
    pub x: u16,
    pub y: u16,
    pub width: u16,
    pub height: u16,
}

/// `a + b`, saturated at `u16::MAX`.
pub open spec fn sat_add(a: u16, b: u16) -> u16 {
    if a + b > u16::MAX { u16::MAX } else { (a + b) as u16 }
}

/// `a - b`, saturated at zero.
pub open spec fn sat_sub(a: u16, b: u16) -> u16 {
    if a >= b { (a - b) as u16 } else { 0 }
}

impl Rect {
    pub open spec fn right_spec(&self) -> u16 {
        sat_add(self.x, self.width)
    }

    pub open spec fn bottom_spec(&self) -> u16 {
        sat_add(self.y, self.height)
    }

    /// The rectangle's edges can be computed without saturating.
    pub open spec fn fits(&self) -> bool {
        self.x + self.width <= u16::MAX && self.y + self.height <= u16::MAX
    }

    /// Every cell of `other` is a cell of `self`.
    pub open spec fn holds(&self, other: Rect) -> bool {
        &&& self.x <= other.x
        &&& self.y <= other.y
        &&& other.x + other.width <= self.x + self.width
        &&& other.y + other.height <= self.y + self.height
    }

    /// Whether the cell `(cx, cy)` lies in the rectangle.
    pub open spec fn has_cell(&self, cx: int, cy: int) -> bool {
        &&& self.x <= cx < self.x + self.width
        &&& self.y <= cy < self.y + self.height
    }

    pub fn new(x: u16, y: u16, width: u16, height: u16) -> (r: Rect)
        ensures
            r == (Rect { x, y, width, height }),
    {
        Rect { x, y, width, height }
    }

    /// Number of cells.
    pub fn area(&self) -> (r: u32)
        ensures
            r == self.width * self.height,
    {
        proof {
            assert(self.width * self.height <= u16::MAX * u16::MAX) by (nonlinear_arith)
                requires
                    self.width <= u16::MAX,
                    self.height <= u16::MAX,
            ;
        }
        (self.width as u32) * (self.height as u32)
    }

    pub fn left(&self) -> (r: u16)
        ensures
            r == self.x,
    {
        self.x
    }

    pub fn right(&self) -> (r: u16)
        ensures
            r == self.right_spec(),
    {
        self.x.saturating_add(self.width)
    }

    pub fn top(&self) -> (r: u16)
        ensures
            r == self.y,
    {
        self.y
    }

    pub fn bottom(&self) -> (r: u16)
        ensures
            r == self.bottom_spec(),
    {
        self.y.saturating_add(self.height)
    }
}

impl Default for Rect {
    fn default() -> (r: Rect)
        ensures
            r == (Rect { x: 0, y: 0, width: 0, height: 0 }),
    {
        Rect { x: 0, y: 0, width: 0, height: 0 }
    }
}

} // verus!
