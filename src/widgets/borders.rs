use vstd::prelude::*;

verus! {

/// Which edges of a block carry a border line. Flags combine freely.
#[derive(Debug, Clone, Copy, PartialEq, Eq, Structural)]
pub struct Borders {
    pub top: bool,
    pub right: bool,
    pub bottom: bool,
    pub left: bool,
}

impl Borders {
    pub open spec fn none_spec() -> Borders {
        Borders { top: false, right: false, bottom: false, left: false }
    }

    pub fn none() -> (r: Borders)
        ensures
            r == (Borders { top: false, right: false, bottom: false, left: false }),
    {
        Borders { top: false, right: false, bottom: false, left: false }
    }

    pub fn top() -> (r: Borders)
        ensures
            r == (Borders { top: true, right: false, bottom: false, left: false }),
    {
        Borders { top: true, right: false, bottom: false, left: false }
    }

    pub fn right() -> (r: Borders)
        ensures
            r == (Borders { top: false, right: true, bottom: false, left: false }),
    {
        Borders { top: false, right: true, bottom: false, left: false }
    }

    pub fn bottom() -> (r: Borders)
        ensures
            r == (Borders { top: false, right: false, bottom: true, left: false }),
    {
        Borders { top: false, right: false, bottom: true, left: false }
    }

    pub fn left() -> (r: Borders)
        ensures
            r == (Borders { top: false, right: false, bottom: false, left: true }),
    {
        Borders { top: false, right: false, bottom: false, left: true }
    }

    pub fn all() -> (r: Borders)
        ensures
            r == (Borders { top: true, right: true, bottom: true, left: true }),
    {
        Borders { top: true, right: true, bottom: true, left: true }
    }

    /// The flags set in either `self` or `other`.
    pub fn union(self, other: Borders) -> (r: Borders)
        ensures
            r == (Borders {
                top: self.top || other.top,
                right: self.right || other.right,
                bottom: self.bottom || other.bottom,
                left: self.left || other.left,
            }),
    {
        Borders {
            top: self.top || other.top,
            right: self.right || other.right,
            bottom: self.bottom || other.bottom,
            left: self.left || other.left,
        }
    }

    /// Whether `self` and `other` share a flag.
    pub fn intersects(self, other: Borders) -> (r: bool)
        ensures
            r == ((self.top && other.top) || (self.right && other.right) || (self.bottom
                && other.bottom) || (self.left && other.left)),
    {
        (self.top && other.top) || (self.right && other.right) || (self.bottom && other.bottom)
            || (self.left && other.left)
    }

    /// Whether every flag of `other` is set in `self`.
    pub fn contains(self, other: Borders) -> (r: bool)
        ensures
            r == ((other.top ==> self.top) && (other.right ==> self.right) && (other.bottom
                ==> self.bottom) && (other.left ==> self.left)),
    {
        (!other.top || self.top) && (!other.right || self.right) && (!other.bottom || self.bottom)
            && (!other.left || self.left)
    }
}

impl Default for Borders {
    fn default() -> (r: Borders)
        ensures
            r == (Borders { top: false, right: false, bottom: false, left: false }),
    {
        Borders::none()
    }
}

} // verus!
