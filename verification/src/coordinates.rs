//! A position on the board grid: a pair of unsigned components, compared by
//! value and combined component-wise.

use vstd::prelude::*;
use vstd::string::StringExecFns;

verus! {

/// A 2D grid position. `x` grows to the right, `y` downward; the cell at
/// `(x, y)` sits at row-major index `y * width + x`.
#[derive(Clone, Copy, Debug, PartialEq, Eq, Structural)]
pub struct Coordinates {
    pub x: usize,
    pub y: usize,
}

/// The diagnostic text of a coordinate: `"x, y"` with both components in
/// decimal.
pub open spec fn coordinate_text(c: Coordinates) -> Seq<char> {
    crate::decimal::spec_decimal(c.x as int) + ", "@ + crate::decimal::spec_decimal(c.y as int)
}

impl Coordinates {
    /// Component-wise sum. The caller guarantees that neither component
    /// overflows.
    pub fn add(self, rhs: Coordinates) -> (r: Coordinates)
        requires
            self.x + rhs.x <= usize::MAX,
            self.y + rhs.y <= usize::MAX,
        ensures
            r.x == self.x + rhs.x,
            r.y == self.y + rhs.y,
    {
        Coordinates { x: self.x + rhs.x, y: self.y + rhs.y }
    }

    /// Component-wise difference. The caller guarantees that neither
    /// component underflows.
    pub fn sub(self, rhs: Coordinates) -> (r: Coordinates)
        requires
            rhs.x <= self.x,
            rhs.y <= self.y,
        ensures
            r.x == self.x - rhs.x,
            r.y == self.y - rhs.y,
    {
        Coordinates { x: self.x - rhs.x, y: self.y - rhs.y }
    }

    /// The coordinate rendered as `"x, y"`, used only for diagnostic labels.
    pub fn to_text(&self) -> (r: String)
        ensures
            r@ == coordinate_text(*self),
    {
        let mut s = String::new();
        crate::decimal::push_decimal(&mut s, self.x);
        s.append(", ");
        crate::decimal::push_decimal(&mut s, self.y);
        proof {
            assert(s@ =~= coordinate_text(*self));
        }
        s
    }
}

} // verus!
