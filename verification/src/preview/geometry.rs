//! Window rectangles.

use vstd::prelude::*;

verus! {

/// A rectangle in window coordinates; `right` and `bottom` lie just
/// outside of it.
#[derive(Debug, Clone, Copy, PartialEq, Eq, Structural)]
pub struct Rect {
    pub left: i32,
    pub top: i32,
    pub right: i32,
    pub bottom: i32,
}

impl Rect {
    /// Distance from the left to the right side; negative if they are
    /// swapped.
    pub open spec fn spec_width(self) -> int {
        self.right - self.left
    }

    /// Distance from the top to the bottom side; negative if they are
    /// swapped.
    pub open spec fn spec_height(self) -> int {
        self.bottom - self.top
    }

    /// Do the sides differ by numbers that fit in an `i32`?
    pub open spec fn extents_fit(self) -> bool {
        &&& i32::MIN <= self.spec_width() <= i32::MAX
        &&& i32::MIN <= self.spec_height() <= i32::MAX
    }

    /// Tells whether width and height fit in an `i32`.
    pub fn has_extents(&self) -> (fits: bool)
        ensures
            fits == self.extents_fit(),
            fits <==> i32::MIN <= self.right - self.left <= i32::MAX && i32::MIN <= self.bottom
                - self.top <= i32::MAX,
    {
        let width: i64 = self.right as i64 - self.left as i64;
        let height: i64 = self.bottom as i64 - self.top as i64;
        i32::MIN as i64 <= width && width <= i32::MAX as i64 && i32::MIN as i64 <= height && height
            <= i32::MAX as i64
    }

    pub fn width(&self) -> (width: i32)
        requires
            self.extents_fit(),
        ensures
            width == self.spec_width(),
            width == self.right - self.left,
    {
        self.right - self.left
    }

    pub fn height(&self) -> (height: i32)
        requires
            self.extents_fit(),
        ensures
            height == self.spec_height(),
            height == self.bottom - self.top,
    {
        self.bottom - self.top
    }
}

} // verus!
