//! Anchor-corner geometry: which screen corner toasts hang from, where that
//! corner lies once a margin is applied, and on which side the slide
//! animation enters.
//!
//! Coordinates are plain integer units (the host decides what one unit is,
//! typically a pixel). The y axis grows downward, as in most UI frameworks.
//! Corner positions are returned as `i128` so that the sum of any `i64`
//! coordinate and any `i64` margin is exact.

use vstd::prelude::*;

verus! {

/// Screen or container corner that toasts are stacked from.
#[derive(Debug, Clone, Copy, PartialEq, Eq, Structural)]
pub enum Anchor {
    /// Top right corner.
    TopRight,
    /// Top left corner.
    TopLeft,
    /// Bottom right corner.
    BottomRight,
    /// Bottom left corner.
    BottomLeft,
}

/// An axis-aligned rectangle in host units.
#[derive(Debug, Clone, Copy, PartialEq, Eq, Structural)]
pub struct Rectangle {
    pub min_x: i64,
    pub min_y: i64,
    pub max_x: i64,
    pub max_y: i64,
}

/// Inward margin between the container edge and the anchored corner.
#[derive(Debug, Clone, Copy, PartialEq, Eq, Structural)]
pub struct Margin {
    pub x: i64,
    pub y: i64,
}

/// A computed screen position, wide enough to hold any corner offset exactly.
#[derive(Debug, Clone, Copy, PartialEq, Eq, Structural)]
pub struct Position {
    pub x: i128,
    pub y: i128,
}

impl Anchor {
    /// True for the two right-hand corners.
    pub open spec fn is_right(self) -> bool {
        self == Anchor::TopRight || self == Anchor::BottomRight
    }

    /// True for the two top corners.
    pub open spec fn is_top(self) -> bool {
        self == Anchor::TopRight || self == Anchor::TopLeft
    }

    /// Horizontal direction the slide animation comes from: `+1` on the
    /// right-hand side of the screen, `-1` on the left-hand side.
    pub open spec fn spec_slide_sign(self) -> int {
        if self.is_right() {
            1
        } else {
            -1
        }
    }

    /// Vertical stacking direction: `+1` (downward) from a top corner,
    /// `-1` (upward) from a bottom corner.
    pub open spec fn spec_stack_dir(self) -> int {
        if self.is_top() {
            1
        } else {
            -1
        }
    }

    /// X coordinate of the anchored corner after the margin moves it inward:
    /// subtracted on the right-hand side, added on the left-hand side.
    pub open spec fn spec_corner_x(self, rect: Rectangle, margin: Margin) -> int {
        if self.is_right() {
            rect.max_x - margin.x
        } else {
            rect.min_x + margin.x
        }
    }

    /// Y coordinate of the anchored corner after the margin moves it inward:
    /// added at the top, subtracted at the bottom.
    pub open spec fn spec_corner_y(self, rect: Rectangle, margin: Margin) -> int {
        if self.is_top() {
            rect.min_y + margin.y
        } else {
            rect.max_y - margin.y
        }
    }

    /// Horizontal direction of the slide animation, as a value.
    pub fn slide_sign(&self) -> (s: i64)
        ensures
            s as int == self.spec_slide_sign(),
    {
        match self {
            Anchor::TopRight | Anchor::BottomRight => 1,
            Anchor::TopLeft | Anchor::BottomLeft => -1,
        }
    }

    /// Moves a corner position inward by the margin, per the sign convention
    /// of [`Anchor::spec_corner_x`] and [`Anchor::spec_corner_y`].
    pub fn apply_margin(&self, pos: &mut Position, margin: &Margin)
        requires
            i64::MIN as int <= old(pos).x <= i64::MAX as int,
            i64::MIN as int <= old(pos).y <= i64::MAX as int,
        ensures
            final(pos).x == old(pos).x + (if self.is_right() {
                -margin.x as int
            } else {
                margin.x as int
            }),
            final(pos).y == old(pos).y + (if self.is_top() {
                margin.y as int
            } else {
                -margin.y as int
            }),
    {
        match self {
            Anchor::TopRight => {
                pos.x = pos.x - margin.x as i128;
                pos.y = pos.y + margin.y as i128;
            },
            Anchor::TopLeft => {
                pos.x = pos.x + margin.x as i128;
                pos.y = pos.y + margin.y as i128;
            },
            Anchor::BottomRight => {
                pos.x = pos.x - margin.x as i128;
                pos.y = pos.y - margin.y as i128;
            },
            Anchor::BottomLeft => {
                pos.x = pos.x + margin.x as i128;
                pos.y = pos.y - margin.y as i128;
            },
        }
    }

    /// The corner of `rect` that this anchor names, moved inward by `margin`.
    pub fn corner_of(&self, rect: &Rectangle, margin: &Margin) -> (p: Position)
        ensures
            p.x == self.spec_corner_x(*rect, *margin),
            p.y == self.spec_corner_y(*rect, *margin),
    {
        let mut p = match self {
            Anchor::TopRight => Position { x: rect.max_x as i128, y: rect.min_y as i128 },
            Anchor::TopLeft => Position { x: rect.min_x as i128, y: rect.min_y as i128 },
            Anchor::BottomRight => Position { x: rect.max_x as i128, y: rect.max_y as i128 },
            Anchor::BottomLeft => Position { x: rect.min_x as i128, y: rect.max_y as i128 },
        };
        self.apply_margin(&mut p, margin);
        p
    }

    /// The anchored corner of a whole screen of size `width` by `height`,
    /// with its origin at the top left.
    pub fn screen_corner(&self, width: i64, height: i64, margin: &Margin) -> (p: Position)
        ensures
            p.x == self.spec_corner_x(
                Rectangle { min_x: 0, min_y: 0, max_x: width, max_y: height },
                *margin,
            ),
            p.y == self.spec_corner_y(
                Rectangle { min_x: 0, min_y: 0, max_x: width, max_y: height },
                *margin,
            ),
    {
        let rect = Rectangle { min_x: 0, min_y: 0, max_x: width, max_y: height };
        self.corner_of(&rect, margin)
    }
}

/// With a zero margin the anchored corner is exactly the geometric corner of
/// the container.
pub proof fn lemma_corner_zero_margin(a: Anchor, rect: Rectangle)
    ensures
        a.spec_corner_x(rect, Margin { x: 0, y: 0 }) == if a.is_right() {
            rect.max_x as int
        } else {
            rect.min_x as int
        },
        a.spec_corner_y(rect, Margin { x: 0, y: 0 }) == if a.is_top() {
            rect.min_y as int
        } else {
            rect.max_y as int
        },
{
}

/// With a strictly positive margin the anchored corner moves strictly inward
/// on both axes: left of a right edge, right of a left edge, below a top
/// edge, above a bottom edge.
pub proof fn lemma_corner_positive_margin_inward(a: Anchor, rect: Rectangle, margin: Margin)
    requires
        margin.x > 0,
        margin.y > 0,
    ensures
        a.is_right() ==> a.spec_corner_x(rect, margin) < rect.max_x,
        !a.is_right() ==> a.spec_corner_x(rect, margin) > rect.min_x,
        a.is_top() ==> a.spec_corner_y(rect, margin) > rect.min_y,
        !a.is_top() ==> a.spec_corner_y(rect, margin) < rect.max_y,
{
}

} // verus!
