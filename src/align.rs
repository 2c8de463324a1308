use vstd::prelude::*;

pub mod typed;
pub mod valued;

verus! {

/// A pair of items addressed by the sides of the left-right axis.
#[derive(Clone, Copy, Debug)]
pub struct Horizontal<T> {
    pub left: T,
    pub right: T,
}

/// A pair of items addressed by the sides of the top-bottom axis.
#[derive(Clone, Copy, Debug)]
pub struct Vertical<T> {
    pub top: T,
    pub bottom: T,
}

/// Four items, one for each side of a rectangle.
#[derive(Clone, Copy, Debug)]
pub struct Square<T> {
    pub left: T,
    pub right: T,
    pub top: T,
    pub bottom: T,
}

/// Four items, one for each corner of a rectangle, addressed by a
/// (vertical, horizontal) pair of sides.
#[derive(Clone, Copy, Debug)]
pub struct Quadrant<T> {
    pub top: Horizontal<T>,
    pub bottom: Horizontal<T>,
}

/// One item for the horizontal axis and one for the vertical axis.
#[derive(Clone, Copy, Debug)]
pub struct Axial<T> {
    pub horizontal: T,
    pub vertical: T,
}

impl<T> Horizontal<T> {
    /// The item at the given position.
    pub open spec fn spec_aligned(&self, alignment: valued::HorizontalAlignment) -> T {
        match alignment {
            valued::HorizontalAlignment::Left => self.left,
            valued::HorizontalAlignment::Right => self.right,
        }
    }

    /// The item on the given side.
    pub fn aligned(&self, alignment: valued::HorizontalAlignment) -> (r: &T)
        ensures
            *r == self.spec_aligned(alignment),
    {
        match alignment {
            valued::HorizontalAlignment::Left => &self.left,
            valued::HorizontalAlignment::Right => &self.right,
        }
    }

    /// Applies `f` to the item on the side `H` and the item on the opposite side,
    /// in that order.
    pub fn fold_horizontally_at<H, U, F>(&self, f: F) -> (r: U)
        where
            H: typed::HorizontalAlignment,
            F: Fn(&T, &T) -> U,
        requires
            f.requires(
                (
                    &self.spec_aligned(H::spec_horizontal()),
                    &self.spec_aligned(H::spec_horizontal().spec_opposite()),
                ),
            ),
        ensures
            f.ensures(
                (
                    &self.spec_aligned(H::spec_horizontal()),
                    &self.spec_aligned(H::spec_horizontal().spec_opposite()),
                ),
                r,
            ),
    {
        let near = H::horizontal();
        let far = near.opposite();
        f(self.aligned(near), self.aligned(far))
    }
}

impl<T> Horizontal<T> {
    /// The items swapped between the two sides.
    pub fn invert(self) -> (r: Horizontal<T>)
        ensures
            r.left == self.right,
            r.right == self.left,
    {
        let Horizontal { left, right } = self;
        Horizontal { left: right, right: left }
    }
}

impl<T> Horizontal<Vertical<T>> {
    /// Swaps the nesting: the top items of both sides, then the bottom items.
    pub fn transpose(self) -> (r: Vertical<Horizontal<T>>)
        ensures
            r.top.left == self.left.top,
            r.top.right == self.right.top,
            r.bottom.left == self.left.bottom,
            r.bottom.right == self.right.bottom,
    {
        let Horizontal { left, right } = self;
        Vertical {
            top: Horizontal { left: left.top, right: right.top },
            bottom: Horizontal { left: left.bottom, right: right.bottom },
        }
    }
}

impl<T> Vertical<T> {
    /// The item at the given position.
    pub open spec fn spec_aligned(&self, alignment: valued::VerticalAlignment) -> T {
        match alignment {
            valued::VerticalAlignment::Top => self.top,
            valued::VerticalAlignment::Bottom => self.bottom,
        }
    }

    /// The item on the given side.
    pub fn aligned(&self, alignment: valued::VerticalAlignment) -> (r: &T)
        ensures
            *r == self.spec_aligned(alignment),
    {
        match alignment {
            valued::VerticalAlignment::Top => &self.top,
            valued::VerticalAlignment::Bottom => &self.bottom,
        }
    }

    /// Applies `f` to the item on the side `V` and the item on the opposite side,
    /// in that order.
    pub fn fold_vertically_at<V, U, F>(&self, f: F) -> (r: U)
        where
            V: typed::VerticalAlignment,
            F: Fn(&T, &T) -> U,
        requires
            f.requires(
                (
                    &self.spec_aligned(V::spec_vertical()),
                    &self.spec_aligned(V::spec_vertical().spec_opposite()),
                ),
            ),
        ensures
            f.ensures(
                (
                    &self.spec_aligned(V::spec_vertical()),
                    &self.spec_aligned(V::spec_vertical().spec_opposite()),
                ),
                r,
            ),
    {
        let near = V::vertical();
        let far = near.opposite();
        f(self.aligned(near), self.aligned(far))
    }
}

impl<T> Vertical<T> {
    /// The items swapped between the two sides.
    pub fn invert(self) -> (r: Vertical<T>)
        ensures
            r.top == self.bottom,
            r.bottom == self.top,
    {
        let Vertical { top, bottom } = self;
        Vertical { top: bottom, bottom: top }
    }
}

impl<T> Vertical<Horizontal<T>> {
    /// Swaps the nesting: the left items of both sides, then the right items.
    pub fn transpose(self) -> (r: Horizontal<Vertical<T>>)
        ensures
            r.left.top == self.top.left,
            r.left.bottom == self.bottom.left,
            r.right.top == self.top.right,
            r.right.bottom == self.bottom.right,
    {
        let Vertical { top, bottom } = self;
        Horizontal {
            left: Vertical { top: top.left, bottom: bottom.left },
            right: Vertical { top: top.right, bottom: bottom.right },
        }
    }
}

impl<T> Square<T> {
    /// The item at the given position.
    pub open spec fn spec_aligned(&self, alignment: valued::Alignment) -> T {
        match alignment {
            valued::Alignment::Horizontal(valued::HorizontalAlignment::Left) => self.left,
            valued::Alignment::Horizontal(valued::HorizontalAlignment::Right) => self.right,
            valued::Alignment::Vertical(valued::VerticalAlignment::Top) => self.top,
            valued::Alignment::Vertical(valued::VerticalAlignment::Bottom) => self.bottom,
        }
    }

    /// The item on the given side.
    pub fn aligned(&self, alignment: valued::Alignment) -> (r: &T)
        ensures
            *r == self.spec_aligned(alignment),
    {
        match alignment {
            valued::Alignment::Horizontal(valued::HorizontalAlignment::Left) => &self.left,
            valued::Alignment::Horizontal(valued::HorizontalAlignment::Right) => &self.right,
            valued::Alignment::Vertical(valued::VerticalAlignment::Top) => &self.top,
            valued::Alignment::Vertical(valued::VerticalAlignment::Bottom) => &self.bottom,
        }
    }
}

impl<T> Square<T> {
    /// The items turned so that the top side moves to the side `to`: a quarter
    /// turn counterclockwise toward the left, clockwise toward the right, a half
    /// turn toward the bottom, and no turn toward the top.
    pub fn rotate(self, to: valued::Alignment) -> (r: Square<T>)
        ensures
            r.spec_aligned(to) == self.top,
            to == valued::Alignment::Vertical(valued::VerticalAlignment::Top) ==> r == self,
            to == valued::Alignment::Horizontal(valued::HorizontalAlignment::Left) ==> r == (Square {
                left: self.top,
                right: self.bottom,
                top: self.right,
                bottom: self.left,
            }),
            to == valued::Alignment::Horizontal(valued::HorizontalAlignment::Right) ==> r == (Square {
                left: self.bottom,
                right: self.top,
                top: self.left,
                bottom: self.right,
            }),
            to == valued::Alignment::Vertical(valued::VerticalAlignment::Bottom) ==> r == (Square {
                left: self.right,
                right: self.left,
                top: self.bottom,
                bottom: self.top,
            }),
    {
        let Square { left, right, top, bottom } = self;
        match to {
            valued::Alignment::Vertical(valued::VerticalAlignment::Top) => Square { left, right, top, bottom },
            valued::Alignment::Horizontal(valued::HorizontalAlignment::Left) => Square {
                left: top,
                right: bottom,
                top: right,
                bottom: left,
            },
            valued::Alignment::Horizontal(valued::HorizontalAlignment::Right) => Square {
                left: bottom,
                right: top,
                top: left,
                bottom: right,
            },
            valued::Alignment::Vertical(valued::VerticalAlignment::Bottom) => Square {
                left: right,
                right: left,
                top: bottom,
                bottom: top,
            },
        }
    }
}

impl<T> Quadrant<T> {
    /// The item at the given position.
    pub open spec fn spec_aligned(
        &self,
        vertical: valued::VerticalAlignment,
        horizontal: valued::HorizontalAlignment,
    ) -> T {
        match vertical {
            valued::VerticalAlignment::Top => self.top.spec_aligned(horizontal),
            valued::VerticalAlignment::Bottom => self.bottom.spec_aligned(horizontal),
        }
    }

    /// The item at the corner where the two given sides meet.
    pub fn aligned(
        &self,
        vertical: valued::VerticalAlignment,
        horizontal: valued::HorizontalAlignment,
    ) -> (r: &T)
        ensures
            *r == self.spec_aligned(vertical, horizontal),
    {
        match vertical {
            valued::VerticalAlignment::Top => self.top.aligned(horizontal),
            valued::VerticalAlignment::Bottom => self.bottom.aligned(horizontal),
        }
    }
}

impl<T> Axial<T> {
    /// The item for each axis given to the other.
    pub fn invert(self) -> (r: Axial<T>)
        ensures
            r.horizontal == self.vertical,
            r.vertical == self.horizontal,
    {
        let Axial { horizontal, vertical } = self;
        Axial { horizontal: vertical, vertical: horizontal }
    }

    /// The item at the given position.
    pub open spec fn spec_aligned(&self, axis: valued::Axis) -> T {
        match axis {
            valued::Axis::LeftRight => self.horizontal,
            valued::Axis::TopBottom => self.vertical,
        }
    }

    /// The item for the given axis.
    pub fn aligned(&self, axis: valued::Axis) -> (r: &T)
        ensures
            *r == self.spec_aligned(axis),
    {
        match axis {
            valued::Axis::LeftRight => &self.horizontal,
            valued::Axis::TopBottom => &self.vertical,
        }
    }
}

/// An aggregate with an item for each side of the left-right axis.
pub trait HorizontalEnvelope<T> {
    spec fn spec_left(&self) -> T;

    spec fn spec_right(&self) -> T;

    fn left(&self) -> (r: &T)
        ensures
            *r == self.spec_left(),
    ;

    fn right(&self) -> (r: &T)
        ensures
            *r == self.spec_right(),
    ;
}

/// An aggregate with an item for each side of the top-bottom axis.
pub trait VerticalEnvelope<T> {
    spec fn spec_top(&self) -> T;

    spec fn spec_bottom(&self) -> T;

    fn top(&self) -> (r: &T)
        ensures
            *r == self.spec_top(),
    ;

    fn bottom(&self) -> (r: &T)
        ensures
            *r == self.spec_bottom(),
    ;
}

/// An aggregate with an item for each axis.
pub trait AxialEnvelope<T> {
    spec fn spec_horizontal(&self) -> T;

    spec fn spec_vertical(&self) -> T;

    fn horizontal(&self) -> (r: &T)
        ensures
            *r == self.spec_horizontal(),
    ;

    fn vertical(&self) -> (r: &T)
        ensures
            *r == self.spec_vertical(),
    ;
}

impl<T> HorizontalEnvelope<T> for Horizontal<T> {
    open spec fn spec_left(&self) -> T {
        self.left
    }

    open spec fn spec_right(&self) -> T {
        self.right
    }

    fn left(&self) -> (r: &T) {
        &self.left
    }

    fn right(&self) -> (r: &T) {
        &self.right
    }
}

impl<T> VerticalEnvelope<T> for Vertical<T> {
    open spec fn spec_top(&self) -> T {
        self.top
    }

    open spec fn spec_bottom(&self) -> T {
        self.bottom
    }

    fn top(&self) -> (r: &T) {
        &self.top
    }

    fn bottom(&self) -> (r: &T) {
        &self.bottom
    }
}

impl<T> HorizontalEnvelope<T> for Square<T> {
    open spec fn spec_left(&self) -> T {
        self.left
    }

    open spec fn spec_right(&self) -> T {
        self.right
    }

    fn left(&self) -> (r: &T) {
        &self.left
    }

    fn right(&self) -> (r: &T) {
        &self.right
    }
}

impl<T> VerticalEnvelope<T> for Square<T> {
    open spec fn spec_top(&self) -> T {
        self.top
    }

    open spec fn spec_bottom(&self) -> T {
        self.bottom
    }

    fn top(&self) -> (r: &T) {
        &self.top
    }

    fn bottom(&self) -> (r: &T) {
        &self.bottom
    }
}

impl<T> AxialEnvelope<T> for Axial<T> {
    open spec fn spec_horizontal(&self) -> T {
        self.horizontal
    }

    open spec fn spec_vertical(&self) -> T {
        self.vertical
    }

    fn horizontal(&self) -> (r: &T) {
        &self.horizontal
    }

    fn vertical(&self) -> (r: &T) {
        &self.vertical
    }
}

} // verus!
