use vstd::prelude::*;

use crate::align::valued::{Alignment, AxialAlignment, Axis, HorizontalAlignment, VerticalAlignment};
use crate::block::{
    fits_joined, fits_padded, joined_at, padded_at, padded_to_length_at, well_formed, Block,
};
use crate::content::Style;

verus! {

/// The side of `axis` that the orientation (`vertical`, `horizontal`) names.
pub open spec fn side_on(axis: Axis, vertical: VerticalAlignment, horizontal: HorizontalAlignment) -> Alignment {
    match axis {
        Axis::LeftRight => Alignment::Horizontal(horizontal),
        Axis::TopBottom => Alignment::Vertical(vertical),
    }
}

/// The join along `axis` that aligns at the side of the other axis that the
/// orientation names, or at its opposite.
pub open spec fn join_on(
    axis: Axis,
    vertical: VerticalAlignment,
    horizontal: HorizontalAlignment,
    opposite: bool,
) -> AxialAlignment {
    match axis {
        Axis::LeftRight => AxialAlignment::LeftRight(
            if opposite {
                vertical.spec_opposite()
            } else {
                vertical
            },
        ),
        Axis::TopBottom => AxialAlignment::TopBottom(
            if opposite {
                horizontal.spec_opposite()
            } else {
                horizontal
            },
        ),
    }
}

/// A block bound to an orientation: a side of the top-bottom axis and a side of
/// the left-right axis, its natural edges. Operations name an axis and pad or
/// join toward the natural edge on it, or toward the opposite edge.
#[derive(Debug)]
pub struct BoundBlock<S> {
    pub block: Block<S>,
    pub vertical: VerticalAlignment,
    pub horizontal: HorizontalAlignment,
}

impl<S: Style> BoundBlock<S> {
    /// The block bound to the orientation (`vertical`, `horizontal`).
    pub fn new(block: Block<S>, vertical: VerticalAlignment, horizontal: HorizontalAlignment) -> (r: BoundBlock<S>)
        ensures
            r.block@ == block@,
            r.vertical == vertical,
            r.horizontal == horizontal,
    {
        BoundBlock { block, vertical, horizontal }
    }

    fn side(&self, axis: Axis, opposite: bool) -> (r: Alignment)
        ensures
            r == if opposite {
                side_on(axis, self.vertical, self.horizontal).spec_opposite()
            } else {
                side_on(axis, self.vertical, self.horizontal)
            },
    {
        let side = match axis {
            Axis::LeftRight => Alignment::Horizontal(self.horizontal),
            Axis::TopBottom => Alignment::Vertical(self.vertical),
        };
        if opposite {
            side.opposite()
        } else {
            side
        }
    }

    /// `length` blank columns or rows added at the natural edge on `axis`.
    pub fn pad_natural(self, axis: Axis, length: usize) -> (r: BoundBlock<S>)
        requires
            fits_padded(self.block@, side_on(axis, self.vertical, self.horizontal), length as nat),
        ensures
            r.block@ == padded_at(self.block@, side_on(axis, self.vertical, self.horizontal), length as nat),
            well_formed(r.block@),
            r.vertical == self.vertical,
            r.horizontal == self.horizontal,
    {
        let side = self.side(axis, false);
        BoundBlock { block: self.block.pad(side, length), vertical: self.vertical, horizontal: self.horizontal }
    }

    /// `length` blank columns or rows added at the edge opposite the natural one
    /// on `axis`.
    pub fn pad_opposite(self, axis: Axis, length: usize) -> (r: BoundBlock<S>)
        requires
            fits_padded(
                self.block@,
                side_on(axis, self.vertical, self.horizontal).spec_opposite(),
                length as nat,
            ),
        ensures
            r.block@ == padded_at(
                self.block@,
                side_on(axis, self.vertical, self.horizontal).spec_opposite(),
                length as nat,
            ),
            well_formed(r.block@),
            r.vertical == self.vertical,
            r.horizontal == self.horizontal,
    {
        let side = self.side(axis, true);
        BoundBlock { block: self.block.pad(side, length), vertical: self.vertical, horizontal: self.horizontal }
    }

    /// The block grown at the natural edge on `axis` to `length`, where it is
    /// shorter.
    pub fn pad_to_length(self, axis: Axis, length: usize) -> (r: BoundBlock<S>)
        ensures
            r.block@ == padded_to_length_at(self.block@, side_on(axis, self.vertical, self.horizontal), length as nat),
            well_formed(r.block@),
            r.vertical == self.vertical,
            r.horizontal == self.horizontal,
    {
        let side = self.side(axis, false);
        BoundBlock {
            block: self.block.pad_to_length(side, length),
            vertical: self.vertical,
            horizontal: self.horizontal,
        }
    }

    /// The block grown at the edge opposite the natural one on `axis` to
    /// `length`, where it is shorter.
    pub fn pad_to_length_opposite(self, axis: Axis, length: usize) -> (r: BoundBlock<S>)
        ensures
            r.block@ == padded_to_length_at(
                self.block@,
                side_on(axis, self.vertical, self.horizontal).spec_opposite(),
                length as nat,
            ),
            well_formed(r.block@),
            r.vertical == self.vertical,
            r.horizontal == self.horizontal,
    {
        let side = self.side(axis, true);
        BoundBlock {
            block: self.block.pad_to_length(side, length),
            vertical: self.vertical,
            horizontal: self.horizontal,
        }
    }

    fn join_alignment(&self, axis: Axis, opposite: bool) -> (r: AxialAlignment)
        ensures
            r == join_on(axis, self.vertical, self.horizontal, opposite),
    {
        match axis {
            Axis::LeftRight => AxialAlignment::LeftRight(
                if opposite {
                    self.vertical.opposite()
                } else {
                    self.vertical
                },
            ),
            Axis::TopBottom => AxialAlignment::TopBottom(
                if opposite {
                    self.horizontal.opposite()
                } else {
                    self.horizontal
                },
            ),
        }
    }

    /// `other` joined after the block along `axis`, the shorter of the two
    /// aligned at the natural edge of the other axis.
    pub fn join_natural(self, axis: Axis, other: Block<S>) -> (r: BoundBlock<S>)
        requires
            fits_joined(self.block@, other@, axis),
        ensures
            r.block@ == joined_at(self.block@, other@, join_on(axis, self.vertical, self.horizontal, false)),
            well_formed(r.block@),
            r.vertical == self.vertical,
            r.horizontal == self.horizontal,
    {
        let alignment = self.join_alignment(axis, false);
        BoundBlock {
            block: self.block.join(alignment, other),
            vertical: self.vertical,
            horizontal: self.horizontal,
        }
    }

    /// `other` joined after the block along `axis`, the shorter of the two
    /// aligned at the edge of the other axis opposite the natural one.
    pub fn join_opposite(self, axis: Axis, other: Block<S>) -> (r: BoundBlock<S>)
        requires
            fits_joined(self.block@, other@, axis),
        ensures
            r.block@ == joined_at(self.block@, other@, join_on(axis, self.vertical, self.horizontal, true)),
            well_formed(r.block@),
            r.vertical == self.vertical,
            r.horizontal == self.horizontal,
    {
        let alignment = self.join_alignment(axis, true);
        BoundBlock {
            block: self.block.join(alignment, other),
            vertical: self.vertical,
            horizontal: self.horizontal,
        }
    }

    /// The block, no longer bound.
    pub fn into_block(self) -> (r: Block<S>)
        ensures
            r@ == self.block@,
    {
        self.block
    }
}

} // verus!
