use vstd::prelude::*;

verus! {

/// One of the two perpendicular axes of extent.
#[derive(Clone, Copy, Debug, PartialEq, Eq, Hash, Structural)]
pub enum Axis {
    LeftRight,
    TopBottom,
}

/// A side of a rectangle on the left-right axis.
#[derive(Clone, Copy, Debug, PartialEq, Eq, Hash, Structural)]
pub enum HorizontalAlignment {
    Left,
    Right,
}

/// A side of a rectangle on the top-bottom axis.
#[derive(Clone, Copy, Debug, PartialEq, Eq, Hash, Structural)]
pub enum VerticalAlignment {
    Top,
    Bottom,
}

/// One of the four sides of a rectangle: a direction bound to exactly one axis.
#[derive(Clone, Copy, Debug, PartialEq, Eq, Hash, Structural)]
pub enum Alignment {
    Horizontal(HorizontalAlignment),
    Vertical(VerticalAlignment),
}

/// The axis along which two blocks are joined, together with the side of the
/// orthogonal axis at which the shorter of the two is aligned.
#[derive(Clone, Copy, Debug, PartialEq, Eq, Hash, Structural)]
pub enum AxialAlignment {
    LeftRight(VerticalAlignment),
    TopBottom(HorizontalAlignment),
}

impl Axis {
    /// The side at which the axis starts.
    pub open spec fn spec_origin(self) -> Alignment {
        match self {
            Axis::LeftRight => Alignment::Horizontal(HorizontalAlignment::Left),
            Axis::TopBottom => Alignment::Vertical(VerticalAlignment::Top),
        }
    }

    /// The other axis.
    pub open spec fn spec_orthogonal(self) -> Axis {
        match self {
            Axis::LeftRight => Axis::TopBottom,
            Axis::TopBottom => Axis::LeftRight,
        }
    }

    /// The side at which the axis starts: left for left-right, top for top-bottom.
    pub fn origin(&self) -> (r: Alignment)
        ensures
            r == self.spec_origin(),
    {
        match *self {
            Axis::LeftRight => Alignment::Horizontal(HorizontalAlignment::Left),
            Axis::TopBottom => Alignment::Vertical(VerticalAlignment::Top),
        }
    }

    /// The other axis.
    pub fn orthogonal(&self) -> (r: Axis)
        ensures
            r == self.spec_orthogonal(),
            r != *self,
    {
        match *self {
            Axis::LeftRight => Axis::TopBottom,
            Axis::TopBottom => Axis::LeftRight,
        }
    }
}

impl HorizontalAlignment {
    /// The other side of the same axis.
    pub open spec fn spec_opposite(self) -> HorizontalAlignment {
        match self {
            HorizontalAlignment::Left => HorizontalAlignment::Right,
            HorizontalAlignment::Right => HorizontalAlignment::Left,
        }
    }

    /// The other side of the left-right axis.
    pub fn opposite(&self) -> (r: HorizontalAlignment)
        ensures
            r == self.spec_opposite(),
            r != *self,
    {
        match *self {
            HorizontalAlignment::Left => HorizontalAlignment::Right,
            HorizontalAlignment::Right => HorizontalAlignment::Left,
        }
    }

    /// The axis on which every horizontal side lies.
    pub fn axis(&self) -> (r: Axis)
        ensures
            r == Axis::LeftRight,
    {
        Axis::LeftRight
    }
}

impl VerticalAlignment {
    /// The other side of the same axis.
    pub open spec fn spec_opposite(self) -> VerticalAlignment {
        match self {
            VerticalAlignment::Top => VerticalAlignment::Bottom,
            VerticalAlignment::Bottom => VerticalAlignment::Top,
        }
    }

    /// The other side of the top-bottom axis.
    pub fn opposite(&self) -> (r: VerticalAlignment)
        ensures
            r == self.spec_opposite(),
            r != *self,
    {
        match *self {
            VerticalAlignment::Top => VerticalAlignment::Bottom,
            VerticalAlignment::Bottom => VerticalAlignment::Top,
        }
    }

    /// The axis on which every vertical side lies.
    pub fn axis(&self) -> (r: Axis)
        ensures
            r == Axis::TopBottom,
    {
        Axis::TopBottom
    }
}

impl AxialAlignment {
    /// The axis along which blocks are joined.
    pub open spec fn spec_axis(self) -> Axis {
        match self {
            AxialAlignment::LeftRight(_) => Axis::LeftRight,
            AxialAlignment::TopBottom(_) => Axis::TopBottom,
        }
    }
}

impl Alignment {
    /// The other side of the same axis.
    pub open spec fn spec_opposite(self) -> Alignment {
        match self {
            Alignment::Horizontal(h) => Alignment::Horizontal(h.spec_opposite()),
            Alignment::Vertical(v) => Alignment::Vertical(v.spec_opposite()),
        }
    }

    /// The axis to which the side is bound.
    pub open spec fn spec_axis(self) -> Axis {
        match self {
            Alignment::Horizontal(_) => Axis::LeftRight,
            Alignment::Vertical(_) => Axis::TopBottom,
        }
    }

    /// The side facing this one across the rectangle.
    pub fn opposite(&self) -> (r: Alignment)
        ensures
            r == self.spec_opposite(),
            r != *self,
            r.spec_axis() == self.spec_axis(),
    {
        match *self {
            Alignment::Horizontal(h) => Alignment::Horizontal(h.opposite()),
            Alignment::Vertical(v) => Alignment::Vertical(v.opposite()),
        }
    }

    /// The axis to which this side is bound.
    pub fn axis(&self) -> (r: Axis)
        ensures
            r == self.spec_axis(),
    {
        match *self {
            Alignment::Horizontal(_) => Axis::LeftRight,
            Alignment::Vertical(_) => Axis::TopBottom,
        }
    }

    /// Whether this is the left side.
    pub fn is_left(&self) -> (r: bool)
        ensures
            r == (*self == Alignment::Horizontal(HorizontalAlignment::Left)),
    {
        matches!(self, Alignment::Horizontal(HorizontalAlignment::Left))
    }

    /// Whether this is the right side.
    pub fn is_right(&self) -> (r: bool)
        ensures
            r == (*self == Alignment::Horizontal(HorizontalAlignment::Right)),
    {
        matches!(self, Alignment::Horizontal(HorizontalAlignment::Right))
    }

    /// Whether this is the top side.
    pub fn is_top(&self) -> (r: bool)
        ensures
            r == (*self == Alignment::Vertical(VerticalAlignment::Top)),
    {
        matches!(self, Alignment::Vertical(VerticalAlignment::Top))
    }

    /// Whether this is the bottom side.
    pub fn is_bottom(&self) -> (r: bool)
        ensures
            r == (*self == Alignment::Vertical(VerticalAlignment::Bottom)),
    {
        matches!(self, Alignment::Vertical(VerticalAlignment::Bottom))
    }
}

/// Taking the opposite side twice gives back the side; the opposite stays on
/// the same axis and differs from the side.
pub proof fn lemma_opposite_involution(d: Alignment)
    ensures
        d.spec_opposite().spec_opposite() == d,
        d.spec_opposite().spec_axis() == d.spec_axis(),
        d.spec_opposite() != d,
{
}

/// Taking the orthogonal axis twice gives back the axis, and an axis is never
/// its own orthogonal.
pub proof fn lemma_orthogonal_involution(a: Axis)
    ensures
        a.spec_orthogonal().spec_orthogonal() == a,
        a.spec_orthogonal() != a,
        a.spec_origin().spec_axis() == a,
{
}

} // verus!
