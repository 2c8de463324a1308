use vstd::prelude::*;

use crate::align::{valued, AxialEnvelope, HorizontalEnvelope, VerticalEnvelope};

verus! {

/// An axis named by a type rather than a value.
pub trait Axis: Sized {
    spec fn spec_value() -> valued::Axis;

    fn value() -> (r: valued::Axis)
        ensures
            r == Self::spec_value(),
    ;
}

/// A side of a rectangle named by a type rather than a value.
pub trait Alignment: Sized {
    spec fn spec_value() -> valued::Alignment;

    fn value() -> (r: valued::Alignment)
        ensures
            r == Self::spec_value(),
    ;
}

/// A side of a rectangle that lies on the axis `A`.
pub trait Coaxial<A: Axis>: Alignment {
    proof fn lemma_coaxial()
        ensures
            Self::spec_value().spec_axis() == A::spec_value(),
    ;
}

/// A side of a rectangle that lies on the axis orthogonal to `A`.
pub trait ContraAxial<A: Axis>: Alignment {
    proof fn lemma_contra_axial()
        ensures
            Self::spec_value().spec_axis() == A::spec_value().spec_orthogonal(),
    ;
}

/// A side of the left-right axis named by a type.
pub trait HorizontalAlignment: Coaxial<LeftRight> + ContraAxial<TopBottom> {
    spec fn spec_horizontal() -> valued::HorizontalAlignment;

    fn horizontal() -> (r: valued::HorizontalAlignment)
        ensures
            r == Self::spec_horizontal(),
            valued::Alignment::Horizontal(r) == Self::spec_value(),
    ;
}

/// A side of the top-bottom axis named by a type.
pub trait VerticalAlignment: Coaxial<TopBottom> + ContraAxial<LeftRight> {
    spec fn spec_vertical() -> valued::VerticalAlignment;

    fn vertical() -> (r: valued::VerticalAlignment)
        ensures
            r == Self::spec_vertical(),
            valued::Alignment::Vertical(r) == Self::spec_value(),
    ;
}

/// The left-right axis as a type.
pub struct LeftRight;

/// The top-bottom axis as a type.
pub struct TopBottom;

/// The left side as a type.
pub struct Left;

/// The right side as a type.
pub struct Right;

/// The top side as a type.
pub struct Top;

/// The bottom side as a type.
pub struct Bottom;

impl Axis for LeftRight {
    open spec fn spec_value() -> valued::Axis {
        valued::Axis::LeftRight
    }

    fn value() -> (r: valued::Axis) {
        valued::Axis::LeftRight
    }
}

impl Axis for TopBottom {
    open spec fn spec_value() -> valued::Axis {
        valued::Axis::TopBottom
    }

    fn value() -> (r: valued::Axis) {
        valued::Axis::TopBottom
    }
}

impl Alignment for Left {
    open spec fn spec_value() -> valued::Alignment {
        valued::Alignment::Horizontal(valued::HorizontalAlignment::Left)
    }

    fn value() -> (r: valued::Alignment) {
        valued::Alignment::Horizontal(valued::HorizontalAlignment::Left)
    }
}

impl Alignment for Right {
    open spec fn spec_value() -> valued::Alignment {
        valued::Alignment::Horizontal(valued::HorizontalAlignment::Right)
    }

    fn value() -> (r: valued::Alignment) {
        valued::Alignment::Horizontal(valued::HorizontalAlignment::Right)
    }
}

impl Alignment for Top {
    open spec fn spec_value() -> valued::Alignment {
        valued::Alignment::Vertical(valued::VerticalAlignment::Top)
    }

    fn value() -> (r: valued::Alignment) {
        valued::Alignment::Vertical(valued::VerticalAlignment::Top)
    }
}

impl Alignment for Bottom {
    open spec fn spec_value() -> valued::Alignment {
        valued::Alignment::Vertical(valued::VerticalAlignment::Bottom)
    }

    fn value() -> (r: valued::Alignment) {
        valued::Alignment::Vertical(valued::VerticalAlignment::Bottom)
    }
}

impl Coaxial<LeftRight> for Left {
    proof fn lemma_coaxial() {
    }
}

impl Coaxial<LeftRight> for Right {
    proof fn lemma_coaxial() {
    }
}

impl Coaxial<TopBottom> for Top {
    proof fn lemma_coaxial() {
    }
}

impl Coaxial<TopBottom> for Bottom {
    proof fn lemma_coaxial() {
    }
}

impl ContraAxial<TopBottom> for Left {
    proof fn lemma_contra_axial() {
    }
}

impl ContraAxial<TopBottom> for Right {
    proof fn lemma_contra_axial() {
    }
}

impl ContraAxial<LeftRight> for Top {
    proof fn lemma_contra_axial() {
    }
}

impl ContraAxial<LeftRight> for Bottom {
    proof fn lemma_contra_axial() {
    }
}

impl HorizontalAlignment for Left {
    open spec fn spec_horizontal() -> valued::HorizontalAlignment {
        valued::HorizontalAlignment::Left
    }

    fn horizontal() -> (r: valued::HorizontalAlignment) {
        valued::HorizontalAlignment::Left
    }
}

impl HorizontalAlignment for Right {
    open spec fn spec_horizontal() -> valued::HorizontalAlignment {
        valued::HorizontalAlignment::Right
    }

    fn horizontal() -> (r: valued::HorizontalAlignment) {
        valued::HorizontalAlignment::Right
    }
}

impl VerticalAlignment for Top {
    open spec fn spec_vertical() -> valued::VerticalAlignment {
        valued::VerticalAlignment::Top
    }

    fn vertical() -> (r: valued::VerticalAlignment) {
        valued::VerticalAlignment::Top
    }
}

impl VerticalAlignment for Bottom {
    open spec fn spec_vertical() -> valued::VerticalAlignment {
        valued::VerticalAlignment::Bottom
    }

    fn vertical() -> (r: valued::VerticalAlignment) {
        valued::VerticalAlignment::Bottom
    }
}

/// Picks the item for the axis `Self` out of any aggregate with an item for
/// each axis.
pub trait AxialDecoder: Axis {
    fn aligned<T, E: AxialEnvelope<T>>(data: &E) -> (r: &T)
        ensures
            *r == match Self::spec_value() {
                valued::Axis::LeftRight => data.spec_horizontal(),
                valued::Axis::TopBottom => data.spec_vertical(),
            },
    ;
}

/// Picks the item on the side `Self` out of any aggregate with an item for each
/// side of the left-right axis.
pub trait HorizontalDecoder: HorizontalAlignment {
    fn aligned<T, E: HorizontalEnvelope<T>>(data: &E) -> (r: &T)
        ensures
            *r == match Self::spec_horizontal() {
                valued::HorizontalAlignment::Left => data.spec_left(),
                valued::HorizontalAlignment::Right => data.spec_right(),
            },
    ;
}

/// Picks the item on the side `Self` out of any aggregate with an item for each
/// side of the top-bottom axis.
pub trait VerticalDecoder: VerticalAlignment {
    fn aligned<T, E: VerticalEnvelope<T>>(data: &E) -> (r: &T)
        ensures
            *r == match Self::spec_vertical() {
                valued::VerticalAlignment::Top => data.spec_top(),
                valued::VerticalAlignment::Bottom => data.spec_bottom(),
            },
    ;
}

impl AxialDecoder for LeftRight {
    fn aligned<T, E: AxialEnvelope<T>>(data: &E) -> (r: &T) {
        data.horizontal()
    }
}

impl AxialDecoder for TopBottom {
    fn aligned<T, E: AxialEnvelope<T>>(data: &E) -> (r: &T) {
        data.vertical()
    }
}

impl HorizontalDecoder for Left {
    fn aligned<T, E: HorizontalEnvelope<T>>(data: &E) -> (r: &T) {
        data.left()
    }
}

impl HorizontalDecoder for Right {
    fn aligned<T, E: HorizontalEnvelope<T>>(data: &E) -> (r: &T) {
        data.right()
    }
}

impl VerticalDecoder for Top {
    fn aligned<T, E: VerticalEnvelope<T>>(data: &E) -> (r: &T) {
        data.top()
    }
}

impl VerticalDecoder for Bottom {
    fn aligned<T, E: VerticalEnvelope<T>>(data: &E) -> (r: &T) {
        data.bottom()
    }
}

} // verus!
