use textblock::align::valued::{Alignment, Axis, HorizontalAlignment, VerticalAlignment};
use textblock::align::{Horizontal, Quadrant, Square, Vertical};
use textblock::align::typed::{
    AxialDecoder, Bottom, HorizontalDecoder, Left, Right, Top, TopBottom, VerticalDecoder,
};
use textblock::align::Axial;

#[test]
fn opposite_is_an_involution() {
    for d in [
        Alignment::Horizontal(HorizontalAlignment::Left),
        Alignment::Horizontal(HorizontalAlignment::Right),
        Alignment::Vertical(VerticalAlignment::Top),
        Alignment::Vertical(VerticalAlignment::Bottom),
    ] {
        assert_eq!(d.opposite().opposite(), d);
        assert_ne!(d.opposite(), d);
        assert_eq!(d.opposite().axis(), d.axis());
    }
    for a in [Axis::LeftRight, Axis::TopBottom] {
        assert_eq!(a.orthogonal().orthogonal(), a);
        assert_ne!(a.orthogonal(), a);
        assert_eq!(a.origin().axis(), a);
    }
    assert!(Axis::LeftRight.origin().is_left());
    assert!(Axis::TopBottom.origin().is_top());
    assert!(Alignment::Horizontal(HorizontalAlignment::Right).is_right());
    assert!(Alignment::Vertical(VerticalAlignment::Bottom).is_bottom());
}

#[test]
fn aligned_picks_the_named_field() {
    let h = Horizontal { left: 1, right: 2 };
    assert_eq!(*h.aligned(HorizontalAlignment::Left), 1);
    assert_eq!(*h.aligned(HorizontalAlignment::Right), 2);
    let v = Vertical { top: 3, bottom: 4 };
    assert_eq!(*v.aligned(VerticalAlignment::Bottom), 4);
    let s = Square { left: 1, right: 2, top: 3, bottom: 4 };
    assert_eq!(*s.aligned(Alignment::Vertical(VerticalAlignment::Top)), 3);
    let q = Quadrant {
        top: Horizontal { left: 'a', right: 'b' },
        bottom: Horizontal { left: 'c', right: 'd' },
    };
    assert_eq!(*q.aligned(VerticalAlignment::Bottom, HorizontalAlignment::Right), 'd');
}

#[test]
fn fold_visits_named_side_first() {
    let h = Horizontal { left: 1, right: 2 };
    assert_eq!(h.fold_horizontally_at::<Left, _, _>(|a, b| a * 10 + b), 12);
    let v = Vertical { top: 3, bottom: 4 };
    assert_eq!(v.fold_vertically_at::<Top, _, _>(|a, b| a * 10 + b), 34);
}

#[test]
fn transpose_swaps_nesting() {
    let h = Horizontal {
        left: Vertical { top: 1, bottom: 2 },
        right: Vertical { top: 3, bottom: 4 },
    };
    let v = h.transpose();
    assert_eq!(v.top.left, 1);
    assert_eq!(v.top.right, 3);
    assert_eq!(v.bottom.left, 2);
    let back = v.transpose();
    assert_eq!(back.right.bottom, 4);
}

#[test]
fn decoders_pick_by_type() {
    let h = Horizontal { left: 1, right: 2 };
    assert_eq!(*Right::aligned(&h), 2);
    assert_eq!(*Left::aligned(&h), 1);
    let v = Vertical { top: 3, bottom: 4 };
    assert_eq!(*Bottom::aligned(&v), 4);
    let s = Square { left: 1, right: 2, top: 3, bottom: 4 };
    assert_eq!(*Top::aligned(&s), 3);
    let a = Axial { horizontal: 'h', vertical: 'v' };
    assert_eq!(*TopBottom::aligned(&a), 'v');
    assert_eq!(*a.aligned(Axis::LeftRight), 'h');
}

#[test]
fn square_rotates_toward_a_side() {
    let s = Square { left: 'l', right: 'r', top: 't', bottom: 'b' };
    let left = s.rotate(Alignment::Horizontal(HorizontalAlignment::Left));
    assert_eq!((left.left, left.right, left.top, left.bottom), ('t', 'b', 'r', 'l'));
    let right = s.rotate(Alignment::Horizontal(HorizontalAlignment::Right));
    assert_eq!((right.left, right.right, right.top, right.bottom), ('b', 't', 'l', 'r'));
    let half = s.rotate(Alignment::Vertical(VerticalAlignment::Bottom));
    assert_eq!((half.left, half.right, half.top, half.bottom), ('r', 'l', 'b', 't'));
    let same = s.rotate(Alignment::Vertical(VerticalAlignment::Top));
    assert_eq!((same.left, same.right, same.top, same.bottom), ('l', 'r', 't', 'b'));
}

#[test]
fn pairs_invert() {
    let a = Axial { horizontal: 1, vertical: 2 }.invert();
    assert_eq!((a.horizontal, a.vertical), (2, 1));
    let h = Horizontal { left: 1, right: 2 }.invert();
    assert_eq!((h.left, h.right), (2, 1));
    let v = Vertical { top: 1, bottom: 2 }.invert();
    assert_eq!((v.top, v.bottom), (2, 1));
}
