use vstd::prelude::*;

use crate::align::{typed, valued, Axial, Quadrant};
use crate::block::{
    content_view, empty_view, filled_view, joined_left_to_right, joined_top_to_bottom, max_width,
    pushed, well_formed, with_length_view, Block, BlockView,
};
use crate::content::{
    display_width, is_line_break, lemma_widths_push, lines_of, segments, widths, CellView,
    GlyphView, Grapheme, Style, Styled,
};

verus! {

/// The glyphs at the two ends of a line: one for both ends, or one for each.
#[derive(Clone, Copy, Debug)]
pub enum Terminal<T> {
    Only(T),
    StartEnd(T, T),
}

impl<T> Terminal<T> {
    /// The glyph at the start of a line.
    pub open spec fn spec_start(&self) -> T {
        match self {
            Terminal::Only(x) => *x,
            Terminal::StartEnd(start, _) => *start,
        }
    }

    /// The glyph at the end of a line.
    pub open spec fn spec_end(&self) -> T {
        match self {
            Terminal::Only(x) => *x,
            Terminal::StartEnd(_, end) => *end,
        }
    }

    /// The single glyph, or the one that `f` picks of the start and end glyphs.
    pub fn only_or_else<'a, F: Fn(&'a T, &'a T) -> &'a T>(&'a self, f: F) -> (r: &'a T)
        requires
            self is StartEnd ==> f.requires((&self.spec_start(), &self.spec_end())),
        ensures
            self is Only ==> *r == self.spec_start(),
            self is StartEnd ==> f.ensures((&self.spec_start(), &self.spec_end()), r),
    {
        match self {
            Terminal::Only(x) => x,
            Terminal::StartEnd(start, end) => f(start, end),
        }
    }

    /// The glyph at the start of a line.
    pub fn start(&self) -> (r: &T)
        ensures
            *r == self.spec_start(),
    {
        match self {
            Terminal::Only(x) => x,
            Terminal::StartEnd(start, _) => start,
        }
    }

    /// The glyph at the end of a line.
    pub fn end(&self) -> (r: &T)
        ensures
            *r == self.spec_end(),
    {
        match self {
            Terminal::Only(x) => x,
            Terminal::StartEnd(_, end) => end,
        }
    }
}

/// The glyphs of a straight line: one for a line of length one, one repeated
/// along the middle, and those at its ends.
#[derive(Debug)]
pub struct StraightStroke {
    pub only: Grapheme,
    pub middle: Grapheme,
    pub end: Terminal<Grapheme>,
}

/// The glyphs of the borders of a box: a straight stroke for each axis, and a
/// glyph for each corner.
#[derive(Debug)]
pub struct Stroke {
    pub straight: Axial<StraightStroke>,
    pub corner: Quadrant<Grapheme>,
}

/// A stroke for the borders of a box and a glyph to fill it with.
#[derive(Debug)]
pub struct Palette {
    pub stroke: Stroke,
    pub fill: Grapheme,
}

impl StraightStroke {
    /// The stroke that draws every part of a line with the same character.
    pub fn uniform(point: char) -> (r: StraightStroke)
        ensures
            r.only@ == (seq![point], display_width(seq![point])),
            r.middle@ == r.only@,
            r.end.spec_start()@ == r.only@,
            r.end.spec_end()@ == r.only@,
    {
        let only = Grapheme::from_char(point);
        let middle = only.duplicate();
        let end = only.duplicate();
        StraightStroke { only, middle, end: Terminal::Only(end) }
    }

    /// The stroke with the character `point` for a line of length one and along
    /// the middle, and `start` and `end` at the ends.
    pub fn with_ends(point: char, start: char, end: char) -> (r: StraightStroke)
        ensures
            r.only@ == (seq![point], display_width(seq![point])),
            r.middle@ == r.only@,
            r.end.spec_start()@ == (seq![start], display_width(seq![start])),
            r.end.spec_end()@ == (seq![end], display_width(seq![end])),
    {
        let only = Grapheme::from_char(point);
        let middle = only.duplicate();
        StraightStroke {
            only,
            middle,
            end: Terminal::StartEnd(Grapheme::from_char(start), Grapheme::from_char(end)),
        }
    }
}

/// A block of one grapheme.
pub open spec fn glyph_view<S: Style>(g: GlyphView) -> BlockView<S> {
    pushed(content_view::<S>(0, Seq::empty()), seq![(S::spec_plain(), g)])
}

/// `b` joined after `a` along `axis`, aligned at the origin of the other axis.
pub open spec fn joined_along<S: Style>(axis: valued::Axis, a: BlockView<S>, b: BlockView<S>) -> BlockView<S> {
    match axis {
        valued::Axis::LeftRight => joined_left_to_right(a, b),
        valued::Axis::TopBottom => joined_top_to_bottom(a, b),
    }
}

/// A straight line of `length` along `axis`: nothing for length zero, the single
/// glyph for length one, and otherwise the start glyph, the middle glyph
/// repeated, and the end glyph.
pub open spec fn line_view<S: Style>(
    axis: valued::Axis,
    length: nat,
    only: GlyphView,
    middle: GlyphView,
    start: GlyphView,
    end: GlyphView,
) -> BlockView<S> {
    if length == 0 {
        empty_view(0, 0)
    } else if length == 1 {
        glyph_view(only)
    } else {
        joined_along(
            axis,
            joined_along(
                axis,
                glyph_view(start),
                filled_view(with_length_view(axis, (length - 2) as nat, 1), seq![(S::spec_plain(), middle)]),
            ),
            glyph_view(end),
        )
    }
}

/// Whether a line of `length` drawn with `stroke` along `axis` takes at most the
/// largest `usize` of columns.
pub open spec fn line_fits(axis: valued::Axis, length: nat, stroke: StraightStroke) -> bool {
    axis == valued::Axis::LeftRight && length >= 2 ==> stroke.end.spec_start()@.1 + (length - 2)
        + stroke.end.spec_end()@.1 <= usize::MAX
}

/// One cell makes one line, no wider than the cell.
proof fn lemma_single_line<S>(c: CellView<S>)
    ensures
        lines_of(seq![c]).len() == 1,
        max_width(lines_of(seq![c])) <= c.1.1,
{
    let s = seq![c];
    assert(s.drop_last() =~= Seq::<CellView<S>>::empty());
    assert(s.last() == c);
    let e = Seq::<CellView<S>>::empty();
    assert(segments(e) == seq![e]);
    if is_line_break(c.1) {
        assert(segments(s) == seq![e].push(e));
        assert(lines_of(s) =~= seq![e]);
        assert(seq![e].drop_last() =~= Seq::<Seq<CellView<S>>>::empty());
        assert(seq![e].last() == e);
        assert(widths(e) == 0);
        assert(max_width(seq![e]) == vstd::math::max(max_width(Seq::<Seq<CellView<S>>>::empty()) as int, widths(e) as int));
    } else {
        assert(segments(s) =~= seq![e.push(c)]);
        assert(lines_of(s) =~= seq![e.push(c)]);
        assert(seq![e.push(c)].drop_last() =~= Seq::<Seq<CellView<S>>>::empty());
        assert(seq![e.push(c)].last() == e.push(c));
        lemma_widths_push(e, c);
        assert(max_width(seq![e.push(c)]) == vstd::math::max(max_width(Seq::<Seq<CellView<S>>>::empty()) as int, widths(e.push(c)) as int));
    }
}

fn glyph_block<S: Style>(glyph: &Grapheme) -> (r: Block<S>)
    ensures
        r@ == glyph_view::<S>(glyph@),
        well_formed(r@),
        r@.1 <= glyph@.1,
        r@.2 == 1,
{
    let r = Block::with_styled_content(Styled::grapheme(glyph.duplicate()));
    proof {
        lemma_single_line((S::spec_plain(), glyph@));
        let lines = lines_of(seq![(S::spec_plain(), glyph@)]);
        assert(Seq::<Seq<CellView<S>>>::empty() + lines =~= lines);
    }
    r
}

/// A straight line of `length` along `axis` drawn with `stroke`.
pub fn line_along<S: Style>(axis: valued::Axis, length: usize, stroke: &StraightStroke) -> (r: Block<S>)
    requires
        line_fits(axis, length as nat, *stroke),
    ensures
        r@ == line_view::<S>(
            axis,
            length as nat,
            stroke.only@,
            stroke.middle@,
            stroke.end.spec_start()@,
            stroke.end.spec_end()@,
        ),
        well_formed(r@),
{
    if length == 0 {
        return Block::zero();
    }
    if length == 1 {
        return glyph_block(&stroke.only);
    }
    let start = glyph_block(stroke.end.start());
    let middle = Block::with_length(axis, length - 2, 1).fill_grapheme(stroke.middle.duplicate());
    let end = glyph_block(stroke.end.end());
    match axis {
        valued::Axis::LeftRight => start.join_left_to_right_at_top(middle).join_left_to_right_at_top(end),
        valued::Axis::TopBottom => start.join_top_to_bottom_at_left(middle).join_top_to_bottom_at_left(end),
    }
}

/// `line_along` the axis named by the type `A`.
pub fn line_at<A: typed::Axis, S: Style>(length: usize, stroke: &StraightStroke) -> (r: Block<S>)
    requires
        line_fits(A::spec_value(), length as nat, *stroke),
    ensures
        r@ == line_view::<S>(
            A::spec_value(),
            length as nat,
            stroke.only@,
            stroke.middle@,
            stroke.end.spec_start()@,
            stroke.end.spec_end()@,
        ),
        well_formed(r@),
{
    line_along(A::value(), length, stroke)
}

} // verus!
