use vstd::prelude::*;

use crate::align::{typed, valued};
use crate::Render;
use crate::content::{
    cells_view, fitted, fitting, lemma_fitted, lemma_fitting, lemma_fitting_append,
    lemma_widths_append, lemma_widths_repeated, lemma_widths_spaces, lines_of, overlaid,
    picked_by, picks_by, rendered, repeated, restyled, spaces, widths, CellView, Congruent, Grapheme, Layer, Plain, Style,
    Styled,
};

verus! {

/// The rows of a block, each a sequence of cells.
pub type Rows<S> = Seq<Seq<CellView<S>>>;

/// `height` rows of `width` plain spaces.
pub open spec fn space_rows<S: Style>(width: nat, height: nat) -> Rows<S> {
    Seq::new(height, |i: int| spaces(S::spec_plain(), width))
}

/// Rows of width `width` widened with plain spaces on the right to `target`
/// columns, where they are narrower.
pub open spec fn rows_padded_right<S: Style>(rows: Rows<S>, width: nat, target: nat) -> Rows<S> {
    if target <= width {
        rows
    } else {
        rows.map_values(|r: Seq<CellView<S>>| r + spaces(S::spec_plain(), (target - width) as nat))
    }
}

/// Rows of width `width` followed by rows of plain spaces up to `target` rows,
/// where they are fewer.
pub open spec fn rows_padded_bottom<S: Style>(rows: Rows<S>, width: nat, target: nat) -> Rows<S> {
    if target <= rows.len() {
        rows
    } else {
        rows + space_rows(width, (target - rows.len()) as nat)
    }
}

/// Two sets of rows side by side, the shorter one filled up at its bottom.
pub open spec fn rows_beside<S: Style>(left: Rows<S>, lw: nat, right: Rows<S>, rw: nat) -> Rows<S> {
    let h = vstd::math::max(left.len() as int, right.len() as int) as nat;
    let a = rows_padded_bottom(left, lw, h);
    let b = rows_padded_bottom(right, rw, h);
    Seq::new(h, |i: int| a[i] + b[i])
}

/// Two sets of rows one above the other, the narrower one filled up at its right.
pub open spec fn rows_above<S: Style>(top: Rows<S>, tw: nat, bottom: Rows<S>, bw: nat) -> Rows<S> {
    let w = vstd::math::max(tw as int, bw as int) as nat;
    rows_padded_right(top, tw, w) + rows_padded_right(bottom, bw, w)
}

/// The default decision of an overlay: a space in front is transparent, anything
/// else hides what is behind it.
pub open spec fn default_layer(front: Seq<char>) -> Layer {
    if front == seq![' '] {
        Layer::Back
    } else {
        Layer::Front
    }
}

/// The default decision at each position that both rows reach.
pub open spec fn default_picks<S>(front: Seq<CellView<S>>, back: Seq<CellView<S>>) -> Seq<Layer> {
    Seq::new(
        vstd::math::min(front.len() as int, back.len() as int) as nat,
        |i: int| default_layer(front[i].1.0),
    )
}

/// Both sets of rows grown to the union of their dimensions and overlaid row by
/// row with the default decision.
pub open spec fn rows_overlaid<S: Style>(front: Rows<S>, fw: nat, back: Rows<S>, bw: nat) -> Rows<S> {
    let w = vstd::math::max(fw as int, bw as int) as nat;
    let h = vstd::math::max(front.len() as int, back.len() as int) as nat;
    let a = rows_padded_right(rows_padded_bottom(front, fw, h), fw, w);
    let b = rows_padded_right(rows_padded_bottom(back, bw, h), bw, w);
    Seq::new(h, |i: int| fitted(overlaid(a[i], b[i], default_picks(a[i], b[i])), w, S::spec_plain()))
}

/// A line repeated until it reaches `width` columns, then cut and filled up with
/// plain spaces to exactly `width` columns.
pub open spec fn tiled<S: Style>(row: Seq<CellView<S>>, width: nat) -> Seq<CellView<S>> {
    if widths(row) == 0 {
        fitted(row, width, S::spec_plain())
    } else {
        fitted(repeated(row, width / widths(row) + 1), width, S::spec_plain())
    }
}

/// The lines of a filler; a filler without lines counts as one empty line.
pub open spec fn filler_lines<S>(cells: Seq<CellView<S>>) -> Rows<S> {
    if lines_of(cells).len() == 0 {
        seq![Seq::empty()]
    } else {
        lines_of(cells)
    }
}

/// `height` rows of `width` columns: the lines of the filler taken in turn, from
/// the first again after the last, each one tiled to the width.
pub open spec fn filled_rows<S: Style>(cells: Seq<CellView<S>>, width: nat, height: nat) -> Rows<S> {
    Seq::new(
        height,
        |i: int| tiled(filler_lines(cells)[i % filler_lines(cells).len() as int], width),
    )
}

/// A length capped at the largest `usize`.
pub open spec fn saturated(n: nat) -> nat {
    if n > usize::MAX {
        usize::MAX as nat
    } else {
        n
    }
}

/// Whether every row has exactly `width` columns.
pub open spec fn rectangular<S>(rows: Rows<S>, width: nat) -> bool {
    forall|i: int| 0 <= i < rows.len() ==> widths(#[trigger] rows[i]) == width
}

/// A block that holds only its dimensions.
#[derive(Clone, Copy, Debug, PartialEq, Eq, Hash, Structural)]
pub struct EmptyBlock {
    pub width: usize,
    pub height: usize,
}

impl EmptyBlock {
    /// A block of the given dimensions.
    pub fn new(width: usize, height: usize) -> (r: EmptyBlock)
        ensures
            r.width == width,
            r.height == height,
    {
        EmptyBlock { width, height }
    }

    /// The block widened at its right to `width` columns, where it is narrower.
    pub fn pad_to_width_at_right(self, width: usize) -> (r: EmptyBlock)
        ensures
            r.width == vstd::math::max(self.width as int, width as int),
            r.height == self.height,
    {
        EmptyBlock { width: if self.width < width { width } else { self.width }, height: self.height }
    }

    /// The block heightened at its bottom to `height` rows, where it is lower.
    pub fn pad_to_height_at_bottom(self, height: usize) -> (r: EmptyBlock)
        ensures
            r.width == self.width,
            r.height == vstd::math::max(self.height as int, height as int),
    {
        EmptyBlock { width: self.width, height: if self.height < height { height } else { self.height } }
    }

    /// `right` put to the right of the block, both aligned at the top.
    pub fn join_left_to_right_at_top(self, right: EmptyBlock) -> (r: EmptyBlock)
        ensures
            r.width == saturated((self.width + right.width) as nat),
            r.height == vstd::math::max(self.height as int, right.height as int),
    {
        EmptyBlock {
            width: self.width.saturating_add(right.width),
            height: if self.height < right.height { right.height } else { self.height },
        }
    }

    /// `bottom` put below the block, both aligned at the left.
    pub fn join_top_to_bottom_at_left(self, bottom: EmptyBlock) -> (r: EmptyBlock)
        ensures
            r.width == vstd::math::max(self.width as int, bottom.width as int),
            r.height == saturated((self.height + bottom.height) as nat),
    {
        EmptyBlock {
            width: if self.width < bottom.width { bottom.width } else { self.width },
            height: self.height.saturating_add(bottom.height),
        }
    }

    /// The union of the dimensions of the two blocks.
    pub fn overlay(self, back: EmptyBlock) -> (r: EmptyBlock)
        ensures
            r.width == vstd::math::max(self.width as int, back.width as int),
            r.height == vstd::math::max(self.height as int, back.height as int),
    {
        EmptyBlock {
            width: if self.width < back.width { back.width } else { self.width },
            height: if self.height < back.height { back.height } else { self.height },
        }
    }

    /// Rows of this block's dimensions made from the filler; none where the block
    /// has no height.
    pub fn fill<S: Style>(self, filler: Styled<S>) -> (r: Result<ContentBlock<S>, EmptyBlock>)
        ensures
            self.height == 0 <==> r is Err,
            r is Err ==> r->Err_0 == self,
            r is Ok ==> r->Ok_0.spec_width() == self.width && r->Ok_0.rows() == filled_rows(
                filler@,
                self.width as nat,
                self.height as nat,
            ),
    {
        if self.height == 0 {
            return Err(self);
        }
        let ghost cells = filler@;
        let mut lines = filler.into_lines();
        if lines.len() == 0 {
            lines.push(Styled::empty());
        }
        assert(lines@.len() == filler_lines(cells).len());
        assert(forall|k: int| 0 <= k < lines@.len() ==> #[trigger] lines@[k]@ == filler_lines(cells)[k]);
        let n = lines.len();
        let mut rows: Vec<Styled<S>> = Vec::new();
        let mut i: usize = 0;
        while i < self.height
            invariant
                i <= self.height,
                n == lines@.len(),
                n > 0,
                n == filler_lines(cells).len(),
                forall|k: int| 0 <= k < n ==> #[trigger] lines@[k]@ == filler_lines(cells)[k],
                rows@.len() == i,
                forall|k: int| 0 <= k < i ==> #[trigger] rows@[k]@ == filled_rows(cells, self.width as nat, self.height as nat)[k],
                forall|k: int| 0 <= k < i ==> widths(#[trigger] rows@[k]@) == self.width,
            decreases self.height - i,
        {
            let row = tile(&lines[i % n], self.width);
            rows.push(row);
            i = i + 1;
        }
        Ok(ContentBlock::from_rows(self.width, rows))
    }
}

/// The line repeated until it reaches `width` columns, then cut and filled up
/// to exactly `width` columns.
fn tile<S: Style>(line: &Styled<S>, width: usize) -> (r: Styled<S>)
    ensures
        r@ == tiled(line@, width as nat),
        widths(r@) == width,
{
    let w = line.width();
    if w == 0 {
        return line.duplicate().fit_to_width(width);
    }
    let k = width / w;
    assert(k * w <= width) by (nonlinear_arith)
        requires
            k == width / w,
            w > 0,
    ;
    let whole = line.duplicate().repeat(k);
    proof {
        lemma_widths_repeated(line@, k as nat);
    }
    let rest = line.duplicate().truncate(width - k * w);
    proof {
        lemma_fitting(line@, (width - k * w) as nat);
        lemma_fitting_append(repeated(line@, k as nat), line@, width as nat);
        assert(repeated(line@, (k + 1) as nat) == repeated(line@, k as nat) + line@);
        lemma_widths_append(whole@, rest@);
    }
    let joined = Styled::concatenate(whole, rest);
    proof {
        lemma_fitting(joined@, width as nat);
        lemma_fitted(joined@, width as nat, S::spec_plain());
    }
    joined.fit_to_width(width)
}

/// A block whose rows are materialized; every row has the block's width.
#[derive(Debug)]
pub struct ContentBlock<S> {
    width: usize,
    lines: Vec<Styled<S>>,
}

impl<S> ContentBlock<S> {
    #[verifier::type_invariant]
    spec fn inv(self) -> bool {
        forall|i: int| 0 <= i < self.lines@.len() ==> widths(#[trigger] self.lines@[i]@) == self.width
    }

    /// The width of the block.
    pub closed spec fn spec_width(&self) -> nat {
        self.width as nat
    }

    /// The rows of the block.
    pub closed spec fn rows(&self) -> Rows<S> {
        self.lines@.map_values(|l: Styled<S>| l@)
    }
}

impl<S: Style> ContentBlock<S> {
    fn from_rows(width: usize, lines: Vec<Styled<S>>) -> (r: ContentBlock<S>)
        requires
            forall|i: int| 0 <= i < lines@.len() ==> widths(#[trigger] lines@[i]@) == width,
        ensures
            r.spec_width() == width,
            r.rows() == lines@.map_values(|l: Styled<S>| l@),
    {
        ContentBlock { width, lines }
    }

    /// The number of columns of the block.
    pub fn width(&self) -> (r: usize)
        ensures
            r == self.spec_width(),
    {
        self.width
    }

    /// The number of rows of the block.
    pub fn height(&self) -> (r: usize)
        ensures
            r == self.rows().len(),
    {
        self.lines.len()
    }
}


impl<S: Style> ContentBlock<S> {
    /// Every row has the block's width.
    pub open spec fn wf(&self) -> bool {
        rectangular(self.rows(), self.spec_width())
    }

    /// The block widened at its right to `width` columns, where it is narrower.
    pub fn pad_to_width_at_right(self, width: usize) -> (r: ContentBlock<S>)
        ensures
            r.wf(),
            r.spec_width() == vstd::math::max(self.spec_width() as int, width as int),
            r.rows() == rows_padded_right(self.rows(), self.spec_width(), width as nat),
    {
        proof {
            use_type_invariant(&self);
        }
        if width <= self.width {
            return self;
        }
        let extra = width - self.width;
        let mut out: Vec<Styled<S>> = Vec::new();
        let mut i: usize = 0;
        while i < self.lines.len()
            invariant
                i <= self.lines@.len(),
                width > self.width,
                extra == width - self.width,
                forall|k: int| 0 <= k < self.lines@.len() ==> widths(#[trigger] self.lines@[k]@) == self.width,
                out@.len() == i,
                forall|k: int| 0 <= k < i ==> #[trigger] out@[k]@ == rows_padded_right(self.rows(), self.spec_width(), width as nat)[k],
                forall|k: int| 0 <= k < i ==> widths(#[trigger] out@[k]@) == width,
            decreases self.lines.len() - i,
        {
            let pad = Styled::spaces(extra);
            proof {
                lemma_widths_spaces(S::spec_plain(), extra as nat);
                lemma_widths_append(self.lines@[i as int]@, pad@);
            }
            let line = Styled::concatenate(self.lines[i].duplicate(), pad);
            out.push(line);
            i = i + 1;
        }
        assert(out@.map_values(|l: Styled<S>| l@) =~= rows_padded_right(self.rows(), self.spec_width(), width as nat));
        ContentBlock { width, lines: out }
    }

    /// The block heightened at its bottom to `height` rows, where it is lower.
    pub fn pad_to_height_at_bottom(self, height: usize) -> (r: ContentBlock<S>)
        ensures
            r.wf(),
            r.spec_width() == self.spec_width(),
            r.rows() == rows_padded_bottom(self.rows(), self.spec_width(), height as nat),
    {
        proof {
            use_type_invariant(&self);
        }
        if height <= self.lines.len() {
            return self;
        }
        let ghost before = self.rows();
        let ghost n = (height - self.lines.len()) as nat;
        let ContentBlock { width, mut lines } = self;
        let ghost start = lines@.len();
        while lines.len() < height
            invariant
                start <= lines@.len() <= height,
                n == height - start,
                forall|k: int| 0 <= k < lines@.len() ==> widths(#[trigger] lines@[k]@) == width,
                lines@.map_values(|l: Styled<S>| l@) =~= before + space_rows::<S>(width as nat, (lines@.len() - start) as nat),
            decreases height - lines.len(),
        {
            let pad = Styled::spaces(width);
            proof {
                lemma_widths_spaces(S::spec_plain(), width as nat);
                let m = (lines@.len() - start) as nat;
                assert(space_rows::<S>(width as nat, m + 1) =~= space_rows::<S>(width as nat, m).push(pad@));
                assert(lines@.push(pad).map_values(|l: Styled<S>| l@) =~= lines@.map_values(|l: Styled<S>| l@).push(pad@));
            }
            lines.push(pad);
        }
        ContentBlock { width, lines }
    }

    /// `right` put to the right of the block, both aligned at the top.
    pub fn join_left_to_right_at_top(self, right: ContentBlock<S>) -> (r: ContentBlock<S>)
        requires
            self.spec_width() + right.spec_width() <= usize::MAX,
        ensures
            r.wf(),
            r.spec_width() == self.spec_width() + right.spec_width(),
            r.rows() == rows_beside(self.rows(), self.spec_width(), right.rows(), right.spec_width()),
    {
        let height = if self.height() < right.height() {
            right.height()
        } else {
            self.height()
        };
        let ghost right_rows = right.rows();
        let left = self.pad_to_height_at_bottom(height);
        let right = right.pad_to_height_at_bottom(height);
        proof {
            use_type_invariant(&left);
            use_type_invariant(&right);
            assert(left.rows().len() == left.lines@.len());
            assert(right.rows().len() == right.lines@.len());
        }
        let width = left.width + right.width;
        let mut out: Vec<Styled<S>> = Vec::new();
        let mut i: usize = 0;
        while i < height
            invariant
                i <= height,
                left.lines@.len() == height,
                right.lines@.len() == height,
                width == left.width + right.width,
                forall|k: int| 0 <= k < height ==> widths(#[trigger] left.lines@[k]@) == left.width,
                forall|k: int| 0 <= k < height ==> widths(#[trigger] right.lines@[k]@) == right.width,
                out@.len() == i,
                forall|k: int| 0 <= k < i ==> #[trigger] out@[k]@ == left.lines@[k]@ + right.lines@[k]@,
                forall|k: int| 0 <= k < i ==> widths(#[trigger] out@[k]@) == width,
            decreases height - i,
        {
            proof {
                lemma_widths_append(left.lines@[i as int]@, right.lines@[i as int]@);
            }
            let line = Styled::concatenate(left.lines[i].duplicate(), right.lines[i].duplicate());
            out.push(line);
            i = i + 1;
        }
        let r = ContentBlock { width, lines: out };
        assert forall|k: int| 0 <= k < height implies #[trigger] r.rows()[k] == rows_beside(
            self.rows(),
            self.spec_width(),
            right_rows,
            right.spec_width(),
        )[k] by {
            assert(left.rows()[k] == left.lines@[k]@);
            assert(right.rows()[k] == right.lines@[k]@);
        }
        assert(r.rows() =~= rows_beside(self.rows(), self.spec_width(), right_rows, right.spec_width()));
        r
    }
}


impl<S: Style> ContentBlock<S> {
    /// `bottom` put below the block, both aligned at the left.
    pub fn join_top_to_bottom_at_left(self, bottom: ContentBlock<S>) -> (r: ContentBlock<S>)
        ensures
            r.wf(),
            r.spec_width() == vstd::math::max(self.spec_width() as int, bottom.spec_width() as int),
            r.rows() == rows_above(self.rows(), self.spec_width(), bottom.rows(), bottom.spec_width()),
    {
        let width = if self.width() < bottom.width() {
            bottom.width()
        } else {
            self.width()
        };
        let top = self.pad_to_width_at_right(width);
        let bottom = bottom.pad_to_width_at_right(width);
        proof {
            use_type_invariant(&top);
            use_type_invariant(&bottom);
        }
        let ContentBlock { width: _, lines: mut lines } = top;
        let ContentBlock { width: _, lines: mut more } = bottom;
        let ghost a = lines@;
        let ghost b = more@;
        lines.append(&mut more);
        assert(lines@.map_values(|l: Styled<S>| l@) =~= a.map_values(|l: Styled<S>| l@) + b.map_values(
            |l: Styled<S>| l@,
        ));
        assert(forall|k: int| 0 <= k < lines@.len() ==> #[trigger] lines@[k] == if k < a.len() {
            a[k]
        } else {
            b[k - a.len()]
        });
        ContentBlock { width, lines }
    }

    /// Both blocks grown to the union of their dimensions and overlaid row by row:
    /// at each position `f` picks the grapheme in front or the one behind.
    pub fn overlay_with<F>(self, back: ContentBlock<S>, f: &F) -> (r: ContentBlock<S>)
        where
            F: Fn(&Grapheme, &Grapheme) -> Layer,
        requires
            forall|a: &Grapheme, b: &Grapheme| #[trigger] f.requires((a, b)),
        ensures
            r.wf(),
            r.spec_width() == vstd::math::max(self.spec_width() as int, back.spec_width() as int),
            r.rows().len() == vstd::math::max(self.rows().len() as int, back.rows().len() as int),
            forall|i: int|
                0 <= i < r.rows().len() ==> #[trigger] overlaid_row(
                    *f,
                    rows_padded_right(
                        rows_padded_bottom(self.rows(), self.spec_width(), r.rows().len()),
                        self.spec_width(),
                        r.spec_width(),
                    )[i],
                    rows_padded_right(
                        rows_padded_bottom(back.rows(), back.spec_width(), r.rows().len()),
                        back.spec_width(),
                        r.spec_width(),
                    )[i],
                    r.spec_width(),
                    r.rows()[i],
                ),
    {
        let width = if self.width() < back.width() {
            back.width()
        } else {
            self.width()
        };
        let height = if self.height() < back.height() {
            back.height()
        } else {
            self.height()
        };
        let ghost (fr, fw, br, bw) = (self.rows(), self.spec_width(), back.rows(), back.spec_width());
        let front = self.pad_to_height_at_bottom(height).pad_to_width_at_right(width);
        let back = back.pad_to_height_at_bottom(height).pad_to_width_at_right(width);
        proof {
            use_type_invariant(&front);
            use_type_invariant(&back);
            assert(front.rows().len() == front.lines@.len());
            assert(back.rows().len() == back.lines@.len());
        }
        let mut out: Vec<Styled<S>> = Vec::new();
        let mut i: usize = 0;
        while i < height
            invariant
                i <= height,
                front.lines@.len() == height,
                back.lines@.len() == height,
                front.width == width,
                back.width == width,
                forall|k: int| 0 <= k < height ==> widths(#[trigger] front.lines@[k]@) == width,
                forall|k: int| 0 <= k < height ==> widths(#[trigger] back.lines@[k]@) == width,
                forall|a: &Grapheme, b: &Grapheme| #[trigger] f.requires((a, b)),
                out@.len() == i,
                forall|k: int| 0 <= k < i ==> widths(#[trigger] out@[k]@) == width,
                forall|k: int|
                    0 <= k < i ==> #[trigger] overlaid_row(
                        *f,
                        front.lines@[k]@,
                        back.lines@[k]@,
                        width as nat,
                        out@[k]@,
                    ),
            decreases height - i,
        {
            let pair = Congruent::try_new(front.lines[i].duplicate(), back.lines[i].duplicate());
            let line = match pair {
                Ok(pair) => Styled::overlay_with(pair, f),
                Err(_) => {
                    proof {
                        assert(false);
                    }
                    Styled::empty()
                },
            };
            proof {
                let picks = choose|picks: Seq<Layer>|
                    picks_by(*f, front.lines@[i as int]@, back.lines@[i as int]@, picks) && line@
                        == fitted(
                        overlaid(front.lines@[i as int]@, back.lines@[i as int]@, picks),
                        width as nat,
                        S::spec_plain(),
                    );
                lemma_fitted(
                    overlaid(front.lines@[i as int]@, back.lines@[i as int]@, picks),
                    width as nat,
                    S::spec_plain(),
                );
                assert(overlaid_row(*f, front.lines@[i as int]@, back.lines@[i as int]@, width as nat, line@));
            }
            out.push(line);
            i = i + 1;
        }
        let r = ContentBlock { width, lines: out };
        assert forall|k: int| 0 <= k < height implies #[trigger] front.rows()[k] == front.lines@[k]@
            && back.rows()[k] == back.lines@[k]@ by {}
        r
    }

    /// The lines of `content` put below the rows, and every row widened with plain
    /// spaces to the widest of them.
    pub fn push(self, content: Styled<S>) -> (r: ContentBlock<S>)
        ensures
            r.wf(),
            r.spec_width() == pushed_width(self.rows(), self.spec_width(), lines_of(content@)),
            r.rows() == normalized(self.rows() + lines_of(content@), r.spec_width()),
    {
        proof {
            use_type_invariant(&self);
        }
        let added = content.into_lines();
        let base: usize = if self.lines.len() == 0 {
            0
        } else {
            self.width
        };
        let mut width = base;
        let mut j: usize = 0;
        while j < added.len()
            invariant
                j <= added@.len(),
                base == (if self.lines@.len() == 0 { 0 } else { self.width }),
                width == vstd::math::max(base as int, max_width(lines_of(content@).take(j as int)) as int),
                added@.len() == lines_of(content@).len(),
                forall|k: int| 0 <= k < added@.len() ==> #[trigger] added@[k]@ == lines_of(content@)[k],
            decreases added.len() - j,
        {
            let w = added[j].width();
            proof {
                assert(lines_of(content@).take(j + 1).drop_last() =~= lines_of(content@).take(j as int));
            }
            if w > width {
                width = w;
            }
            j = j + 1;
        }
        assert(lines_of(content@).take(j as int) =~= lines_of(content@));
        proof {
            lemma_max_width(lines_of(content@));
        }
        let mut out: Vec<Styled<S>> = Vec::new();
        let mut i: usize = 0;
        while i < self.lines.len()
            invariant
                i <= self.lines@.len(),
                self.lines@.len() > 0 ==> width >= self.width,
                forall|k: int| 0 <= k < self.lines@.len() ==> widths(#[trigger] self.lines@[k]@) == self.width,
                out@.len() == i,
                forall|k: int| 0 <= k < i ==> #[trigger] out@[k]@ == widened(self.lines@[k]@, width as nat),
                forall|k: int| 0 <= k < i ==> widths(#[trigger] out@[k]@) == width,
            decreases self.lines.len() - i,
        {
            let line = widen(self.lines[i].duplicate(), width);
            out.push(line);
            i = i + 1;
        }
        let mut m: usize = 0;
        while m < added.len()
            invariant
                m <= added@.len(),
                added@.len() == lines_of(content@).len(),
                forall|k: int| 0 <= k < added@.len() ==> #[trigger] added@[k]@ == lines_of(content@)[k],
                forall|k: int| 0 <= k < added@.len() ==> widths(#[trigger] added@[k]@) <= max_width(lines_of(content@)),
                max_width(lines_of(content@)) <= width,
                out@.len() == self.lines@.len() + m,
                forall|k: int| 0 <= k < self.lines@.len() ==> #[trigger] out@[k]@ == widened(self.lines@[k]@, width as nat),
                forall|k: int| 0 <= k < m ==> #[trigger] out@[self.lines@.len() + k]@ == widened(added@[k]@, width as nat),
                forall|k: int| 0 <= k < out@.len() ==> widths(#[trigger] out@[k]@) == width,
            decreases added.len() - m,
        {
            let line = widen(added[m].duplicate(), width);
            out.push(line);
            m = m + 1;
        }
        let r = ContentBlock { width, lines: out };
        let ghost all = self.rows() + lines_of(content@);
        assert forall|k: int| 0 <= k < out@.len() implies #[trigger] r.rows()[k] == normalized(all, width as nat)[k] by {
            if k < self.lines@.len() {
                assert(all[k] == self.lines@[k]@);
            } else {
                assert(out@[self.lines@.len() + (k - self.lines@.len())] == out@[k]);
                assert(all[k] == added@[k - self.lines@.len()]@);
            }
        }
        assert(r.rows() =~= normalized(all, width as nat));
        r
    }

    /// Every row given `style`.
    pub fn restyle(self, style: S) -> (r: ContentBlock<S>)
        ensures
            r.wf(),
            r.spec_width() == self.spec_width(),
            r.rows().len() == self.rows().len(),
            forall|i: int| 0 <= i < r.rows().len() ==> #[trigger] r.rows()[i] == restyled(self.rows()[i], style),
    {
        proof {
            use_type_invariant(&self);
        }
        let mut out: Vec<Styled<S>> = Vec::new();
        let mut i: usize = 0;
        while i < self.lines.len()
            invariant
                i <= self.lines@.len(),
                forall|k: int| 0 <= k < self.lines@.len() ==> widths(#[trigger] self.lines@[k]@) == self.width,
                out@.len() == i,
                forall|k: int| 0 <= k < i ==> #[trigger] out@[k]@ == restyled(self.lines@[k]@, style),
                forall|k: int| 0 <= k < i ==> widths(#[trigger] out@[k]@) == self.width,
            decreases self.lines.len() - i,
        {
            let line = self.lines[i].duplicate().restyle(style);
            proof {
                lemma_widths_restyled(self.lines@[i as int]@, style);
            }
            out.push(line);
            i = i + 1;
        }
        ContentBlock { width: self.width, lines: out }
    }
}

/// Whether `row` is `front` overlaid on `back` by some decisions of `f`, cut or
/// filled up to `width` columns.
pub open spec fn overlaid_row<S: Style, F: Fn(&Grapheme, &Grapheme) -> Layer>(
    f: F,
    front: Seq<CellView<S>>,
    back: Seq<CellView<S>>,
    width: nat,
    row: Seq<CellView<S>>,
) -> bool {
    exists|picks: Seq<Layer>|
        #[trigger] picks_by(f, front, back, picks) && row == fitted(
            overlaid(front, back, picks),
            width,
            S::spec_plain(),
        )
}

/// The widest of the lines.
pub open spec fn max_width<S>(lines: Rows<S>) -> nat
    decreases lines.len(),
{
    if lines.len() == 0 {
        0
    } else {
        vstd::math::max(max_width(lines.drop_last()) as int, widths(lines.last()) as int) as nat
    }
}

/// No line is wider than the widest.
pub proof fn lemma_max_width<S>(lines: Rows<S>)
    ensures
        forall|k: int| 0 <= k < lines.len() ==> widths(#[trigger] lines[k]) <= max_width(lines),
    decreases lines.len(),
{
    if lines.len() > 0 {
        lemma_max_width(lines.drop_last());
        assert forall|k: int| 0 <= k < lines.len() implies widths(#[trigger] lines[k]) <= max_width(lines) by {
            if k < lines.len() - 1 {
                assert(lines[k] == lines.drop_last()[k]);
            }
        }
    }
}

/// The line widened with plain spaces to `width` columns, where it is narrower.
pub open spec fn widened<S: Style>(line: Seq<CellView<S>>, width: nat) -> Seq<CellView<S>> {
    if widths(line) < width {
        line + spaces(S::spec_plain(), (width - widths(line)) as nat)
    } else {
        line
    }
}

/// Every line widened to `width` columns.
pub open spec fn normalized<S: Style>(lines: Rows<S>, width: nat) -> Rows<S> {
    lines.map_values(|l: Seq<CellView<S>>| widened(l, width))
}

fn widen<S: Style>(line: Styled<S>, width: usize) -> (r: Styled<S>)
    ensures
        r@ == widened(line@, width as nat),
        widths(line@) <= width ==> widths(r@) == width,
{
    let w = line.width();
    if w < width {
        let pad = Styled::spaces(width - w);
        proof {
            lemma_widths_spaces(S::spec_plain(), (width - w) as nat);
            lemma_widths_append(line@, pad@);
        }
        Styled::concatenate(line, pad)
    } else {
        line
    }
}

/// Restyling keeps the width.
pub proof fn lemma_widths_restyled<S>(cells: Seq<CellView<S>>, style: S)
    ensures
        widths(restyled(cells, style)) == widths(cells),
    decreases cells.len(),
{
    if cells.len() > 0 {
        lemma_widths_restyled(cells.drop_last(), style);
        assert(restyled(cells, style).drop_last() =~= restyled(cells.drop_last(), style));
    }
}


/// The model of a block: whether it holds only its dimensions, its width, its
/// height, and its rows (none for a block that holds only its dimensions).
pub type BlockView<S> = (bool, nat, nat, Rows<S>);

/// The model of a block of dimensions only.
pub open spec fn empty_view<S>(width: nat, height: nat) -> BlockView<S> {
    (true, width, height, Seq::empty())
}

/// The model of a block of the given rows.
pub open spec fn content_view<S>(width: nat, rows: Rows<S>) -> BlockView<S> {
    (false, width, rows.len(), rows)
}

/// Every row of a materialized block has the block's width, and its height is
/// its number of rows.
pub open spec fn well_formed<S>(v: BlockView<S>) -> bool {
    &&& v.1 <= usize::MAX
    &&& if v.0 {
        v.3.len() == 0
    } else {
        v.2 == v.3.len() && rectangular(v.3, v.1)
    }
}

/// The block with a block of dimensions only replaced by one of plain spaces.
pub open spec fn materialized<S: Style>(v: BlockView<S>) -> BlockView<S> {
    if v.0 {
        content_view(v.1, space_rows(v.1, v.2))
    } else {
        v
    }
}

/// `b` put to the right of `a`, both aligned at the top. A block of dimensions
/// only and of no width leaves the other unchanged.
pub open spec fn joined_left_to_right<S: Style>(a: BlockView<S>, b: BlockView<S>) -> BlockView<S> {
    if a.0 && b.0 {
        empty_view(saturated(a.1 + b.1), vstd::math::max(a.2 as int, b.2 as int) as nat)
    } else if a.0 && a.1 == 0 {
        b
    } else if b.0 && b.1 == 0 {
        a
    } else {
        content_view(
            a.1 + b.1,
            rows_beside(materialized(a).3, a.1, materialized(b).3, b.1),
        )
    }
}

/// `b` put below `a`, both aligned at the left. A block of dimensions only and
/// of no height leaves the other unchanged.
pub open spec fn joined_top_to_bottom<S: Style>(a: BlockView<S>, b: BlockView<S>) -> BlockView<S> {
    if a.0 && b.0 {
        empty_view(vstd::math::max(a.1 as int, b.1 as int) as nat, saturated(a.2 + b.2))
    } else if a.0 && a.2 == 0 {
        b
    } else if b.0 && b.2 == 0 {
        a
    } else {
        content_view(
            vstd::math::max(a.1 as int, b.1 as int) as nat,
            rows_above(materialized(a).3, a.1, materialized(b).3, b.1),
        )
    }
}

/// `a` laid over `b` with the default decision.
pub open spec fn overlaid_blocks<S: Style>(a: BlockView<S>, b: BlockView<S>) -> BlockView<S> {
    if a.0 && b.0 {
        empty_view(
            vstd::math::max(a.1 as int, b.1 as int) as nat,
            vstd::math::max(a.2 as int, b.2 as int) as nat,
        )
    } else {
        content_view(
            vstd::math::max(a.1 as int, b.1 as int) as nat,
            rows_overlaid(materialized(a).3, a.1, materialized(b).3, b.1),
        )
    }
}

/// The block widened at its right to `width` columns, where it is narrower.
pub open spec fn padded_right<S: Style>(v: BlockView<S>, width: nat) -> BlockView<S> {
    if v.0 {
        empty_view(vstd::math::max(v.1 as int, width as int) as nat, v.2)
    } else {
        content_view(
            vstd::math::max(v.1 as int, width as int) as nat,
            rows_padded_right(v.3, v.1, width),
        )
    }
}

/// The block heightened at its bottom to `height` rows, where it is lower.
pub open spec fn padded_bottom<S: Style>(v: BlockView<S>, height: nat) -> BlockView<S> {
    if v.0 {
        empty_view(v.1, vstd::math::max(v.2 as int, height as int) as nat)
    } else {
        content_view(v.1, rows_padded_bottom(v.3, v.1, height))
    }
}

/// The block filled from `filler` to its dimensions; a block of no height stays
/// as it is.
pub open spec fn filled_view<S: Style>(v: BlockView<S>, filler: Seq<CellView<S>>) -> BlockView<S> {
    if v.2 == 0 {
        v
    } else {
        content_view(v.1, filled_rows(filler, v.1, v.2))
    }
}

/// The lines of `content` put below the rows of the block (a block of dimensions
/// only gives rows of spaces), all widened to the widest.
pub open spec fn pushed<S: Style>(v: BlockView<S>, content: Seq<CellView<S>>) -> BlockView<S> {
    let width = pushed_width(materialized(v).3, v.1, lines_of(content));
    content_view(width, normalized(materialized(v).3 + lines_of(content), width))
}

/// The widest of the rows and the lines: the lines alone where there are no rows.
pub open spec fn pushed_width<S>(rows: Rows<S>, width: nat, lines: Rows<S>) -> nat {
    if rows.len() == 0 {
        max_width(lines)
    } else {
        vstd::math::max(width as int, max_width(lines) as int) as nat
    }
}

/// A block of dimensions only whose axis `axis` has length `length` and whose
/// other axis has length `width`.
pub open spec fn with_length_view<S>(axis: valued::Axis, length: nat, width: nat) -> BlockView<S> {
    match axis {
        valued::Axis::LeftRight => empty_view(length, width),
        valued::Axis::TopBottom => empty_view(width, length),
    }
}

/// `length` blank columns or rows added at the side `alignment`.
pub open spec fn padded_at<S: Style>(v: BlockView<S>, alignment: valued::Alignment, length: nat) -> BlockView<S> {
    match alignment {
        valued::Alignment::Horizontal(valued::HorizontalAlignment::Left) => joined_left_to_right(empty_view(length, v.2), v),
        valued::Alignment::Horizontal(valued::HorizontalAlignment::Right) => joined_left_to_right(v, empty_view(length, v.2)),
        valued::Alignment::Vertical(valued::VerticalAlignment::Top) => joined_top_to_bottom(empty_view(v.1, length), v),
        valued::Alignment::Vertical(valued::VerticalAlignment::Bottom) => joined_top_to_bottom(v, empty_view(v.1, length)),
    }
}

/// The block grown at the side `alignment` to `length` on that side's axis,
/// where it is shorter.
pub open spec fn padded_to_length_at<S: Style>(v: BlockView<S>, alignment: valued::Alignment, length: nat) -> BlockView<S> {
    match alignment {
        valued::Alignment::Horizontal(valued::HorizontalAlignment::Left) => padded_at(v, alignment, (if length > v.1 { length - v.1 } else { 0 }) as nat),
        valued::Alignment::Horizontal(valued::HorizontalAlignment::Right) => padded_right(v, length),
        valued::Alignment::Vertical(valued::VerticalAlignment::Top) => padded_at(v, alignment, (if length > v.2 { length - v.2 } else { 0 }) as nat),
        valued::Alignment::Vertical(valued::VerticalAlignment::Bottom) => padded_bottom(v, length),
    }
}

/// Two blocks joined along one axis, the shorter aligned at the given side of the
/// other axis.
pub open spec fn joined_at<S: Style>(a: BlockView<S>, b: BlockView<S>, alignment: valued::AxialAlignment) -> BlockView<S> {
    let h = vstd::math::max(a.2 as int, b.2 as int) as nat;
    let w = vstd::math::max(a.1 as int, b.1 as int) as nat;
    match alignment {
        valued::AxialAlignment::LeftRight(valued::VerticalAlignment::Top) => joined_left_to_right(a, b),
        valued::AxialAlignment::LeftRight(valued::VerticalAlignment::Bottom) => joined_left_to_right(
            padded_to_length_at(a, valued::Alignment::Vertical(valued::VerticalAlignment::Top), h),
            padded_to_length_at(b, valued::Alignment::Vertical(valued::VerticalAlignment::Top), h),
        ),
        valued::AxialAlignment::TopBottom(valued::HorizontalAlignment::Left) => joined_top_to_bottom(a, b),
        valued::AxialAlignment::TopBottom(valued::HorizontalAlignment::Right) => joined_top_to_bottom(
            padded_to_length_at(a, valued::Alignment::Horizontal(valued::HorizontalAlignment::Left), w),
            padded_to_length_at(b, valued::Alignment::Horizontal(valued::HorizontalAlignment::Left), w),
        ),
    }
}

/// A block in one of its two modes.
#[derive(Debug)]
pub enum ModalBlock<S> {
    Empty(EmptyBlock),
    Content(ContentBlock<S>),
}

impl<S: Style> ContentBlock<S> {
    /// `height` rows of `width` plain spaces.
    pub fn of_spaces(width: usize, height: usize) -> (r: ContentBlock<S>)
        ensures
            r.wf(),
            r.spec_width() == width,
            r.rows() == space_rows::<S>(width as nat, height as nat),
    {
        let mut lines: Vec<Styled<S>> = Vec::new();
        while lines.len() < height
            invariant
                lines@.len() <= height,
                forall|k: int| 0 <= k < lines@.len() ==> widths(#[trigger] lines@[k]@) == width,
                lines@.map_values(|l: Styled<S>| l@) =~= space_rows::<S>(width as nat, lines@.len() as nat),
            decreases height - lines.len(),
        {
            let pad = Styled::spaces(width);
            proof {
                lemma_widths_spaces(S::spec_plain(), width as nat);
                assert(lines@.push(pad).map_values(|l: Styled<S>| l@) =~= lines@.map_values(|l: Styled<S>| l@).push(pad@));
                assert(space_rows::<S>(width as nat, (lines@.len() + 1) as nat) =~= space_rows::<S>(width as nat, lines@.len() as nat).push(pad@));
            }
            lines.push(pad);
        }
        ContentBlock { width, lines }
    }
}

impl<S: Style> ModalBlock<S> {
    /// The model of the block.
    pub open spec fn model(&self) -> BlockView<S> {
        match self {
            ModalBlock::Empty(e) => empty_view(e.width as nat, e.height as nat),
            ModalBlock::Content(c) => content_view(c.spec_width(), c.rows()),
        }
    }

    /// A materialized block has rows of its width.
    pub open spec fn wf(&self) -> bool {
        match self {
            ModalBlock::Empty(_) => true,
            ModalBlock::Content(c) => c.wf(),
        }
    }

}



/// The decisions of a rule that always decides by default are the default ones.
proof fn lemma_default_picks<S, F: Fn(&Grapheme, &Grapheme) -> Layer>(
    f: F,
    front: Seq<CellView<S>>,
    back: Seq<CellView<S>>,
    picks: Seq<Layer>,
)
    requires
        picks_by(f, front, back, picks),
        forall|x: &Grapheme, y: &Grapheme, l: Layer| #[trigger] f.ensures((x, y), l) ==> l == default_layer(x@.0),
    ensures
        picks == default_picks(front, back),
{
    assert forall|j: int| 0 <= j < picks.len() implies picks[j] == default_picks(front, back)[j] by {
        assert(picked_by(f, front[j].1, back[j].1, picks[j]));
        let (ga, gb) = choose|ga: Grapheme, gb: Grapheme|
            ga@ == front[j].1 && gb@ == back[j].1 && f.ensures((&ga, &gb), picks[j]);
        assert(f.ensures((&ga, &gb), picks[j]));
    }
    assert(picks =~= default_picks(front, back));
}

impl<S: Style> ModalBlock<S> {
    /// The block with its rows materialized: spaces for a block of dimensions only.
    fn materialize(self) -> (r: ContentBlock<S>)
        ensures
            r.wf(),
            content_view(r.spec_width(), r.rows()) == materialized(self.model()),
    {
        match self {
            ModalBlock::Empty(e) => ContentBlock::of_spaces(e.width, e.height),
            ModalBlock::Content(c) => {
                proof {
                    use_type_invariant(&c);
                }
                c
            },
        }
    }

    /// The number of columns of the block.
    pub fn width(&self) -> (r: usize)
        ensures
            r == self.model().1,
    {
        match self {
            ModalBlock::Empty(e) => e.width,
            ModalBlock::Content(c) => c.width(),
        }
    }

    /// The number of rows of the block.
    pub fn height(&self) -> (r: usize)
        ensures
            r == self.model().2,
    {
        match self {
            ModalBlock::Empty(e) => e.height,
            ModalBlock::Content(c) => c.height(),
        }
    }

    /// Whether the block holds its dimensions only.
    pub fn is_empty(&self) -> (r: bool)
        ensures
            r == self.model().0,
    {
        matches!(self, ModalBlock::Empty(_))
    }

    /// The block widened at its right to `width` columns, where it is narrower.
    pub fn pad_to_width_at_right(self, width: usize) -> (r: ModalBlock<S>)
        ensures
            r.wf(),
            r.model() == padded_right(self.model(), width as nat),
    {
        match self {
            ModalBlock::Empty(e) => ModalBlock::Empty(e.pad_to_width_at_right(width)),
            ModalBlock::Content(c) => ModalBlock::Content(c.pad_to_width_at_right(width)),
        }
    }

    /// The block heightened at its bottom to `height` rows, where it is lower.
    pub fn pad_to_height_at_bottom(self, height: usize) -> (r: ModalBlock<S>)
        ensures
            r.wf(),
            r.model() == padded_bottom(self.model(), height as nat),
    {
        match self {
            ModalBlock::Empty(e) => ModalBlock::Empty(e.pad_to_height_at_bottom(height)),
            ModalBlock::Content(c) => ModalBlock::Content(c.pad_to_height_at_bottom(height)),
        }
    }

    /// The block itself, now known to have rows of its width.
    fn checked(self) -> (r: ModalBlock<S>)
        ensures
            r.wf(),
            r.model() == self.model(),
    {
        match self {
            ModalBlock::Empty(e) => ModalBlock::Empty(e),
            ModalBlock::Content(c) => {
                proof {
                    use_type_invariant(&c);
                }
                ModalBlock::Content(c)
            },
        }
    }

    /// `right` put to the right of the block, both aligned at the top.
    pub fn join_left_to_right_at_top(self, right: ModalBlock<S>) -> (r: ModalBlock<S>)
        requires
            self.model().0 && right.model().0 || self.model().1 + right.model().1 <= usize::MAX,
        ensures
            r.wf(),
            r.model() == joined_left_to_right(self.model(), right.model()),
    {
        if self.is_empty() && right.is_empty() {
            match (self, right) {
                (ModalBlock::Empty(a), ModalBlock::Empty(b)) => ModalBlock::Empty(a.join_left_to_right_at_top(b)),
                _ => {
                    proof {
                        assert(false);
                    }
                    ModalBlock::Empty(EmptyBlock::new(0, 0))
                },
            }
        } else if self.is_empty() && self.width() == 0 {
            right.checked()
        } else if right.is_empty() && right.width() == 0 {
            self.checked()
        } else {
            ModalBlock::Content(self.materialize().join_left_to_right_at_top(right.materialize()))
        }
    }

    /// `bottom` put below the block, both aligned at the left.
    pub fn join_top_to_bottom_at_left(self, bottom: ModalBlock<S>) -> (r: ModalBlock<S>)
        requires
            self.model().0 && bottom.model().0 || self.model().2 + bottom.model().2 <= usize::MAX,
        ensures
            r.wf(),
            r.model() == joined_top_to_bottom(self.model(), bottom.model()),
    {
        if self.is_empty() && bottom.is_empty() {
            match (self, bottom) {
                (ModalBlock::Empty(a), ModalBlock::Empty(b)) => ModalBlock::Empty(a.join_top_to_bottom_at_left(b)),
                _ => {
                    proof {
                        assert(false);
                    }
                    ModalBlock::Empty(EmptyBlock::new(0, 0))
                },
            }
        } else if self.is_empty() && self.height() == 0 {
            bottom.checked()
        } else if bottom.is_empty() && bottom.height() == 0 {
            self.checked()
        } else {
            ModalBlock::Content(self.materialize().join_top_to_bottom_at_left(bottom.materialize()))
        }
    }

    /// This block laid over `back`: a space in front shows what is behind it.
    pub fn overlay(self, back: ModalBlock<S>) -> (r: ModalBlock<S>)
        ensures
            r.wf(),
            r.model() == overlaid_blocks(self.model(), back.model()),
    {
        if self.is_empty() && back.is_empty() {
            match (self, back) {
                (ModalBlock::Empty(a), ModalBlock::Empty(b)) => ModalBlock::Empty(a.overlay(b)),
                _ => {
                    proof {
                        assert(false);
                    }
                    ModalBlock::Empty(EmptyBlock::new(0, 0))
                },
            }
        } else {
            let ghost (a, b) = (self.model(), back.model());
            let front = self.materialize();
            let back = back.materialize();
            let decide = |front: &Grapheme, behind: &Grapheme| -> (l: Layer)
                ensures
                    l == default_layer(front@.0),
                {
                    if front.is_space() {
                        Layer::Back
                    } else {
                        Layer::Front
                    }
                };
            let c = front.overlay_with(back, &decide);
            proof {
                let ra = rows_padded_right(
                    rows_padded_bottom(materialized(a).3, a.1, c.rows().len()),
                    a.1,
                    c.spec_width(),
                );
                let rb = rows_padded_right(
                    rows_padded_bottom(materialized(b).3, b.1, c.rows().len()),
                    b.1,
                    c.spec_width(),
                );
                assert forall|i: int| 0 <= i < c.rows().len() implies #[trigger] c.rows()[i]
                    == rows_overlaid(materialized(a).3, a.1, materialized(b).3, b.1)[i] by {
                    assert(overlaid_row(decide, ra[i], rb[i], c.spec_width(), c.rows()[i]));
                    let picks = choose|picks: Seq<Layer>|
                        #[trigger] picks_by(decide, ra[i], rb[i], picks) && c.rows()[i] == fitted(
                            overlaid(ra[i], rb[i], picks),
                            c.spec_width(),
                            S::spec_plain(),
                        );
                    lemma_default_picks(decide, ra[i], rb[i], picks);
                }
                assert(c.rows() =~= rows_overlaid(materialized(a).3, a.1, materialized(b).3, b.1));
            }
            ModalBlock::Content(c)
        }
    }

    /// This block laid over `back`: at each position `f` picks the grapheme in
    /// front or the one behind.
    pub fn overlay_with<F>(self, back: ModalBlock<S>, f: &F) -> (r: ModalBlock<S>)
        where
            F: Fn(&Grapheme, &Grapheme) -> Layer,
        requires
            forall|a: &Grapheme, b: &Grapheme| #[trigger] f.requires((a, b)),
        ensures
            r.wf(),
            r.model().0 == (self.model().0 && back.model().0),
            r.model().1 == vstd::math::max(self.model().1 as int, back.model().1 as int),
            r.model().2 == vstd::math::max(self.model().2 as int, back.model().2 as int),
            forall|i: int|
                0 <= i < r.model().3.len() ==> #[trigger] overlaid_row(
                    *f,
                    rows_padded_right(
                        rows_padded_bottom(materialized(self.model()).3, self.model().1, r.model().2),
                        self.model().1,
                        r.model().1,
                    )[i],
                    rows_padded_right(
                        rows_padded_bottom(materialized(back.model()).3, back.model().1, r.model().2),
                        back.model().1,
                        r.model().1,
                    )[i],
                    r.model().1,
                    r.model().3[i],
                ),
    {
        if self.is_empty() && back.is_empty() {
            match (self, back) {
                (ModalBlock::Empty(a), ModalBlock::Empty(b)) => ModalBlock::Empty(a.overlay(b)),
                _ => {
                    proof {
                        assert(false);
                    }
                    ModalBlock::Empty(EmptyBlock::new(0, 0))
                },
            }
        } else {
            ModalBlock::Content(self.materialize().overlay_with(back.materialize(), f))
        }
    }

    /// Every row given `style`; a block of dimensions only stays as it is.
    pub fn restyle(self, style: S) -> (r: ModalBlock<S>)
        ensures
            r.wf(),
            r.model().0 == self.model().0,
            r.model().1 == self.model().1,
            r.model().2 == self.model().2,
            r.model().3.len() == self.model().3.len(),
            forall|i: int| 0 <= i < r.model().3.len() ==> #[trigger] r.model().3[i] == restyled(self.model().3[i], style),
    {
        match self {
            ModalBlock::Empty(e) => ModalBlock::Empty(e),
            ModalBlock::Content(c) => ModalBlock::Content(c.restyle(style)),
        }
    }
}


/// A rectangle of text: either its dimensions only, or rows of graphemes that
/// all take the same number of columns.
#[derive(Debug)]
pub struct Block<S = Plain> {
    inner: ModalBlock<S>,
}

impl<S: Style> View for Block<S> {
    type V = BlockView<S>;

    closed spec fn view(&self) -> BlockView<S> {
        self.inner.model()
    }
}

impl<S: Style> Block<S> {
    fn from_modal(inner: ModalBlock<S>) -> (r: Block<S>)
        requires
            inner.wf(),
        ensures
            r@ == inner.model(),
            well_formed(r@),
    {
        Block { inner }
    }

    /// The block of no width and no height.
    pub fn zero() -> (r: Block<S>)
        ensures
            r@ == empty_view::<S>(0, 0),
    {
        Self::with_dimensions(0, 0)
    }

    /// A block of the given dimensions that holds no rows.
    pub fn with_dimensions(width: usize, height: usize) -> (r: Block<S>)
        ensures
            r@ == empty_view::<S>(width as nat, height as nat),
            well_formed(r@),
    {
        Self::from_modal(ModalBlock::Empty(EmptyBlock::new(width, height)))
    }

    /// A block of no width and the given height that holds no rows.
    pub fn with_height(height: usize) -> (r: Block<S>)
        ensures
            r@ == empty_view::<S>(0, height as nat),
            well_formed(r@),
    {
        Self::with_dimensions(0, height)
    }

    /// A block of the given width and no height that holds no rows.
    pub fn with_width(width: usize) -> (r: Block<S>)
        ensures
            r@ == empty_view::<S>(width as nat, 0),
            well_formed(r@),
    {
        Self::with_dimensions(width, 0)
    }

    /// The block of the lines of `text` in the plain style, each widened with
    /// spaces to the widest.
    pub fn with_content(text: &str) -> (r: Block<S>)
        ensures
            r@ == pushed(content_view::<S>(0, Seq::empty()), Styled::<S>::new_view(S::spec_plain(), text@)),
            well_formed(r@),
    {
        Self::with_styled_content(Styled::new(S::plain(), text))
    }

    /// The block of the lines of `content`, each widened with plain spaces to the
    /// widest.
    pub fn with_styled_content(content: Styled<S>) -> (r: Block<S>)
        ensures
            r@ == pushed(content_view::<S>(0, Seq::empty()), content@),
            well_formed(r@),
    {
        let start = ContentBlock::of_spaces(0, 0);
        assert(space_rows::<S>(0, 0) =~= Seq::<Seq<CellView<S>>>::empty());
        Self::from_modal(ModalBlock::Content(start.push(content)))
    }

    /// A block of the given dimensions filled with one grapheme.
    pub fn filled(width: usize, height: usize, glyph: Grapheme) -> (r: Block<S>)
        ensures
            r@ == filled_view(empty_view::<S>(width as nat, height as nat), seq![(S::spec_plain(), glyph@)]),
            well_formed(r@),
    {
        Self::with_dimensions(width, height).fill_grapheme(glyph)
    }

    /// A block of the given dimensions filled from `filler`.
    pub fn filled_with(width: usize, height: usize, filler: Styled<S>) -> (r: Block<S>)
        ensures
            r@ == filled_view(empty_view::<S>(width as nat, height as nat), filler@),
            well_formed(r@),
    {
        Self::with_dimensions(width, height).fill(filler)
    }

    /// The number of rows of the block.
    pub fn height(&self) -> (r: usize)
        ensures
            r == self@.2,
    {
        self.inner.height()
    }

    /// The number of columns of the block.
    pub fn width(&self) -> (r: usize)
        ensures
            r == self@.1,
    {
        self.inner.width()
    }

    /// Whether the block holds its dimensions only.
    pub fn is_empty(&self) -> (r: bool)
        ensures
            r == self@.0,
    {
        self.inner.is_empty()
    }

    /// The rows of the block; none for a block of dimensions only.
    pub fn rows(&self) -> (r: Vec<Styled<S>>)
        ensures
            r@.len() == self@.3.len(),
            forall|i: int| 0 <= i < r@.len() ==> #[trigger] r@[i]@ == self@.3[i],
    {
        let mut out: Vec<Styled<S>> = Vec::new();
        match &self.inner {
            ModalBlock::Empty(_) => {},
            ModalBlock::Content(c) => {
                let mut i: usize = 0;
                while i < c.lines.len()
                    invariant
                        i <= c.lines@.len(),
                        out@.len() == i,
                        forall|k: int| 0 <= k < i ==> #[trigger] out@[k]@ == c.lines@[k]@,
                    decreases c.lines.len() - i,
                {
                    out.push(c.lines[i].duplicate());
                    i = i + 1;
                }
            },
        }
        out
    }

    /// The block filled from `filler` to its dimensions; a block of no height
    /// stays as it is.
    pub fn fill(self, filler: Styled<S>) -> (r: Block<S>)
        ensures
            r@ == filled_view(self@, filler@),
            well_formed(r@),
    {
        if self.height() == 0 {
            return Self::from_modal(self.inner.checked());
        }
        let empty = EmptyBlock::new(self.width(), self.height());
        match empty.fill(filler) {
            Ok(c) => {
                proof {
                    use_type_invariant(&c);
                }
                Self::from_modal(ModalBlock::Content(c))
            },
            Err(e) => Self::from_modal(ModalBlock::Empty(e)),
        }
    }

    /// The block filled with one grapheme; a block of no height stays as it is.
    pub fn fill_grapheme(self, glyph: Grapheme) -> (r: Block<S>)
        ensures
            r@ == filled_view(self@, seq![(S::spec_plain(), glyph@)]),
            well_formed(r@),
    {
        self.fill(Styled::grapheme(glyph))
    }

    /// The lines of `text` in the plain style put below the rows; a block of
    /// dimensions only is first filled with spaces.
    pub fn push(self, text: &str) -> (r: Block<S>)
        ensures
            r@ == pushed(self@, Styled::<S>::new_view(S::spec_plain(), text@)),
            well_formed(r@),
    {
        self.push_styled(Styled::new(S::plain(), text))
    }

    /// The lines of `content` put below the rows; a block of dimensions only is
    /// first filled with spaces.
    pub fn push_styled(self, content: Styled<S>) -> (r: Block<S>)
        ensures
            r@ == pushed(self@, content@),
            well_formed(r@),
    {
        let base = self.inner.materialize();
        Self::from_modal(ModalBlock::Content(base.push(content)))
    }

    /// The block widened at its right to `width` columns, where it is narrower.
    pub fn pad_to_width_at_right(self, width: usize) -> (r: Block<S>)
        ensures
            r@ == padded_right(self@, width as nat),
            well_formed(r@),
    {
        Self::from_modal(self.inner.pad_to_width_at_right(width))
    }

    /// The block heightened at its bottom to `height` rows, where it is lower.
    pub fn pad_to_height_at_bottom(self, height: usize) -> (r: Block<S>)
        ensures
            r@ == padded_bottom(self@, height as nat),
            well_formed(r@),
    {
        Self::from_modal(self.inner.pad_to_height_at_bottom(height))
    }

    /// `right` put to the right of the block, both aligned at the top.
    pub fn join_left_to_right_at_top(self, right: Block<S>) -> (r: Block<S>)
        requires
            fits_joined(self@, right@, valued::Axis::LeftRight),
        ensures
            r@ == joined_left_to_right(self@, right@),
            well_formed(r@),
    {
        Self::from_modal(self.inner.join_left_to_right_at_top(right.inner))
    }

    /// `bottom` put below the block, both aligned at the left.
    pub fn join_top_to_bottom_at_left(self, bottom: Block<S>) -> (r: Block<S>)
        requires
            fits_joined(self@, bottom@, valued::Axis::TopBottom),
        ensures
            r@ == joined_top_to_bottom(self@, bottom@),
            well_formed(r@),
    {
        Self::from_modal(self.inner.join_top_to_bottom_at_left(bottom.inner))
    }

    /// This block laid over `back`, both grown to the union of their dimensions: a
    /// space in front shows what is behind it.
    pub fn overlay(self, back: Block<S>) -> (r: Block<S>)
        ensures
            r@ == overlaid_blocks(self@, back@),
            well_formed(r@),
    {
        Self::from_modal(self.inner.overlay(back.inner))
    }

    /// This block laid over `back`, both grown to the union of their dimensions: at
    /// each position `f` picks the grapheme in front or the one behind.
    pub fn overlay_with<F>(self, back: Block<S>, f: &F) -> (r: Block<S>)
        where
            F: Fn(&Grapheme, &Grapheme) -> Layer,
        requires
            forall|a: &Grapheme, b: &Grapheme| #[trigger] f.requires((a, b)),
        ensures
            well_formed(r@),
            overlay_result(*f, self@, back@, r@),
    {
        Self::from_modal(self.inner.overlay_with(back.inner, f))
    }

    /// Every row given `style`.
    pub fn restyle(self, style: S) -> (r: Block<S>)
        ensures
            well_formed(r@),
            r@.0 == self@.0,
            r@.1 == self@.1,
            r@.2 == self@.2,
            r@.3.len() == self@.3.len(),
            forall|i: int| 0 <= i < r@.3.len() ==> #[trigger] r@.3[i] == restyled(self@.3[i], style),
    {
        Self::from_modal(self.inner.restyle(style))
    }
}


/// Whether the rows of `a` and `b` joined along `axis` fit in memory: blocks of
/// dimensions only always do, their lengths saturate.
pub open spec fn fits_joined<S>(a: BlockView<S>, b: BlockView<S>, axis: valued::Axis) -> bool {
    a.0 && b.0 || match axis {
        valued::Axis::LeftRight => a.1 + b.1 <= usize::MAX,
        valued::Axis::TopBottom => a.2 + b.2 <= usize::MAX,
    }
}

/// Whether the rows of `v` grown by `length` at the side `alignment` fit in
/// memory: a block of dimensions only always does, its lengths saturate.
pub open spec fn fits_padded<S>(v: BlockView<S>, alignment: valued::Alignment, length: nat) -> bool {
    v.0 || match alignment.spec_axis() {
        valued::Axis::LeftRight => v.1 + length <= usize::MAX,
        valued::Axis::TopBottom => v.2 + length <= usize::MAX,
    }
}

impl<S: Style> Block<S> {
    /// `width` blank columns added at the left.
    pub fn pad_at_left(self, width: usize) -> (r: Block<S>)
        requires
            self@.0 || self@.1 + width <= usize::MAX,
        ensures
            r@ == padded_at(self@, valued::Alignment::Horizontal(valued::HorizontalAlignment::Left), width as nat),
            well_formed(r@),
    {
        let padding = Block::with_dimensions(width, self.height());
        padding.join_left_to_right_at_top(self)
    }

    /// `width` blank columns added at the right.
    pub fn pad_at_right(self, width: usize) -> (r: Block<S>)
        requires
            self@.0 || self@.1 + width <= usize::MAX,
        ensures
            r@ == padded_at(self@, valued::Alignment::Horizontal(valued::HorizontalAlignment::Right), width as nat),
            well_formed(r@),
    {
        let padding = Block::with_dimensions(width, self.height());
        self.join_left_to_right_at_top(padding)
    }

    /// `height` blank rows added at the top.
    pub fn pad_at_top(self, height: usize) -> (r: Block<S>)
        requires
            self@.0 || self@.2 + height <= usize::MAX,
        ensures
            r@ == padded_at(self@, valued::Alignment::Vertical(valued::VerticalAlignment::Top), height as nat),
            well_formed(r@),
    {
        let padding = Block::with_dimensions(self.width(), height);
        padding.join_top_to_bottom_at_left(self)
    }

    /// `height` blank rows added at the bottom.
    pub fn pad_at_bottom(self, height: usize) -> (r: Block<S>)
        requires
            self@.0 || self@.2 + height <= usize::MAX,
        ensures
            r@ == padded_at(self@, valued::Alignment::Vertical(valued::VerticalAlignment::Bottom), height as nat),
            well_formed(r@),
    {
        let padding = Block::with_dimensions(self.width(), height);
        self.join_top_to_bottom_at_left(padding)
    }

    /// The block widened at its left to `width` columns, where it is narrower.
    pub fn pad_to_width_at_left(self, width: usize) -> (r: Block<S>)
        ensures
            r@ == padded_to_length_at(self@, valued::Alignment::Horizontal(valued::HorizontalAlignment::Left), width as nat),
            well_formed(r@),
    {
        let extra = width.saturating_sub(self.width());
        self.pad_at_left(extra)
    }

    /// The block heightened at its top to `height` rows, where it is lower.
    pub fn pad_to_height_at_top(self, height: usize) -> (r: Block<S>)
        ensures
            r@ == padded_to_length_at(self@, valued::Alignment::Vertical(valued::VerticalAlignment::Top), height as nat),
            well_formed(r@),
            r@.1 == self@.1,
    {
        let extra = height.saturating_sub(self.height());
        self.pad_at_top(extra)
    }

    /// `right` put to the right of the block, both aligned at the bottom.
    pub fn join_left_to_right_at_bottom(self, right: Block<S>) -> (r: Block<S>)
        requires
            fits_joined(self@, right@, valued::Axis::LeftRight),
        ensures
            r@ == joined_at(self@, right@, valued::AxialAlignment::LeftRight(valued::VerticalAlignment::Bottom)),
            well_formed(r@),
    {
        let height = if self.height() < right.height() {
            right.height()
        } else {
            self.height()
        };
        self.pad_to_height_at_top(height).join_left_to_right_at_top(right.pad_to_height_at_top(height))
    }

    /// `bottom` put below the block, both aligned at the right.
    pub fn join_top_to_bottom_at_right(self, bottom: Block<S>) -> (r: Block<S>)
        requires
            fits_joined(self@, bottom@, valued::Axis::TopBottom),
        ensures
            r@ == joined_at(self@, bottom@, valued::AxialAlignment::TopBottom(valued::HorizontalAlignment::Right)),
            well_formed(r@),
    {
        let width = if self.width() < bottom.width() {
            bottom.width()
        } else {
            self.width()
        };
        let top = self.pad_to_width_at_left(width);
        let bottom = bottom.pad_to_width_at_left(width);
        top.join_top_to_bottom_at_left(bottom)
    }

    /// A block of dimensions only, `length` long on `axis` and `width` long on the
    /// other axis.
    pub fn with_length(axis: valued::Axis, length: usize, width: usize) -> (r: Block<S>)
        ensures
            r@ == with_length_view::<S>(axis, length as nat, width as nat),
            well_formed(r@),
    {
        match axis {
            valued::Axis::LeftRight => Block::with_dimensions(length, width),
            valued::Axis::TopBottom => Block::with_dimensions(width, length),
        }
    }

    /// `length` blank columns or rows added at the side `alignment`.
    pub fn pad(self, alignment: valued::Alignment, length: usize) -> (r: Block<S>)
        requires
            fits_padded(self@, alignment, length as nat),
        ensures
            r@ == padded_at(self@, alignment, length as nat),
            well_formed(r@),
    {
        match alignment {
            valued::Alignment::Horizontal(valued::HorizontalAlignment::Left) => self.pad_at_left(length),
            valued::Alignment::Horizontal(valued::HorizontalAlignment::Right) => self.pad_at_right(length),
            valued::Alignment::Vertical(valued::VerticalAlignment::Top) => self.pad_at_top(length),
            valued::Alignment::Vertical(valued::VerticalAlignment::Bottom) => self.pad_at_bottom(length),
        }
    }

    /// The block grown at the side `alignment` to `length` on that side's axis,
    /// where it is shorter.
    pub fn pad_to_length(self, alignment: valued::Alignment, length: usize) -> (r: Block<S>)
        ensures
            r@ == padded_to_length_at(self@, alignment, length as nat),
            well_formed(r@),
    {
        match alignment {
            valued::Alignment::Horizontal(valued::HorizontalAlignment::Left) => self.pad_to_width_at_left(length),
            valued::Alignment::Horizontal(valued::HorizontalAlignment::Right) => self.pad_to_width_at_right(length),
            valued::Alignment::Vertical(valued::VerticalAlignment::Top) => self.pad_to_height_at_top(length),
            valued::Alignment::Vertical(valued::VerticalAlignment::Bottom) => self.pad_to_height_at_bottom(length),
        }
    }

    /// Two blocks joined along one axis, the shorter aligned at the given side of
    /// the other axis.
    pub fn join(self, alignment: valued::AxialAlignment, other: Block<S>) -> (r: Block<S>)
        requires
            fits_joined(self@, other@, alignment.spec_axis()),
        ensures
            r@ == joined_at(self@, other@, alignment),
            well_formed(r@),
    {
        match alignment {
            valued::AxialAlignment::LeftRight(valued::VerticalAlignment::Top) => self.join_left_to_right_at_top(other),
            valued::AxialAlignment::LeftRight(valued::VerticalAlignment::Bottom) => self.join_left_to_right_at_bottom(other),
            valued::AxialAlignment::TopBottom(valued::HorizontalAlignment::Left) => self.join_top_to_bottom_at_left(other),
            valued::AxialAlignment::TopBottom(valued::HorizontalAlignment::Right) => self.join_top_to_bottom_at_right(other),
        }
    }

    /// `with_length` on the axis named by the type `A`.
    pub fn with_length_at<A: typed::Axis>(length: usize, width: usize) -> (r: Block<S>)
        ensures
            r@ == with_length_view::<S>(A::spec_value(), length as nat, width as nat),
            well_formed(r@),
    {
        Self::with_length(A::value(), length, width)
    }

    /// `pad` at the side named by the type `L`.
    pub fn pad_at<L: typed::Alignment>(self, length: usize) -> (r: Block<S>)
        requires
            fits_padded(self@, L::spec_value(), length as nat),
        ensures
            r@ == padded_at(self@, L::spec_value(), length as nat),
            well_formed(r@),
    {
        self.pad(L::value(), length)
    }

    /// `pad_to_length` at the side named by the type `L`, which lies on the axis `A`.
    pub fn pad_to_length_at<A: typed::Axis, L: typed::Coaxial<A>>(self, length: usize) -> (r: Block<S>)
        ensures
            r@ == padded_to_length_at(self@, L::spec_value(), length as nat),
            well_formed(r@),
    {
        self.pad_to_length(L::value(), length)
    }

    /// `join` along the axis `A`, aligned at the side `L` of the other axis.
    pub fn join_at<A: typed::Axis, L: typed::ContraAxial<A>>(self, other: Block<S>) -> (r: Block<S>)
        requires
            fits_joined(self@, other@, A::spec_value()),
        ensures
            r@ == joined_at(self@, other@, axial_of(L::spec_value())),
            well_formed(r@),
    {
        proof {
            L::lemma_contra_axial();
        }
        let alignment = match L::value() {
            valued::Alignment::Vertical(v) => valued::AxialAlignment::LeftRight(v),
            valued::Alignment::Horizontal(h) => valued::AxialAlignment::TopBottom(h),
        };
        self.join(alignment, other)
    }
}

/// The way to join that aligns at the side `alignment`: along the axis on which
/// that side does not lie.
pub open spec fn axial_of(alignment: valued::Alignment) -> valued::AxialAlignment {
    match alignment {
        valued::Alignment::Vertical(v) => valued::AxialAlignment::LeftRight(v),
        valued::Alignment::Horizontal(h) => valued::AxialAlignment::TopBottom(h),
    }
}

/// Whether a character counts as white space.
pub uninterp spec fn is_white_space(c: char) -> bool;

/// Relies on str::trim_end: the string without its trailing characters that
/// char::is_whitespace accepts.
#[verifier::external_body]
fn trim_end(s: &str) -> (r: &str)
    ensures
        r@.len() <= s@.len(),
        r@ == s@.take(r@.len() as int),
        forall|i: int| r@.len() <= i < s@.len() ==> is_white_space(#[trigger] s@[i]),
        r@.len() > 0 ==> !is_white_space(r@.last()),
{
    s.trim_end()
}

/// The text without its trailing white space.
pub open spec fn trimmed_end(s: Seq<char>) -> Seq<char>
    decreases s.len(),
{
    if s.len() > 0 && is_white_space(s.last()) {
        trimmed_end(s.drop_last())
    } else {
        s
    }
}

proof fn lemma_trimmed_end(s: Seq<char>, r: Seq<char>)
    requires
        r.len() <= s.len(),
        r == s.take(r.len() as int),
        forall|i: int| r.len() <= i < s.len() ==> is_white_space(#[trigger] s[i]),
        r.len() > 0 ==> !is_white_space(r.last()),
    ensures
        r == trimmed_end(s),
    decreases s.len(),
{
    if r.len() < s.len() {
        assert(is_white_space(s[s.len() - 1]));
        assert(s.drop_last().take(r.len() as int) =~= r);
        lemma_trimmed_end(s.drop_last(), r);
    } else {
        assert(r =~= s);
    }
}

/// The text of rows as displayed: each row without its trailing white space and
/// followed by a line feed.
pub open spec fn rows_text<S: Style>(rows: Rows<S>) -> Seq<char>
    decreases rows.len(),
{
    if rows.len() == 0 {
        Seq::empty()
    } else {
        rows_text(rows.drop_last()) + trimmed_end(rendered(rows.last())) + seq!['\n']
    }
}

/// The text of a block as displayed; a block of dimensions only shows nothing.
pub open spec fn block_text<S: Style>(v: BlockView<S>) -> Seq<char> {
    if v.0 {
        Seq::empty()
    } else {
        rows_text(v.3)
    }
}

impl<S: Style> Render for Block<S> {
    open spec fn text(&self) -> Seq<char> {
        block_text(self@)
    }

    fn render(&self) -> (r: String) {
        let mut out = String::new();
        match &self.inner {
            ModalBlock::Empty(_) => {},
            ModalBlock::Content(c) => {
                let mut i: usize = 0;
                proof {
                    reveal_strlit("\n");
                }
                while i < c.lines.len()
                    invariant
                        i <= c.lines@.len(),
                        out@ == rows_text(c.rows().take(i as int)),
                    decreases c.lines.len() - i,
                {
                    let line = c.lines[i].render();
                    let trimmed = trim_end(line.as_str());
                    proof {
                        lemma_trimmed_end(line@, trimmed@);
                        assert(c.rows().take(i + 1).drop_last() =~= c.rows().take(i as int));
                        assert(c.rows().take(i + 1).last() == c.lines@[i as int]@);
                    }
                    let ghost before = out@;
                    out.append(trimmed);
                    proof {
                        reveal_strlit("\n");
                    }
                    out.append("\n");
                    assert(line@ == rendered(c.lines@[i as int]@));
                    assert(out@ =~= before + trimmed_end(rendered(c.lines@[i as int]@)) + seq!['\n']);
                    i = i + 1;
                }
                assert(c.rows().take(i as int) =~= c.rows());
            },
        }
        out
    }
}

/// Whether `r` is `a` laid over `b`, both grown to the union of their
/// dimensions, with decisions of `f` at each position.
pub open spec fn overlay_result<S: Style, F: Fn(&Grapheme, &Grapheme) -> Layer>(
    f: F,
    a: BlockView<S>,
    b: BlockView<S>,
    r: BlockView<S>,
) -> bool {
    &&& r.0 == (a.0 && b.0)
    &&& r.1 == vstd::math::max(a.1 as int, b.1 as int)
    &&& r.2 == vstd::math::max(a.2 as int, b.2 as int)
    &&& forall|i: int|
        0 <= i < r.3.len() ==> #[trigger] overlaid_row(
            f,
            rows_padded_right(rows_padded_bottom(materialized(a).3, a.1, r.2), a.1, r.1)[i],
            rows_padded_right(rows_padded_bottom(materialized(b).3, b.1, r.2), b.1, r.1)[i],
            r.1,
            r.3[i],
        )
}

/// A block laid over itself is the block, whatever the decisions.
pub proof fn lemma_overlay_with_self<S: Style, F: Fn(&Grapheme, &Grapheme) -> Layer>(
    f: F,
    v: BlockView<S>,
    r: BlockView<S>,
)
    requires
        well_formed(v),
        well_formed(r),
        overlay_result(f, v, v, r),
    ensures
        r == v,
{
    if v.0 {
        assert(r.3 =~= v.3);
    } else {
        assert(materialized(v) == v);
        assert(r.2 == v.3.len() && r.1 == v.1 && r.3.len() == r.2);
        assert(rows_padded_bottom(v.3, v.1, r.2) == v.3);
        assert(rows_padded_right(v.3, v.1, r.1) == v.3);
        assert forall|i: int| 0 <= i < v.3.len() implies #[trigger] r.3[i] == v.3[i] by {
            assert(overlaid_row(
                f,
                rows_padded_right(rows_padded_bottom(materialized(v).3, v.1, r.2), v.1, r.1)[i],
                rows_padded_right(rows_padded_bottom(materialized(v).3, v.1, r.2), v.1, r.1)[i],
                r.1,
                r.3[i],
            ));
            lemma_overlaid_row_self(f, v.3[i], r.3[i]);
        }
        assert(r.3 =~= v.3);
    }
}

/// Padding a block to a length at a side a second time, with the same length,
/// changes nothing.
pub proof fn lemma_pad_to_length_idempotent<S: Style>(
    v: BlockView<S>,
    alignment: valued::Alignment,
    length: nat,
)
    requires
        well_formed(v),
        length <= usize::MAX,
    ensures
        padded_to_length_at(padded_to_length_at(v, alignment, length), alignment, length)
            == padded_to_length_at(v, alignment, length),
{
    let once = padded_to_length_at(v, alignment, length);
    match alignment {
        valued::Alignment::Horizontal(valued::HorizontalAlignment::Left) => {
            assert(once.1 >= length);
            assert(padded_to_length_at(once, alignment, length) == joined_left_to_right(
                empty_view::<S>(0, once.2),
                once,
            ));
        },
        valued::Alignment::Vertical(valued::VerticalAlignment::Top) => {
            assert(once.2 >= length);
            assert(padded_to_length_at(once, alignment, length) == joined_top_to_bottom(
                empty_view::<S>(once.1, 0),
                once,
            ));
        },
        valued::Alignment::Horizontal(valued::HorizontalAlignment::Right) => {
            if !v.0 && length > v.1 {
                assert(once.3.len() == v.3.len());
            }
        },
        valued::Alignment::Vertical(valued::VerticalAlignment::Bottom) => {},
    }
}

/// Joining left to right adds the widths and takes the larger height, except
/// where a block of dimensions only and of no width meets a materialized one and
/// is taller: it then leaves the other unchanged.
pub proof fn lemma_join_left_to_right_dimensions<S: Style>(a: BlockView<S>, b: BlockView<S>)
    requires
        well_formed(a),
        well_formed(b),
        a.1 + b.1 <= usize::MAX,
        a.0 && !b.0 && a.1 == 0 ==> a.2 <= b.2,
        b.0 && !a.0 && b.1 == 0 ==> b.2 <= a.2,
    ensures
        joined_left_to_right(a, b).1 == a.1 + b.1,
        joined_left_to_right(a, b).2 == vstd::math::max(a.2 as int, b.2 as int),
{
}

/// Joining top to bottom adds the heights and takes the larger width, except
/// where a block of dimensions only and of no height meets a materialized one and
/// is wider: it then leaves the other unchanged.
pub proof fn lemma_join_top_to_bottom_dimensions<S: Style>(a: BlockView<S>, b: BlockView<S>)
    requires
        well_formed(a),
        well_formed(b),
        a.2 + b.2 <= usize::MAX,
        a.0 && !b.0 && a.2 == 0 ==> a.1 <= b.1,
        b.0 && !a.0 && b.2 == 0 ==> b.1 <= a.1,
    ensures
        joined_top_to_bottom(a, b).1 == vstd::math::max(a.1 as int, b.1 as int),
        joined_top_to_bottom(a, b).2 == a.2 + b.2,
{
}

/// A row overlaid on itself is the row, whatever the decisions.
pub proof fn lemma_overlaid_row_self<S: Style, F: Fn(&Grapheme, &Grapheme) -> Layer>(
    f: F,
    row: Seq<CellView<S>>,
    result: Seq<CellView<S>>,
)
    requires
        overlaid_row(f, row, row, widths(row), result),
    ensures
        result == row,
{
    let picks = choose|picks: Seq<Layer>|
        #[trigger] picks_by(f, row, row, picks) && result == fitted(
            overlaid(row, row, picks),
            widths(row),
            S::spec_plain(),
        );
    assert(overlaid(row, row, picks) =~= row);
    lemma_fitted(row, widths(row), S::spec_plain());
}

/// A block laid over itself is the block.
pub proof fn lemma_overlay_self<S: Style>(v: BlockView<S>)
    requires
        well_formed(v),
    ensures
        overlaid_blocks(v, v) == v,
{
    if !v.0 {
        let rows = rows_overlaid(v.3, v.1, v.3, v.1);
        assert(rows_padded_bottom(v.3, v.1, v.3.len()) == v.3);
        assert(rows_padded_right(v.3, v.1, v.1) == v.3);
        assert forall|i: int| 0 <= i < v.3.len() implies #[trigger] rows[i] == v.3[i] by {
            let row = v.3[i];
            assert(overlaid(row, row, default_picks(row, row)) =~= row);
            lemma_fitted(row, v.1, S::spec_plain());
        }
        assert(rows =~= v.3);
    }
}

/// Filling a block of no height gives it back unchanged, still of dimensions
/// only.
pub proof fn lemma_fill_zero_height<S: Style>(width: nat, filler: Seq<CellView<S>>)
    ensures
        filled_view(empty_view::<S>(width, 0), filler) == empty_view::<S>(width, 0),
{
}

proof fn lemma_space_rows_rectangular<S: Style>(width: nat, height: nat)
    ensures
        rectangular(space_rows::<S>(width, height), width),
        space_rows::<S>(width, height).len() == height,
{
    lemma_widths_spaces(S::spec_plain(), width);
}

proof fn lemma_padded_bottom_rectangular<S: Style>(rows: Rows<S>, width: nat, target: nat)
    requires
        rectangular(rows, width),
    ensures
        rectangular(rows_padded_bottom(rows, width, target), width),
        rows_padded_bottom(rows, width, target).len() == vstd::math::max(rows.len() as int, target as int),
{
    if target > rows.len() {
        let extra = space_rows::<S>(width, (target - rows.len()) as nat);
        lemma_space_rows_rectangular::<S>(width, (target - rows.len()) as nat);
        assert forall|i: int| 0 <= i < (rows + extra).len() implies widths(#[trigger] (rows + extra)[i]) == width by {
            if i >= rows.len() {
                assert((rows + extra)[i] == extra[i - rows.len()]);
            }
        }
    }
}

proof fn lemma_padded_right_rectangular<S: Style>(rows: Rows<S>, width: nat, target: nat)
    requires
        rectangular(rows, width),
    ensures
        rectangular(rows_padded_right(rows, width, target), vstd::math::max(width as int, target as int) as nat),
        rows_padded_right(rows, width, target).len() == rows.len(),
{
    if target > width {
        lemma_widths_spaces(S::spec_plain(), (target - width) as nat);
        assert forall|i: int| 0 <= i < rows.len() implies widths(
            #[trigger] rows_padded_right(rows, width, target)[i],
        ) == target by {
            lemma_widths_append(rows[i], spaces(S::spec_plain(), (target - width) as nat));
        }
    }
}

proof fn lemma_materialized_rectangular<S: Style>(v: BlockView<S>)
    requires
        well_formed(v),
    ensures
        rectangular(materialized(v).3, v.1),
        materialized(v).3.len() == v.2,
        materialized(v).1 == v.1,
{
    if v.0 {
        lemma_space_rows_rectangular::<S>(v.1, v.2);
    }
}

/// Joining left to right keeps every row as wide as the block.
pub proof fn lemma_join_left_to_right_rectangular<S: Style>(a: BlockView<S>, b: BlockView<S>)
    requires
        well_formed(a),
        well_formed(b),
        fits_joined(a, b, valued::Axis::LeftRight),
    ensures
        well_formed(joined_left_to_right(a, b)),
{
    if !(a.0 && b.0) && !(a.0 && a.1 == 0) && !(b.0 && b.1 == 0) {
        lemma_materialized_rectangular(a);
        lemma_materialized_rectangular(b);
        let h = vstd::math::max(a.2 as int, b.2 as int) as nat;
        let ra = rows_padded_bottom(materialized(a).3, a.1, h);
        let rb = rows_padded_bottom(materialized(b).3, b.1, h);
        lemma_padded_bottom_rectangular(materialized(a).3, a.1, h);
        lemma_padded_bottom_rectangular(materialized(b).3, b.1, h);
        let rows = rows_beside(materialized(a).3, a.1, materialized(b).3, b.1);
        assert forall|i: int| 0 <= i < rows.len() implies widths(#[trigger] rows[i]) == a.1 + b.1 by {
            lemma_widths_append(ra[i], rb[i]);
        }
    }
}

/// Joining top to bottom keeps every row as wide as the block.
pub proof fn lemma_join_top_to_bottom_rectangular<S: Style>(a: BlockView<S>, b: BlockView<S>)
    requires
        well_formed(a),
        well_formed(b),
        fits_joined(a, b, valued::Axis::TopBottom),
    ensures
        well_formed(joined_top_to_bottom(a, b)),
{
    if !(a.0 && b.0) && !(a.0 && a.2 == 0) && !(b.0 && b.2 == 0) {
        lemma_materialized_rectangular(a);
        lemma_materialized_rectangular(b);
        let w = vstd::math::max(a.1 as int, b.1 as int) as nat;
        let ta = rows_padded_right(materialized(a).3, a.1, w);
        let tb = rows_padded_right(materialized(b).3, b.1, w);
        lemma_padded_right_rectangular(materialized(a).3, a.1, w);
        lemma_padded_right_rectangular(materialized(b).3, b.1, w);
        assert forall|i: int| 0 <= i < (ta + tb).len() implies widths(#[trigger] (ta + tb)[i]) == w by {
            if i >= ta.len() {
                assert((ta + tb)[i] == tb[i - ta.len()]);
            }
        }
    }
}

/// Overlaying keeps every row as wide as the block.
pub proof fn lemma_overlay_rectangular<S: Style>(a: BlockView<S>, b: BlockView<S>)
    requires
        well_formed(a),
        well_formed(b),
    ensures
        well_formed(overlaid_blocks(a, b)),
{
    if !(a.0 && b.0) {
        let w = vstd::math::max(a.1 as int, b.1 as int) as nat;
        let rows = rows_overlaid(materialized(a).3, a.1, materialized(b).3, b.1);
        assert forall|i: int| 0 <= i < rows.len() implies widths(#[trigger] rows[i]) == w by {
            let h = vstd::math::max(materialized(a).3.len() as int, materialized(b).3.len() as int) as nat;
            let pa = rows_padded_right(rows_padded_bottom(materialized(a).3, a.1, h), a.1, w);
            let pb = rows_padded_right(rows_padded_bottom(materialized(b).3, b.1, h), b.1, w);
            lemma_fitted(overlaid(pa[i], pb[i], default_picks(pa[i], pb[i])), w, S::spec_plain());
        }
    }
}

/// Padding to a length keeps every row as wide as the block.
pub proof fn lemma_pad_to_length_rectangular<S: Style>(v: BlockView<S>, length: nat)
    requires
        well_formed(v),
        length <= usize::MAX,
    ensures
        well_formed(padded_right(v, length)),
        well_formed(padded_bottom(v, length)),
{
    if !v.0 {
        lemma_padded_right_rectangular(v.3, v.1, length);
        lemma_padded_bottom_rectangular(v.3, v.1, length);
    }
}

/// Filling gives rows exactly as wide as the block.
pub proof fn lemma_fill_rectangular<S: Style>(v: BlockView<S>, filler: Seq<CellView<S>>)
    requires
        well_formed(v),
    ensures
        well_formed(filled_view(v, filler)),
{
    if v.2 > 0 {
        let rows = filled_rows(filler, v.1, v.2);
        assert forall|i: int| 0 <= i < rows.len() implies widths(#[trigger] rows[i]) == v.1 by {
            let lines = filler_lines(filler);
            let line = lines[i % lines.len() as int];
            if widths(line) == 0 {
                lemma_fitted(line, v.1, S::spec_plain());
            } else {
                lemma_fitted(repeated(line, v.1 / widths(line) + 1), v.1, S::spec_plain());
            }
        }
    }
}

/// Pushing lines gives rows exactly as wide as the block.
pub proof fn lemma_push_rectangular<S: Style>(v: BlockView<S>, content: Seq<CellView<S>>)
    requires
        well_formed(v),
        forall|i: int| 0 <= i < lines_of(content).len() ==> widths(#[trigger] lines_of(content)[i]) <= usize::MAX,
    ensures
        well_formed(pushed(v, content)),
{
    lemma_materialized_rectangular(v);
    lemma_max_width(lines_of(content));
    let base = materialized(v).3;
    let lines = lines_of(content);
    let all = base + lines;
    let w = pushed_width(base, v.1, lines);
    assert forall|i: int| 0 <= i < all.len() implies widths(#[trigger] normalized(all, w)[i]) == w by {
        if i < base.len() {
            assert(all[i] == base[i]);
        } else {
            assert(all[i] == lines[i - base.len()]);
        }
        if widths(all[i]) < w {
            lemma_widths_spaces(S::spec_plain(), (w - widths(all[i])) as nat);
            lemma_widths_append(all[i], spaces(S::spec_plain(), (w - widths(all[i])) as nat));
        }
    }
    lemma_max_width_bound(lines);
}

/// The widest of lines that each fit in a `usize` fits in a `usize`.
proof fn lemma_max_width_bound<S>(lines: Rows<S>)
    requires
        forall|i: int| 0 <= i < lines.len() ==> widths(#[trigger] lines[i]) <= usize::MAX,
    ensures
        max_width(lines) <= usize::MAX,
    decreases lines.len(),
{
    if lines.len() > 0 {
        assert forall|i: int| 0 <= i < lines.drop_last().len() implies widths(
            #[trigger] lines.drop_last()[i],
        ) <= usize::MAX by {
            assert(lines.drop_last()[i] == lines[i]);
        }
        lemma_max_width_bound(lines.drop_last());
    }
}

} // verus!
