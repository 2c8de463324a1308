use vstd::prelude::*;

use unicode_segmentation::UnicodeSegmentation;
use unicode_width::UnicodeWidthStr;

use crate::Render;

verus! {

/// The number of terminal columns that a string takes.
pub uninterp spec fn display_width(s: Seq<char>) -> nat;

/// The extended grapheme clusters of a string, in order.
pub uninterp spec fn grapheme_clusters(s: Seq<char>) -> Seq<Seq<char>>;

/// Relies on unicode_width::UnicodeWidthStr::width: the display width of the
/// string, where a single space takes one column.
#[verifier::external_body]
fn str_width(s: &str) -> (r: usize)
    ensures
        r as nat == display_width(s@),
        s@ == seq![' '] ==> r == 1,
        s@.len() == 0 ==> r == 0,
{
    UnicodeWidthStr::width(s)
}

/// Relies on unicode_segmentation::UnicodeSegmentation::graphemes, with extended
/// clusters: the user-perceived characters of the string, in order.
#[verifier::external_body]
fn split_graphemes(s: &str) -> (r: Vec<String>)
    ensures
        r@.len() == grapheme_clusters(s@).len(),
        forall|i: int| 0 <= i < r@.len() ==> #[trigger] r@[i]@ == grapheme_clusters(s@)[i],
        forall|i: int| 0 <= i < r@.len() ==> #[trigger] r@[i]@.len() > 0,
        r@.map_values(|g: String| g@).flatten() == s@,
{
    s.graphemes(true).map(String::from).collect()
}

/// Relies on std's `From<char> for String`: the string of that one character.
#[verifier::external_body]
fn char_string(c: char) -> (r: String)
    ensures
        r@ == seq![c],
{
    String::from(c)
}

/// The model of a grapheme: its text and the number of columns it takes.
pub type GlyphView = (Seq<char>, nat);

/// The model of one position of a line: a style and a grapheme.
pub type CellView<S> = (S, GlyphView);

/// The model of the space grapheme.
pub open spec fn space_glyph() -> GlyphView {
    (seq![' '], 1)
}

/// Whether a grapheme ends a line: a line feed, or a carriage return and line feed.
pub open spec fn is_line_break(g: GlyphView) -> bool {
    g.0 == seq!['\n'] || g.0 == seq!['\r', '\n']
}

/// The total width of a sequence of cells.
pub open spec fn widths<S>(cells: Seq<CellView<S>>) -> nat
    decreases cells.len(),
{
    if cells.len() == 0 {
        0
    } else {
        widths(cells.drop_last()) + cells.last().1.1
    }
}

/// `n` copies of `s`, one after another.
pub open spec fn repeated<A>(s: Seq<A>, n: nat) -> Seq<A>
    decreases n,
{
    if n == 0 {
        Seq::empty()
    } else {
        repeated(s, (n - 1) as nat) + s
    }
}

/// The longest prefix of `cells` whose width is at most `width`.
pub open spec fn fitting<S>(cells: Seq<CellView<S>>, width: nat) -> Seq<CellView<S>>
    decreases cells.len(),
{
    if cells.len() == 0 || cells[0].1.1 > width {
        Seq::empty()
    } else {
        seq![cells[0]] + fitting(cells.skip(1), (width - cells[0].1.1) as nat)
    }
}

/// `n` spaces in the given style.
pub open spec fn spaces<S>(style: S, n: nat) -> Seq<CellView<S>> {
    Seq::new(n, |i: int| (style, space_glyph()))
}

/// The cells cut to at most `width` columns and then filled up with spaces in
/// `style` to exactly `width` columns.
pub open spec fn fitted<S>(cells: Seq<CellView<S>>, width: nat, style: S) -> Seq<CellView<S>> {
    fitting(cells, width) + spaces(style, (width - widths(fitting(cells, width))) as nat)
}

/// The cells split at every line break, the breaks left out; always at least one
/// segment.
pub open spec fn segments<S>(cells: Seq<CellView<S>>) -> Seq<Seq<CellView<S>>>
    decreases cells.len(),
{
    if cells.len() == 0 {
        seq![Seq::empty()]
    } else {
        let init = segments(cells.drop_last());
        if is_line_break(cells.last().1) {
            init.push(Seq::empty())
        } else {
            init.update(init.len() - 1, init.last().push(cells.last()))
        }
    }
}

/// The lines of the cells: the segments between line breaks, where an empty
/// segment after the last break is no line (so that empty content has no line).
pub open spec fn lines_of<S>(cells: Seq<CellView<S>>) -> Seq<Seq<CellView<S>>> {
    let s = segments(cells);
    if s.last().len() == 0 {
        s.drop_last()
    } else {
        s
    }
}

/// The width of two sequences of cells one after the other is the sum of their widths.
pub proof fn lemma_widths_append<S>(a: Seq<CellView<S>>, b: Seq<CellView<S>>)
    ensures
        widths(a + b) == widths(a) + widths(b),
    decreases b.len(),
{
    if b.len() == 0 {
        assert(a + b =~= a);
    } else {
        lemma_widths_append(a, b.drop_last());
        assert((a + b).drop_last() =~= a + b.drop_last());
    }
}

/// Adding a cell adds its width.
pub proof fn lemma_widths_push<S>(a: Seq<CellView<S>>, c: CellView<S>)
    ensures
        widths(a.push(c)) == widths(a) + c.1.1,
{
    assert(a.push(c).drop_last() =~= a);
}

/// `n` copies are `n` times as wide.
pub proof fn lemma_widths_repeated<S>(s: Seq<CellView<S>>, n: nat)
    ensures
        widths(repeated(s, n)) == n * widths(s),
    decreases n,
{
    if n > 0 {
        lemma_widths_repeated(s, (n - 1) as nat);
        lemma_widths_append(repeated(s, (n - 1) as nat), s);
        let m = (n - 1) as nat;
        assert(n * widths(s) == m * widths(s) + widths(s)) by (nonlinear_arith)
            requires
                n == m + 1,
        ;
    } else {
        assert(n * widths(s) == 0) by (nonlinear_arith)
            requires
                n == 0,
        ;
        assert(repeated(s, n) =~= Seq::<CellView<S>>::empty());
    }
}

/// `n` spaces are `n` columns wide.
pub proof fn lemma_widths_spaces<S>(style: S, n: nat)
    ensures
        widths(spaces(style, n)) == n,
    decreases n,
{
    if n > 0 {
        lemma_widths_spaces(style, (n - 1) as nat);
        assert(spaces(style, n).drop_last() =~= spaces(style, (n - 1) as nat));
    }
}

/// The fitting prefix is a prefix, fits, and is everything where everything fits.
pub proof fn lemma_fitting<S>(cells: Seq<CellView<S>>, width: nat)
    ensures
        widths(fitting(cells, width)) <= width,
        fitting(cells, width).len() <= cells.len(),
        fitting(cells, width) =~= cells.take(fitting(cells, width).len() as int),
        widths(cells) <= width ==> fitting(cells, width) =~= cells,
    decreases cells.len(),
{
    if cells.len() == 0 || cells[0].1.1 > width {
        if cells.len() > 0 {
            lemma_widths_first(cells);
        }
    } else {
        let w = (width - cells[0].1.1) as nat;
        lemma_fitting(cells.skip(1), w);
        let rest = fitting(cells.skip(1), w);
        lemma_widths_append(seq![cells[0]], rest);
        lemma_widths_push(Seq::empty(), cells[0]);
        assert(seq![cells[0]] =~= Seq::<CellView<S>>::empty().push(cells[0]));
        lemma_widths_first(cells);
        assert(cells =~= seq![cells[0]] + cells.skip(1));
    }
}

/// Cutting after a part that fits keeps that part whole.
pub proof fn lemma_fitting_append<S>(a: Seq<CellView<S>>, b: Seq<CellView<S>>, width: nat)
    requires
        widths(a) <= width,
    ensures
        fitting(a + b, width) == a + fitting(b, (width - widths(a)) as nat),
    decreases a.len(),
{
    if a.len() == 0 {
        assert(a + b =~= b);
        assert(a + fitting(b, width) =~= fitting(b, width));
    } else {
        lemma_widths_first(a);
        assert((a + b).skip(1) =~= a.skip(1) + b);
        assert((a + b)[0] == a[0]);
        lemma_fitting_append(a.skip(1), b, (width - a[0].1.1) as nat);
        assert(a =~= seq![a[0]] + a.skip(1));
        assert(seq![a[0]] + (a.skip(1) + fitting(b, (width - widths(a)) as nat)) =~= a + fitting(
            b,
            (width - widths(a)) as nat,
        ));
    }
}

/// The width of cells is that of the first plus that of the rest.
pub proof fn lemma_widths_first<S>(cells: Seq<CellView<S>>)
    requires
        cells.len() > 0,
    ensures
        widths(cells) == cells[0].1.1 + widths(cells.skip(1)),
{
    assert(cells =~= seq![cells[0]] + cells.skip(1));
    lemma_widths_append(seq![cells[0]], cells.skip(1));
    assert(seq![cells[0]] =~= Seq::<CellView<S>>::empty().push(cells[0]));
    lemma_widths_push(Seq::empty(), cells[0]);
}

/// Fitted cells take exactly the width, and cells of that width stay as they are.
pub proof fn lemma_fitted<S>(cells: Seq<CellView<S>>, width: nat, style: S)
    ensures
        widths(fitted(cells, width, style)) == width,
        widths(cells) == width ==> fitted(cells, width, style) =~= cells,
{
    lemma_fitting(cells, width);
    let t = fitting(cells, width);
    lemma_widths_spaces(style, (width - widths(t)) as nat);
    lemma_widths_append(t, spaces(style, (width - widths(t)) as nat));
    if widths(cells) == width {
        assert(spaces(style, 0) =~= Seq::<CellView<S>>::empty());
        assert(t + spaces(style, 0) =~= t);
    }
}

/// A grapheme cluster: one user-perceived character, with the number of columns
/// it takes.
#[derive(Debug, Hash)]
pub struct Grapheme {
    text: String,
    width: usize,
}

impl View for Grapheme {
    type V = GlyphView;

    closed spec fn view(&self) -> GlyphView {
        (self.text@, self.width as nat)
    }
}

impl Grapheme {
    #[verifier::type_invariant]
    spec fn inv(self) -> bool {
        self.width as nat == display_width(self.text@)
    }

    /// The space, one column wide.
    pub fn space() -> (r: Grapheme)
        ensures
            r@ == space_glyph(),
    {
        let text = char_string(' ');
        let width = str_width(text.as_str());
        Grapheme { text, width }
    }

    /// The grapheme of one character.
    pub fn from_char(point: char) -> (r: Grapheme)
        ensures
            r@.0 == seq![point],
            r@.1 == display_width(seq![point]),
    {
        let text = char_string(point);
        let width = str_width(text.as_str());
        Grapheme { text, width }
    }

    /// The grapheme spelled by `text`, where `text` is exactly one grapheme cluster.
    pub fn try_from_str(text: &str) -> (r: Result<Grapheme, ()>)
        ensures
            r is Ok <==> grapheme_clusters(text@).len() == 1,
            r is Ok ==> r->Ok_0@.0 == text@ && r->Ok_0@.1 == display_width(text@),
    {
        let clusters = split_graphemes(text);
        if clusters.len() == 1 {
            let width = str_width(text);
            let owned = text.to_owned();
            Ok(Grapheme { text: owned, width })
        } else {
            Err(())
        }
    }

    /// The text of the grapheme.
    pub fn get(&self) -> (r: &str)
        ensures
            r@ == self@.0,
    {
        self.text.as_str()
    }

    /// The characters of the grapheme, in order.
    pub fn code_points(&self) -> (r: Vec<char>)
        ensures
            r@ == self@.0,
    {
        broadcast use vstd::string::axiom_spec_iter;

        let text = self.text.as_str();
        let mut out: Vec<char> = Vec::new();
        for c in it: text.chars()
            invariant
                out@ == it.seq().take(it.index() as int),
        {
            out.push(c);
        }
        assert(out@ =~= text@);
        out
    }

    /// The number of columns the grapheme takes.
    pub fn width(&self) -> (r: usize)
        ensures
            r == self@.1,
            r == display_width(self@.0),
    {
        proof {
            use_type_invariant(self);
        }
        self.width
    }

    /// Whether the grapheme is the space.
    pub fn is_space(&self) -> (r: bool)
        ensures
            r == (self@.0 == seq![' ']),
    {
        let space = char_string(' ');
        self.text == space
    }

    /// Whether the grapheme ends a line.
    pub fn is_line_break(&self) -> (r: bool)
        ensures
            r == is_line_break(self@),
    {
        let feed = char_string('\n');
        let mut crlf = char_string('\r');
        proof {
            reveal_strlit("\n");
        }
        crlf.append("\n");
        assert(crlf@ =~= seq!['\r', '\n']);
        self.text == feed || self.text == crlf
    }

    /// A copy of the grapheme.
    pub fn duplicate(&self) -> (r: Grapheme)
        ensures
            r@ == self@,
    {
        proof {
            use_type_invariant(self);
        }
        Grapheme { text: self.text.clone(), width: self.width }
    }
}

impl PartialEq for Grapheme {
    /// Graphemes are equal when their texts are.
    fn eq(&self, other: &Grapheme) -> (r: bool) {
        self.text == other.text
    }
}

impl vstd::std_specs::cmp::PartialEqSpecImpl for Grapheme {
    open spec fn obeys_eq_spec() -> bool {
        true
    }

    open spec fn eq_spec(&self, other: &Grapheme) -> bool {
        self@.0 == other@.0
    }
}

impl Eq for Grapheme {
}

/// Which of two overlaid graphemes shows: the one in front or the one behind.
#[derive(Clone, Copy, Debug, PartialEq, Eq, Hash, Structural)]
pub enum Layer {
    Front,
    Back,
}

/// A style descriptor: it decorates a fragment of text for display, for example
/// by wrapping it in escape sequences.
pub trait Style: Copy {
    spec fn decorate(&self, text: Seq<char>) -> Seq<char>;

    spec fn spec_plain() -> Self;

    /// The style of padding and of graphemes given without a style.
    fn plain() -> (r: Self)
        ensures
            r == Self::spec_plain(),
    ;

    fn apply(&self, text: &str) -> (r: String)
        ensures
            r@ == self.decorate(text@),
    ;
}

/// No style: text is displayed as it is.
#[derive(Clone, Copy, Debug, PartialEq, Eq, Hash, Structural)]
pub struct Plain;

impl Style for Plain {
    open spec fn decorate(&self, text: Seq<char>) -> Seq<char> {
        text
    }

    open spec fn spec_plain() -> Plain {
        Plain
    }

    fn plain() -> (r: Plain) {
        Plain
    }

    fn apply(&self, text: &str) -> (r: String) {
        text.to_owned()
    }
}

/// The models of the cells of a line.
pub open spec fn cells_view<S>(cells: Seq<(S, Grapheme)>) -> Seq<CellView<S>> {
    cells.map_values(|c: (S, Grapheme)| (c.0, c.1@))
}

/// The cells with every style replaced by `style`.
pub open spec fn restyled<S>(cells: Seq<CellView<S>>, style: S) -> Seq<CellView<S>> {
    cells.map_values(|c: CellView<S>| (style, c.1))
}

/// The cells of `front` where `picks` says `Front` and those of `back` elsewhere,
/// as far as both reach.
pub open spec fn overlaid<S>(
    front: Seq<CellView<S>>,
    back: Seq<CellView<S>>,
    picks: Seq<Layer>,
) -> Seq<CellView<S>> {
    Seq::new(
        picks.len(),
        |i: int|
            if picks[i] == Layer::Front {
                front[i]
            } else {
                back[i]
            },
    )
}

/// Whether the decision `f` may pick `layer` for a grapheme shown as `front`
/// over one shown as `back`.
pub open spec fn picked_by<F: Fn(&Grapheme, &Grapheme) -> Layer>(
    f: F,
    front: GlyphView,
    back: GlyphView,
    layer: Layer,
) -> bool {
    exists|a: Grapheme, b: Grapheme| a@ == front && b@ == back && f.ensures((&a, &b), layer)
}

/// Whether `picks` holds one decision of `f` for each position that both lines
/// reach.
pub open spec fn picks_by<S, F: Fn(&Grapheme, &Grapheme) -> Layer>(
    f: F,
    front: Seq<CellView<S>>,
    back: Seq<CellView<S>>,
    picks: Seq<Layer>,
) -> bool {
    &&& picks.len() == vstd::math::min(front.len() as int, back.len() as int)
    &&& forall|j: int| 0 <= j < picks.len() ==> #[trigger] picked_by(f, front[j].1, back[j].1, picks[j])
}

/// Whether `picks` holds one decision of `f` for each position that both
/// sequences of graphemes reach.
pub open spec fn glyph_picks_by<F: Fn(&Grapheme, &Grapheme) -> Layer>(
    f: F,
    front: Seq<GlyphView>,
    back: Seq<GlyphView>,
    picks: Seq<Layer>,
) -> bool {
    &&& picks.len() == vstd::math::min(front.len() as int, back.len() as int)
    &&& forall|j: int| 0 <= j < picks.len() ==> #[trigger] picked_by(f, front[j], back[j], picks[j])
}

/// Decisions for two lines of cells are decisions for their graphemes.
pub proof fn lemma_glyph_picks<S, F: Fn(&Grapheme, &Grapheme) -> Layer>(
    f: F,
    front: Seq<CellView<S>>,
    back: Seq<CellView<S>>,
    picks: Seq<Layer>,
)
    requires
        picks_by(f, front, back, picks),
    ensures
        glyph_picks_by(
            f,
            front.map_values(|c: CellView<S>| c.1),
            back.map_values(|c: CellView<S>| c.1),
            picks,
        ),
{
    let gf = front.map_values(|c: CellView<S>| c.1);
    let gb = back.map_values(|c: CellView<S>| c.1);
    assert forall|j: int| 0 <= j < picks.len() implies #[trigger] picked_by(f, gf[j], gb[j], picks[j]) by {
        assert(picked_by(f, front[j].1, back[j].1, picks[j]));
    }
}

/// The text shown for the cells: each grapheme decorated by its style.
pub open spec fn rendered<S: Style>(cells: Seq<CellView<S>>) -> Seq<char>
    decreases cells.len(),
{
    if cells.len() == 0 {
        Seq::empty()
    } else {
        rendered(cells.drop_last()) + cells.last().0.decorate(cells.last().1.0)
    }
}

proof fn lemma_cells_view_push<S>(cells: Seq<(S, Grapheme)>, c: (S, Grapheme))
    ensures
        cells_view(cells.push(c)) =~= cells_view(cells).push((c.0, c.1@)),
{
}

proof fn lemma_widths_split<S>(cells: Seq<CellView<S>>, i: int)
    requires
        0 <= i <= cells.len(),
    ensures
        widths(cells.take(i)) + widths(cells.skip(i)) == widths(cells),
{
    assert(cells =~= cells.take(i) + cells.skip(i));
    lemma_widths_append(cells.take(i), cells.skip(i));
}

/// Two lines of equal width, ready to be overlaid.
#[derive(Debug)]
pub struct Congruent<C: Content> {
    left: C,
    right: C,
}

impl<C: Content> Congruent<C> {
    #[verifier::type_invariant]
    spec fn inv(self) -> bool {
        self.left.spec_width() == self.right.spec_width()
    }

    /// The line in front.
    pub closed spec fn spec_left(&self) -> C {
        self.left
    }

    /// The line behind.
    pub closed spec fn spec_right(&self) -> C {
        self.right
    }

    /// Pairs two lines, where they have the same width.
    pub fn try_new(left: C, right: C) -> (r: Result<Congruent<C>, (C, C)>)
        ensures
            r is Ok <==> left.spec_width() == right.spec_width(),
            r is Ok ==> r->Ok_0.spec_left() == left && r->Ok_0.spec_right() == right,
            r is Err ==> r->Err_0 == (left, right),
    {
        if left.width() == right.width() {
            Ok(Congruent { left, right })
        } else {
            Err((left, right))
        }
    }

    /// The two lines.
    pub fn into_left_right(self) -> (r: (C, C))
        ensures
            r == (self.spec_left(), self.spec_right()),
            r.0.spec_width() == r.1.spec_width(),
    {
        proof {
            use_type_invariant(&self);
        }
        (self.left, self.right)
    }

    /// The line in front.
    pub fn left(&self) -> (r: &C)
        ensures
            *r == self.spec_left(),
    {
        &self.left
    }

    /// The line behind.
    pub fn right(&self) -> (r: &C)
        ensures
            *r == self.spec_right(),
    {
        &self.right
    }
}

/// A line of content: a sequence of graphemes, each with a style.
#[derive(Debug)]
pub struct Styled<S> {
    cells: Vec<(S, Grapheme)>,
    width: usize,
}

impl<S> View for Styled<S> {
    type V = Seq<CellView<S>>;

    closed spec fn view(&self) -> Seq<CellView<S>> {
        cells_view(self.cells@)
    }
}

impl<S> Styled<S> {
    #[verifier::type_invariant]
    spec fn inv(self) -> bool {
        self.width as nat == widths(self@)
    }
}

impl<S: Copy> Styled<S> {
    /// The graphemes of the line, in order.
    pub closed spec fn graphemes(&self) -> Seq<Grapheme> {
        self.cells@.map_values(|c: (S, Grapheme)| c.1)
    }

    /// The graphemes are those of the model, position by position.
    pub proof fn lemma_graphemes(&self)
        ensures
            self.graphemes().len() == self@.len(),
            forall|i: int| 0 <= i < self@.len() ==> #[trigger] self.graphemes()[i]@ == self@[i].1,
    {
    }

    /// The number of columns the line takes.
    pub fn width(&self) -> (r: usize)
        ensures
            r == widths(self@),
    {
        proof {
            use_type_invariant(self);
        }
        self.width
    }

    /// The number of graphemes of the line.
    pub fn len(&self) -> (r: usize)
        ensures
            r == self@.len(),
    {
        self.cells.len()
    }

    /// The line without any grapheme.
    pub fn empty() -> (r: Styled<S>)
        ensures
            r@ == Seq::<CellView<S>>::empty(),
    {
        let r = Styled { cells: Vec::new(), width: 0 };
        assert(r@ =~= Seq::<CellView<S>>::empty());
        r
    }

    /// The longest prefix of `cells` that takes at most `width` columns.
    fn fit_cells(cells: Vec<(S, Grapheme)>, width: usize) -> (r: Styled<S>)
        ensures
            r@ == fitting(cells_view(cells@), width as nat),
    {
        let ghost all = cells_view(cells@);
        let mut out: Vec<(S, Grapheme)> = Vec::new();
        let mut used: usize = 0;
        let mut i: usize = 0;
        assert(all.skip(0) =~= all);
        assert(cells_view(out@) + all =~= all);
        while i < cells.len()
            invariant
                all == cells_view(cells@),
                i <= cells.len(),
                used <= width,
                used as nat == widths(cells_view(out@)),
                fitting(all, width as nat) == cells_view(out@) + fitting(
                    all.skip(i as int),
                    (width - used) as nat,
                ),
            ensures
                used as nat == widths(cells_view(out@)),
                fitting(all, width as nat) == cells_view(out@),
            decreases cells.len() - i,
        {
            let w = cells[i].1.width();
            if w > width - used {
                assert(fitting(all.skip(i as int), (width - used) as nat) =~= Seq::<CellView<S>>::empty());
                assert(cells_view(out@) + Seq::<CellView<S>>::empty() =~= cells_view(out@));
                break;
            }
            let cell = (cells[i].0, cells[i].1.duplicate());
            proof {
                let rest = all.skip(i as int);
                assert(rest.skip(1) =~= all.skip(i + 1));
                assert(rest[0] == all[i as int]);
                lemma_cells_view_push(out@, cell);
                lemma_widths_push(cells_view(out@), (cell.0, cell.1@));
                assert(cells_view(out@).push(all[i as int]) + fitting(all.skip(i + 1), (width - used - w) as nat)
                    =~= cells_view(out@) + (seq![all[i as int]] + fitting(all.skip(i + 1), (width - used - w) as nat)));
            }
            out.push(cell);
            used = used + w;
            i = i + 1;
            if i == cells.len() {
                assert(all.skip(i as int) =~= Seq::<CellView<S>>::empty());
                assert(cells_view(out@) + Seq::<CellView<S>>::empty() =~= cells_view(out@));
            }
        }
        Styled { cells: out, width: used }
    }

    /// The longest prefix of the line that takes at most `width` columns; no
    /// grapheme is split.
    pub fn truncate(self, width: usize) -> (r: Styled<S>)
        ensures
            r@ == fitting(self@, width as nat),
    {
        Self::fit_cells(self.cells, width)
    }

    /// The line followed by `right`.
    pub fn concatenate(left: Styled<S>, right: Styled<S>) -> (r: Styled<S>)
        requires
            widths(left@) + widths(right@) <= usize::MAX,
        ensures
            r@ == left@ + right@,
    {
        proof {
            use_type_invariant(&left);
            use_type_invariant(&right);
            lemma_widths_append(left@, right@);
        }
        let width = left.width + right.width;
        let Styled { cells: mut cells, width: _ } = left;
        let Styled { cells: mut more, width: _ } = right;
        let ghost a = cells@;
        let ghost b = more@;
        cells.append(&mut more);
        assert(cells_view(cells@) =~= cells_view(a) + cells_view(b));
        Styled { cells, width }
    }

    /// Copies of the cells of `src` put after those of `out`.
    fn extend_cells(out: &mut Vec<(S, Grapheme)>, src: &Vec<(S, Grapheme)>)
        ensures
            cells_view(final(out)@) == cells_view(old(out)@) + cells_view(src@),
    {
        let ghost start = cells_view(out@);
        let mut i: usize = 0;
        while i < src.len()
            invariant
                i <= src.len(),
                cells_view(out@) == start + cells_view(src@).take(i as int),
            decreases src.len() - i,
        {
            let cell = (src[i].0, src[i].1.duplicate());
            proof {
                lemma_cells_view_push(out@, cell);
                assert(cells_view(src@).take(i + 1) =~= cells_view(src@).take(i as int).push((cell.0, cell.1@)));
            }
            out.push(cell);
            i = i + 1;
        }
        assert(cells_view(src@).take(i as int) =~= cells_view(src@));
    }

    /// A copy of the line.
    pub fn duplicate(&self) -> (r: Styled<S>)
        ensures
            r@ == self@,
    {
        proof {
            use_type_invariant(self);
        }
        let mut cells: Vec<(S, Grapheme)> = Vec::new();
        Self::extend_cells(&mut cells, &self.cells);
        assert(cells_view(cells@) =~= self@);
        Styled { cells, width: self.width }
    }

    /// `n` copies of the line, one after another.
    pub fn repeat(self, n: usize) -> (r: Styled<S>)
        requires
            n * widths(self@) <= usize::MAX,
        ensures
            r@ == repeated(self@, n as nat),
    {
        proof {
            use_type_invariant(&self);
        }
        let mut out: Vec<(S, Grapheme)> = Vec::new();
        let mut used: usize = 0;
        let mut k: usize = 0;
        assert(cells_view(out@) =~= repeated(self@, 0));
        while k < n
            invariant
                k <= n,
                n * widths(self@) <= usize::MAX,
                self.width as nat == widths(self@),
                cells_view(out@) == repeated(self@, k as nat),
                used as nat == k * widths(self@),
            decreases n - k,
        {
            proof {
                lemma_widths_repeated(self@, k as nat);
                assert((k + 1) * widths(self@) <= n * widths(self@)) by (nonlinear_arith)
                    requires
                        k + 1 <= n,
                ;
                assert((k + 1) * widths(self@) == k * widths(self@) + widths(self@)) by (nonlinear_arith);
            }
            Self::extend_cells(&mut out, &self.cells);
            used = used + self.width;
            k = k + 1;
        }
        proof {
            lemma_widths_repeated(self@, n as nat);
        }
        Styled { cells: out, width: used }
    }

    /// The line with every grapheme given `style`.
    pub fn restyle(self, style: S) -> (r: Styled<S>)
        ensures
            r@ == restyled(self@, style),
    {
        proof {
            use_type_invariant(&self);
        }
        let mut out: Vec<(S, Grapheme)> = Vec::new();
        let mut i: usize = 0;
        while i < self.cells.len()
            invariant
                i <= self.cells.len(),
                cells_view(out@) == restyled(self@, style).take(i as int),
                widths(cells_view(out@)) == widths(self@.take(i as int)),
            decreases self.cells.len() - i,
        {
            let cell = (style, self.cells[i].1.duplicate());
            proof {
                lemma_cells_view_push(out@, cell);
                assert(restyled(self@, style).take(i + 1) =~= restyled(self@, style).take(i as int).push((cell.0, cell.1@)));
                assert(self@.take(i + 1).drop_last() =~= self@.take(i as int));
                lemma_widths_push(cells_view(out@), (cell.0, cell.1@));
            }
            out.push(cell);
            i = i + 1;
        }
        assert(restyled(self@, style).take(i as int) =~= restyled(self@, style));
        assert(self@.take(i as int) =~= self@);
        Styled { cells: out, width: self.width }
    }

    /// The lines of the content: split at each line break, the breaks left out; an
    /// empty segment after the last break is no line.
    pub fn into_lines(self) -> (r: Vec<Styled<S>>)
        ensures
            r@.len() == lines_of(self@).len(),
            forall|i: int| 0 <= i < r@.len() ==> #[trigger] r@[i]@ == lines_of(self@)[i],
    {
        proof {
            use_type_invariant(&self);
        }
        let ghost all = self@;
        let mut lines: Vec<Styled<S>> = Vec::new();
        let mut current: Vec<(S, Grapheme)> = Vec::new();
        let mut used: usize = 0;
        let mut i: usize = 0;
        assert(all.take(0) =~= Seq::<CellView<S>>::empty());
        assert(cells_view(current@) =~= Seq::<CellView<S>>::empty());
        while i < self.cells.len()
            invariant
                all == self@,
                i <= self.cells.len(),
                self.width as nat == widths(all),
                used as nat == widths(cells_view(current@)),
                used <= widths(all.take(i as int)),
                segments(all.take(i as int)) =~= lines@.map_values(|l: Styled<S>| l@).push(
                    cells_view(current@),
                ),
            decreases self.cells.len() - i,
        {
            proof {
                assert(all.take(i + 1).drop_last() =~= all.take(i as int));
                lemma_widths_push(all.take(i as int), all[i as int]);
                assert(all.take(i + 1) =~= all.take(i as int).push(all[i as int]));
                lemma_widths_split(all, i + 1);
            }
            if self.cells[i].1.is_line_break() {
                let done = Styled { cells: current, width: used };
                proof {
                    assert(lines@.push(done).map_values(|l: Styled<S>| l@) =~= lines@.map_values(
                        |l: Styled<S>| l@,
                    ).push(done@));
                }
                lines.push(done);
                current = Vec::new();
                used = 0;
                assert(cells_view(current@) =~= Seq::<CellView<S>>::empty());
            } else {
                let cell = (self.cells[i].0, self.cells[i].1.duplicate());
                proof {
                    lemma_cells_view_push(current@, cell);
                    lemma_widths_push(cells_view(current@), (cell.0, cell.1@));
                }
                current.push(cell);
                used = used + self.cells[i].1.width();
            }
            i = i + 1;
        }
        assert(all.take(i as int) =~= all);
        let ghost before = lines@;
        if current.len() > 0 {
            let last = Styled { cells: current, width: used };
            lines.push(last);
            assert(lines@.map_values(|l: Styled<S>| l@) =~= before.map_values(|l: Styled<S>| l@).push(last@));
        } else {
            assert(before.map_values(|l: Styled<S>| l@) =~= segments(all).drop_last());
        }
        lines
    }

}

impl<S: Style> Render for Styled<S> {
    open spec fn text(&self) -> Seq<char> {
        rendered(self@)
    }

    /// The text of the line as displayed: each grapheme decorated by its style.
    fn render(&self) -> (r: String) {
        let mut out = String::new();
        let mut i: usize = 0;
        while i < self.cells.len()
            invariant
                i <= self.cells.len(),
                out@ == rendered(self@.take(i as int)),
            decreases self.cells.len() - i,
        {
            let piece = self.cells[i].0.apply(self.cells[i].1.get());
            proof {
                assert(self@.take(i + 1).drop_last() =~= self@.take(i as int));
            }
            out.append(piece.as_str());
            i = i + 1;
        }
        assert(self@.take(i as int) =~= self@);
        out
    }
}


/// The cells of the grapheme clusters of `text`, each in `style` and with its
/// display width.
pub open spec fn clusters_in<S>(style: S, text: Seq<char>) -> Seq<CellView<S>> {
    grapheme_clusters(text).map_values(|g: Seq<char>| (style, (g, display_width(g))))
}

impl<S: Style> Styled<S> {
    /// What `new` makes of `text` in `style`.
    pub open spec fn new_view(style: S, text: Seq<char>) -> Seq<CellView<S>> {
        fitting(clusters_in(style, text), usize::MAX as nat)
    }

    /// The line of one grapheme in the plain style.
    pub fn grapheme(glyph: Grapheme) -> (r: Styled<S>)
        ensures
            r@ == seq![(S::spec_plain(), glyph@)],
    {
        let width = glyph.width();
        let mut cells: Vec<(S, Grapheme)> = Vec::new();
        cells.push((S::plain(), glyph));
        proof {
            assert(cells_view(cells@) =~= seq![(S::spec_plain(), glyph@)]);
            lemma_widths_push(Seq::<CellView<S>>::empty(), (S::spec_plain(), glyph@));
            assert(Seq::<CellView<S>>::empty().push((S::spec_plain(), glyph@)) =~= seq![(S::spec_plain(), glyph@)]);
        }
        Styled { cells, width }
    }

    /// The line of one space in the plain style.
    pub fn space() -> (r: Styled<S>)
        ensures
            r@ == seq![(S::spec_plain(), space_glyph())],
    {
        Self::grapheme(Grapheme::space())
    }

    /// The graphemes of `text` in `style`. A line cannot be wider than the largest
    /// `usize`: graphemes beyond that are left out.
    pub fn new(style: S, text: &str) -> (r: Styled<S>)
        ensures
            r@ == Self::new_view(style, text@),
    {
        let clusters = split_graphemes(text);
        let mut cells: Vec<(S, Grapheme)> = Vec::new();
        let mut i: usize = 0;
        while i < clusters.len()
            invariant
                i <= clusters.len(),
                clusters@.len() == grapheme_clusters(text@).len(),
                forall|j: int| 0 <= j < clusters@.len() ==> #[trigger] clusters@[j]@ == grapheme_clusters(text@)[j],
                cells_view(cells@) == clusters_in(style, text@).take(i as int),
            decreases clusters.len() - i,
        {
            let width = str_width(clusters[i].as_str());
            let glyph = Grapheme { text: clusters[i].clone(), width };
            proof {
                lemma_cells_view_push(cells@, (style, glyph));
                assert(clusters_in(style, text@).take(i + 1) =~= clusters_in(style, text@).take(i as int).push((style, glyph@)));
            }
            cells.push((style, glyph));
            i = i + 1;
        }
        assert(clusters_in(style, text@).take(i as int) =~= clusters_in(style, text@));
        Self::fit_cells(cells, usize::MAX)
    }

    /// `n` spaces in the plain style.
    pub fn spaces(n: usize) -> (r: Styled<S>)
        ensures
            r@ == spaces(S::spec_plain(), n as nat),
    {
        let mut cells: Vec<(S, Grapheme)> = Vec::new();
        let mut i: usize = 0;
        while i < n
            invariant
                i <= n,
                cells_view(cells@) == spaces(S::spec_plain(), i as nat),
            decreases n - i,
        {
            let cell = (S::plain(), Grapheme::space());
            proof {
                lemma_cells_view_push(cells@, cell);
                assert(spaces(S::spec_plain(), (i + 1) as nat) =~= spaces(S::spec_plain(), i as nat).push((cell.0, cell.1@)));
            }
            cells.push(cell);
            i = i + 1;
        }
        proof {
            lemma_widths_spaces(S::spec_plain(), n as nat);
        }
        Styled { cells, width: n }
    }

    /// The line cut to at most `width` columns, then filled up with plain spaces to
    /// exactly `width` columns.
    pub fn fit_to_width(self, width: usize) -> (r: Styled<S>)
        ensures
            r@ == fitted(self@, width as nat, S::spec_plain()),
            widths(r@) == width,
    {
        let cut = self.truncate(width);
        proof {
            lemma_fitting(self@, width as nat);
        }
        let missing = width - cut.width();
        let pad = Self::spaces(missing);
        proof {
            lemma_widths_spaces(S::spec_plain(), missing as nat);
            lemma_fitted(self@, width as nat, S::spec_plain());
        }
        Self::concatenate(cut, pad)
    }

    /// The graphemes of two lines of equal width merged position by position: at
    /// each position `f` picks the grapheme in front or the one behind, which keeps
    /// its style. The result is cut or filled up with plain spaces to the common
    /// width.
    fn overlay_lines<F>(front: Styled<S>, back: Styled<S>, f: &F) -> (r: Styled<S>)
        where
            F: Fn(&Grapheme, &Grapheme) -> Layer,
        requires
            widths(front@) == widths(back@),
            forall|a: &Grapheme, b: &Grapheme| #[trigger] f.requires((a, b)),
        ensures
            exists|picks: Seq<Layer>|
                {
                    &&& picks_by(*f, front@, back@, picks)
                    &&& r@ == fitted(
                        overlaid(front@, back@, picks),
                        widths(front@),
                        S::spec_plain(),
                    )
                },
    {
        let width = front.width();
        let n = if front.cells.len() < back.cells.len() {
            front.cells.len()
        } else {
            back.cells.len()
        };
        let mut cells: Vec<(S, Grapheme)> = Vec::new();
        let ghost mut picks: Seq<Layer> = Seq::empty();
        let mut i: usize = 0;
        while i < n
            invariant
                i <= n,
                n == vstd::math::min(front@.len() as int, back@.len() as int),
                picks.len() == i,
                forall|j: int|
                    0 <= j < i ==> f.ensures(
                        (&#[trigger] front.graphemes()[j], &back.graphemes()[j]),
                        picks[j],
                    ),
                cells_view(cells@) == overlaid(front@, back@, picks),
                forall|a: &Grapheme, b: &Grapheme| #[trigger] f.requires((a, b)),
            decreases n - i,
        {
            let layer = f(&front.cells[i].1, &back.cells[i].1);
            let cell = match layer {
                Layer::Front => (front.cells[i].0, front.cells[i].1.duplicate()),
                Layer::Back => (back.cells[i].0, back.cells[i].1.duplicate()),
            };
            proof {
                lemma_cells_view_push(cells@, cell);
                let next = picks.push(layer);
                assert(overlaid(front@, back@, next) =~= overlaid(front@, back@, picks).push((cell.0, cell.1@)));
                picks = next;
            }
            cells.push(cell);
            i = i + 1;
        }
        let cut = Self::fit_cells(cells, width);
        proof {
            lemma_fitting(cells_view(cells@), width as nat);
        }
        let missing = width - cut.width();
        let pad = Self::spaces(missing);
        proof {
            lemma_widths_spaces(S::spec_plain(), missing as nat);
        }
        let r = Self::concatenate(cut, pad);
        assert(r@ == fitted(overlaid(front@, back@, picks), width as nat, S::spec_plain()));
        proof {
            front.lemma_graphemes();
            back.lemma_graphemes();
            assert forall|j: int| 0 <= j < picks.len() implies #[trigger] picked_by(
                *f,
                front@[j].1,
                back@[j].1,
                picks[j],
            ) by {
                let ga = front.graphemes()[j];
                let gb = back.graphemes()[j];
                assert(ga@ == front@[j].1 && gb@ == back@[j].1 && f.ensures((&ga, &gb), picks[j]));
            }
        }
        assert(picks_by(*f, front@, back@, picks));
        r
    }

    /// The graphemes of two lines of equal width merged position by position: at
    /// each position `f` picks the grapheme in front or the one behind, which keeps
    /// its style. The result is cut or filled up with plain spaces to the common
    /// width.
    pub fn overlay_with<F>(content: Congruent<Styled<S>>, f: &F) -> (r: Styled<S>)
        where
            F: Fn(&Grapheme, &Grapheme) -> Layer,
        requires
            forall|a: &Grapheme, b: &Grapheme| #[trigger] f.requires((a, b)),
        ensures
            exists|picks: Seq<Layer>|
                {
                    &&& picks_by(*f, content.spec_left()@, content.spec_right()@, picks)
                    &&& r@ == fitted(
                        overlaid(content.spec_left()@, content.spec_right()@, picks),
                        widths(content.spec_left()@),
                        S::spec_plain(),
                    )
                },
    {
        let (front, back) = content.into_left_right();
        Self::overlay_lines(front, back, f)
    }
}

/// A line of renderable text. Each implementation gives its model and what each
/// operation makes of it, and its methods are held to exactly that.
pub trait Content: Sized {
    type Model;

    spec fn model(&self) -> Self::Model;

    /// The number of columns the line takes.
    spec fn spec_width(&self) -> nat;

    spec fn model_empty() -> Self::Model;

    /// The line of one grapheme.
    spec fn model_grapheme(glyph: GlyphView) -> Self::Model;

    spec fn model_repeat(line: Self::Model, n: nat) -> Self::Model;

    /// The longest prefix, by whole graphemes, that takes at most `width` columns.
    spec fn model_truncate(line: Self::Model, width: nat) -> Self::Model;

    spec fn model_lines(line: Self::Model) -> Seq<Self::Model>;

    spec fn model_concatenate(left: Self::Model, right: Self::Model) -> Self::Model;

    /// The graphemes of the line, in order.
    spec fn model_glyphs(line: Self::Model) -> Seq<GlyphView>;

    /// `front` laid over `back` with the decision `picks[i]` at each position
    /// `i` that both reach.
    spec fn model_overlay(front: Self::Model, back: Self::Model, picks: Seq<Layer>) -> Self::Model;

    /// Whether `n` copies of the line can be held.
    spec fn can_repeat(&self, n: nat) -> bool;

    /// Whether the two lines one after the other can be held.
    spec fn can_concatenate(left: &Self, right: &Self) -> bool;

    fn empty() -> (r: Self)
        ensures
            r.model() == Self::model_empty(),
    ;

    fn grapheme(glyph: Grapheme) -> (r: Self)
        ensures
            r.model() == Self::model_grapheme(glyph@),
    ;

    fn space() -> (r: Self)
        ensures
            r.model() == Self::model_grapheme(space_glyph()),
    ;

    fn repeat(self, n: usize) -> (r: Self)
        requires
            self.can_repeat(n as nat),
        ensures
            r.model() == Self::model_repeat(self.model(), n as nat),
    ;

    fn truncate(self, width: usize) -> (r: Self)
        ensures
            r.model() == Self::model_truncate(self.model(), width as nat),
    ;

    fn into_lines(self) -> (r: Vec<Self>)
        ensures
            r@.len() == Self::model_lines(self.model()).len(),
            forall|i: int| 0 <= i < r@.len() ==> #[trigger] r@[i].model() == Self::model_lines(self.model())[i],
    ;

    fn concatenate(left: Self, right: Self) -> (r: Self)
        requires
            Self::can_concatenate(&left, &right),
        ensures
            r.model() == Self::model_concatenate(left.model(), right.model()),
    ;

    /// `front` laid over `back`, two lines of equal width.
    fn overlay_with<F: Fn(&Grapheme, &Grapheme) -> Layer>(front: Self, back: Self, f: &F) -> (r: Self)
        requires
            front.spec_width() == back.spec_width(),
            forall|a: &Grapheme, b: &Grapheme| #[trigger] f.requires((a, b)),
        ensures
            exists|picks: Seq<Layer>|
                #[trigger] glyph_picks_by(
                    *f,
                    Self::model_glyphs(front.model()),
                    Self::model_glyphs(back.model()),
                    picks,
                ) && r.model() == Self::model_overlay(front.model(), back.model(), picks),
    ;

    fn width(&self) -> (r: usize)
        ensures
            r == self.spec_width(),
    ;
}

impl<S: Style> Content for Styled<S> {
    type Model = Seq<CellView<S>>;

    open spec fn model(&self) -> Seq<CellView<S>> {
        self@
    }

    open spec fn spec_width(&self) -> nat {
        widths(self@)
    }

    open spec fn model_empty() -> Seq<CellView<S>> {
        Seq::empty()
    }

    open spec fn model_grapheme(glyph: GlyphView) -> Seq<CellView<S>> {
        seq![(S::spec_plain(), glyph)]
    }

    open spec fn model_repeat(line: Seq<CellView<S>>, n: nat) -> Seq<CellView<S>> {
        repeated(line, n)
    }

    open spec fn model_truncate(line: Seq<CellView<S>>, width: nat) -> Seq<CellView<S>> {
        fitting(line, width)
    }

    open spec fn model_lines(line: Seq<CellView<S>>) -> Seq<Seq<CellView<S>>> {
        lines_of(line)
    }

    open spec fn model_concatenate(left: Seq<CellView<S>>, right: Seq<CellView<S>>) -> Seq<CellView<S>> {
        left + right
    }

    open spec fn model_glyphs(line: Seq<CellView<S>>) -> Seq<GlyphView> {
        line.map_values(|c: CellView<S>| c.1)
    }

    open spec fn model_overlay(front: Seq<CellView<S>>, back: Seq<CellView<S>>, picks: Seq<Layer>) -> Seq<CellView<S>> {
        fitted(overlaid(front, back, picks), widths(front), S::spec_plain())
    }

    open spec fn can_repeat(&self, n: nat) -> bool {
        n * widths(self@) <= usize::MAX
    }

    open spec fn can_concatenate(left: &Styled<S>, right: &Styled<S>) -> bool {
        widths(left@) + widths(right@) <= usize::MAX
    }

    fn empty() -> (r: Styled<S>) {
        Styled::<S>::empty()
    }

    fn grapheme(glyph: Grapheme) -> (r: Styled<S>) {
        Styled::<S>::grapheme(glyph)
    }

    fn space() -> (r: Styled<S>) {
        Styled::<S>::space()
    }

    fn repeat(self, n: usize) -> (r: Styled<S>) {
        Styled::<S>::repeat(self, n)
    }

    fn truncate(self, width: usize) -> (r: Styled<S>) {
        Styled::<S>::truncate(self, width)
    }

    fn into_lines(self) -> (r: Vec<Styled<S>>) {
        Styled::<S>::into_lines(self)
    }

    fn concatenate(left: Styled<S>, right: Styled<S>) -> (r: Styled<S>) {
        Styled::<S>::concatenate(left, right)
    }

    fn overlay_with<F: Fn(&Grapheme, &Grapheme) -> Layer>(front: Styled<S>, back: Styled<S>, f: &F) -> (r: Styled<S>) {
        let ghost (a, b) = (front@, back@);
        let r = Styled::<S>::overlay_lines(front, back, f);
        proof {
            let picks = choose|picks: Seq<Layer>|
                picks_by(*f, a, b, picks) && r@ == fitted(overlaid(a, b, picks), widths(a), S::spec_plain());
            lemma_glyph_picks(*f, a, b, picks);
            assert(glyph_picks_by(*f, Self::model_glyphs(a), Self::model_glyphs(b), picks));
            assert(r.model() == Self::model_overlay(a, b, picks));
            assert(a == front.model() && b == back.model());
            assert(exists|p: Seq<Layer>|
                #[trigger] glyph_picks_by(
                    *f,
                    Self::model_glyphs(front.model()),
                    Self::model_glyphs(back.model()),
                    p,
                ) && r.model() == Self::model_overlay(front.model(), back.model(), p));
        }
        r
    }

    fn width(&self) -> (r: usize) {
        Styled::<S>::width(self)
    }
}

/// The characters split at every line feed, the feeds left out; always at least
/// one piece.
pub open spec fn char_segments(s: Seq<char>) -> Seq<Seq<char>>
    decreases s.len(),
{
    if s.len() == 0 {
        seq![Seq::empty()]
    } else {
        let init = char_segments(s.drop_last());
        if s.last() == '\n' {
            init.push(Seq::empty())
        } else {
            init.update(init.len() - 1, init.last().push(s.last()))
        }
    }
}

/// The piece without a carriage return at its end.
pub open spec fn without_cr(line: Seq<char>) -> Seq<char> {
    if line.len() > 0 && line.last() == '\r' {
        line.drop_last()
    } else {
        line
    }
}

/// The lines of a text: the pieces between line feeds, a carriage return before
/// a feed left out, and no line after a final feed.
pub open spec fn text_lines(s: Seq<char>) -> Seq<Seq<char>> {
    let pieces = char_segments(s);
    let ended = Seq::new((pieces.len() - 1) as nat, |i: int| without_cr(pieces[i]));
    if pieces.last().len() == 0 {
        ended
    } else {
        ended.push(pieces.last())
    }
}

/// Relies on str::lines: the lines of the text, split at `\n` or `\r\n`, with
/// no empty line after a final line ending.
#[verifier::external_body]
fn str_lines(s: &str) -> (r: Vec<String>)
    ensures
        r@.len() == text_lines(s@).len(),
        forall|i: int| 0 <= i < r@.len() ==> #[trigger] r@[i]@ == text_lines(s@)[i],
{
    s.lines().map(String::from).collect()
}

/// The number of graphemes of the longest prefix of at most `k` graphemes whose
/// text takes at most `width` columns.
pub open spec fn fit_count(clusters: Seq<Seq<char>>, width: nat, k: nat) -> nat
    decreases k,
{
    if k == 0 {
        0
    } else if display_width(clusters.take(k as int).flatten()) <= width {
        k
    } else {
        fit_count(clusters, width, (k - 1) as nat)
    }
}

/// The longest prefix of the text, by whole graphemes, that takes at most
/// `width` columns.
pub open spec fn truncated_text(s: Seq<char>, width: nat) -> Seq<char> {
    grapheme_clusters(s).take(
        fit_count(grapheme_clusters(s), width, grapheme_clusters(s).len()) as int,
    ).flatten()
}

/// The graphemes of a text, each with its display width.
pub open spec fn text_glyphs(s: Seq<char>) -> Seq<GlyphView> {
    grapheme_clusters(s).map_values(|g: Seq<char>| (g, display_width(g)))
}

/// A line of plain text, measured as a whole.
#[derive(Debug)]
pub struct Text {
    text: String,
}

impl View for Text {
    type V = Seq<char>;

    closed spec fn view(&self) -> Seq<char> {
        self.text@
    }
}

/// The texts of the first `k` strings, one after the other.
fn joined_prefix(parts: &Vec<String>, k: usize) -> (r: String)
    requires
        k <= parts@.len(),
    ensures
        r@ == parts@.map_values(|g: String| g@).take(k as int).flatten(),
{
    let ghost texts = parts@.map_values(|g: String| g@);
    let mut out = String::new();
    let mut i: usize = 0;
    while i < k
        invariant
            i <= k <= parts@.len(),
            texts == parts@.map_values(|g: String| g@),
            out@ == texts.take(i as int).flatten(),
        decreases k - i,
    {
        proof {
            assert(texts.take(i + 1) =~= texts.take(i as int).push(texts[i as int]));
            texts.take(i as int).lemma_flatten_push(texts[i as int]);
        }
        out.append(parts[i].as_str());
        i = i + 1;
    }
    out
}

impl Text {
    /// The text of `text`.
    pub fn new(text: &str) -> (r: Text)
        ensures
            r@ == text@,
    {
        Text { text: text.to_owned() }
    }

    /// The text as a string slice.
    pub fn get(&self) -> (r: &str)
        ensures
            r@ == self@,
    {
        self.text.as_str()
    }

    /// The graphemes of the text, each with its width, as `overlay_with` sees them.
    fn glyphs(&self) -> (r: Vec<Grapheme>)
        ensures
            r@.len() == text_glyphs(self@).len(),
            forall|i: int| 0 <= i < r@.len() ==> #[trigger] r@[i]@ == text_glyphs(self@)[i],
    {
        let parts = split_graphemes(self.text.as_str());
        let mut out: Vec<Grapheme> = Vec::new();
        let mut i: usize = 0;
        while i < parts.len()
            invariant
                i <= parts@.len(),
                parts@.len() == grapheme_clusters(self@).len(),
                forall|j: int| 0 <= j < parts@.len() ==> #[trigger] parts@[j]@ == grapheme_clusters(self@)[j],
                out@.len() == i,
                forall|j: int| 0 <= j < i ==> #[trigger] out@[j]@ == text_glyphs(self@)[j],
            decreases parts.len() - i,
        {
            let width = str_width(parts[i].as_str());
            out.push(Grapheme { text: parts[i].clone(), width });
            i = i + 1;
        }
        out
    }
}

impl Content for Text {
    type Model = Seq<char>;

    open spec fn model(&self) -> Seq<char> {
        self@
    }

    open spec fn spec_width(&self) -> nat {
        display_width(self@)
    }

    open spec fn model_empty() -> Seq<char> {
        Seq::empty()
    }

    open spec fn model_grapheme(glyph: GlyphView) -> Seq<char> {
        glyph.0
    }

    open spec fn model_repeat(line: Seq<char>, n: nat) -> Seq<char> {
        repeated(line, n)
    }

    open spec fn model_truncate(line: Seq<char>, width: nat) -> Seq<char> {
        truncated_text(line, width)
    }

    open spec fn model_lines(line: Seq<char>) -> Seq<Seq<char>> {
        text_lines(line)
    }

    open spec fn model_concatenate(left: Seq<char>, right: Seq<char>) -> Seq<char> {
        left + right
    }

    open spec fn model_glyphs(line: Seq<char>) -> Seq<GlyphView> {
        text_glyphs(line)
    }

    open spec fn model_overlay(front: Seq<char>, back: Seq<char>, picks: Seq<Layer>) -> Seq<char> {
        Seq::new(
            picks.len(),
            |i: int|
                if picks[i] == Layer::Front {
                    grapheme_clusters(front)[i]
                } else {
                    grapheme_clusters(back)[i]
                },
        ).flatten()
    }

    open spec fn can_repeat(&self, n: nat) -> bool {
        true
    }

    open spec fn can_concatenate(left: &Text, right: &Text) -> bool {
        true
    }

    fn empty() -> (r: Text) {
        Text { text: String::new() }
    }

    fn grapheme(glyph: Grapheme) -> (r: Text) {
        Text { text: glyph.get().to_owned() }
    }

    fn space() -> (r: Text) {
        Text { text: char_string(' ') }
    }

    fn repeat(self, n: usize) -> (r: Text) {
        let mut out = String::new();
        let mut k: usize = 0;
        while k < n
            invariant
                k <= n,
                out@ == repeated(self@, k as nat),
            decreases n - k,
        {
            out.append(self.text.as_str());
            k = k + 1;
        }
        Text { text: out }
    }

    fn truncate(self, width: usize) -> (r: Text) {
        let ghost clusters = grapheme_clusters(self@);
        let parts = split_graphemes(self.text.as_str());
        assert(parts@.map_values(|g: String| g@) =~= clusters);
        let mut k: usize = parts.len();
        while k > 0
            invariant
                k <= parts@.len(),
                clusters == grapheme_clusters(self@),
                parts@.map_values(|g: String| g@) == clusters,
                fit_count(clusters, width as nat, clusters.len()) == fit_count(clusters, width as nat, k as nat),
            decreases k,
        {
            let prefix = joined_prefix(&parts, k);
            if str_width(prefix.as_str()) <= width {
                assert(prefix@ == clusters.take(k as int).flatten());
                assert(fit_count(clusters, width as nat, k as nat) == k);
                assert(clusters.len() == parts@.len());
                assert(fit_count(clusters, width as nat, clusters.len()) == k);
                assert(truncated_text(self@, width as nat) == clusters.take(k as int).flatten());
                return Text { text: prefix };
            }
            k = k - 1;
        }
        assert(clusters.take(0) =~= Seq::<Seq<char>>::empty());
        Text { text: String::new() }
    }

    fn into_lines(self) -> (r: Vec<Text>) {
        let lines = str_lines(self.text.as_str());
        let mut out: Vec<Text> = Vec::new();
        let mut i: usize = 0;
        while i < lines.len()
            invariant
                i <= lines@.len(),
                lines@.len() == text_lines(self@).len(),
                forall|j: int| 0 <= j < lines@.len() ==> #[trigger] lines@[j]@ == text_lines(self@)[j],
                out@.len() == i,
                forall|j: int| 0 <= j < i ==> #[trigger] out@[j]@ == text_lines(self@)[j],
            decreases lines.len() - i,
        {
            out.push(Text { text: lines[i].clone() });
            i = i + 1;
        }
        out
    }

    fn concatenate(left: Text, right: Text) -> (r: Text) {
        let mut text = left.text;
        text.append(right.text.as_str());
        Text { text }
    }

    fn overlay_with<F: Fn(&Grapheme, &Grapheme) -> Layer>(front: Text, back: Text, f: &F) -> (r: Text) {
        let fg = front.glyphs();
        let bg = back.glyphs();
        let n = if fg.len() < bg.len() {
            fg.len()
        } else {
            bg.len()
        };
        let mut out = String::new();
        let ghost mut picks: Seq<Layer> = Seq::empty();
        let ghost pieces = |p: Seq<Layer>|
            Seq::new(
                p.len(),
                |i: int|
                    if p[i] == Layer::Front {
                        grapheme_clusters(front@)[i]
                    } else {
                        grapheme_clusters(back@)[i]
                    },
            );
        let mut i: usize = 0;
        while i < n
            invariant
                i <= n,
                n == vstd::math::min(fg@.len() as int, bg@.len() as int),
                fg@.len() == text_glyphs(front@).len(),
                bg@.len() == text_glyphs(back@).len(),
                forall|j: int| 0 <= j < fg@.len() ==> #[trigger] fg@[j]@ == text_glyphs(front@)[j],
                forall|j: int| 0 <= j < bg@.len() ==> #[trigger] bg@[j]@ == text_glyphs(back@)[j],
                forall|a: &Grapheme, b: &Grapheme| #[trigger] f.requires((a, b)),
                picks.len() == i,
                forall|j: int| 0 <= j < i ==> #[trigger] picked_by(
                    *f,
                    text_glyphs(front@)[j],
                    text_glyphs(back@)[j],
                    picks[j],
                ),
                out@ == Self::model_overlay(front@, back@, picks),
            decreases n - i,
        {
            let layer = f(&fg[i], &bg[i]);
            proof {
                assert(f.ensures((&fg@[i as int], &bg@[i as int]), layer));
                assert(picked_by(*f, text_glyphs(front@)[i as int], text_glyphs(back@)[i as int], layer));
                let next = picks.push(layer);
                let before = Seq::new(
                    picks.len(),
                    |k: int|
                        if picks[k] == Layer::Front {
                            grapheme_clusters(front@)[k]
                        } else {
                            grapheme_clusters(back@)[k]
                        },
                );
                let after = Seq::new(
                    next.len(),
                    |k: int|
                        if next[k] == Layer::Front {
                            grapheme_clusters(front@)[k]
                        } else {
                            grapheme_clusters(back@)[k]
                        },
                );
                assert(after =~= before.push(after[i as int]));
                before.lemma_flatten_push(after[i as int]);
                picks = next;
            }
            match layer {
                Layer::Front => out.append(fg[i].get()),
                Layer::Back => out.append(bg[i].get()),
            }
            i = i + 1;
        }
        let r = Text { text: out };
        assert(glyph_picks_by(*f, text_glyphs(front@), text_glyphs(back@), picks));
        assert(r.model() == Self::model_overlay(front.model(), back.model(), picks));
        assert(Self::model_glyphs(front.model()) == text_glyphs(front@));
        assert(Self::model_glyphs(back.model()) == text_glyphs(back@));
        assert(glyph_picks_by(*f, Self::model_glyphs(front.model()), Self::model_glyphs(back.model()), picks));
        assert(exists|p: Seq<Layer>|
            #[trigger] glyph_picks_by(
                *f,
                Self::model_glyphs(front.model()),
                Self::model_glyphs(back.model()),
                p,
            ) && r.model() == Self::model_overlay(front.model(), back.model(), p));
        r
    }

    fn width(&self) -> (r: usize) {
        str_width(self.text.as_str())
    }
}

impl Render for Text {
    open spec fn text(&self) -> Seq<char> {
        self@
    }

    fn render(&self) -> (r: String) {
        self.text.clone()
    }
}

} // verus!
