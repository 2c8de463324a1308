use textblock::content::{Congruent, Grapheme, Layer, Plain, Styled};
use textblock::Render;

#[test]
fn grapheme_width_of_wide_character() {
    assert_eq!(Grapheme::from_char('中').width(), 2);
    assert_eq!(Grapheme::from_char('a').width(), 1);
    assert_eq!(Grapheme::space().width(), 1);
    assert!(Grapheme::space().is_space());
}

#[test]
fn grapheme_from_str_needs_one_cluster() {
    assert!(Grapheme::try_from_str("e\u{301}").is_ok());
    assert_eq!(Grapheme::try_from_str("e\u{301}").unwrap().get(), "e\u{301}");
    assert!(Grapheme::try_from_str("ab").is_err());
    assert!(Grapheme::try_from_str("").is_err());
}

#[test]
fn styled_new_segments_graphemes() {
    let line = Styled::new(Plain, "e\u{301}x");
    assert_eq!(line.len(), 2);
    assert_eq!(line.width(), 2);
    assert_eq!(line.render(), "e\u{301}x");
}

#[test]
fn truncate_keeps_whole_graphemes() {
    let line = Styled::new(Plain, "a中b");
    assert_eq!(line.width(), 4);
    let cut = Styled::new(Plain, "a中b").truncate(2);
    assert_eq!(cut.render(), "a");
    let cut = Styled::new(Plain, "a中b").truncate(3);
    assert_eq!(cut.render(), "a中");
    let cut = Styled::new(Plain, "ab").truncate(10);
    assert_eq!(cut.render(), "ab");
}

#[test]
fn repeat_concatenates_copies() {
    let line = Styled::new(Plain, "ab").repeat(3);
    assert_eq!(line.render(), "ababab");
    assert_eq!(line.width(), 6);
    assert_eq!(Styled::new(Plain, "ab").repeat(0).len(), 0);
}

#[test]
fn into_lines_splits_on_line_breaks() {
    let lines = Styled::new(Plain, "a\nb\r\nc\n").into_lines();
    let texts: Vec<String> = lines.iter().map(|line| line.render()).collect();
    assert_eq!(texts, vec!["a".to_string(), "b".to_string(), "c".to_string()]);
    assert_eq!(Styled::new(Plain, "").into_lines().len(), 0);
    assert_eq!(Styled::new(Plain, "\n\n").into_lines().len(), 2);
}

#[test]
fn concatenate_preserves_order() {
    let line = Styled::concatenate(Styled::new(Plain, "ab"), Styled::new(Plain, "cd"));
    assert_eq!(line.render(), "abcd");
}

#[test]
fn congruent_rejects_unequal_widths() {
    assert!(Congruent::try_new(Styled::new(Plain, "ab"), Styled::new(Plain, "a")).is_err());
    let pair = Congruent::try_new(Styled::new(Plain, "ab"), Styled::new(Plain, "xy")).ok().unwrap();
    assert_eq!(pair.left().render(), "ab");
    assert_eq!(pair.right().render(), "xy");
    let back = |_: &Grapheme, _: &Grapheme| Layer::Back;
    assert_eq!(Styled::overlay_with(pair, &back).render(), "xy");
}

#[test]
fn overlay_of_unequal_grapheme_widths_keeps_width() {
    let pair = Congruent::try_new(Styled::new(Plain, "a中"), Styled::new(Plain, "中b")).ok().unwrap();
    let back_then_front = |front: &Grapheme, _: &Grapheme| {
        if front.get() == "a" {
            Layer::Back
        } else {
            Layer::Front
        }
    };
    let line = Styled::overlay_with(pair, &back_then_front);
    assert_eq!(line.width(), 3);
    assert_eq!(line.render(), "中 ");
}

#[test]
fn fit_to_width_cuts_and_fills() {
    assert_eq!(Styled::new(Plain, "abc").fit_to_width(2).render(), "ab");
    assert_eq!(Styled::new(Plain, "a").fit_to_width(3).render(), "a  ");
}

#[test]
fn code_points_of_cluster() {
    let glyph = Grapheme::try_from_str("e\u{301}").ok().unwrap();
    assert_eq!(glyph.code_points(), vec!['e', '\u{301}']);
    assert_eq!(Grapheme::from_char('x').code_points(), vec!['x']);
}

#[test]
fn graphemes_compare_by_text() {
    assert!(Grapheme::from_char(' ') == Grapheme::space());
    assert!(Grapheme::from_char('a') != Grapheme::from_char('b'));
}

#[test]
fn content_trait_delegates_to_line() {
    use_content::<Styled<Plain>>();
}

fn use_content<C: textblock::content::Content + Render>() {
    let line = C::concatenate(C::grapheme(Grapheme::from_char('a')), C::space());
    assert_eq!(line.width(), 2);
    assert_eq!(line.render(), "a ");
    assert_eq!(C::empty().width(), 0);
}
