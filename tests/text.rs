use textblock::content::{Content, Grapheme, Layer, Text};
use textblock::Render;

#[test]
fn text_width_is_display_width_of_whole_string() {
    assert_eq!(Text::new("a中b").width(), 4);
    assert_eq!(Text::new("").width(), 0);
    assert_eq!(Text::space().width(), 1);
}

#[test]
fn text_truncate_keeps_whole_graphemes_within_columns() {
    assert_eq!(Text::new("a中b").truncate(2).get(), "a");
    assert_eq!(Text::new("a中b").truncate(3).get(), "a中");
    assert_eq!(Text::new("e\u{301}x").truncate(1).get(), "e\u{301}");
    assert_eq!(Text::new("ab").truncate(0).get(), "");
}

#[test]
fn text_lines_split_on_line_endings() {
    let lines: Vec<String> = Text::new("a\r\nb\nc\n").into_lines().iter().map(|l| l.render()).collect();
    assert_eq!(lines, vec!["a".to_string(), "b".to_string(), "c".to_string()]);
    assert_eq!(Text::new("").into_lines().len(), 0);
}

#[test]
fn text_repeat_and_concatenate() {
    assert_eq!(Text::new("ab").repeat(3).get(), "ababab");
    assert_eq!(Text::concatenate(Text::new("ab"), Text::new("cd")).get(), "abcd");
    assert_eq!(Text::grapheme(Grapheme::from_char('x')).get(), "x");
    assert_eq!(Text::empty().get(), "");
}

#[test]
fn text_overlay_picks_graphemes() {
    let pick = |front: &Grapheme, _: &Grapheme| {
        if front.is_space() {
            Layer::Back
        } else {
            Layer::Front
        }
    };
    let r = Text::overlay_with(Text::new("a c"), Text::new("xyz"), &pick);
    assert_eq!(r.get(), "ayc");
}
