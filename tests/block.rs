use textblock::align::typed::{Bottom, Left, LeftRight, Right, TopBottom};
use textblock::align::valued::{Alignment, AxialAlignment, HorizontalAlignment, VerticalAlignment};
use textblock::block::Block;
use textblock::content::{Grapheme, Layer, Plain, Styled};
use textblock::Render;

fn texts(block: &Block) -> Vec<String> {
    block.rows().iter().map(|row| row.render()).collect()
}

#[test]
fn block_empty() {
    let block = <Block>::zero();
    assert!(block.is_empty());

    let block = <Block>::with_width(1);
    assert!(block.is_empty());

    let block = <Block>::with_height(1);
    assert!(block.is_empty());

    let block = <Block>::with_width(1).join_top_to_bottom_at_left(Block::with_height(1));
    assert!(block.is_empty());

    let mut block = <Block>::zero();
    block = block.push("");
    assert!(!block.is_empty());
}

#[test]
fn join_pads_shorter_block_with_blank_row() {
    let left = <Block>::with_content("ab\ncd");
    let right = <Block>::with_content("X");
    let block = left.join_left_to_right_at_top(right);
    assert_eq!(block.width(), 3);
    assert_eq!(block.height(), 2);
    assert_eq!(texts(&block), vec!["abX".to_string(), "cd ".to_string()]);
    assert_eq!(block.render(), "abX\ncd\n");
}

#[test]
fn filled_with_grapheme_renders_rows() {
    let block = <Block>::filled(3, 2, Grapheme::from_char('*'));
    assert_eq!(block.render(), "***\n***\n");
}

#[test]
fn join_at_bottom_aligns_shorter_block_low() {
    let left = <Block>::with_content("ab\ncd");
    let right = <Block>::with_content("X");
    let block = left.join_left_to_right_at_bottom(right);
    assert_eq!(texts(&block), vec!["ab ".to_string(), "cdX".to_string()]);
}

#[test]
fn join_top_to_bottom_widens_narrower_block() {
    let top = <Block>::with_content("abc");
    let bottom = <Block>::with_content("d");
    let block = top.join_top_to_bottom_at_left(bottom);
    assert_eq!(block.width(), 3);
    assert_eq!(block.height(), 2);
    assert_eq!(texts(&block), vec!["abc".to_string(), "d  ".to_string()]);

    let top = <Block>::with_content("abc");
    let bottom = <Block>::with_content("d");
    let block = top.join_top_to_bottom_at_right(bottom);
    assert_eq!(texts(&block), vec!["abc".to_string(), "  d".to_string()]);
}

#[test]
fn join_dimensions_add_and_take_maximum() {
    let a = <Block>::with_content("ab\ncd\nef");
    let b = <Block>::with_content("xyz");
    let block = a.join_left_to_right_at_top(b);
    assert_eq!(block.width(), 5);
    assert_eq!(block.height(), 3);

    let a = <Block>::with_content("ab\ncd\nef");
    let b = <Block>::with_content("xyz");
    let block = a.join_top_to_bottom_at_left(b);
    assert_eq!(block.width(), 3);
    assert_eq!(block.height(), 4);

    let block = <Block>::with_dimensions(2, 5).join_left_to_right_at_top(Block::with_dimensions(3, 1));
    assert!(block.is_empty());
    assert_eq!(block.width(), 5);
    assert_eq!(block.height(), 5);
}

#[test]
fn empty_block_of_no_width_leaves_content_unchanged() {
    let content = <Block>::with_content("ab");
    let block = <Block>::with_dimensions(0, 4).join_left_to_right_at_top(content);
    assert_eq!(block.height(), 1);
    assert_eq!(block.render(), "ab\n");
}

#[test]
fn pad_to_length_twice_is_pad_once() {
    for alignment in [
        Alignment::Horizontal(HorizontalAlignment::Left),
        Alignment::Horizontal(HorizontalAlignment::Right),
        Alignment::Vertical(VerticalAlignment::Top),
        Alignment::Vertical(VerticalAlignment::Bottom),
    ] {
        let once = <Block>::with_content("ab\nc").pad_to_length(alignment, 4);
        let twice = <Block>::with_content("ab\nc").pad_to_length(alignment, 4).pad_to_length(alignment, 4);
        assert_eq!(texts(&once), texts(&twice));
        assert_eq!(once.width(), twice.width());
        assert_eq!(once.height(), twice.height());
    }
    let once = <Block>::with_content("ab").pad_to_width_at_left(4);
    assert_eq!(texts(&once), vec!["  ab".to_string()]);
}

#[test]
fn pad_to_smaller_length_changes_nothing() {
    let block = <Block>::with_content("abc").pad_to_width_at_right(1);
    assert_eq!(block.width(), 3);
    assert_eq!(texts(&block), vec!["abc".to_string()]);
}

#[test]
fn pad_at_always_adds() {
    let block = <Block>::with_content("ab").pad_at_left(2).pad_at_left(1);
    assert_eq!(texts(&block), vec!["   ab".to_string()]);
    let block = <Block>::with_content("ab").pad_at_bottom(2);
    assert_eq!(block.height(), 3);
    assert_eq!(block.render(), "ab\n\n\n");
}

#[test]
fn padding_empty_block_keeps_it_empty() {
    let block = <Block>::with_dimensions(2, 3).pad_at_right(4).pad_to_height_at_bottom(5);
    assert!(block.is_empty());
    assert_eq!(block.width(), 6);
    assert_eq!(block.height(), 5);
    assert_eq!(block.render(), "");
}

#[test]
fn overlay_on_itself_reproduces_block() {
    let block = <Block>::with_content("a b\n c ");
    let same = <Block>::with_content("a b\n c ");
    let result = block.overlay(same);
    assert_eq!(texts(&result), vec!["a b".to_string(), " c ".to_string()]);

    let block = <Block>::with_content("a b\n c ");
    let same = <Block>::with_content("a b\n c ");
    let front = |_: &Grapheme, _: &Grapheme| Layer::Front;
    let result = block.overlay_with(same, &front);
    assert_eq!(texts(&result), vec!["a b".to_string(), " c ".to_string()]);
}

#[test]
fn overlay_space_in_front_is_transparent() {
    let front = <Block>::with_content("a c");
    let back = <Block>::with_content("xyz\nuvw");
    let result = front.overlay(back);
    assert_eq!(result.height(), 2);
    assert_eq!(texts(&result), vec!["ayc".to_string(), "uvw".to_string()]);
}

#[test]
fn fill_of_zero_height_stays_empty() {
    let block = <Block>::with_dimensions(4, 0).fill(Styled::new(Plain, "x"));
    assert!(block.is_empty());
    assert_eq!(block.width(), 4);
    assert_eq!(block.height(), 0);
}

#[test]
fn fill_cycles_lines_and_tiles_width() {
    let block = <Block>::filled_with(5, 3, Styled::new(Plain, "ab\nc"));
    assert_eq!(texts(&block), vec!["ababa".to_string(), "ccccc".to_string(), "ababa".to_string()]);

    let block = <Block>::filled_with(2, 1, Styled::new(Plain, "abc\nd"));
    assert_eq!(texts(&block), vec!["ab".to_string()]);
}

#[test]
fn fill_with_wide_glyph_keeps_width() {
    let block = <Block>::filled(3, 1, Grapheme::from_char('中'));
    assert_eq!(block.width(), 3);
    assert_eq!(texts(&block), vec!["中 ".to_string()]);
}

#[test]
fn push_widens_all_rows() {
    let block = <Block>::with_content("a").push("abc");
    assert_eq!(block.width(), 3);
    assert_eq!(texts(&block), vec!["a  ".to_string(), "abc".to_string()]);

    let block = <Block>::with_dimensions(2, 1).push("x");
    assert_eq!(texts(&block), vec!["  ".to_string(), "x ".to_string()]);
}

#[test]
fn rows_all_have_block_width() {
    let block = <Block>::with_content("a\nabcd\n\nxy")
        .pad_at_top(1)
        .join_left_to_right_at_bottom(Block::with_content("1\n2"));
    for row in block.rows() {
        assert_eq!(row.width(), block.width());
    }
    assert_eq!(block.rows().len(), block.height());
}

#[test]
fn dynamic_join_and_pad_dispatch_on_value() {
    let block = <Block>::with_content("a").join(AxialAlignment::TopBottom(HorizontalAlignment::Left), Block::with_content("b"));
    assert_eq!(block.render(), "a\nb\n");
    let block = <Block>::with_content("a").pad(Alignment::Horizontal(HorizontalAlignment::Left), 2);
    assert_eq!(texts(&block), vec!["  a".to_string()]);
}

#[test]
fn render_trims_trailing_white_space() {
    let block = <Block>::with_content("a  \n b");
    assert_eq!(block.render(), "a\n b\n");
}

#[test]
fn joins_of_dimension_only_blocks_saturate() {
    let block = <Block>::with_dimensions(usize::MAX, 1).join_left_to_right_at_top(Block::with_dimensions(5, 2));
    assert!(block.is_empty());
    assert_eq!(block.width(), usize::MAX);
    assert_eq!(block.height(), 2);
    let block = <Block>::with_dimensions(1, usize::MAX - 1).pad_at_bottom(3);
    assert!(block.is_empty());
    assert_eq!(block.height(), usize::MAX);
}

#[test]
fn typed_operations_dispatch_on_type() {
    let block = <Block>::with_content("ab").pad_at::<Left>(1);
    assert_eq!(texts(&block), vec![" ab".to_string()]);
    let block = <Block>::with_content("ab").pad_to_length_at::<LeftRight, Right>(4);
    assert_eq!(texts(&block), vec!["ab  ".to_string()]);
    let block = <Block>::with_content("ab\ncd").join_at::<LeftRight, Bottom>(Block::with_content("X"));
    assert_eq!(texts(&block), vec!["ab ".to_string(), "cdX".to_string()]);
    let block = <Block>::with_length_at::<TopBottom>(4, 2);
    assert!(block.is_empty());
    assert_eq!(block.width(), 2);
    assert_eq!(block.height(), 4);
}

#[test]
fn push_onto_block_without_rows_takes_width_of_lines() {
    let block = <Block>::with_width(5).push(" ");
    assert!(!block.is_empty());
    assert_eq!(block.width(), 1);
    assert_eq!(block.height(), 1);
    let block = <Block>::zero().push("ab\nc");
    assert_eq!(block.width(), 2);
    assert_eq!(texts(&block), vec!["ab".to_string(), "c ".to_string()]);
}
