use textblock::align::valued::{Axis, HorizontalAlignment, VerticalAlignment};
use textblock::block::Block;
use textblock::bound::BoundBlock;
use textblock::Render;

fn texts(block: &Block) -> Vec<String> {
    block.rows().iter().map(|row| row.render()).collect()
}

#[test]
fn bound_block_pads_toward_natural_and_opposite_edges() {
    let bound = BoundBlock::new(<Block>::with_content("ab"), VerticalAlignment::Bottom, HorizontalAlignment::Right);
    let bound = bound.pad_natural(Axis::LeftRight, 1).pad_opposite(Axis::LeftRight, 2);
    assert_eq!(texts(&bound.block), vec!["  ab ".to_string()]);
    let bound = bound.pad_natural(Axis::TopBottom, 1);
    assert_eq!(bound.block.height(), 2);
    assert_eq!(bound.into_block().render(), "  ab\n\n");
}

#[test]
fn bound_block_pads_to_length() {
    let bound = BoundBlock::new(<Block>::with_content("ab"), VerticalAlignment::Top, HorizontalAlignment::Left);
    let bound = bound.pad_to_length(Axis::LeftRight, 4);
    assert_eq!(texts(&bound.block), vec!["  ab".to_string()]);
    let bound = bound.pad_to_length_opposite(Axis::LeftRight, 5);
    assert_eq!(texts(&bound.block), vec!["  ab ".to_string()]);
}

#[test]
fn bound_block_joins_at_natural_and_opposite_sides() {
    let bound = BoundBlock::new(<Block>::with_content("ab\ncd"), VerticalAlignment::Bottom, HorizontalAlignment::Left);
    let joined = bound.join_natural(Axis::LeftRight, Block::with_content("X"));
    assert_eq!(texts(&joined.block), vec!["ab ".to_string(), "cdX".to_string()]);

    let bound = BoundBlock::new(<Block>::with_content("ab\ncd"), VerticalAlignment::Bottom, HorizontalAlignment::Left);
    let joined = bound.join_opposite(Axis::LeftRight, Block::with_content("X"));
    assert_eq!(texts(&joined.block), vec!["abX".to_string(), "cd ".to_string()]);
}
