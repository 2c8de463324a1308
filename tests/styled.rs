use textblock::block::Block;
use textblock::content::{Plain, Styled};
use textblock::Render;

type Content = Styled<Plain>;

#[test]
fn block_styled_overlay() {
    let x = Block::<Plain>::with_styled_content(Content::new(Plain, "rrrrrrrrrr"));
    let y = Block::<Plain>::with_styled_content(Content::new(Plain, "gg gg\ngg gg"));
    let z = y.fill(Content::new(Plain, "abcd\nba")).overlay(x);
    println!("{}", z.render());
    assert_eq!(z.width(), 10);
    assert_eq!(z.height(), 2);
    assert_eq!(z.render(), "abcdarrrrr\nbabab\n");
}
