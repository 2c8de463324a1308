use textblock::align::typed::{LeftRight, TopBottom};
use textblock::align::valued::Axis;
use textblock::align::Axial;
use textblock::block::Block;
use textblock::content::Plain;
use textblock::primitive::{line_along, line_at, StraightStroke, Terminal};
use textblock::Render;

#[test]
fn line() {
    let block: Block = line_at::<LeftRight, Plain>(5, &StraightStroke::with_ends('-', '<', '>'));
    assert_eq!(block.render(), "<--->\n");

    let palette = Axial {
        horizontal: StraightStroke::uniform('-'),
        vertical: StraightStroke::uniform('|'),
    };
    let block: Block = line_at::<LeftRight, Plain>(5, palette.aligned(Axis::LeftRight));
    assert_eq!(block.render(), "-----\n");

    let block: Block = line_at::<TopBottom, Plain>(3, &StraightStroke::uniform('|'));
    assert_eq!(block.render(), "|\n|\n|\n");
}

#[test]
fn line_of_length_zero_and_one() {
    let block: Block = line_along::<Plain>(Axis::LeftRight, 0, &StraightStroke::with_ends('-', '<', '>'));
    assert!(block.is_empty());
    assert_eq!(block.width(), 0);
    assert_eq!(block.height(), 0);
    let block: Block = line_along::<Plain>(Axis::LeftRight, 1, &StraightStroke::with_ends('-', '<', '>'));
    assert_eq!(block.render(), "-\n");
}

#[test]
fn line_of_length_two_has_no_middle() {
    let block: Block = line_along::<Plain>(Axis::TopBottom, 2, &StraightStroke::with_ends('|', '^', 'v'));
    assert_eq!(block.render(), "^\nv\n");
}

#[test]
fn terminal_picks_ends() {
    let ends = Terminal::StartEnd('<', '>');
    assert_eq!(*ends.start(), '<');
    assert_eq!(*ends.end(), '>');
    assert_eq!(*ends.only_or_else(|_, end| end), '>');
    let only = Terminal::Only('|');
    assert_eq!(*only.start(), '|');
    assert_eq!(*only.end(), '|');
    assert_eq!(*only.only_or_else(|start, _| start), '|');
}
