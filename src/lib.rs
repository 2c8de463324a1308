use vstd::prelude::*;

pub mod align;
pub mod block;
pub mod bound;
pub mod content;
pub mod primitive;

pub use crate::block::Block;
pub use crate::content::{Grapheme, Style, Styled};

verus! {

/// A value that can be shown as text.
pub trait Render {
    spec fn text(&self) -> Seq<char>;

    fn render(&self) -> (r: String)
        ensures
            r@ == self.text(),
    ;
}

} // verus!
