//! The markers that open a block: what stands at a position decides which
//! block begins there.

use crate::text::char_at;
use crate::walker::SourceWalker;
use vstd::prelude::*;

verus! {

/// Whether a code fence, three backticks, stands at `pos`.
pub open spec fn is_fence(text: Seq<char>, pos: int) -> bool {
    &&& char_at(text, pos) == Some('`')
    &&& char_at(text, pos + 1) == Some('`')
    &&& char_at(text, pos + 2) == Some('`')
}

/// Whether the intro marker, five exclamation marks, stands at `pos`.
pub open spec fn is_intro(text: Seq<char>, pos: int) -> bool {
    &&& char_at(text, pos) == Some('!')
    &&& char_at(text, pos + 1) == Some('!')
    &&& char_at(text, pos + 2) == Some('!')
    &&& char_at(text, pos + 3) == Some('!')
    &&& char_at(text, pos + 4) == Some('!')
}

/// Whether a marker that ends running text stands at `pos`: that of a
/// heading, of a list item or of an intro block.
pub open spec fn starts_block(text: Seq<char>, pos: int) -> bool {
    ||| char_at(text, pos) == Some('#')
    ||| char_at(text, pos) == Some('*')
    ||| is_intro(text, pos)
}

impl SourceWalker {
    /// Whether the character `offset` places after the read position is `c`.
    pub fn next_is_at(&self, offset: usize, c: char) -> (found: bool)
        ensures
            found == (char_at(self.text(), self.pos() + offset) == Some(c)),
    {
        match self.peek_n(offset) {
            Some(next) => next == c,
            None => false,
        }
    }

    /// Whether a code fence stands at the read position.
    pub fn is_code_block(&self) -> (found: bool)
        ensures
            found == is_fence(self.text(), self.pos()),
    {
        self.next_is_at(0, '`') && self.next_is_at(1, '`') && self.next_is_at(2, '`')
    }

    /// Whether the intro marker stands at the read position.
    pub fn is_intro_marker(&self) -> (found: bool)
        ensures
            found == is_intro(self.text(), self.pos()),
    {
        self.next_is_at(0, '!') && self.next_is_at(1, '!') && self.next_is_at(2, '!')
            && self.next_is_at(3, '!') && self.next_is_at(4, '!')
    }
}

} // verus!
