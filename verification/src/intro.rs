//! Intro blocks: paragraphs between two intro markers.

use crate::marker::{is_intro, starts_block};
use crate::paragraph::{lemma_paragraph_bounds, paragraph_end, paragraph_html};
use crate::walker::SourceWalker;
use vstd::prelude::*;

verus! {

/// The paragraphs that an intro block holds from `pos` on, each in its own
/// element. The block ends with the next intro marker, with the text, or
/// before a `#` or a `*` that starts a line, where no paragraph can begin.
pub open spec fn intro_body_html(text: Seq<char>, pos: int) -> Seq<char>
    decreases text.len() - pos,
    via intro_body_html_decreases
{
    if pos < 0 || pos >= text.len() || starts_block(text, pos) {
        Seq::empty()
    } else {
        "<p>"@ + paragraph_html(text, pos, true) + "</p>"@ + intro_body_html(
            text,
            paragraph_end(text, pos, true),
        )
    }
}

#[via_fn]
proof fn intro_body_html_decreases(text: Seq<char>, pos: int) {
    if 0 <= pos < text.len() {
        lemma_paragraph_bounds(text, pos, true);
    }
}

/// Where an intro block that holds paragraphs from `pos` on ends: past the
/// intro marker that closes it, at the end of the text, or before a `#` or a
/// `*` that starts a line.
pub open spec fn intro_body_end(text: Seq<char>, pos: int) -> int
    decreases text.len() - pos,
    via intro_body_end_decreases
{
    if pos < 0 || pos >= text.len() {
        pos
    } else if is_intro(text, pos) {
        pos + 5
    } else if starts_block(text, pos) {
        pos
    } else {
        intro_body_end(text, paragraph_end(text, pos, true))
    }
}

#[via_fn]
proof fn intro_body_end_decreases(text: Seq<char>, pos: int) {
    if 0 <= pos < text.len() {
        lemma_paragraph_bounds(text, pos, true);
    }
}

/// The position just past the intro block whose opening marker stands at
/// `pos`.
pub open spec fn intro_end(text: Seq<char>, pos: int) -> int {
    intro_body_end(text, pos + 5)
}

/// The element for the intro block whose opening marker stands at `pos`.
pub open spec fn intro_html(text: Seq<char>, pos: int) -> Seq<char> {
    "<a-intro>"@ + intro_body_html(text, pos + 5) + "</a-intro>"@
}

/// An intro block's paragraphs end inside the text.
pub proof fn lemma_intro_body_bounds(text: Seq<char>, pos: int)
    requires
        0 <= pos <= text.len(),
    ensures
        pos <= intro_body_end(text, pos) <= text.len(),
    decreases text.len() - pos,
{
    if pos < text.len() && !starts_block(text, pos) {
        lemma_paragraph_bounds(text, pos, true);
        lemma_intro_body_bounds(text, paragraph_end(text, pos, true));
    }
}

impl SourceWalker {
    /// Reads an intro block: steps past the five characters at the read
    /// position, which open it, and reads paragraphs up to the next intro
    /// marker, which is read too, or to the end of the document. A `#` or a
    /// `*` that starts a line ends the block and is left unread. Returns the
    /// block's element, which holds one element for each paragraph.
    pub fn consume_intro(&mut self) -> (html: String)
        requires
            old(self).pos() + 5 <= usize::MAX,
        ensures
            final(self).text() == old(self).text(),
            final(self).pos() == intro_end(old(self).text(), old(self).pos()),
            html@ == intro_html(old(self).text(), old(self).pos()),
    {
        let ghost text = self.text();
        let ghost start = self.pos() + 5;
        self.munch(5);
        let mut html = String::new();
        html.append("<a-intro>");
        proof {
            self.text_fits();
        }
        loop
            invariant_except_break
                intro_body_end(text, start) == intro_body_end(text, self.pos()),
                "<a-intro>"@ + intro_body_html(text, start) == html@ + intro_body_html(
                    text,
                    self.pos(),
                ),
            invariant
                self.text() == text,
                text.len() <= usize::MAX,
            ensures
                self.pos() == intro_body_end(text, start),
                html@ == "<a-intro>"@ + intro_body_html(text, start),
            decreases text.len() - self.pos(),
        {
            let ghost here = self.pos();
            let ghost before = html@;
            if self.peek().is_none() {
                assert(before + Seq::<char>::empty() =~= before);
                break ;
            }
            if self.is_intro_marker() {
                self.munch(5);
                assert(before + Seq::<char>::empty() =~= before);
                break ;
            }
            if self.next_is('#') || self.next_is('*') {
                assert(before + Seq::<char>::empty() =~= before);
                break ;
            }
            proof {
                lemma_paragraph_bounds(text, here, true);
            }
            let paragraph = self.consume_paragraph();
            html.append("<p>");
            html.append(paragraph.as_str());
            html.append("</p>");
            assert(before + ("<p>"@ + paragraph@ + "</p>"@ + intro_body_html(text, self.pos()))
                =~= before + "<p>"@ + paragraph@ + "</p>"@ + intro_body_html(text, self.pos()));
        }
        html.append("</a-intro>");
        html
    }
}

} // verus!
