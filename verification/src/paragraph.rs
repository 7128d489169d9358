//! Running text: a paragraph's characters, with links and code spans
//! replaced by their elements.

use crate::inline::{inline_end, inline_html, lemma_inline_advances};
use crate::marker::starts_block;
use crate::walker::SourceWalker;
use vstd::prelude::*;

verus! {

/// Where the running text that is read from `pos` ends. `fresh` says that
/// `pos` is the start of a line. The text ends before a block marker that
/// starts a line, past a newline that is alone on its line, or with the text.
pub open spec fn paragraph_end(text: Seq<char>, pos: int, fresh: bool) -> int
    decreases text.len() - pos,
    via paragraph_end_decreases
{
    if pos < 0 || pos >= text.len() {
        pos
    } else if fresh && starts_block(text, pos) {
        pos
    } else if text[pos] == '\n' {
        if fresh {
            pos + 1
        } else {
            paragraph_end(text, pos + 1, true)
        }
    } else {
        paragraph_end(text, inline_end(text, pos), false)
    }
}

#[via_fn]
proof fn paragraph_end_decreases(text: Seq<char>, pos: int, fresh: bool) {
    if 0 <= pos < text.len() {
        lemma_inline_advances(text, pos);
    }
}

/// The running text that is read from `pos`, up to `paragraph_end`: every
/// character as it stands, but for links and code spans, which give their
/// elements.
pub open spec fn paragraph_html(text: Seq<char>, pos: int, fresh: bool) -> Seq<char>
    decreases text.len() - pos,
    via paragraph_html_decreases
{
    if pos < 0 || pos >= text.len() {
        Seq::empty()
    } else if fresh && starts_block(text, pos) {
        Seq::empty()
    } else if text[pos] == '\n' {
        if fresh {
            seq!['\n']
        } else {
            seq!['\n'] + paragraph_html(text, pos + 1, true)
        }
    } else {
        inline_html(text, pos) + paragraph_html(text, inline_end(text, pos), false)
    }
}

#[via_fn]
proof fn paragraph_html_decreases(text: Seq<char>, pos: int, fresh: bool) {
    if 0 <= pos < text.len() {
        lemma_inline_advances(text, pos);
    }
}

/// Running text ends inside the text, and at or after the position where it
/// is read from; after it, where no block marker stands there at the start of
/// a line.
pub proof fn lemma_paragraph_bounds(text: Seq<char>, pos: int, fresh: bool)
    requires
        0 <= pos <= text.len(),
    ensures
        pos <= paragraph_end(text, pos, fresh) <= text.len(),
        pos < text.len() && !(fresh && starts_block(text, pos)) ==> pos < paragraph_end(
            text,
            pos,
            fresh,
        ),
    decreases text.len() - pos,
{
    if pos < text.len() && !(fresh && starts_block(text, pos)) {
        if text[pos] == '\n' {
            if !fresh {
                lemma_paragraph_bounds(text, pos + 1, true);
            }
        } else {
            lemma_inline_advances(text, pos);
            lemma_paragraph_bounds(text, inline_end(text, pos), false);
        }
    }
}

impl SourceWalker {
    /// Reads running text from the start of a line and returns it, with each
    /// link and each code span replaced by its element. Reading stops before
    /// a `#`, a `*` or an intro marker that starts a line, past a newline that
    /// is alone on its line, or at the end of the document.
    pub fn consume_paragraph(&mut self) -> (html: String)
        ensures
            final(self).text() == old(self).text(),
            final(self).pos() == paragraph_end(old(self).text(), old(self).pos(), true),
            html@ == paragraph_html(old(self).text(), old(self).pos(), true),
    {
        let ghost text = self.text();
        let ghost start = self.pos();
        let mut html = String::new();
        let mut fresh = true;
        proof {
            self.text_fits();
        }
        loop
            invariant_except_break
                paragraph_end(text, start, true) == paragraph_end(text, self.pos(), fresh),
                paragraph_html(text, start, true) == html@ + paragraph_html(
                    text,
                    self.pos(),
                    fresh,
                ),
            invariant
                self.text() == text,
                text.len() <= usize::MAX,
            ensures
                self.pos() == paragraph_end(text, start, true),
                html@ == paragraph_html(text, start, true),
            decreases text.len() - self.pos(),
        {
            let ghost here = self.pos();
            let ghost before = html@;
            let c = match self.peek() {
                Some(c) => c,
                None => {
                    assert(before + Seq::<char>::empty() =~= before);
                    break ;
                },
            };
            if fresh && (c == '*' || c == '#' || self.is_intro_marker()) {
                assert(before + Seq::<char>::empty() =~= before);
                break ;
            }
            proof {
                lemma_inline_advances(text, here);
            }
            match self.consume_link() {
                Some(link) => {
                    html.append(link.as_str());
                    fresh = false;
                },
                None => {
                    if c == '`' && !self.is_code_block() {
                        let span = self.consume_inline_code_block();
                        html.append(span.as_str());
                        fresh = false;
                    } else {
                        self.munch(1);
                        html.push(c);
                        if c == '\n' {
                            if fresh {
                                assert(before + seq!['\n'] =~= before.push('\n'));
                                break ;
                            }
                            fresh = true;
                            assert(before + (seq!['\n'] + paragraph_html(text, here + 1, true))
                                =~= before.push('\n') + paragraph_html(text, here + 1, true));
                        } else {
                            fresh = false;
                            assert(inline_html(text, here) =~= seq![c]);
                        }
                    }
                },
            }
            assert(c != '\n' ==> before + (inline_html(text, here) + paragraph_html(
                text,
                inline_end(text, here),
                false,
            )) =~= before + inline_html(text, here) + paragraph_html(
                text,
                inline_end(text, here),
                false,
            ));
        }
        html
    }
}

} // verus!
