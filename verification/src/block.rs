//! Fenced code blocks and headings.

use crate::marker::is_fence;
use crate::text::{char_at, decimal, push_decimal, slice, trim, trimmed};
use crate::walker::{line_end, SourceWalker};
use vstd::prelude::*;

verus! {

/// The first position at or after `from` where a code fence stands; the
/// length of `text` where none does, and `from` itself where `from` lies
/// outside `text`.
pub open spec fn find_fence(text: Seq<char>, from: int) -> int
    decreases text.len() - from,
{
    if from < 0 || from >= text.len() {
        from
    } else if is_fence(text, from) {
        from
    } else {
        find_fence(text, from + 1)
    }
}

/// `find_fence` stops at the first fence and nowhere before it.
pub proof fn lemma_find_fence(text: Seq<char>, from: int)
    requires
        0 <= from <= text.len(),
    ensures
        from <= find_fence(text, from) <= text.len(),
        forall|i: int| from <= i < find_fence(text, from) ==> !is_fence(text, i),
        find_fence(text, from) < text.len() ==> is_fence(text, find_fence(text, from)),
    decreases text.len() - from,
{
    if from < text.len() && !is_fence(text, from) {
        lemma_find_fence(text, from + 1);
    }
}

/// Where the fence that closes a code block opened at `pos` stands, or the
/// end of the text where the block is never closed.
pub open spec fn code_block_close(text: Seq<char>, pos: int) -> int {
    find_fence(text, pos + 3)
}

/// What a code block opened at `pos` holds: everything between the opening
/// fence and the closing one, unchanged.
pub open spec fn code_block_content(text: Seq<char>, pos: int) -> Seq<char> {
    slice(text, pos + 3, code_block_close(text, pos))
}

/// The position just past the code block opened at `pos`: past its closing
/// fence, or at the end of the text.
pub open spec fn code_block_end(text: Seq<char>, pos: int) -> int {
    if code_block_close(text, pos) < text.len() {
        code_block_close(text, pos) + 3
    } else {
        code_block_close(text, pos)
    }
}

/// The element for the code block opened at `pos`.
pub open spec fn code_block_html(text: Seq<char>, pos: int) -> Seq<char> {
    "<pre><code>"@ + code_block_content(text, pos) + "</code></pre>"@
}

/// The end of the run of `#` that starts at `pos`.
pub open spec fn heading_marker_end(text: Seq<char>, pos: int) -> int
    decreases text.len() - pos,
{
    if pos < 0 || pos >= text.len() {
        pos
    } else if text[pos] != '#' {
        pos
    } else {
        heading_marker_end(text, pos + 1)
    }
}

/// The depth of the heading at `pos`: how many `#` stand there in a row.
pub open spec fn heading_depth(text: Seq<char>, pos: int) -> int {
    heading_marker_end(text, pos) - pos
}

/// The position just past the heading at `pos`: the end of its line.
pub open spec fn heading_end(text: Seq<char>, pos: int) -> int {
    line_end(text, heading_marker_end(text, pos))
}

/// The title of the heading at `pos`: the rest of its line, trimmed.
pub open spec fn heading_title(text: Seq<char>, pos: int) -> Seq<char> {
    trim(slice(text, heading_marker_end(text, pos), heading_end(text, pos)))
}

/// The element for the heading at `pos`, with the rule that follows it.
pub open spec fn heading_html(text: Seq<char>, pos: int) -> Seq<char> {
    "<h"@ + decimal(heading_depth(text, pos) as nat) + ">"@ + heading_title(text, pos) + "</h"@
        + decimal(heading_depth(text, pos) as nat) + "><hr>"@
}

/// The run of `#` at `pos` lies inside the text.
pub proof fn lemma_heading_marker_end(text: Seq<char>, pos: int)
    requires
        0 <= pos <= text.len(),
    ensures
        pos <= heading_marker_end(text, pos) <= text.len(),
        char_at(text, pos) == Some('#') ==> pos < heading_marker_end(text, pos),
    decreases text.len() - pos,
{
    if pos < text.len() && text[pos] == '#' {
        lemma_heading_marker_end(text, pos + 1);
    }
}

impl SourceWalker {
    /// Reads a code block: steps past the three characters at the read
    /// position, which open it, and returns what follows up to the next code
    /// fence, which is read too, or to the end of the document.
    pub fn eat_code_block(&mut self) -> (content: String)
        requires
            old(self).pos() + 3 <= usize::MAX,
        ensures
            final(self).text() == old(self).text(),
            final(self).pos() == code_block_end(old(self).text(), old(self).pos()),
            content@ == code_block_content(old(self).text(), old(self).pos()),
    {
        let ghost text = self.text();
        let ghost start = self.pos() + 3;
        self.munch(3);
        let mut content = String::new();
        proof {
            self.text_fits();
            if start <= text.len() {
                lemma_find_fence(text, start);
            }
        }
        loop
            invariant_except_break
                find_fence(text, self.pos()) == find_fence(text, start),
                content@ == slice(text, start, self.pos()),
            invariant
                self.text() == text,
                text.len() <= usize::MAX,
                3 <= start <= self.pos(),
                start <= text.len() ==> self.pos() <= text.len(),
            ensures
                self.pos() == code_block_end(text, start - 3),
                content@ == slice(text, start, code_block_close(text, start - 3)),
            decreases text.len() - self.pos(),
        {
            match self.peek() {
                Some(c) => {
                    if self.is_code_block() {
                        self.munch(3);
                        break ;
                    }
                    content.push(c);
                    self.munch(1);
                    assert(content@ =~= slice(text, start, self.pos()));
                },
                None => {
                    break ;
                },
            }
        }
        content
    }

    /// Reads a code block as `eat_code_block` does and returns its element.
    pub fn consume_code_block(&mut self) -> (html: String)
        requires
            old(self).pos() + 3 <= usize::MAX,
        ensures
            final(self).text() == old(self).text(),
            final(self).pos() == code_block_end(old(self).text(), old(self).pos()),
            html@ == code_block_html(old(self).text(), old(self).pos()),
    {
        let content = self.eat_code_block();
        let mut html = String::new();
        html.append("<pre><code>");
        html.append(content.as_str());
        html.append("</code></pre>");
        html
    }

    /// Reads a heading: the run of `#` at the read position, whose length is
    /// the depth, and the rest of the line, which is the title once trimmed.
    /// Returns the heading's element, followed by a rule.
    pub fn consume_heading(&mut self) -> (html: String)
        ensures
            final(self).text() == old(self).text(),
            final(self).pos() == heading_end(old(self).text(), old(self).pos()),
            html@ == heading_html(old(self).text(), old(self).pos()),
    {
        let ghost text = self.text();
        let ghost start = self.pos();
        let mut depth: usize = 0;
        proof {
            self.text_fits();
        }
        while self.next_is('#')
            invariant
                self.text() == text,
                text.len() <= usize::MAX,
                0 <= start,
                self.pos() == start + depth,
                depth > 0 ==> self.pos() <= text.len(),
                heading_marker_end(text, self.pos()) == heading_marker_end(text, start),
            decreases text.len() - self.pos(),
        {
            depth += 1;
            self.munch(1);
        }
        let title = match self.eat_line() {
            Some(line) => trimmed(line.as_str()),
            None => String::new(),
        };
        let mut html = String::new();
        html.append("<h");
        push_decimal(&mut html, depth);
        html.append(">");
        html.append(title.as_str());
        html.append("</h");
        push_decimal(&mut html, depth);
        html.append("><hr>");
        html
    }
}

} // verus!
