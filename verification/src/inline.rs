//! What is recognised inside running text: links and code spans.

use crate::marker::is_fence;
use crate::text::{char_at, find_char, lemma_find_char, slice};
use crate::walker::SourceWalker;
use vstd::prelude::*;

verus! {

/// The index of the `]` that closes the name of a link opened at `pos`.
pub open spec fn link_name_close(text: Seq<char>, pos: int) -> int {
    find_char(text, ']', pos + 1)
}

/// The index of the `)` that closes the address of a link opened at `pos`.
pub open spec fn link_url_close(text: Seq<char>, pos: int) -> int {
    find_char(text, ')', link_name_close(text, pos) + 2)
}

/// Whether a whole link stands at `pos`: `[`, a name up to the first `]`,
/// `(` right after it, and an address up to the first `)`.
pub open spec fn is_link(text: Seq<char>, pos: int) -> bool {
    &&& char_at(text, pos) == Some('[')
    &&& char_at(text, link_name_close(text, pos)) == Some(']')
    &&& char_at(text, link_name_close(text, pos) + 1) == Some('(')
    &&& char_at(text, link_url_close(text, pos)) == Some(')')
}

/// The name of the link at `pos`, between its square brackets.
pub open spec fn link_name(text: Seq<char>, pos: int) -> Seq<char> {
    slice(text, pos + 1, link_name_close(text, pos))
}

/// The address of the link at `pos`, between its round brackets.
pub open spec fn link_url(text: Seq<char>, pos: int) -> Seq<char> {
    slice(text, link_name_close(text, pos) + 2, link_url_close(text, pos))
}

/// The position just past the link at `pos`.
pub open spec fn link_end(text: Seq<char>, pos: int) -> int {
    link_url_close(text, pos) + 1
}

/// The anchor element for the link at `pos`.
pub open spec fn link_html(text: Seq<char>, pos: int) -> Seq<char> {
    "<a href=\""@ + link_url(text, pos) + "\">"@ + link_name(text, pos) + "</a>"@
}

/// The index of the backtick that closes a code span opened at `pos`, or the
/// end of the text where none follows.
pub open spec fn code_span_close(text: Seq<char>, pos: int) -> int {
    find_char(text, '`', pos + 1)
}

/// The position just past the code span opened at `pos`.
pub open spec fn code_span_end(text: Seq<char>, pos: int) -> int {
    if code_span_close(text, pos) < text.len() {
        code_span_close(text, pos) + 1
    } else {
        code_span_close(text, pos)
    }
}

/// The code element for the span opened at `pos`: what stands between the
/// opening backtick and the closing one, unchanged.
pub open spec fn code_span_html(text: Seq<char>, pos: int) -> Seq<char> {
    "<code>"@ + slice(text, pos + 1, code_span_close(text, pos)) + "</code>"@
}

/// Whether a code span opens at `pos`: a backtick that does not begin a code
/// fence.
pub open spec fn is_code_span(text: Seq<char>, pos: int) -> bool {
    char_at(text, pos) == Some('`') && !is_fence(text, pos)
}

/// The position just past what stands at `pos` in running text: a link, a
/// code span, or else one character.
pub open spec fn inline_end(text: Seq<char>, pos: int) -> int {
    if is_link(text, pos) {
        link_end(text, pos)
    } else if is_code_span(text, pos) {
        code_span_end(text, pos)
    } else {
        pos + 1
    }
}

/// What running text shows for what stands at `pos`: the element of a link or
/// of a code span, or else the character itself.
pub open spec fn inline_html(text: Seq<char>, pos: int) -> Seq<char> {
    if is_link(text, pos) {
        link_html(text, pos)
    } else if is_code_span(text, pos) {
        code_span_html(text, pos)
    } else {
        slice(text, pos, pos + 1)
    }
}

/// Whatever stands at a position inside the text, reading it moves forward
/// and stays inside the text.
pub proof fn lemma_inline_advances(text: Seq<char>, pos: int)
    requires
        0 <= pos < text.len(),
    ensures
        pos < inline_end(text, pos) <= text.len(),
{
    lemma_find_char(text, ']', pos + 1);
    lemma_find_char(text, '`', pos + 1);
    if is_link(text, pos) {
        lemma_find_char(text, ')', link_name_close(text, pos) + 2);
    }
}

impl SourceWalker {
    /// Reads up to the first `close` and past it, and returns what stood
    /// before it. Where the document ends first, returns nothing and leaves
    /// the position at the end.
    fn eat_until(&mut self, close: char) -> (run: Option<String>)
        ensures
            final(self).text() == old(self).text(),
            char_at(old(self).text(), find_char(old(self).text(), close, old(self).pos()))
                == Some(close) ==> run is Some && run->0@ == slice(
                old(self).text(),
                old(self).pos(),
                find_char(old(self).text(), close, old(self).pos()),
            ) && final(self).pos() == find_char(old(self).text(), close, old(self).pos()) + 1,
            char_at(old(self).text(), find_char(old(self).text(), close, old(self).pos()))
                != Some(close) ==> run is None,
    {
        let ghost text = self.text();
        let ghost start = self.pos();
        let mut run = String::new();
        proof {
            self.text_fits();
            if start <= text.len() {
                lemma_find_char(text, close, start);
            }
        }
        loop
            invariant
                text == old(self).text(),
                start == old(self).pos(),
                self.text() == text,
                text.len() <= usize::MAX,
                0 <= start <= self.pos(),
                find_char(text, close, self.pos()) == find_char(text, close, start),
                self.pos() <= text.len() ==> run@ == text.subrange(start, self.pos()),
            decreases text.len() - self.pos(),
        {
            match self.peek() {
                Some(c) => {
                    self.munch(1);
                    if c == close {
                        assert(run@ =~= slice(text, start, find_char(text, close, start)));
                        return Some(run);
                    }
                    run.push(c);
                    assert(run@ =~= text.subrange(start, self.pos()));
                },
                None => {
                    return None;
                },
            }
        }
    }

    /// Reads a link at the read position and returns its anchor element.
    /// Where no whole link stands there, returns nothing and leaves the
    /// position where it was.
    pub fn consume_link(&mut self) -> (link: Option<String>)
        ensures
            final(self).text() == old(self).text(),
            is_link(old(self).text(), old(self).pos()) ==> link is Some && link->0@ == link_html(
                old(self).text(),
                old(self).pos(),
            ) && final(self).pos() == link_end(old(self).text(), old(self).pos()),
            !is_link(old(self).text(), old(self).pos()) ==> link is None && final(self).pos()
                == old(self).pos(),
    {
        if !self.next_is('[') {
            return None;
        }
        let start = self.position();
        proof {
            self.text_fits();
        }
        self.munch(1);
        let name = match self.eat_until(']') {
            Some(name) => name,
            None => {
                self.rewind(start);
                return None;
            },
        };
        if !self.next_is('(') {
            self.rewind(start);
            return None;
        }
        self.munch(1);
        let url = match self.eat_until(')') {
            Some(url) => url,
            None => {
                self.rewind(start);
                return None;
            },
        };
        let mut html = String::new();
        html.append("<a href=\"");
        html.append(url.as_str());
        html.append("\">");
        html.append(name.as_str());
        html.append("</a>");
        Some(html)
    }

    /// Reads a code span: steps past the character at the read position, which
    /// opens it, and copies what follows up to the next backtick, which is
    /// read too, or to the end of the document.
    pub fn consume_inline_code_block(&mut self) -> (html: String)
        requires
            old(self).pos() < usize::MAX,
        ensures
            final(self).text() == old(self).text(),
            final(self).pos() == code_span_end(old(self).text(), old(self).pos()),
            html@ == code_span_html(old(self).text(), old(self).pos()),
    {
        let ghost text = self.text();
        let ghost start = self.pos() + 1;
        self.munch(1);
        let mut html = String::new();
        html.append("<code>");
        proof {
            self.text_fits();
            if start <= text.len() {
                lemma_find_char(text, '`', start);
            }
        }
        loop
            invariant_except_break
                find_char(text, '`', self.pos()) == find_char(text, '`', start),
                html@ == "<code>"@ + slice(text, start, self.pos()),
            invariant
                self.text() == text,
                text.len() <= usize::MAX,
                0 < start <= self.pos(),
                start <= text.len() ==> self.pos() <= text.len(),
            ensures
                self.pos() == code_span_end(text, start - 1),
                html@ == "<code>"@ + slice(text, start, code_span_close(text, start - 1)),
            decreases text.len() - self.pos(),
        {
            match self.peek() {
                Some(c) => {
                    self.munch(1);
                    if c == '`' {
                        break ;
                    }
                    html.push(c);
                    assert(html@ =~= "<code>"@ + slice(text, start, self.pos()));
                },
                None => {
                    break ;
                },
            }
        }
        html.append("</code>");
        html
    }
}

} // verus!
