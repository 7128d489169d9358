//! The cursor: a document's characters and a read position among them.

use crate::text::{char_at, chars_of, find_char, lemma_find_char, slice, trim, trimmed};
use vstd::prelude::*;

verus! {

/// A document and the position up to which it has been read.
///
/// The document never changes. The position only moves forward, except where
/// `rewind` takes it back; it may pass the end of the document, and then
/// nothing is left to read.
pub struct SourceWalker {
    source: Vec<char>,
    cursor: usize,
}

/// The position just past the line that starts at `pos`: past its newline, or
/// at the end of `text` where no newline follows. It is `pos` itself where
/// nothing is left.
pub open spec fn line_end(text: Seq<char>, pos: int) -> int {
    let newline = find_char(text, '\n', pos);
    if newline < text.len() {
        newline + 1
    } else {
        newline
    }
}

/// The lines of the run of lines that starts at `pos`, each trimmed: the run
/// ends before the first line that is empty once trimmed, or with the text.
pub open spec fn paragraph_lines(text: Seq<char>, pos: int) -> Seq<Seq<char>>
    decreases text.len() - pos,
    via paragraph_lines_decreases
{
    if pos < 0 || pos >= text.len() {
        Seq::empty()
    } else {
        let line = trim(slice(text, pos, line_end(text, pos)));
        if line.len() == 0 {
            Seq::empty()
        } else {
            seq![line] + paragraph_lines(text, line_end(text, pos))
        }
    }
}

#[via_fn]
proof fn paragraph_lines_decreases(text: Seq<char>, pos: int) {
    if 0 <= pos < text.len() {
        lemma_find_char(text, '\n', pos);
    }
}

/// Where the run of lines that starts at `pos` has been read: past the line
/// that is empty once trimmed, or at the end of the text.
pub open spec fn paragraph_lines_end(text: Seq<char>, pos: int) -> int
    decreases text.len() - pos,
    via paragraph_lines_end_decreases
{
    if pos < 0 || pos >= text.len() {
        pos
    } else if trim(slice(text, pos, line_end(text, pos))).len() == 0 {
        line_end(text, pos)
    } else {
        paragraph_lines_end(text, line_end(text, pos))
    }
}

#[via_fn]
proof fn paragraph_lines_end_decreases(text: Seq<char>, pos: int) {
    if 0 <= pos < text.len() {
        lemma_find_char(text, '\n', pos);
    }
}

/// The lines, with one newline between each two.
pub open spec fn join_lines(lines: Seq<Seq<char>>) -> Seq<char>
    decreases lines.len(),
{
    if lines.len() == 0 {
        Seq::empty()
    } else if lines.len() == 1 {
        lines[0]
    } else {
        join_lines(lines.drop_last()) + seq!['\n'] + lines.last()
    }
}

impl SourceWalker {
    /// The characters of the document.
    pub closed spec fn text(&self) -> Seq<char> {
        self.source@
    }

    /// The read position, counted in characters from the start.
    pub open spec fn pos(&self) -> int {
        self.offset() as int
    }

    /// The read position as the machine holds it.
    pub closed spec fn offset(&self) -> usize {
        self.cursor
    }

    /// Whether nothing is left to read.
    pub open spec fn exhausted(&self) -> bool {
        self.pos() >= self.text().len()
    }

    /// The document's length fits the machine's index type.
    pub proof fn text_fits(&self)
        ensures
            self.text().len() <= usize::MAX,
    {
        assert(self.source.len() == self.source@.len());
    }

    /// A cursor at the start of `text`.
    pub fn new(text: &str) -> (walker: SourceWalker)
        ensures
            walker.text() == text@,
            walker.pos() == 0,
    {
        SourceWalker { source: chars_of(text), cursor: 0 }
    }

    /// The read position.
    pub fn position(&self) -> (position: usize)
        ensures
            position == self.pos(),
    {
        self.cursor
    }

    /// Takes the read position back, or forward, to `position`.
    pub fn rewind(&mut self, position: usize)
        ensures
            final(self).text() == old(self).text(),
            final(self).pos() == position,
    {
        self.cursor = position;
    }

    /// The character `offset` places after the read position, if the document
    /// reaches that far.
    pub fn peek_n(&self, offset: usize) -> (next: Option<char>)
        ensures
            next == char_at(self.text(), self.pos() + offset),
    {
        let len: usize = self.source.len();
        if self.cursor < len && offset < len - self.cursor {
            Some(self.source[self.cursor + offset])
        } else {
            None
        }
    }

    /// The character at the read position, if any is left.
    pub fn peek(&self) -> (next: Option<char>)
        ensures
            next == char_at(self.text(), self.pos()),
    {
        self.peek_n(0)
    }

    /// Whether the character at the read position is `c`.
    pub fn next_is(&self, c: char) -> (found: bool)
        ensures
            found == (char_at(self.text(), self.pos()) == Some(c)),
    {
        match self.peek() {
            Some(next) => next == c,
            None => false,
        }
    }

    /// Reads one character: returns what `peek` shows and steps one place
    /// forward, also where nothing is left.
    pub fn eat(&mut self) -> (next: Option<char>)
        requires
            old(self).pos() < usize::MAX,
        ensures
            next == char_at(old(self).text(), old(self).pos()),
            final(self).text() == old(self).text(),
            final(self).pos() == old(self).pos() + 1,
    {
        let next = self.peek();
        self.cursor += 1;
        next
    }

    /// Steps `count` characters forward, whatever stands there and even past
    /// the end of the document.
    pub fn munch(&mut self, count: usize)
        requires
            old(self).pos() + count <= usize::MAX,
        ensures
            final(self).text() == old(self).text(),
            final(self).pos() == old(self).pos() + count,
    {
        self.cursor += count;
    }

    /// Reads up to and including the next newline, or to the end of the
    /// document where none follows. Returns nothing where nothing is left.
    pub fn eat_line(&mut self) -> (line: Option<String>)
        ensures
            final(self).text() == old(self).text(),
            final(self).pos() == line_end(old(self).text(), old(self).pos()),
            old(self).exhausted() ==> line is None,
            !old(self).exhausted() ==> line is Some && line->0@ == slice(
                old(self).text(),
                old(self).pos(),
                line_end(old(self).text(), old(self).pos()),
            ),
    {
        if self.peek().is_none() {
            return None;
        }
        let ghost text = self.text();
        let ghost start = self.pos();
        let mut result = String::new();
        proof {
            self.text_fits();
        }
        loop
            invariant_except_break
                find_char(text, '\n', self.pos()) == find_char(text, '\n', start),
            invariant
                self.text() == text,
                text.len() <= usize::MAX,
                0 <= start <= self.pos() <= text.len(),
                result@ == text.subrange(start, self.pos()),
            ensures
                self.text() == text,
                self.pos() == line_end(text, start),
                0 <= start <= self.pos() <= text.len(),
                result@ == text.subrange(start, self.pos()),
            decreases text.len() - self.pos(),
        {
            match self.peek() {
                Some(c) => {
                    self.munch(1);
                    result.push(c);
                    assert(result@ =~= text.subrange(start, self.pos()));
                    if c == '\n' {
                        break ;
                    }
                },
                None => {
                    break ;
                },
            }
        }
        Some(result)
    }

    /// Reads a run of lines and joins them, each trimmed, with one newline
    /// between each two. The run ends with the first line that is empty once
    /// trimmed, which is read too, or with the document. Returns nothing where
    /// the run holds no line.
    pub fn eat_paragraph(&mut self) -> (paragraph: Option<String>)
        ensures
            final(self).text() == old(self).text(),
            final(self).pos() == paragraph_lines_end(old(self).text(), old(self).pos()),
            paragraph_lines(old(self).text(), old(self).pos()).len() == 0 ==> paragraph is None,
            paragraph_lines(old(self).text(), old(self).pos()).len() > 0 ==> paragraph is Some
                && paragraph->0@ == join_lines(
                paragraph_lines(old(self).text(), old(self).pos()),
            ),
    {
        let ghost text = self.text();
        let ghost start = self.pos();
        let ghost mut lines: Seq<Seq<char>> = Seq::empty();
        let mut result: Option<String> = None;
        loop
            invariant_except_break
                paragraph_lines(text, start) == lines + paragraph_lines(text, self.pos()),
                paragraph_lines_end(text, start) == paragraph_lines_end(text, self.pos()),
            invariant
                self.text() == text,
                lines.len() == 0 ==> result is None,
                lines.len() > 0 ==> result is Some && result->0@ == join_lines(lines),
            ensures
                paragraph_lines(text, start) == lines,
                paragraph_lines_end(text, start) == self.pos(),
            decreases text.len() - self.pos(),
        {
            let ghost before = self.pos();
            proof {
                if before < text.len() {
                    lemma_find_char(text, '\n', before);
                }
            }
            match self.eat_line() {
                None => {
                    assert(lines + Seq::<Seq<char>>::empty() =~= lines);
                    break ;
                },
                Some(line) => {
                    let line = trimmed(line.as_str());
                    if line.as_str().is_empty() {
                        assert(lines + Seq::<Seq<char>>::empty() =~= lines);
                        break ;
                    }
                    proof {
                        assert(lines + (seq![line@] + paragraph_lines(text, self.pos())) =~= lines.push(
                            line@,
                        ) + paragraph_lines(text, self.pos()));
                        assert(lines.push(line@).drop_last() =~= lines);
                        lines = lines.push(line@);
                    }
                    result =
                    match result {
                        Some(current) => {
                            let mut joined = current;
                            joined.push('\n');
                            joined.append(line.as_str());
                            assert(joined@ =~= join_lines(lines.drop_last()) + seq!['\n'] + line@);
                            Some(joined)
                        },
                        None => Some(line),
                    };
                },
            }
        }
        result
    }
}

} // verus!
