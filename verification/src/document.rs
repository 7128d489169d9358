//! The document: which block begins at a position, and the HTML of the
//! blocks in the order in which they stand.

use crate::block::{
    code_block_end, code_block_html, heading_end, heading_html, heading_marker_end,
    lemma_find_fence, lemma_heading_marker_end,
};
use crate::intro::{intro_end, intro_html, lemma_intro_body_bounds};
use crate::list::{lemma_list_bounds, list_end, list_html};
use crate::marker::{is_fence, is_intro};
use crate::paragraph::{lemma_paragraph_bounds, paragraph_end, paragraph_html};
use crate::text::{is_white_space, lemma_find_char};
use crate::walker::SourceWalker;
use vstd::prelude::*;

verus! {

/// What begins at a position of the document.
#[derive(Clone, Copy, Debug, PartialEq, Eq)]
pub enum BlockKind {
    /// A heading, opened by `#`.
    Heading,
    /// A bullet list, opened by `*`.
    List,
    /// A fenced code block, opened by three backticks.
    CodeBlock,
    /// An intro block, opened by five exclamation marks.
    Intro,
    /// White space between blocks, which gives no output.
    Blank,
    /// A paragraph: anything else.
    Paragraph,
}

/// The kind of block that begins at `pos`, decided by the characters that
/// stand there: at most five of them. Nothing begins outside the text.
pub open spec fn block_kind(text: Seq<char>, pos: int) -> Option<BlockKind> {
    if pos < 0 || pos >= text.len() {
        None
    } else if text[pos] == '#' {
        Some(BlockKind::Heading)
    } else if text[pos] == '*' {
        Some(BlockKind::List)
    } else if is_fence(text, pos) {
        Some(BlockKind::CodeBlock)
    } else if is_intro(text, pos) {
        Some(BlockKind::Intro)
    } else if is_white_space(text[pos]) {
        Some(BlockKind::Blank)
    } else {
        Some(BlockKind::Paragraph)
    }
}

/// The position just past the block that begins at `pos`.
pub open spec fn block_end(text: Seq<char>, pos: int) -> int {
    match block_kind(text, pos) {
        Some(BlockKind::Heading) => heading_end(text, pos),
        Some(BlockKind::List) => list_end(text, pos),
        Some(BlockKind::CodeBlock) => code_block_end(text, pos),
        Some(BlockKind::Intro) => intro_end(text, pos),
        Some(BlockKind::Blank) => pos + 1,
        Some(BlockKind::Paragraph) => paragraph_end(text, pos, true),
        None => pos,
    }
}

/// What the block that begins at `pos` adds to the output: a newline and the
/// block's element; nothing for white space.
pub open spec fn block_html(text: Seq<char>, pos: int) -> Seq<char> {
    match block_kind(text, pos) {
        Some(BlockKind::Heading) => seq!['\n'] + heading_html(text, pos),
        Some(BlockKind::List) => seq!['\n'] + list_html(text, pos),
        Some(BlockKind::CodeBlock) => seq!['\n'] + code_block_html(text, pos),
        Some(BlockKind::Intro) => seq!['\n'] + intro_html(text, pos),
        Some(BlockKind::Blank) => Seq::empty(),
        Some(BlockKind::Paragraph) => seq!['\n'] + "<p>"@ + paragraph_html(text, pos, true)
            + "</p>"@,
        None => Seq::empty(),
    }
}

/// The HTML of the document from `pos` on: what each block adds, in the order
/// in which the blocks stand.
pub open spec fn document_html(text: Seq<char>, pos: int) -> Seq<char>
    decreases text.len() - pos,
    via document_html_decreases
{
    if pos < 0 || pos >= text.len() {
        Seq::empty()
    } else {
        block_html(text, pos) + document_html(text, block_end(text, pos))
    }
}

#[via_fn]
proof fn document_html_decreases(text: Seq<char>, pos: int) {
    if 0 <= pos < text.len() {
        lemma_block_advances(text, pos);
    }
}

/// Every block takes at least one character and ends inside the text.
pub proof fn lemma_block_advances(text: Seq<char>, pos: int)
    requires
        0 <= pos < text.len(),
    ensures
        pos < block_end(text, pos) <= text.len(),
{
    match block_kind(text, pos) {
        Some(BlockKind::Heading) => {
            lemma_heading_marker_end(text, pos);
            lemma_find_char(text, '\n', heading_marker_end(text, pos));
        },
        Some(BlockKind::List) => {
            lemma_list_bounds(text, pos);
        },
        Some(BlockKind::CodeBlock) => {
            lemma_find_fence(text, pos + 3);
        },
        Some(BlockKind::Intro) => {
            lemma_intro_body_bounds(text, pos + 5);
        },
        Some(BlockKind::Blank) => {},
        Some(BlockKind::Paragraph) => {
            lemma_paragraph_bounds(text, pos, true);
        },
        None => {},
    }
}

impl SourceWalker {
    /// The kind of block that begins at the read position, if anything is
    /// left to read.
    pub fn next_block(&self) -> (kind: Option<BlockKind>)
        ensures
            kind == block_kind(self.text(), self.pos()),
    {
        match self.peek() {
            None => None,
            Some(c) => {
                if c == '#' {
                    Some(BlockKind::Heading)
                } else if c == '*' {
                    Some(BlockKind::List)
                } else if self.is_code_block() {
                    Some(BlockKind::CodeBlock)
                } else if self.is_intro_marker() {
                    Some(BlockKind::Intro)
                } else if c.is_whitespace() {
                    Some(BlockKind::Blank)
                } else {
                    Some(BlockKind::Paragraph)
                }
            },
        }
    }

    /// Reads the rest of the document and returns its HTML: for each block, in
    /// the order in which the blocks stand, a newline and the block's element.
    /// White space between blocks gives nothing. Afterwards nothing is left to
    /// read.
    pub fn consume(&mut self) -> (html: String)
        ensures
            final(self).text() == old(self).text(),
            html@ == document_html(old(self).text(), old(self).pos()),
            final(self).pos() == if old(self).exhausted() {
                old(self).pos()
            } else {
                old(self).text().len() as int
            },
    {
        let ghost text = self.text();
        let ghost start = self.pos();
        let mut html = String::new();
        proof {
            self.text_fits();
        }
        loop
            invariant_except_break
                document_html(text, start) == html@ + document_html(text, self.pos()),
            invariant
                self.text() == text,
                text.len() <= usize::MAX,
                start == old(self).pos(),
                start <= self.pos(),
                start < text.len() ==> self.pos() <= text.len(),
                start >= text.len() ==> self.pos() == start,
            ensures
                html@ == document_html(text, start),
                self.pos() >= text.len(),
                start < text.len() ==> self.pos() == text.len(),
                start >= text.len() ==> self.pos() == start,
            decreases text.len() - self.pos(),
        {
            let ghost here = self.pos();
            let ghost before = html@;
            let kind = match self.next_block() {
                Some(kind) => kind,
                None => {
                    assert(before + Seq::<char>::empty() =~= before);
                    break ;
                },
            };
            proof {
                lemma_block_advances(text, here);
            }
            match kind {
                BlockKind::Heading => {
                    let block = self.consume_heading();
                    html.push('\n');
                    html.append(block.as_str());
                },
                BlockKind::List => {
                    let block = self.consume_list();
                    html.push('\n');
                    html.append(block.as_str());
                },
                BlockKind::CodeBlock => {
                    let block = self.consume_code_block();
                    html.push('\n');
                    html.append(block.as_str());
                },
                BlockKind::Intro => {
                    let block = self.consume_intro();
                    html.push('\n');
                    html.append(block.as_str());
                },
                BlockKind::Blank => {
                    self.munch(1);
                },
                BlockKind::Paragraph => {
                    let block = self.consume_paragraph();
                    html.push('\n');
                    html.append("<p>");
                    html.append(block.as_str());
                    html.append("</p>");
                },
            }
            assert(html@ =~= before + block_html(text, here));
            assert(before + (block_html(text, here) + document_html(text, self.pos())) =~= before
                + block_html(text, here) + document_html(text, self.pos()));
        }
        html
    }
}

/// The HTML of the document `text`: the one call that converts a whole
/// document. It takes every text, well formed or not.
pub fn parse_document(text: &str) -> (html: String)
    ensures
        html@ == document_html(text@, 0),
{
    let mut walker = SourceWalker::new(text);
    walker.consume()
}

} // verus!
