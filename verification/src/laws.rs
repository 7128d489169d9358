//! What holds of every document: laws that relate the blocks to the text
//! they are read from.

use crate::block::{
    code_block_close, code_block_content, code_block_end, code_block_html, heading_marker_end,
    lemma_find_fence, lemma_heading_marker_end,
};
use crate::document::{block_end, block_kind, lemma_block_advances, BlockKind};
use crate::inline::{inline_end, inline_html, is_link, lemma_inline_advances};
use crate::list::list_end;
use crate::marker::{is_fence, starts_block};
use crate::paragraph::{lemma_paragraph_bounds, paragraph_end};
use crate::text::{char_at, lemma_find_char};
use vstd::prelude::*;

verus! {

/// A code block keeps its content as it stands in the text: the block is the
/// opening fence, then the content character for character, in which no
/// fence begins, then the closing fence or the end of the text.
pub proof fn lemma_code_block_verbatim(text: Seq<char>, pos: int)
    requires
        0 <= pos,
        is_fence(text, pos),
    ensures
        pos + 3 <= code_block_close(text, pos) <= text.len(),
        code_block_content(text, pos) == text.subrange(pos + 3, code_block_close(text, pos)),
        forall|i: int|
            0 <= i < code_block_content(text, pos).len() ==> code_block_content(text, pos)[i]
                == text[pos + 3 + i],
        forall|i: int| pos + 3 <= i < code_block_close(text, pos) ==> !is_fence(text, i),
        code_block_close(text, pos) < text.len() ==> is_fence(text, code_block_close(text, pos))
            && code_block_end(text, pos) == code_block_close(text, pos) + 3,
        code_block_close(text, pos) == text.len() ==> code_block_end(text, pos) == text.len(),
{
    lemma_find_fence(text, pos + 3);
}

/// A code block that is never closed holds everything that follows its
/// opening fence, and ends with the text.
pub proof fn lemma_unterminated_code_block(text: Seq<char>, pos: int)
    requires
        0 <= pos,
        is_fence(text, pos),
        forall|i: int| pos + 3 <= i ==> !is_fence(text, i),
    ensures
        code_block_content(text, pos) == text.subrange(pos + 3, text.len() as int),
        code_block_end(text, pos) == text.len(),
        code_block_html(text, pos) == "<pre><code>"@ + text.subrange(pos + 3, text.len() as int)
            + "</code></pre>"@,
{
    lemma_find_fence(text, pos + 3);
}

/// Which block begins at a position depends on the five characters that
/// stand there and on nothing that was read before: where two texts show the
/// same five characters, the same kind of block begins.
pub proof fn lemma_block_kind_local(text: Seq<char>, pos: int, other: Seq<char>, at: int)
    requires
        char_at(text, pos) == char_at(other, at),
        char_at(text, pos + 1) == char_at(other, at + 1),
        char_at(text, pos + 2) == char_at(other, at + 2),
        char_at(text, pos + 3) == char_at(other, at + 3),
        char_at(text, pos + 4) == char_at(other, at + 4),
    ensures
        block_kind(text, pos) == block_kind(other, at),
{
}

/// A list takes every item that stands in a row: what follows a list is never
/// a list.
pub proof fn lemma_list_is_read_whole(text: Seq<char>, pos: int)
    requires
        0 <= pos <= text.len(),
    ensures
        block_kind(text, list_end(text, pos)) != Some(BlockKind::List),
    decreases text.len() - pos,
{
    if char_at(text, pos) == Some('*') {
        lemma_paragraph_bounds(text, pos + 1, true);
        lemma_list_is_read_whole(text, paragraph_end(text, pos + 1, true));
    }
}

/// Running text that ends before the end of the text ends either before a
/// block marker, so that a heading, a list or an intro block follows, or
/// right after a newline.
pub proof fn lemma_paragraph_stops_at_boundary(text: Seq<char>, pos: int, fresh: bool)
    requires
        0 <= pos <= text.len(),
    ensures
        paragraph_end(text, pos, fresh) < text.len() ==> starts_block(
            text,
            paragraph_end(text, pos, fresh),
        ) || (pos < paragraph_end(text, pos, fresh) && text[paragraph_end(text, pos, fresh) - 1]
            == '\n'),
    decreases text.len() - pos,
{
    if pos < text.len() && !(fresh && starts_block(text, pos)) {
        if text[pos] == '\n' {
            if !fresh {
                lemma_paragraph_bounds(text, pos + 1, true);
                lemma_paragraph_stops_at_boundary(text, pos + 1, true);
            }
        } else {
            lemma_inline_advances(text, pos);
            lemma_paragraph_bounds(text, inline_end(text, pos), false);
            lemma_paragraph_stops_at_boundary(text, inline_end(text, pos), false);
        }
    }
}

/// A block is read whole, so the block after it begins with a marker of its
/// own: every block takes at least one character; a list is never followed by
/// a list; and a heading or a paragraph is followed by a block of its own
/// kind only at the start of a new line.
pub proof fn lemma_next_block_is_new(text: Seq<char>, pos: int)
    requires
        0 <= pos < text.len(),
    ensures
        pos < block_end(text, pos) <= text.len(),
        block_kind(text, pos) == Some(BlockKind::List) ==> block_kind(text, block_end(text, pos))
            != Some(BlockKind::List),
        block_kind(text, pos) == Some(BlockKind::Heading) && block_kind(
            text,
            block_end(text, pos),
        ) == Some(BlockKind::Heading) ==> text[block_end(text, pos) - 1] == '\n',
        block_kind(text, pos) == Some(BlockKind::Paragraph) && block_kind(
            text,
            block_end(text, pos),
        ) == Some(BlockKind::Paragraph) ==> text[block_end(text, pos) - 1] == '\n',
{
    lemma_block_advances(text, pos);
    match block_kind(text, pos) {
        Some(BlockKind::List) => {
            lemma_list_is_read_whole(text, pos);
        },
        Some(BlockKind::Heading) => {
            lemma_heading_marker_end(text, pos);
            lemma_find_char(text, '\n', heading_marker_end(text, pos));
        },
        Some(BlockKind::Paragraph) => {
            lemma_paragraph_stops_at_boundary(text, pos, true);
        },
        _ => {},
    }
}

/// A `[` that opens no whole link is running text like any other character:
/// it is shown as it stands, and reading goes on right after it.
pub proof fn lemma_unclosed_link_is_literal(text: Seq<char>, pos: int)
    requires
        char_at(text, pos) == Some('['),
        !is_link(text, pos),
    ensures
        inline_html(text, pos) == seq!['['],
        inline_end(text, pos) == pos + 1,
{
    assert(inline_html(text, pos) =~= seq!['[']);
}

} // verus!
