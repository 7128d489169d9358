//! Bullet lists: a run of items, each opened by `*`.

use crate::paragraph::{lemma_paragraph_bounds, paragraph_end, paragraph_html};
use crate::text::{char_at, trim, trimmed};
use crate::walker::SourceWalker;
use vstd::prelude::*;

verus! {

/// The items of the list at `pos`, in the order in which they stand: each is
/// the running text after its `*`, trimmed. The list ends before the first
/// character that is no `*`.
pub open spec fn list_items(text: Seq<char>, pos: int) -> Seq<Seq<char>>
    decreases text.len() - pos,
    via list_items_decreases
{
    if char_at(text, pos) == Some('*') {
        seq![trim(paragraph_html(text, pos + 1, true))] + list_items(
            text,
            paragraph_end(text, pos + 1, true),
        )
    } else {
        Seq::empty()
    }
}

#[via_fn]
proof fn list_items_decreases(text: Seq<char>, pos: int) {
    if char_at(text, pos) == Some('*') {
        lemma_paragraph_bounds(text, pos + 1, true);
    }
}

/// The position just past the list at `pos`.
pub open spec fn list_end(text: Seq<char>, pos: int) -> int
    decreases text.len() - pos,
    via list_end_decreases
{
    if char_at(text, pos) == Some('*') {
        list_end(text, paragraph_end(text, pos + 1, true))
    } else {
        pos
    }
}

#[via_fn]
proof fn list_end_decreases(text: Seq<char>, pos: int) {
    if char_at(text, pos) == Some('*') {
        lemma_paragraph_bounds(text, pos + 1, true);
    }
}

/// One line for each item, in order: a tab, the item's element and a newline.
pub open spec fn items_html(items: Seq<Seq<char>>) -> Seq<char>
    decreases items.len(),
{
    if items.len() == 0 {
        Seq::empty()
    } else {
        items_html(items.drop_last()) + "\t<li>"@ + items.last() + "</li>\n"@
    }
}

/// The element for the list at `pos`.
pub open spec fn list_html(text: Seq<char>, pos: int) -> Seq<char> {
    "<ul>\n"@ + items_html(list_items(text, pos)) + "</ul>"@
}

/// What each string of `items` holds.
pub open spec fn views(items: Seq<String>) -> Seq<Seq<char>> {
    items.map_values(|item: String| item@)
}

/// A list ends inside the text, and after the position where it begins if a
/// `*` stands there.
pub proof fn lemma_list_bounds(text: Seq<char>, pos: int)
    requires
        0 <= pos <= text.len(),
    ensures
        pos <= list_end(text, pos) <= text.len(),
        char_at(text, pos) == Some('*') ==> pos < list_end(text, pos),
    decreases text.len() - pos,
{
    if char_at(text, pos) == Some('*') {
        lemma_paragraph_bounds(text, pos + 1, true);
        lemma_list_bounds(text, paragraph_end(text, pos + 1, true));
    }
}

impl SourceWalker {
    /// Reads the list at the read position and returns its items in order.
    /// For each `*` that stands at the read position the running text after it
    /// is read and trimmed.
    pub fn read_list(&mut self) -> (items: Vec<String>)
        ensures
            final(self).text() == old(self).text(),
            final(self).pos() == list_end(old(self).text(), old(self).pos()),
            views(items@) == list_items(old(self).text(), old(self).pos()),
    {
        let ghost text = self.text();
        let ghost start = self.pos();
        let mut items: Vec<String> = Vec::new();
        proof {
            self.text_fits();
            assert(views(items@) =~= Seq::<Seq<char>>::empty());
        }
        while self.next_is('*')
            invariant
                self.text() == text,
                text.len() <= usize::MAX,
                list_end(text, start) == list_end(text, self.pos()),
                list_items(text, start) == views(items@) + list_items(text, self.pos()),
            decreases text.len() - self.pos(),
        {
            let ghost here = self.pos();
            let ghost before = items@;
            proof {
                lemma_paragraph_bounds(text, here + 1, true);
            }
            self.munch(1);
            let item = self.consume_paragraph();
            let item = trimmed(item.as_str());
            items.push(item);
            proof {
                assert(views(items@) =~= views(before).push(item@));
                assert(views(before) + (seq![item@] + list_items(text, self.pos())) =~= views(
                    before,
                ).push(item@) + list_items(text, self.pos()));
            }
        }
        assert(views(items@) + Seq::<Seq<char>>::empty() =~= views(items@));
        items
    }

    /// Reads the list at the read position and returns its element: one line
    /// for each item, in the order in which the items stand.
    pub fn consume_list(&mut self) -> (html: String)
        ensures
            final(self).text() == old(self).text(),
            final(self).pos() == list_end(old(self).text(), old(self).pos()),
            html@ == list_html(old(self).text(), old(self).pos()),
    {
        let items = self.read_list();
        let mut html = String::new();
        html.append("<ul>\n");
        let mut i: usize = 0;
        while i < items.len()
            invariant
                i <= items@.len(),
                html@ == "<ul>\n"@ + items_html(views(items@).take(i as int)),
            decreases items@.len() - i,
        {
            let ghost before = html@;
            html.append("\t<li>");
            html.append(items[i].as_str());
            html.append("</li>\n");
            i += 1;
            proof {
                let done = views(items@).take(i as int);
                assert(done.drop_last() =~= views(items@).take(i - 1));
                assert(done.last() == items@[i - 1]@);
                assert(html@ =~= "<ul>\n"@ + items_html(done));
            }
        }
        assert(views(items@).take(i as int) =~= views(items@));
        html.append("</ul>");
        html
    }
}

} // verus!
