//! The content walker: applies a rule set to the text of every chapter of a
//! tree, nested chapters included, and leaves everything else as it is.

use crate::book::{item_view, items_view, BookItem, ChapterView, ItemView};
use crate::model::{replaced, RuleView};
use crate::replacement::Replacements;
use vstd::prelude::*;

verus! {

/// An item after substitution: a chapter is rewritten, any other item is kept.
pub open spec fn rewritten_item(rules: Seq<RuleView>, item: ItemView) -> ItemView
    decreases item,
{
    match item {
        ItemView::Chapter(chapter) => ItemView::Chapter(rewritten_chapter(rules, chapter)),
        other => other,
    }
}

/// A chapter after substitution: its text is replaced, the items below it are
/// rewritten in turn, and the rest is kept.
pub open spec fn rewritten_chapter(rules: Seq<RuleView>, chapter: ChapterView) -> ChapterView
    decreases chapter,
{
    ChapterView {
        content: replaced(rules, chapter.content),
        sub_items: rewritten_items(rules, chapter.sub_items),
        ..chapter
    }
}

/// A list of items after substitution: as many items, each rewritten in its place.
pub open spec fn rewritten_items(rules: Seq<RuleView>, items: Seq<ItemView>) -> Seq<ItemView>
    decreases items,
{
    Seq::new(
        items.len(),
        |i: int|
            if 0 <= i < items.len() {
                rewritten_item(rules, items[i])
            } else {
                ItemView::Separator
            },
    )
}

/// Rewrites one item in place.
pub fn rewrite_item(rules: &Replacements, item: &mut BookItem)
    ensures
        item_view(*final(item)) == rewritten_item(rules@, item_view(*old(item))),
    decreases *old(item),
{
    match item {
        BookItem::Chapter(chapter) => {
            rewrite_items(rules, &mut chapter.sub_items);
            chapter.content = rules.replace(chapter.content.as_str());
        },
        _ => {},
    }
}

/// Rewrites every item of a list in place, in document order.
pub fn rewrite_items(rules: &Replacements, items: &mut Vec<BookItem>)
    ensures
        items_view(final(items)@) == rewritten_items(rules@, items_view(old(items)@)),
    decreases *old(items),
{
    let ghost before = items@;
    let mut i: usize = 0;
    while i < items.len()
        invariant
            i <= items@.len(),
            items@.len() == before.len(),
            before == old(items)@,
            forall|j: int|
                0 <= j < i ==> item_view(#[trigger] items@[j]) == rewritten_item(
                    rules@,
                    item_view(before[j]),
                ),
            forall|j: int| i <= j < before.len() ==> #[trigger] items@[j] == before[j],
        decreases items@.len() - i,
    {
        rewrite_item(rules, &mut items[i]);
        i += 1;
    }
    assert(items_view(items@) =~= rewritten_items(rules@, items_view(before)));
}

} // verus!
