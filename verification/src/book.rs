//! The document tree: a book is a list of items, and a chapter holds text and
//! may hold further items.

use vstd::prelude::*;

verus! {

/// A chapter: its text, and what comes with it.
#[derive(Debug, PartialEq, Eq)]
pub struct Chapter {
    /// The chapter's title.
    pub name: String,
    /// The chapter's text. This is all that substitution changes.
    pub content: String,
    /// The section number, one entry per level, if the chapter is numbered.
    pub number: Option<Vec<u32>>,
    /// The items nested below this chapter.
    pub sub_items: Vec<BookItem>,
    /// Where the chapter is found, if it is no draft.
    pub path: Option<String>,
    /// The file the chapter was read from, if there is one.
    pub source_path: Option<String>,
    /// The titles of the chapters above this one, outermost first.
    pub parent_names: Vec<String>,
}

/// One item of a book.
#[derive(Debug, PartialEq, Eq)]
pub enum BookItem {
    /// A chapter, with text.
    Chapter(Chapter),
    /// A line between sections.
    Separator,
    /// The title of a part.
    PartTitle(String),
}

/// A book: its items in document order.
#[derive(Debug, PartialEq, Eq)]
pub struct Book {
    pub sections: Vec<BookItem>,
}

/// A chapter as contracts see it.
pub struct ChapterView {
    pub name: Seq<char>,
    pub content: Seq<char>,
    pub number: Option<Seq<u32>>,
    pub sub_items: Seq<ItemView>,
    pub path: Option<Seq<char>>,
    pub source_path: Option<Seq<char>>,
    pub parent_names: Seq<Seq<char>>,
}

/// An item as contracts see it.
pub enum ItemView {
    Chapter(ChapterView),
    Separator,
    PartTitle(Seq<char>),
}

/// The view of an optional string.
pub open spec fn optional_text(text: Option<String>) -> Option<Seq<char>> {
    match text {
        Some(t) => Some(t@),
        None => None,
    }
}

/// The view of an optional section number.
pub open spec fn optional_number(number: Option<Vec<u32>>) -> Option<Seq<u32>> {
    match number {
        Some(n) => Some(n@),
        None => None,
    }
}

/// The view of an item.
pub open spec fn item_view(item: BookItem) -> ItemView
    decreases item,
{
    match item {
        BookItem::Chapter(chapter) => ItemView::Chapter(chapter_view(chapter)),
        BookItem::Separator => ItemView::Separator,
        BookItem::PartTitle(title) => ItemView::PartTitle(title@),
    }
}

/// The view of a chapter.
pub open spec fn chapter_view(chapter: Chapter) -> ChapterView
    decreases chapter,
{
    ChapterView {
        name: chapter.name@,
        content: chapter.content@,
        number: optional_number(chapter.number),
        sub_items: items_view(chapter.sub_items@),
        path: optional_text(chapter.path),
        source_path: optional_text(chapter.source_path),
        parent_names: chapter.parent_names.deep_view(),
    }
}

/// The views of a list of items, in order.
pub open spec fn items_view(items: Seq<BookItem>) -> Seq<ItemView>
    decreases items,
{
    Seq::new(
        items.len(),
        |i: int|
            if 0 <= i < items.len() {
                item_view(items[i])
            } else {
                ItemView::Separator
            },
    )
}

impl View for Chapter {
    type V = ChapterView;

    open spec fn view(&self) -> ChapterView {
        chapter_view(*self)
    }
}

impl View for BookItem {
    type V = ItemView;

    open spec fn view(&self) -> ItemView {
        item_view(*self)
    }
}

impl View for Book {
    type V = Seq<ItemView>;

    open spec fn view(&self) -> Seq<ItemView> {
        items_view(self.sections@)
    }
}

} // verus!
