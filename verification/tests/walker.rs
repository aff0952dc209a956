use yapp::walker::{rewrite_item, rewrite_items};
use yapp::{Book, BookItem, Chapter, Replacements, Yapp};

fn chapter(name: &str, content: &str, sub_items: Vec<BookItem>) -> Chapter {
    Chapter {
        name: name.to_string(),
        content: content.to_string(),
        number: Some(vec![1, 2]),
        sub_items,
        path: Some(format!("{name}.md")),
        source_path: Some(format!("src/{name}.md")),
        parent_names: vec!["Top-Level".to_string()],
    }
}

fn dash_to_space() -> Replacements {
    let mut rules = Replacements::new();
    rules.insert("-", " ");
    rules
}

fn content_of(item: &BookItem) -> &str {
    match item {
        BookItem::Chapter(chapter) => &chapter.content,
        _ => panic!("not a chapter"),
    }
}

#[test]
fn tree_scope() {
    let book = Book {
        sections: vec![BookItem::Chapter(chapter("one", "Hello-World", vec![])), BookItem::Separator],
    };
    let processed = Yapp::new(Some(dash_to_space())).run(book);
    assert_eq!(processed.sections.len(), 2);
    assert_eq!(content_of(&processed.sections[0]), "Hello World");
    assert!(matches!(processed.sections[1], BookItem::Separator));
}

#[test]
fn nested_chapters_are_rewritten() {
    let inner = chapter("inner", "c-d", vec![BookItem::Chapter(chapter("innermost", "e-f", vec![]))]);
    let book = Book {
        sections: vec![
            BookItem::Chapter(chapter("outer", "a-b", vec![BookItem::Separator, BookItem::Chapter(inner)])),
        ],
    };
    let processed = Yapp::new(Some(dash_to_space())).run(book);
    let BookItem::Chapter(outer) = &processed.sections[0] else { panic!("not a chapter") };
    assert_eq!(outer.content, "a b");
    assert_eq!(outer.sub_items.len(), 2);
    assert!(matches!(outer.sub_items[0], BookItem::Separator));
    let BookItem::Chapter(inner) = &outer.sub_items[1] else { panic!("not a chapter") };
    assert_eq!(inner.content, "c d");
    assert_eq!(content_of(&inner.sub_items[0]), "e f");
}

#[test]
fn only_the_content_of_a_chapter_changes() {
    let book = Book { sections: vec![BookItem::Chapter(chapter("a-name", "a-text", vec![]))] };
    let processed = Yapp::new(Some(dash_to_space())).run(book);
    let BookItem::Chapter(after) = &processed.sections[0] else { panic!("not a chapter") };
    assert_eq!(after.name, "a-name");
    assert_eq!(after.content, "a text");
    assert_eq!(after.number, Some(vec![1, 2]));
    assert_eq!(after.path, Some("a-name.md".to_string()));
    assert_eq!(after.source_path, Some("src/a-name.md".to_string()));
    assert_eq!(after.parent_names, vec!["Top-Level".to_string()]);
}

#[test]
fn items_without_content_are_passed_through() {
    let book = Book {
        sections: vec![
            BookItem::PartTitle("Part-One".to_string()),
            BookItem::Separator,
            BookItem::Chapter(chapter("c", "x-y", vec![])),
            BookItem::PartTitle("Part-Two".to_string()),
        ],
    };
    let processed = Yapp::new(Some(dash_to_space())).run(book);
    assert_eq!(processed.sections.len(), 4);
    assert!(matches!(&processed.sections[0], BookItem::PartTitle(title) if title == "Part-One"));
    assert!(matches!(processed.sections[1], BookItem::Separator));
    assert_eq!(content_of(&processed.sections[2]), "x y");
    assert!(matches!(&processed.sections[3], BookItem::PartTitle(title) if title == "Part-Two"));
}

#[test]
fn empty_book_stays_empty() {
    let processed = Yapp::new(Some(dash_to_space())).run(Book { sections: vec![] });
    assert!(processed.sections.is_empty());
}

#[test]
fn preprocessor_without_rules_changes_nothing() {
    let book = Book { sections: vec![BookItem::Chapter(chapter("one", "Hello-World", vec![]))] };
    let processed = Yapp::new(None).run(book);
    assert_eq!(content_of(&processed.sections[0]), "Hello-World");
}

#[test]
fn every_chapter_is_rewritten_once() {
    let mut rules = Replacements::new();
    rules.insert("a", "aa");
    let nested = chapter("n", "a", vec![]);
    let mut items = vec![
        BookItem::Chapter(chapter("c", "a", vec![BookItem::Chapter(nested)])),
        BookItem::Chapter(chapter("d", "aa", vec![])),
    ];
    rewrite_items(&rules, &mut items);
    let BookItem::Chapter(first) = &items[0] else { panic!("not a chapter") };
    assert_eq!(first.content, "aa");
    assert_eq!(content_of(&first.sub_items[0]), "aa");
    assert_eq!(content_of(&items[1]), "aaaa");
}

#[test]
fn rewrite_item_keeps_what_is_no_chapter() {
    let rules = dash_to_space();
    let mut separator = BookItem::Separator;
    rewrite_item(&rules, &mut separator);
    assert!(matches!(separator, BookItem::Separator));
    let mut title = BookItem::PartTitle("a-b".to_string());
    rewrite_item(&rules, &mut title);
    assert!(matches!(&title, BookItem::PartTitle(text) if text == "a-b"));
    let mut item = BookItem::Chapter(chapter("c", "a-b", vec![]));
    rewrite_item(&rules, &mut item);
    assert_eq!(content_of(&item), "a b");
}

#[test]
fn processed_book_is_the_book_with_rewritten_contents() {
    let book = Book {
        sections: vec![
            BookItem::PartTitle("A-B".to_string()),
            BookItem::Chapter(chapter("one", "1-2", vec![BookItem::Chapter(chapter("two", "-", vec![]))])),
            BookItem::Separator,
        ],
    };
    let expected = Book {
        sections: vec![
            BookItem::PartTitle("A-B".to_string()),
            BookItem::Chapter(chapter("one", "1 2", vec![BookItem::Chapter(chapter("two", " ", vec![]))])),
            BookItem::Separator,
        ],
    };
    assert_eq!(Yapp::new(Some(dash_to_space())).run(book), expected);
}

#[test]
fn book_without_rules_comes_back_equal() {
    let make = || Book {
        sections: vec![
            BookItem::Chapter(chapter("one", "1-2", vec![BookItem::Separator])),
            BookItem::PartTitle("-".to_string()),
        ],
    };
    assert_eq!(Yapp::new(None).run(make()), make());
    assert_eq!(Yapp::new(Some(Replacements::new())).run(make()), make());
}
