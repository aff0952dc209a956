//! The preprocessor: a rule set, applied to every chapter of a book.

use crate::book::Book;
use crate::model::RuleView;
use crate::replacement::Replacements;
use crate::text::same_text;
use crate::walker::{rewrite_items, rewritten_items};
use vstd::prelude::*;

verus! {

/// The name under which the preprocessor is known to the host.
pub open spec fn preprocessor_name() -> Seq<char> {
    "yapp-preprocessor"@
}

/// The one renderer name that the preprocessor does not work with.
pub open spec fn unsupported_renderer() -> Seq<char> {
    "not-supported"@
}

/// A preprocessor for simple text replacements.
pub struct Yapp {
    replacements: Replacements,
}

impl View for Yapp {
    type V = Seq<RuleView>;

    /// The rules that the preprocessor applies.
    closed spec fn view(&self) -> Seq<RuleView> {
        self.replacements@
    }
}

impl Yapp {
    /// Creates a preprocessor from the rules that were loaded, or one without
    /// rules where none could be loaded.
    pub fn new(loaded: Option<Replacements>) -> (pre: Self)
        ensures
            pre@ == match loaded {
                Some(rules) => rules@,
                None => Seq::<RuleView>::empty(),
            },
    {
        if let Some(replacements) = loaded {
            Self { replacements }
        } else {
            Self { replacements: Replacements::default() }
        }
    }

    /// The rules that the preprocessor applies.
    pub fn replacements(&self) -> (rules: &Replacements)
        ensures
            rules@ == self@,
    {
        &self.replacements
    }

    /// Returns the name of the preprocessor.
    pub fn name(&self) -> (name: &'static str)
        ensures
            name@ == preprocessor_name(),
    {
        "yapp-preprocessor"
    }

    /// Runs preprocessing: replaces text in all chapters, nested ones included,
    /// and leaves the rest of the book as it is.
    pub fn run(&self, book: Book) -> (processed: Book)
        ensures
            processed@ == rewritten_items(self@, book@),
    {
        let mut book = book;
        rewrite_items(&self.replacements, &mut book.sections);
        book
    }

    /// Checks for supported renderers: every renderer but the one named
    /// `not-supported`.
    pub fn supports_renderer(&self, renderer: &str) -> (supported: bool)
        ensures
            supported == (renderer@ != unsupported_renderer()),
    {
        !same_text(renderer, "not-supported")
    }
}

} // verus!
