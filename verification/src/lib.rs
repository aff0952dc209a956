//! Literal find-and-replace over the chapters of a book.
//!
//! A [`Replacements`] rule set maps patterns to replacement texts and applies
//! them to a text in a single pass from the left, the longest pattern first. A
//! [`Yapp`] preprocessor applies its rule set to the text of every chapter of a
//! [`Book`] and leaves the rest of the book untouched.

pub mod book;
pub mod host;
pub mod laws;
pub mod model;
pub mod preprocessor;
pub mod replacement;
pub mod text;
pub mod walker;

pub use crate::book::{Book, BookItem, Chapter};
pub use crate::preprocessor::Yapp;
pub use crate::replacement::Replacements;
