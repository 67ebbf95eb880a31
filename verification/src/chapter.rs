//! A book put together from chapters that were asked for by number.

use vstd::prelude::*;
use vstd::std_specs::convert::FromSpecImpl;

verus! {

/// One chapter: its title and its markup.
pub struct Chapter {
    pub body: String,
    pub title: String,
}

/// A book and its chapters.
pub struct Book {
    pub title: String,
    pub author: String,
    pub chapters: Vec<Chapter>,
}

/// A book as one document.
pub struct AggregateBook {
    pub title: String,
    pub author: String,
    pub body: String,
    pub chapter_titles: Vec<String>,
}

/// What describes a book, without its text.
#[derive(Debug)]
pub struct BookMeta {
    pub title: String,
    pub author: String,
    pub chapter_titles: Vec<String>,
}

impl From<AggregateBook> for BookMeta {
    fn from(book: AggregateBook) -> (meta: BookMeta) {
        BookMeta { title: book.title, author: book.author, chapter_titles: book.chapter_titles }
    }
}

impl FromSpecImpl<AggregateBook> for BookMeta {
    open spec fn obeys_from_spec() -> bool {
        true
    }

    open spec fn from_spec(book: AggregateBook) -> BookMeta {
        BookMeta { title: book.title, author: book.author, chapter_titles: book.chapter_titles }
    }
}

} // verus!
