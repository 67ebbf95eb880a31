//! Makes one document of a book's chapters.

use crate::chapter::{AggregateBook, Book, Chapter};
use vstd::prelude::*;
use vstd::string::*;

verus! {

/// The markup of the first `n` chapters, each under a heading of its title.
pub open spec fn chapters_html(chapters: Seq<Chapter>, n: int) -> Seq<char>
    decreases n,
{
    if n <= 0 {
        Seq::empty()
    } else {
        chapters_html(chapters, n - 1) + "<h2>"@ + chapters[n - 1].title@ + "</h2>"@
            + chapters[n - 1].body@
    }
}

/// The document of a book: a heading of its title, then its chapters.
pub open spec fn book_html(book: Book) -> Seq<char> {
    "<h1>"@ + book.title@ + "</h1>"@ + chapters_html(book.chapters@, book.chapters@.len() as int)
}

/// The document of `book`, with the titles of its chapters in order.
pub fn get_book_html(book: &Book) -> (whole: AggregateBook)
    ensures
        whole.author == book.author,
        whole.title == book.title,
        whole.body@ == book_html(*book),
        whole.chapter_titles@.len() == book.chapters@.len(),
        forall|k: int|
            0 <= k < book.chapters@.len() ==> whole.chapter_titles@[k] == book.chapters@[k].title,
{
    let mut html = String::from_str("<h1>");
    html.append(book.title.as_str());
    html.append("</h1>");
    let mut chapter_titles: Vec<String> = Vec::new();
    let mut i: usize = 0;
    while i < book.chapters.len()
        invariant
            i <= book.chapters.len(),
            html@ == "<h1>"@ + book.title@ + "</h1>"@ + chapters_html(book.chapters@, i as int),
            chapter_titles@.len() == i,
            forall|k: int| 0 <= k < i ==> chapter_titles@[k] == book.chapters@[k].title,
        decreases book.chapters.len() - i,
    {
        let chapter = &book.chapters[i];
        html.append("<h2>");
        html.append(chapter.title.as_str());
        html.append("</h2>");
        html.append(chapter.body.as_str());
        chapter_titles.push(chapter.title.clone());
        i = i + 1;
    }
    AggregateBook {
        author: book.author.clone(),
        title: book.title.clone(),
        body: html,
        chapter_titles,
    }
}

} // verus!
