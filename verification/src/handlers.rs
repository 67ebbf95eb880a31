//! Books made on request from chapters asked for by number: what is asked
//! and answered, and the check that the chapters are of one book.

use crate::chapter::{Book, BookMeta, Chapter};
use crate::providers::html::{
    elements_view, first_text, select, selected, text_of_first, HtmlElement, HtmlElementView,
    PageError,
};
use vstd::prelude::*;
use vstd::string::*;

verus! {

/// A request for a book of the chapters with these numbers.
#[derive(Debug)]
pub struct ConvertRequestBody {
    pub chapters: Vec<u64>,
}

/// Where the converted book was stored, and what it holds.
#[derive(Debug)]
pub struct ConvertRequestResponse {
    pub key: String,
    pub bucket: String,
    pub book: BookMeta,
}

/// A request to mail a stored book.
#[derive(Debug)]
pub struct MailRequestBody {
    pub key: String,
    pub bucket: String,
    pub book: BookMeta,
    pub email: String,
}

/// The answer to a request to mail a stored book.
#[derive(Clone, Copy, Debug, PartialEq, Eq, Structural)]
pub struct MailRequestResponse;

/// A chapter as its page shows it: with the title and the author of the book
/// it belongs to.
pub struct ChapterWithMeta {
    pub chapter: Chapter,
    pub author: String,
    pub title: String,
}

/// What a chapter's page can lack.
#[derive(Clone, Copy, Debug, PartialEq, Eq, Structural)]
pub enum ChapterFault {
    Body,
    Title,
    EmptyTitle,
    BookTitle,
    EmptyBookTitle,
    Author,
    EmptyAuthor,
}

/// The text that reports a fault of the page at `link`.
pub open spec fn chapter_fault_text(fault: ChapterFault, link: Seq<char>) -> Seq<char> {
    match fault {
        ChapterFault::Body => "Failed to find body in "@ + link,
        ChapterFault::Title => "Failed to find title in "@ + link,
        ChapterFault::BookTitle => "Failed to find book title in "@ + link,
        ChapterFault::Author => "Failed to find author in "@ + link,
        ChapterFault::EmptyAuthor => "Author text was empty."@,
        _ => "Title text was empty."@,
    }
}

fn chapter_fault(fault: ChapterFault, link: &str) -> (error: PageError)
    ensures
        error matches PageError::WebParse(text) && text@ == chapter_fault_text(fault, link@),
{
    let text = match fault {
        ChapterFault::Body => {
            let mut text = String::from_str("Failed to find body in ");
            text.append(link);
            text
        },
        ChapterFault::Title => {
            let mut text = String::from_str("Failed to find title in ");
            text.append(link);
            text
        },
        ChapterFault::BookTitle => {
            let mut text = String::from_str("Failed to find book title in ");
            text.append(link);
            text
        },
        ChapterFault::Author => {
            let mut text = String::from_str("Failed to find author in ");
            text.append(link);
            text
        },
        ChapterFault::EmptyAuthor => String::from_str("Author text was empty."),
        _ => String::from_str("Title text was empty."),
    };
    PageError::WebParse(text)
}

/// What a chapter's page shows, from the elements that hold its body, its
/// title, its book's title and its author: the markup of the first body and
/// the trimmed text of the first of each of the others, none of them empty.
/// The body is looked at first, then the two titles, then the author.
pub open spec fn page_chapter(
    bodies: Seq<HtmlElementView>,
    titles: Seq<HtmlElementView>,
    book_titles: Seq<HtmlElementView>,
    authors: Seq<HtmlElementView>,
) -> Result<(Seq<char>, Seq<char>, Seq<char>, Seq<char>), ChapterFault> {
    if bodies.len() == 0 {
        Err(ChapterFault::Body)
    } else {
        match first_text(titles) {
            None => Err(ChapterFault::Title),
            Some(title) => if title.len() == 0 {
                Err(ChapterFault::EmptyTitle)
            } else {
                match first_text(book_titles) {
                    None => Err(ChapterFault::BookTitle),
                    Some(book_title) => if book_title.len() == 0 {
                        Err(ChapterFault::EmptyBookTitle)
                    } else {
                        match first_text(authors) {
                            None => Err(ChapterFault::Author),
                            Some(author) => if author.len() == 0 {
                                Err(ChapterFault::EmptyAuthor)
                            } else {
                                Ok((bodies[0].html, title, book_title, author))
                            },
                        }
                    },
                }
            },
        }
    }
}

/// What was made is the chapter that was expected, or the error that
/// reports the expected fault.
pub open spec fn chapter_agrees(
    made: Result<ChapterWithMeta, PageError>,
    expected: Result<(Seq<char>, Seq<char>, Seq<char>, Seq<char>), ChapterFault>,
    link: Seq<char>,
) -> bool {
    match (made, expected) {
        (Ok(found), Ok((body, title, book_title, author))) => found.chapter.body@ == body
            && found.chapter.title@ == title && found.title@ == book_title && found.author@
            == author,
        (Err(PageError::WebParse(text)), Err(fault)) => text@ == chapter_fault_text(fault, link),
        _ => false,
    }
}

/// The chapter that a page shows, from the elements picked from it.
pub fn chapter_of(
    link: &str,
    bodies: &Vec<HtmlElement>,
    titles: &Vec<HtmlElement>,
    book_titles: &Vec<HtmlElement>,
    authors: &Vec<HtmlElement>,
) -> (made: Result<ChapterWithMeta, PageError>)
    ensures
        chapter_agrees(
            made,
            page_chapter(
                elements_view(*bodies),
                elements_view(*titles),
                elements_view(*book_titles),
                elements_view(*authors),
            ),
            link@,
        ),
{
    if bodies.len() == 0 {
        return Err(chapter_fault(ChapterFault::Body, link));
    }
    assert(elements_view(*bodies)[0] == bodies@[0]@);
    let title = match text_of_first(titles) {
        Some(title) => title,
        None => {
            return Err(chapter_fault(ChapterFault::Title, link));
        },
    };
    if title.as_str().is_empty() {
        return Err(chapter_fault(ChapterFault::EmptyTitle, link));
    }
    let book_title = match text_of_first(book_titles) {
        Some(book_title) => book_title,
        None => {
            return Err(chapter_fault(ChapterFault::BookTitle, link));
        },
    };
    if book_title.as_str().is_empty() {
        return Err(chapter_fault(ChapterFault::EmptyBookTitle, link));
    }
    let author = match text_of_first(authors) {
        Some(author) => author,
        None => {
            return Err(chapter_fault(ChapterFault::Author, link));
        },
    };
    if author.as_str().is_empty() {
        return Err(chapter_fault(ChapterFault::EmptyAuthor, link));
    }
    Ok(
        ChapterWithMeta {
            chapter: Chapter { body: bodies[0].html.clone(), title },
            author,
            title: book_title,
        },
    )
}

/// The chapter on the page fetched from `link`: its body is the
/// `chapter-inner` container, its title, its book's title and its author are
/// the three headings of the page's header.
pub fn get_chapter(link: &str, page: &str) -> (made: Result<ChapterWithMeta, PageError>)
    ensures
        match (
            selected(page@, "div.chapter-inner"@, "id"@),
            selected(page@, "div.fic-header h1"@, "id"@),
            selected(page@, "div.fic-header h2"@, "id"@),
            selected(page@, "div.fic-header h3"@, "id"@),
        ) {
            (Some(bodies), Some(titles), Some(book_titles), Some(authors)) => chapter_agrees(
                made,
                page_chapter(bodies, titles, book_titles, authors),
                link@,
            ),
            _ => made is Err,
        },
{
    let bodies = select(page, "div.chapter-inner", "id");
    let titles = select(page, "div.fic-header h1", "id");
    let book_titles = select(page, "div.fic-header h2", "id");
    let authors = select(page, "div.fic-header h3", "id");
    match (bodies, titles, book_titles, authors) {
        (Some(bodies), Some(titles), Some(book_titles), Some(authors)) => chapter_of(
            link,
            &bodies,
            &titles,
            &book_titles,
            &authors,
        ),
        _ => Err(chapter_fault(ChapterFault::Body, link)),
    }
}

/// Why no book can be made of some chapters.
#[derive(Clone, Copy, Debug, PartialEq, Eq, Structural)]
pub enum DownloadError {
    /// No chapter was asked for.
    Empty,
    /// The chapters are not all of one book.
    Mixed,
}

/// All chapters are of the book of the first.
pub open spec fn of_one_book(chapters: Seq<ChapterWithMeta>) -> bool {
    forall|k: int|
        0 <= k < chapters.len() ==> (#[trigger] chapters[k]).title@ == chapters[0].title@
            && chapters[k].author@ == chapters[0].author@
}

/// The book that `chapters` make up: they have to be of one book, by title
/// and author, and there has to be one at least.
pub fn download_book(chapters: Vec<ChapterWithMeta>) -> (made: Result<Book, DownloadError>)
    ensures
        match made {
            Ok(book) => {
                &&& chapters@.len() > 0
                &&& of_one_book(chapters@)
                &&& book.title@ == chapters@[0].title@
                &&& book.author@ == chapters@[0].author@
                &&& book.chapters@.len() == chapters@.len()
                &&& forall|k: int|
                    0 <= k < chapters@.len() ==> (#[trigger] book.chapters@[k]).title@
                        == chapters@[k].chapter.title@ && book.chapters@[k].body@
                        == chapters@[k].chapter.body@
            },
            Err(DownloadError::Empty) => chapters@.len() == 0,
            Err(DownloadError::Mixed) => chapters@.len() > 0 && !of_one_book(chapters@),
        },
{
    if chapters.len() == 0 {
        return Err(DownloadError::Empty);
    }
    let title = chapters[0].title.clone();
    let author = chapters[0].author.clone();
    let mut kept: Vec<Chapter> = Vec::new();
    let mut i: usize = 0;
    while i < chapters.len()
        invariant
            i <= chapters.len(),
            chapters@.len() > 0,
            title@ == chapters@[0].title@,
            author@ == chapters@[0].author@,
            kept@.len() == i,
            forall|k: int|
                0 <= k < i ==> (#[trigger] chapters@[k]).title@ == chapters@[0].title@
                    && chapters@[k].author@ == chapters@[0].author@,
            forall|k: int|
                0 <= k < i ==> (#[trigger] kept@[k]).title@ == chapters@[k].chapter.title@
                    && kept@[k].body@ == chapters@[k].chapter.body@,
        decreases chapters.len() - i,
    {
        if chapters[i].title != title || chapters[i].author != author {
            return Err(DownloadError::Mixed);
        }
        kept.push(
            Chapter {
                body: chapters[i].chapter.body.clone(),
                title: chapters[i].chapter.title.clone(),
            },
        );
        i = i + 1;
    }
    Ok(Book { title, author, chapters: kept })
}

/// The title of the file made of a book: the title of its one chapter, or
/// those of the first and the last with ` - ` between.
pub fn file_title(chapter_titles: &Vec<String>) -> (title: String)
    requires
        chapter_titles@.len() >= 1,
    ensures
        title@ == if chapter_titles@.len() == 1 {
            chapter_titles@[0]@
        } else {
            chapter_titles@[0]@ + " - "@ + chapter_titles@.last()@
        },
{
    if chapter_titles.len() == 1 {
        chapter_titles[0].clone()
    } else {
        let mut title = chapter_titles[0].clone();
        title.append(" - ");
        title.append(chapter_titles[chapter_titles.len() - 1].as_str());
        title
    }
}

} // verus!
