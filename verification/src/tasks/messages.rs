//! The texts a delivery carries: the cover title, the push message, the email
//! subject and the attachment's title.

use crate::models::{Book, Chapter};
use crate::text::{decimal, decimal_spec};
use vstd::prelude::*;
use vstd::string::*;

verus! {

/// The title of one chapter, or of a run of chapters by its first and last.
pub open spec fn range_title_spec(chapters: Seq<Chapter>) -> Seq<char> {
    if chapters.len() == 1 {
        chapters[0].name@
    } else {
        chapters[0].name@ + " through "@ + chapters.last().name@
    }
}

/// The title on the generated cover.
pub open spec fn cover_title_spec(book: Book, chapters: Seq<Chapter>) -> Seq<char> {
    book.name@ + ": "@ + range_title_spec(chapters)
}

/// The text of the push message.
pub open spec fn push_message_spec(book: Book, chapters: Seq<Chapter>) -> Seq<char> {
    if chapters.len() == 1 {
        "A new chapter of "@ + book.name@ + " by "@ + book.author@ + " has been released: "@
            + chapters[0].name@
    } else {
        decimal_spec(chapters.len()) + " new chapters of "@ + book.name@ + " by "@ + book.author@
            + " has been released: "@ + range_title_spec(chapters)
    }
}

/// The subject of the email that carries the file.
pub open spec fn email_subject_spec(book: Book, chapters: Seq<Chapter>) -> Seq<char> {
    if chapters.len() == 1 {
        "New Chapter of "@ + book.name@ + ": "@ + chapters[0].name@
    } else {
        decimal_spec(chapters.len()) + " New Chapters of "@ + book.name@ + ": "@
            + range_title_spec(chapters)
    }
}

/// The title of the batch: the chapter's name, or `<first> through <last>`.
/// It names the attachment.
pub fn range_title(chapters: &Vec<Chapter>) -> (title: String)
    requires
        chapters.len() >= 1,
    ensures
        title@ == range_title_spec(chapters@),
{
    if chapters.len() == 1 {
        chapters[0].name.clone()
    } else {
        let mut title = chapters[0].name.clone();
        title.append(" through ");
        title.append(chapters[chapters.len() - 1].name.as_str());
        title
    }
}

/// The cover title: `<book>: <chapter>` or `<book>: <first> through <last>`.
pub fn cover_title(book: &Book, chapters: &Vec<Chapter>) -> (title: String)
    requires
        chapters.len() >= 1,
    ensures
        title@ == cover_title_spec(*book, chapters@),
{
    let mut title = book.name.clone();
    title.append(": ");
    let range = range_title(chapters);
    title.append(range.as_str());
    title
}

/// The push message for a batch.
pub fn push_message(book: &Book, chapters: &Vec<Chapter>) -> (message: String)
    requires
        chapters.len() >= 1,
    ensures
        message@ == push_message_spec(*book, chapters@),
{
    let mut message = if chapters.len() == 1 {
        String::from_str("A new chapter of ")
    } else {
        let mut counted = decimal(chapters.len() as u64);
        counted.append(" new chapters of ");
        counted
    };
    message.append(book.name.as_str());
    message.append(" by ");
    message.append(book.author.as_str());
    message.append(" has been released: ");
    let range = range_title(chapters);
    message.append(range.as_str());
    message
}

/// The email subject for a batch.
pub fn email_subject(book: &Book, chapters: &Vec<Chapter>) -> (subject: String)
    requires
        chapters.len() >= 1,
    ensures
        subject@ == email_subject_spec(*book, chapters@),
{
    let mut subject = if chapters.len() == 1 {
        String::from_str("New Chapter of ")
    } else {
        let mut counted = decimal(chapters.len() as u64);
        counted.append(" New Chapters of ");
        counted
    };
    subject.append(book.name.as_str());
    subject.append(": ");
    let range = range_title(chapters);
    subject.append(range.as_str());
    subject
}

} // verus!
