//! A Practical Guide to Evil, a serial published on WordPress.

use crate::models::{BookKind, Id, NewBook, NewChapter};
use crate::providers::feed::{listing, listing_agrees, rss_channel, FeedError, FeedSource};
use crate::providers::html::{
    all_blank_or_body, entry_content, selected, PageError,
};
use crate::util::{host_is, url_checked, url_parts, validate_hostname, UrlError};
use vstd::prelude::*;
use vstd::string::*;

verus! {

/// The book itself.
pub fn get_book() -> (book: NewBook)
    ensures
        book.is("A Practical Guide To Evil"@, "erraticerrata"@, BookKind::APracticalGuideToEvil),
{
    NewBook {
        name: String::from_str("A Practical Guide To Evil"),
        author: String::from_str("erraticerrata"),
        metadata: BookKind::APracticalGuideToEvil,
    }
}

/// The chapters that the serial's feed lists.
pub fn get_chapters(content: &[u8], book_uuid: Id) -> (made: Result<Vec<NewChapter>, FeedError>)
    ensures
        match rss_channel(content@) {
            Some(feed) => listing_agrees(
                FeedSource::APracticalGuideToEvil,
                made,
                listing(FeedSource::APracticalGuideToEvil, feed, feed.items.len() as int, book_uuid, "erraticerrata"@),
            ),
            None => made matches Err(FeedError::Rss(_)),
        },
{
    crate::providers::feed::get_chapters(FeedSource::APracticalGuideToEvil, content, book_uuid, "erraticerrata")
}

/// The body of the chapter on a page of the serial.
pub fn get_chapter_body(page: &str) -> (body: Result<String, PageError>)
    ensures
        all_blank_or_body(body, selected(page@, entry_content(), "id"@)),
{
    crate::providers::html::get_chapter_body(page)
}

/// Accepts `url` exactly where its host is `practicalguidetoevil.wordpress.com`.
pub fn try_parse_url(url: &str) -> (checked: Result<(), UrlError>)
    ensures
        checked is Ok <==> (url_parts(url@) matches Some(parts) && host_is(
            parts,
            "practicalguidetoevil.wordpress.com"@,
        )),
        url_checked(checked, url@, "practicalguidetoevil.wordpress.com"@),
{
    validate_hostname(url, "practicalguidetoevil.wordpress.com")
}

} // verus!
