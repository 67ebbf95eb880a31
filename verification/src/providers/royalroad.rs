//! RoyalRoad: fictions are numbered, and so are their chapters.

use crate::models::{BookKind, Id, NewBook, NewChapter};
pub use crate::models::RoyalRoadBookKind;
use crate::providers::feed::{listing, listing_agrees, rss_channel, FeedError, FeedSource};
use crate::providers::html::{
    elements_view, first_text, select, selected, text_of_first, HtmlElement, HtmlElementView,
    PageError,
};
use crate::text::{
    all_whitespace, chars_of, decimal, decimal_spec, is_blank, parse_u64, parse_u64_spec,
    same_text, split, split_spec,
};
use crate::util::{parse_url, url_parts, UrlError, UrlParts};
use vstd::prelude::*;
use vstd::string::*;

verus! {

/// What can be wrong with the URL of a fiction.
#[derive(Clone, Copy, Debug, PartialEq, Eq, Structural)]
pub enum UrlFault {
    Host,
    Path,
    NotABook,
    BookId,
}

/// The text that reports a fault.
pub open spec fn url_fault_text(fault: UrlFault) -> Seq<char> {
    match fault {
        UrlFault::Host => "Provided hostname is not www.royalroad.com or royalroad.com."@,
        UrlFault::Path => "No path provided."@,
        UrlFault::NotABook => "Url does not correspond to a book."@,
        UrlFault::BookId => "Book id not valid."@,
    }
}

fn url_fault(fault: UrlFault) -> (error: UrlError)
    ensures
        error matches UrlError::Url(text) && text@ == url_fault_text(fault),
{
    let text = match fault {
        UrlFault::Host => "Provided hostname is not www.royalroad.com or royalroad.com.",
        UrlFault::Path => "No path provided.",
        UrlFault::NotABook => "Url does not correspond to a book.",
        UrlFault::BookId => "Book id not valid.",
    };
    UrlError::Url(String::from_str(text))
}

/// The segments of a path: what stands between its slashes, after the first.
/// A path that does not begin with a slash has none.
pub open spec fn path_segments(path: Seq<char>) -> Option<Seq<Seq<char>>> {
    if path.len() > 0 && path[0] == '/' {
        Some(split_spec(path.skip(1), '/'))
    } else {
        None
    }
}

/// The fiction that a URL names: the host is `www.royalroad.com` or
/// `royalroad.com`, the first segment of the path is `fiction` and the second
/// is the fiction's number.
pub open spec fn fiction_of(parts: (Seq<char>, Option<Seq<char>>, Seq<char>)) -> Result<
    u64,
    UrlFault,
> {
    if !(parts.1 == Some("www.royalroad.com"@) || parts.1 == Some("royalroad.com"@)) {
        Err(UrlFault::Host)
    } else {
        match path_segments(parts.2) {
            None => Err(UrlFault::Path),
            Some(segments) => if segments[0] != "fiction"@ {
                Err(UrlFault::NotABook)
            } else if segments.len() < 2 {
                Err(UrlFault::BookId)
            } else {
                match parse_u64_spec(segments[1]) {
                    Some(id) => Ok(id),
                    None => Err(UrlFault::BookId),
                }
            },
        }
    }
}

/// What was made is the fiction that was expected, or the error that
/// reports the expected fault.
pub open spec fn kind_agrees(
    made: Result<RoyalRoadBookKind, UrlError>,
    expected: Result<u64, UrlFault>,
) -> bool {
    match (made, expected) {
        (Ok(kind), Ok(id)) => kind.id == id,
        (Err(UrlError::Url(text)), Err(fault)) => text@ == url_fault_text(fault),
        _ => false,
    }
}

/// The fiction that a parsed URL names.
pub fn book_kind_of(parts: &UrlParts) -> (made: Result<RoyalRoadBookKind, UrlError>)
    ensures
        kind_agrees(made, fiction_of(parts.parts())),
{
    let host_ok = match &parts.host {
        Some(host) => same_text(host.as_str(), "www.royalroad.com") || same_text(
            host.as_str(),
            "royalroad.com",
        ),
        None => false,
    };
    if !host_ok {
        return Err(url_fault(UrlFault::Host));
    }
    let path = chars_of(parts.path.as_str());
    if path.len() == 0 || path[0] != '/' {
        return Err(url_fault(UrlFault::Path));
    }
    let rest = crate::text::copy_range(&path, 1, path.len());
    assert(rest@ == path@.skip(1));
    let segments = split(&rest, '/');
    proof {
        crate::text::lemma_index_of_char(rest@, '/');
    }
    let wanted = chars_of("fiction");
    let first_ok = crate::text::matches_at(&segments[0], &wanted, 0) && segments[0].len()
        == wanted.len();
    assert(first_ok == (segments@[0]@ == "fiction"@)) by {
        if segments@[0]@.len() == wanted@.len() {
            assert(segments@[0]@.subrange(0, wanted@.len() as int) == segments@[0]@);
        }
    }
    if !first_ok {
        return Err(url_fault(UrlFault::NotABook));
    }
    if segments.len() < 2 {
        return Err(url_fault(UrlFault::BookId));
    }
    match parse_u64(&segments[1]) {
        Some(id) => Ok(RoyalRoadBookKind { id }),
        None => Err(url_fault(UrlFault::BookId)),
    }
}

/// The fiction that the URL `request_url` names.
pub fn try_parse_url(request_url: &str) -> (made: Result<RoyalRoadBookKind, UrlError>)
    ensures
        match url_parts(request_url@) {
            Some(parts) => kind_agrees(made, fiction_of(parts)),
            None => made matches Err(UrlError::Parse(_)),
        },
{
    match parse_url(request_url) {
        Ok(parts) => book_kind_of(&parts),
        Err(e) => Err(UrlError::Parse(e)),
    }
}

/// The address of a fiction's page.
pub fn fiction_url(book: &RoyalRoadBookKind) -> (url: String)
    ensures
        url@ == "https://royalroad.com/fiction/"@ + decimal_spec(book.id as nat),
{
    let mut url = String::from_str("https://royalroad.com/fiction/");
    let number = decimal(book.id);
    url.append(number.as_str());
    url
}

/// The address of a fiction's feed.
pub fn syndication_url(book_id: u64) -> (url: String)
    ensures
        url@ == "https://www.royalroad.com/syndication/"@ + decimal_spec(book_id as nat),
{
    let mut url = String::from_str("https://www.royalroad.com/syndication/");
    let number = decimal(book_id);
    url.append(number.as_str());
    url
}

/// The address of a chapter's page.
pub fn chapter_url(chapter_id: u64) -> (url: String)
    ensures
        url@ == "https://www.royalroad.com/fiction/chapter/"@ + decimal_spec(chapter_id as nat),
{
    let mut url = String::from_str("https://www.royalroad.com/fiction/chapter/");
    let number = decimal(chapter_id);
    url.append(number.as_str());
    url
}


/// The chapters that a fiction's feed lists.
pub fn get_chapters(content: &[u8], book_uuid: Id, author: &str) -> (made: Result<
    Vec<NewChapter>,
    FeedError,
>)
    ensures
        match rss_channel(content@) {
            Some(feed) => listing_agrees(
                FeedSource::RoyalRoad,
                made,
                listing(FeedSource::RoyalRoad, feed, feed.items.len() as int, book_uuid, author@),
            ),
            None => made matches Err(FeedError::Rss(_)),
        },
{
    crate::providers::feed::get_chapters(FeedSource::RoyalRoad, content, book_uuid, author)
}

/// The markup of the first element, or `None` where there is none or where
/// its markup is white space throughout.
pub open spec fn first_markup(elements: Seq<HtmlElementView>) -> Option<Seq<char>> {
    if elements.len() == 0 || all_whitespace(elements[0].html) {
        None
    } else {
        Some(elements[0].html)
    }
}

/// `body` is the body made from `elements`, or the error that says there is
/// none.
pub open spec fn first_or_none(
    body: Result<String, PageError>,
    elements: Option<Seq<HtmlElementView>>,
) -> bool {
    match elements {
        Some(elements) => match body {
            Ok(markup) => first_markup(elements) == Some(markup@),
            Err(PageError::WebParse(text)) => first_markup(elements) is None && text@
                == "Failed to find chapter body."@,
        },
        None => body is Err,
    }
}

/// The body of a chapter, from the elements of its page that hold one: the
/// markup of the first. No element, and markup that is white space
/// throughout, is an error.
pub fn body_of(elements: &Vec<HtmlElement>) -> (body: Result<String, PageError>)
    ensures
        first_or_none(body, Some(elements_view(*elements))),
{
    if elements.len() == 0 {
        return Err(PageError::WebParse(String::from_str("Failed to find chapter body.")));
    }
    assert(elements_view(*elements)[0] == elements@[0]@);
    if is_blank(elements[0].html.as_str()) {
        Err(PageError::WebParse(String::from_str("Failed to find chapter body.")))
    } else {
        Ok(elements[0].html.clone())
    }
}

/// The body of the chapter on a RoyalRoad page: the `chapter-inner` container
/// with all it holds.
pub fn get_chapter_body(page: &str) -> (body: Result<String, PageError>)
    ensures
        first_or_none(body, selected(page@, "div.chapter-inner"@, "id"@)),
{
    match select(page, "div.chapter-inner", "id") {
        Some(elements) => body_of(&elements),
        None => Err(PageError::WebParse(String::from_str("Failed to find chapter body."))),
    }
}

/// What a fiction's page can lack.
#[derive(Clone, Copy, Debug, PartialEq, Eq, Structural)]
pub enum PageFault {
    NoTitle,
    EmptyTitle,
    NoAuthor,
    EmptyAuthor,
}

/// The text that reports a fault.
pub open spec fn page_fault_text(fault: PageFault) -> Seq<char> {
    match fault {
        PageFault::NoTitle => "Failed to find title element on royalroad page."@,
        PageFault::EmptyTitle => "Empty title element on royalroad page."@,
        PageFault::NoAuthor => "Failed to find author element on royalroad page."@,
        PageFault::EmptyAuthor => "Empty author element on royalroad page."@,
    }
}

fn page_fault(fault: PageFault) -> (error: PageError)
    ensures
        error matches PageError::WebParse(text) && text@ == page_fault_text(fault),
{
    let text = match fault {
        PageFault::NoTitle => "Failed to find title element on royalroad page.",
        PageFault::EmptyTitle => "Empty title element on royalroad page.",
        PageFault::NoAuthor => "Failed to find author element on royalroad page.",
        PageFault::EmptyAuthor => "Empty author element on royalroad page.",
    };
    PageError::WebParse(String::from_str(text))
}

/// The title and the author of a fiction, from the elements of its page that
/// hold them: the trimmed text of the first of each, neither of them empty.
pub open spec fn title_and_author(
    titles: Seq<HtmlElementView>,
    authors: Seq<HtmlElementView>,
) -> Result<(Seq<char>, Seq<char>), PageFault> {
    match first_text(titles) {
        None => Err(PageFault::NoTitle),
        Some(title) => if title.len() == 0 {
            Err(PageFault::EmptyTitle)
        } else {
            match first_text(authors) {
                None => Err(PageFault::NoAuthor),
                Some(author) => if author.len() == 0 {
                    Err(PageFault::EmptyAuthor)
                } else {
                    Ok((title, author))
                },
            }
        },
    }
}

/// What was made is the book that was expected, or the error that reports
/// the expected fault.
pub open spec fn book_agrees(
    made: Result<NewBook, PageError>,
    expected: Result<(Seq<char>, Seq<char>), PageFault>,
    book_meta: RoyalRoadBookKind,
) -> bool {
    match (made, expected) {
        (Ok(book), Ok((title, author))) => book.is(title, author, BookKind::RoyalRoad(book_meta)),
        (Err(PageError::WebParse(text)), Err(fault)) => text@ == page_fault_text(fault),
        _ => false,
    }
}

/// The book that a fiction's page describes, from the elements that hold its
/// title and its author.
pub fn book_of(
    book_meta: &RoyalRoadBookKind,
    titles: &Vec<HtmlElement>,
    authors: &Vec<HtmlElement>,
) -> (made: Result<NewBook, PageError>)
    ensures
        book_agrees(
            made,
            title_and_author(elements_view(*titles), elements_view(*authors)),
            *book_meta,
        ),
{
    let title = match text_of_first(titles) {
        Some(title) => title,
        None => {
            return Err(page_fault(PageFault::NoTitle));
        },
    };
    if title.as_str().is_empty() {
        return Err(page_fault(PageFault::EmptyTitle));
    }
    let author = match text_of_first(authors) {
        Some(author) => author,
        None => {
            return Err(page_fault(PageFault::NoAuthor));
        },
    };
    if author.as_str().is_empty() {
        return Err(page_fault(PageFault::EmptyAuthor));
    }
    Ok(NewBook { name: title, author, metadata: BookKind::RoyalRoad(*book_meta) })
}

/// The book that the page of the fiction `book_meta` describes. The title is
/// the heading of the page's header and the author the name under it.
pub fn as_new_book(book_meta: &RoyalRoadBookKind, page: &str) -> (made: Result<
    NewBook,
    PageError,
>)
    ensures
        match (
            selected(page@, "div.fic-header h1"@, "id"@),
            selected(page@, "div.fic-header h4 span[property=name]"@, "id"@),
        ) {
            (Some(titles), Some(authors)) => book_agrees(
                made,
                title_and_author(titles, authors),
                *book_meta,
            ),
            _ => made is Err,
        },
{
    let titles = select(page, "div.fic-header h1", "id");
    let authors = select(page, "div.fic-header h4 span[property=name]", "id");
    match (titles, authors) {
        (Some(titles), Some(authors)) => book_of(book_meta, &titles, &authors),
        _ => Err(page_fault(PageFault::NoTitle)),
    }
}

} // verus!
