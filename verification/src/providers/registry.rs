//! Which provider serves a book, where its listing and its chapters' bodies
//! are to be had, and what is made of what was fetched.

use crate::models::{Book, BookKind, ChapterKind, NewBook, NewChapter};
use crate::providers::feed::{listing, listing_agrees, rss_channel, FeedError, FeedSource};
use crate::providers::html::{
    all_blank_or_body, entry_content, selected, PageError,
};
use crate::providers::mail::MailError;
use crate::providers::royalroad::{
    book_agrees, chapter_url, fiction_url, first_or_none, syndication_url, title_and_author,
};
use crate::text::decimal_spec;
use vstd::prelude::*;
use vstd::string::*;

verus! {

/// Where the chapters of a book are listed.
#[derive(Debug)]
pub enum Listing {
    /// A syndication feed at `url`; its items are read as items of `source`.
    Feed { url: String, source: FeedSource },
    /// The emails that announce The Wandering Inn to patrons.
    WanderingInnEmails,
    /// The emails that announce The Daily Grind to patrons.
    DailyGrindEmails,
}

/// The address of the feed of a book that has one.
pub open spec fn feed_url(kind: BookKind) -> Seq<char> {
    match kind {
        BookKind::RoyalRoad(fiction) => "https://www.royalroad.com/syndication/"@ + decimal_spec(
            fiction.id as nat,
        ),
        BookKind::Pale => "https://palewebserial.wordpress.com/feed/"@,
        BookKind::APracticalGuideToEvil => "https://practicalguidetoevil.wordpress.com/feed/"@,
        _ => "https://wanderinginn.com/feed/"@,
    }
}

/// The kind of feed of a book that has one.
pub open spec fn feed_source(kind: BookKind) -> FeedSource {
    match kind {
        BookKind::RoyalRoad(_) => FeedSource::RoyalRoad,
        BookKind::Pale => FeedSource::Pale,
        BookKind::APracticalGuideToEvil => FeedSource::APracticalGuideToEvil,
        _ => FeedSource::TheWanderingInn,
    }
}

/// Where the chapters of a book of this kind are listed. Every kind has
/// exactly one answer.
pub fn provider_for(kind: &BookKind) -> (place: Listing)
    ensures
        match *kind {
            BookKind::TheWanderingInnPatreon => place is WanderingInnEmails,
            BookKind::TheDailyGrindPatreon => place is DailyGrindEmails,
            _ => place matches Listing::Feed { url, source } && url@ == feed_url(*kind) && source
                == feed_source(*kind),
        },
{
    match kind {
        BookKind::RoyalRoad(fiction) => Listing::Feed {
            url: syndication_url(fiction.id),
            source: FeedSource::RoyalRoad,
        },
        BookKind::Pale => Listing::Feed {
            url: String::from_str("https://palewebserial.wordpress.com/feed/"),
            source: FeedSource::Pale,
        },
        BookKind::APracticalGuideToEvil => Listing::Feed {
            url: String::from_str("https://practicalguidetoevil.wordpress.com/feed/"),
            source: FeedSource::APracticalGuideToEvil,
        },
        BookKind::TheWanderingInn => Listing::Feed {
            url: String::from_str("https://wanderinginn.com/feed/"),
            source: FeedSource::TheWanderingInn,
        },
        BookKind::TheWanderingInnPatreon => Listing::WanderingInnEmails,
        BookKind::TheDailyGrindPatreon => Listing::DailyGrindEmails,
    }
}

/// The author that the chapters of a book's feed are given: the book's own
/// for RoyalRoad, the serial's for the others.
pub open spec fn feed_author(book: Book) -> Seq<char> {
    match book.metadata {
        BookKind::RoyalRoad(_) => book.author@,
        BookKind::Pale => "Wildbow"@,
        BookKind::APracticalGuideToEvil => "erraticerrata"@,
        _ => "Pirateaba"@,
    }
}

/// The chapters that the feed of `book` lists; `content` is the document
/// fetched from the feed's address.
pub fn chapters_of_feed(book: &Book, content: &[u8]) -> (made: Result<Vec<NewChapter>, FeedError>)
    ensures
        match rss_channel(content@) {
            Some(feed) => listing_agrees(
                feed_source(book.metadata),
                made,
                listing(
                    feed_source(book.metadata),
                    feed,
                    feed.items.len() as int,
                    book.id,
                    feed_author(*book),
                ),
            ),
            None => made matches Err(FeedError::Rss(_)),
        },
{
    match book.metadata {
        BookKind::RoyalRoad(_) => crate::providers::royalroad::get_chapters(
            content,
            book.id,
            book.author.as_str(),
        ),
        BookKind::Pale => crate::providers::pale::get_chapters(content, book.id),
        BookKind::APracticalGuideToEvil => crate::providers::practical_guide::get_chapters(
            content,
            book.id,
        ),
        _ => crate::providers::wandering_inn::get_chapters(content, book.id),
    }
}

/// The chapters of all `outcomes` that are no error, in their order. An email
/// that is not an announcement, or cannot be read, gives an error and is
/// passed over.
pub open spec fn announced_chapters(outcomes: Seq<Result<Vec<NewChapter>, MailError>>) -> Seq<
    NewChapter,
>
    decreases outcomes.len(),
{
    if outcomes.len() == 0 {
        Seq::empty()
    } else {
        let before = announced_chapters(outcomes.drop_last());
        match outcomes.last() {
            Ok(chapters) => before + chapters@,
            Err(_) => before,
        }
    }
}

/// Puts together what the emails of the bucket announce, passing over those
/// that gave an error.
pub fn collect_announced(outcomes: Vec<Result<Vec<NewChapter>, MailError>>) -> (chapters: Vec<
    NewChapter,
>)
    ensures
        chapters@ == announced_chapters(outcomes@),
{
    let mut chapters: Vec<NewChapter> = Vec::new();
    let mut i: usize = 0;
    assert(outcomes@.take(0) == Seq::<Result<Vec<NewChapter>, MailError>>::empty());
    while i < outcomes.len()
        invariant
            i <= outcomes.len(),
            chapters@ == announced_chapters(outcomes@.take(i as int)),
        decreases outcomes.len() - i,
    {
        assert(outcomes@.take(i + 1).drop_last() == outcomes@.take(i as int));
        assert(outcomes@.take(i + 1).last() == outcomes@[i as int]);
        if let Ok(found) = &outcomes[i] {
            let ghost before = chapters@;
            let mut k: usize = 0;
            while k < found.len()
                invariant
                    k <= found.len(),
                    chapters@ == before + found@.take(k as int),
                decreases found.len() - k,
            {
                chapters.push(found[k].clone());
                assert(found@.take(k + 1) == found@.take(k as int).push(found@[k as int]));
                k = k + 1;
            }
            assert(found@.take(found.len() as int) == found@);
        }
        i = i + 1;
    }
    assert(outcomes@.take(outcomes.len() as int) == outcomes@);
    chapters
}

/// The address of the page that describes a book whose name and author are
/// not known beforehand.
pub fn book_page(kind: &BookKind) -> (url: Option<String>)
    ensures
        match *kind {
            BookKind::RoyalRoad(fiction) => url matches Some(text) && text@
                == "https://royalroad.com/fiction/"@ + decimal_spec(fiction.id as nat),
            _ => url is None,
        },
{
    match kind {
        BookKind::RoyalRoad(fiction) => Some(fiction_url(fiction)),
        _ => None,
    }
}

/// The book of `kind` agrees with what its provider gives.
pub open spec fn new_book_agrees(
    made: Result<NewBook, PageError>,
    kind: BookKind,
    page: Seq<char>,
) -> bool {
    match kind {
        BookKind::RoyalRoad(fiction) => match (
            selected(page, "div.fic-header h1"@, "id"@),
            selected(page, "div.fic-header h4 span[property=name]"@, "id"@),
        ) {
            (Some(titles), Some(authors)) => book_agrees(
                made,
                title_and_author(titles, authors),
                fiction,
            ),
            _ => made is Err,
        },
        BookKind::Pale => made matches Ok(book) && book.is("Pale"@, "Wildbow"@, kind),
        BookKind::APracticalGuideToEvil => made matches Ok(book) && book.is(
            "A Practical Guide To Evil"@,
            "erraticerrata"@,
            kind,
        ),
        BookKind::TheWanderingInn => made matches Ok(book) && book.is(
            "The Wandering Inn"@,
            "Pirateaba"@,
            kind,
        ),
        BookKind::TheWanderingInnPatreon => made matches Ok(book) && book.is(
            "The Wandering Inn"@,
            "Pirateaba"@,
            kind,
        ),
        BookKind::TheDailyGrindPatreon => made matches Ok(book) && book.is(
            "The Daily Grind"@,
            "argusthecat"@,
            kind,
        ),
    }
}

/// The book of `kind` as it is stored when a user asks for it first. `page`
/// is what was fetched from the address that `book_page` gives; for a book
/// whose name and author are fixed it plays no part.
pub fn to_new_book(kind: &BookKind, page: &str) -> (made: Result<NewBook, PageError>)
    ensures
        new_book_agrees(made, *kind, page@),
{
    match kind {
        BookKind::RoyalRoad(fiction) => crate::providers::royalroad::as_new_book(fiction, page),
        BookKind::Pale => Ok(crate::providers::pale::get_book()),
        BookKind::APracticalGuideToEvil => Ok(crate::providers::practical_guide::get_book()),
        BookKind::TheWanderingInn => Ok(crate::providers::wandering_inn::get_book()),
        BookKind::TheWanderingInnPatreon => Ok(crate::providers::wandering_inn_patreon::get_book()),
        BookKind::TheDailyGrindPatreon => Ok(crate::providers::the_daily_grind_patreon::get_book()),
    }
}

/// Where the body of a chapter is to be had.
#[derive(Debug)]
pub enum BodySource {
    /// On the page at `url`, which `password` opens where it is given.
    Page { url: String, password: Option<String> },
    /// In the chapter's own identity.
    Embedded,
}

/// The address of the page that holds a chapter's body.
pub open spec fn page_url(metadata: ChapterKind) -> Option<Seq<char>> {
    match metadata {
        ChapterKind::RoyalRoad { id } => Some(
            "https://www.royalroad.com/fiction/chapter/"@ + decimal_spec(id as nat),
        ),
        ChapterKind::Pale { url } => Some(url@),
        ChapterKind::APracticalGuideToEvil { url } => Some(url@),
        ChapterKind::TheWanderingInn { url } => Some(url@),
        ChapterKind::TheWanderingInnPatreon { url, .. } => Some(url@),
        ChapterKind::TheDailyGrindPatreon { .. } => None,
    }
}

/// Where the body of the chapter with this identity is to be had.
pub fn body_source(metadata: &ChapterKind) -> (place: BodySource)
    ensures
        match place {
            BodySource::Page { url, password } => page_url(*metadata) == Some(url@) && (
            match *metadata {
                ChapterKind::TheWanderingInnPatreon { password: given, .. } => password == given,
                _ => password is None,
            }),
            BodySource::Embedded => page_url(*metadata) is None,
        },
{
    match metadata {
        ChapterKind::RoyalRoad { id } => BodySource::Page { url: chapter_url(*id), password: None },
        ChapterKind::Pale { url } => BodySource::Page { url: url.clone(), password: None },
        ChapterKind::APracticalGuideToEvil { url } => BodySource::Page {
            url: url.clone(),
            password: None,
        },
        ChapterKind::TheWanderingInn { url } => BodySource::Page {
            url: url.clone(),
            password: None,
        },
        ChapterKind::TheWanderingInnPatreon { url, password } => {
            let password = match password {
                Some(p) => Some(p.clone()),
                None => None,
            };
            BodySource::Page { url: url.clone(), password }
        },
        ChapterKind::TheDailyGrindPatreon { .. } => BodySource::Embedded,
    }
}

/// The body of a chapter that carries it: a heading with the book's and the
/// chapter's name, then what the chapter carries.
pub open spec fn embedded_body(book: Book, chapter: NewChapter, html: Seq<char>) -> Seq<char> {
    "<h1>"@ + book.name@ + ": "@ + chapter.name@ + "</h1>"@ + html
}

/// The body of a chapter of the library agrees with the page it came from.
pub open spec fn body_agrees(
    body: Result<String, PageError>,
    chapter: NewChapter,
    book: Book,
    page: Seq<char>,
) -> bool {
    match chapter.metadata {
        ChapterKind::TheDailyGrindPatreon { html } => body matches Ok(markup) && markup@
            == embedded_body(book, chapter, html@) && markup@.len() > 0,
        ChapterKind::RoyalRoad { .. } => first_or_none(
            body,
            selected(page, "div.chapter-inner"@, "id"@),
        ),
        _ => all_blank_or_body(body, selected(page, entry_content(), "id"@)),
    }
}

/// The body of `chapter`. `page` is what was fetched from the address that
/// `body_source` gives; for a chapter that carries its body it plays no part.
pub fn fetch_chapter_body(chapter: &NewChapter, book: &Book, page: &str) -> (body: Result<
    String,
    PageError,
>)
    ensures
        body_agrees(body, *chapter, *book, page@),
{
    match &chapter.metadata {
        ChapterKind::RoyalRoad { .. } => crate::providers::royalroad::get_chapter_body(page),
        ChapterKind::Pale { .. } => crate::providers::pale::get_chapter_body(page),
        ChapterKind::APracticalGuideToEvil { .. } => crate::providers::practical_guide::get_chapter_body(
            page,
        ),
        ChapterKind::TheWanderingInn { .. } => crate::providers::wandering_inn::get_chapter_body(
            page,
        ),
        ChapterKind::TheWanderingInnPatreon { .. } => crate::providers::wandering_inn_patreon::get_chapter_body(
            page,
        ),
        ChapterKind::TheDailyGrindPatreon { html } => {
            let mut body = String::from_str("<h1>");
            body.append(book.name.as_str());
            body.append(": ");
            body.append(chapter.name.as_str());
            body.append("</h1>");
            body.append(html.as_str());
            proof {
                reveal_strlit("<h1>");
            }
            Ok(body)
        },
    }
}

} // verus!
