//! Syndication feeds: each item of a provider's feed is one chapter.

use crate::models::{
    opt_view, ChapterKind, ChapterKindView, Id, NewChapter, NewChapterView, Timestamp,
};
use crate::text::{
    after_last, chars_of, copy_range, lemma_last_index_of, parse_u64, parse_u64_spec, rfind_char,
    split_once, split_once_spec, string_of, trim, trimmed,
};
use crate::util::{rfc2822_instant, rfc2822_micros};
use vstd::prelude::*;
use vstd::string::*;

verus! {

/// The error of `rss::Channel::read_from`, carried as it is.
#[verifier::external_type_specification]
#[verifier::external_body]
pub struct ExRssError(rss::Error);

/// What went wrong with a listing.
#[derive(Debug)]
pub enum FeedError {
    /// The bytes are no RSS channel.
    Rss(rss::Error),
    /// An item lacks what a chapter needs; the text says what.
    RssContents(String),
}

/// One item of a feed: what a chapter is made from.
#[derive(Debug)]
pub struct FeedItem {
    pub title: Option<String>,
    pub link: Option<String>,
    pub pub_date: Option<String>,
}

/// The mathematical value of a `FeedItem`.
pub struct FeedItemView {
    pub title: Option<Seq<char>>,
    pub link: Option<Seq<char>>,
    pub pub_date: Option<Seq<char>>,
}

impl View for FeedItem {
    type V = FeedItemView;

    open spec fn view(&self) -> FeedItemView {
        FeedItemView {
            title: opt_view(self.title),
            link: opt_view(self.link),
            pub_date: opt_view(self.pub_date),
        }
    }
}

/// A feed: its title and its items, in the order of the document.
#[derive(Debug)]
pub struct Feed {
    pub title: String,
    pub items: Vec<FeedItem>,
}

/// The mathematical value of a `Feed`.
pub struct FeedView {
    pub title: Seq<char>,
    pub items: Seq<FeedItemView>,
}

impl View for Feed {
    type V = FeedView;

    open spec fn view(&self) -> FeedView {
        FeedView { title: self.title@, items: self.items@.map_values(|item: FeedItem| item@) }
    }
}

/// The channel that an RSS document holds, or `None` where the bytes are no
/// such document.
pub uninterp spec fn rss_channel(content: Seq<u8>) -> Option<FeedView>;

/// Reads an RSS channel. Trusted: `rss::Channel::read_from`, with the
/// channel's `title` and each item's `title`, `link` and `pub_date` read off
/// the result. The outcome depends on the bytes alone.
#[verifier::external_body]
pub(crate) fn read_channel(content: &[u8]) -> (read: Result<Feed, rss::Error>)
    ensures
        match read {
            Ok(feed) => rss_channel(content@) == Some(feed@),
            Err(_) => rss_channel(content@) is None,
        },
{
    let channel = rss::Channel::read_from(content)?;
    let items = channel.items().iter().map(
        |item|
            FeedItem {
                title: item.title().map(String::from),
                link: item.link().map(String::from),
                pub_date: item.pub_date().map(String::from),
            },
    ).collect();
    Ok(Feed { title: channel.title().to_string(), items })
}

/// The providers that publish a feed.
#[derive(Clone, Copy, Debug, PartialEq, Eq, Structural)]
pub enum FeedSource {
    RoyalRoad,
    Pale,
    APracticalGuideToEvil,
    TheWanderingInn,
}

/// What an item can lack.
#[derive(Clone, Copy, Debug, PartialEq, Eq, Structural)]
pub enum FeedFault {
    Link,
    Title,
    Date,
}

/// The text that reports a fault.
pub open spec fn fault_text(source: FeedSource, fault: FeedFault) -> Seq<char> {
    match fault {
        FeedFault::Link => if source == FeedSource::RoyalRoad {
            "No valid royalroad chapter link in RSS Item."@
        } else {
            "No chapter link in RSS item."@
        },
        FeedFault::Title => if source == FeedSource::RoyalRoad {
            "No valid royalroad chapter title in RSS Item."@
        } else {
            "No chapter title in RSS item."@
        },
        FeedFault::Date => "No valid published date in RSS Item"@,
    }
}

/// The error that reports a fault.
pub fn fault_error(source: FeedSource, lacking: FeedFault) -> (error: FeedError)
    ensures
        error matches FeedError::RssContents(text) && text@ == fault_text(source, lacking),
{
    let text = match lacking {
        FeedFault::Link => match source {
            FeedSource::RoyalRoad => "No valid royalroad chapter link in RSS Item.",
            _ => "No chapter link in RSS item.",
        },
        FeedFault::Title => match source {
            FeedSource::RoyalRoad => "No valid royalroad chapter title in RSS Item.",
            _ => "No chapter title in RSS item.",
        },
        FeedFault::Date => "No valid published date in RSS Item",
    };
    FeedError::RssContents(String::from_str(text))
}

/// The number of a RoyalRoad chapter: what follows the last `/` of its link,
/// read as a number.
pub open spec fn chapter_id_of_link(link: Option<Seq<char>>) -> Option<u64> {
    match link {
        Some(text) => match after_last(text, '/') {
            Some(tail) => parse_u64_spec(tail),
            None => None,
        },
        None => None,
    }
}

/// The number of the RoyalRoad chapter that `link` leads to.
pub fn get_chapter_id_from_link(link: Option<&str>) -> (id: Result<u64, FeedError>)
    ensures
        match id {
            Ok(n) => chapter_id_of_link(str_view(link)) == Some(n),
            Err(FeedError::RssContents(text)) => chapter_id_of_link(
                str_view(link),
            ) is None && text@ == fault_text(FeedSource::RoyalRoad, FeedFault::Link),
            Err(_) => false,
        },
{
    if let Some(text) = link {
        let chars = chars_of(text);
        proof {
            lemma_last_index_of(chars@, '/');
        }
        if let Some(at) = rfind_char(&chars, '/') {
            let tail = copy_range(&chars, at + 1, chars.len());
            if let Some(n) = parse_u64(&tail) {
                return Ok(n);
            }
        }
    }
    Err(fault_error(FeedSource::RoyalRoad, FeedFault::Link))
}

/// The characters of an optional string slice.
pub open spec fn str_view(s: Option<&str>) -> Option<Seq<char>> {
    match s {
        Some(t) => Some(t@),
        None => None,
    }
}

/// The name of a RoyalRoad chapter. The feed puts the book's title and
/// ` - ` in front of it: where the item's title holds that, the name is what
/// follows, trimmed; else the whole title.
pub open spec fn royalroad_title(item_title: Seq<char>, channel_title: Seq<char>) -> Seq<char> {
    match split_once_spec(item_title, channel_title + " - "@) {
        Some((_, chapter_title)) => trimmed(chapter_title),
        None => item_title,
    }
}

/// The name of the RoyalRoad chapter that a feed item stands for.
pub fn get_chapter_title_from_rss(item_title: Option<&str>, channel_title: &str) -> (title: Result<
    String,
    FeedError,
>)
    ensures
        match title {
            Ok(name) => item_title matches Some(text) && name@ == royalroad_title(
                text@,
                channel_title@,
            ),
            Err(FeedError::RssContents(text)) => item_title is None && text@ == fault_text(
                FeedSource::RoyalRoad,
                FeedFault::Title,
            ),
            Err(_) => false,
        },
{
    match item_title {
        Some(text) => {
            let mut prefix = String::from_str(channel_title);
            prefix.append(" - ");
            let hay = chars_of(text);
            let pattern = chars_of(prefix.as_str());
            match split_once(&hay, &pattern) {
                Some((_, right)) => {
                    let kept = trim(&right);
                    Ok(string_of(&kept))
                },
                None => Ok(String::from_str(text)),
            }
        },
        None => Err(fault_error(FeedSource::RoyalRoad, FeedFault::Title)),
    }
}

/// The identity of the chapter that an item of `source` stands for.
pub open spec fn item_kind(source: FeedSource, link: Option<Seq<char>>) -> Option<ChapterKindView> {
    match source {
        FeedSource::RoyalRoad => match chapter_id_of_link(link) {
            Some(id) => Some(ChapterKindView::RoyalRoad { id }),
            None => None,
        },
        FeedSource::Pale => match link {
            Some(url) => Some(ChapterKindView::Pale { url }),
            None => None,
        },
        FeedSource::APracticalGuideToEvil => match link {
            Some(url) => Some(ChapterKindView::APracticalGuideToEvil { url }),
            None => None,
        },
        FeedSource::TheWanderingInn => match link {
            Some(url) => Some(ChapterKindView::TheWanderingInn { url }),
            None => None,
        },
    }
}

/// The name of the chapter that an item of `source` stands for.
pub open spec fn item_name(source: FeedSource, title: Option<Seq<char>>, channel_title: Seq<char>) -> Option<
    Seq<char>,
> {
    match title {
        Some(text) => if source == FeedSource::RoyalRoad {
            Some(royalroad_title(text, channel_title))
        } else {
            Some(text)
        },
        None => None,
    }
}

/// The chapter that one item stands for, or what the item lacks. The link is
/// looked at first, then the title, then the date; `published_at` is the
/// instant that the item's date names, `None` where it has no date or one
/// that cannot be read.
pub open spec fn item_chapter(
    source: FeedSource,
    item: FeedItemView,
    channel_title: Seq<char>,
    published_at: Option<Timestamp>,
    book_id: Id,
    author: Seq<char>,
) -> Result<NewChapterView, FeedFault> {
    match item_kind(source, item.link) {
        None => Err(FeedFault::Link),
        Some(metadata) => match item_name(source, item.title, channel_title) {
            None => Err(FeedFault::Title),
            Some(name) => match published_at {
                None => Err(FeedFault::Date),
                Some(at) => Ok(
                    NewChapterView { name, author, book_id, metadata, published_at: at },
                ),
            },
        },
    }
}

/// What was made is the chapter that was expected, or the error that
/// reports the expected fault.
pub open spec fn agrees(
    source: FeedSource,
    made: Result<NewChapter, FeedError>,
    expected: Result<NewChapterView, FeedFault>,
) -> bool {
    match (made, expected) {
        (Ok(chapter), Ok(view)) => chapter@ == view,
        (Err(FeedError::RssContents(text)), Err(fault)) => text@ == fault_text(source, fault),
        _ => false,
    }
}

/// Makes the chapter that `item` stands for. `published_at` is the instant
/// that the item's date names, `None` where the date is missing or cannot be
/// read. An item without a usable link, title or date gives the error that
/// names the first of them.
pub fn chapter_of_item(
    source: FeedSource,
    item: &FeedItem,
    channel_title: &str,
    published_at: Option<Timestamp>,
    book_id: Id,
    author: &str,
) -> (made: Result<NewChapter, FeedError>)
    ensures
        agrees(
            source,
            made,
            item_chapter(source, item@, channel_title@, published_at, book_id, author@),
        ),
{
    let metadata = match source {
        FeedSource::RoyalRoad => {
            let link: Option<&str> = match &item.link {
                Some(text) => Some(text.as_str()),
                None => None,
            };
            match get_chapter_id_from_link(link) {
                Ok(id) => ChapterKind::RoyalRoad { id },
                Err(e) => {
                    return Err(e);
                },
            }
        },
        _ => match &item.link {
            Some(url) => match source {
                FeedSource::Pale => ChapterKind::Pale { url: url.clone() },
                FeedSource::APracticalGuideToEvil => ChapterKind::APracticalGuideToEvil {
                    url: url.clone(),
                },
                _ => ChapterKind::TheWanderingInn { url: url.clone() },
            },
            None => {
                return Err(fault_error(source, FeedFault::Link));
            },
        },
    };
    let name = match source {
        FeedSource::RoyalRoad => {
            let title: Option<&str> = match &item.title {
                Some(text) => Some(text.as_str()),
                None => None,
            };
            match get_chapter_title_from_rss(title, channel_title) {
                Ok(name) => name,
                Err(e) => {
                    return Err(e);
                },
            }
        },
        _ => match &item.title {
            Some(text) => text.clone(),
            None => {
                return Err(fault_error(source, FeedFault::Title));
            },
        },
    };
    match published_at {
        Some(at) => Ok(
            NewChapter {
                name,
                author: String::from_str(author),
                book_id,
                metadata,
                published_at: at,
            },
        ),
        None => Err(fault_error(source, FeedFault::Date)),
    }
}

/// The instant that an item's date names.
pub open spec fn item_instant(pub_date: Option<Seq<char>>) -> Option<Timestamp> {
    match pub_date {
        Some(text) => rfc2822_instant(text),
        None => None,
    }
}

/// The chapters that the first `n` items of a feed stand for, or the fault of
/// the first item that lacks something.
pub open spec fn listing(
    source: FeedSource,
    feed: FeedView,
    n: int,
    book_id: Id,
    author: Seq<char>,
) -> Result<Seq<NewChapterView>, FeedFault>
    decreases n,
{
    if n <= 0 {
        Ok(Seq::empty())
    } else {
        match listing(source, feed, n - 1, book_id, author) {
            Err(fault) => Err(fault),
            Ok(before) => match item_chapter(
                source,
                feed.items[n - 1],
                feed.title,
                item_instant(feed.items[n - 1].pub_date),
                book_id,
                author,
            ) {
                Err(fault) => Err(fault),
                Ok(chapter) => Ok(before.push(chapter)),
            },
        }
    }
}

/// The chapters hold the given values, one for one.
pub open spec fn chapters_are(chapters: Seq<NewChapter>, views: Seq<NewChapterView>) -> bool {
    chapters.len() == views.len() && forall|k: int|
        0 <= k < chapters.len() ==> (#[trigger] chapters[k])@ == views[k]
}

/// What was made are the chapters that were expected, or the error that
/// reports the expected fault.
pub open spec fn listing_agrees(
    source: FeedSource,
    made: Result<Vec<NewChapter>, FeedError>,
    expected: Result<Seq<NewChapterView>, FeedFault>,
) -> bool {
    match (made, expected) {
        (Ok(chapters), Ok(views)) => chapters_are(chapters@, views),
        (Err(FeedError::RssContents(text)), Err(fault)) => text@ == fault_text(source, fault),
        _ => false,
    }
}

/// The chapters of a feed, one for each item and in the items' order. One
/// item that lacks its link, title or date fails the whole listing.
pub fn chapters_of_feed(source: FeedSource, feed: &Feed, book_id: Id, author: &str) -> (made: Result<
    Vec<NewChapter>,
    FeedError,
>)
    ensures
        listing_agrees(
            source,
            made,
            listing(source, feed@, feed.items@.len() as int, book_id, author@),
        ),
{
    let mut chapters: Vec<NewChapter> = Vec::new();
    let mut i: usize = 0;
    while i < feed.items.len()
        invariant
            i <= feed.items.len(),
            listing(source, feed@, i as int, book_id, author@) is Ok,
            chapters_are(chapters@, listing(source, feed@, i as int, book_id, author@).unwrap()),
        decreases feed.items.len() - i,
    {
        let item = &feed.items[i];
        assert(feed@.items[i as int] == item@);
        let published_at = match &item.pub_date {
            Some(text) => match rfc2822_micros(text.as_str()) {
                Ok(at) => Some(at),
                Err(_) => None,
            },
            None => None,
        };
        match chapter_of_item(source, item, feed.title.as_str(), published_at, book_id, author) {
            Ok(chapter) => {
                chapters.push(chapter);
            },
            Err(e) => {
                proof {
                    lemma_listing_fails(
                        source,
                        feed@,
                        i + 1,
                        feed.items@.len() as int,
                        book_id,
                        author@,
                    );
                }
                return Err(e);
            },
        }
        i = i + 1;
    }
    Ok(chapters)
}

/// A listing that fails at some item fails the same way however many items
/// follow.
proof fn lemma_listing_fails(
    source: FeedSource,
    feed: FeedView,
    n: int,
    m: int,
    book_id: Id,
    author: Seq<char>,
)
    requires
        0 <= n <= m,
        listing(source, feed, n, book_id, author) is Err,
    ensures
        listing(source, feed, m, book_id, author) == listing(source, feed, n, book_id, author),
    decreases m - n,
{
    if n < m {
        lemma_listing_fails(source, feed, n, m - 1, book_id, author);
    }
}

/// The chapters that an RSS document lists for a book. The bytes are read as
/// an RSS channel; each item gives one chapter, its date read as an RFC 2822
/// date. Bytes that are no channel, and an item that lacks its link, title or
/// a readable date, fail the listing.
pub fn get_chapters(source: FeedSource, content: &[u8], book_id: Id, author: &str) -> (made: Result<
    Vec<NewChapter>,
    FeedError,
>)
    ensures
        match rss_channel(content@) {
            Some(feed) => listing_agrees(
                source,
                made,
                listing(source, feed, feed.items.len() as int, book_id, author@),
            ),
            None => made matches Err(FeedError::Rss(_)),
        },
{
    match read_channel(content) {
        Ok(feed) => chapters_of_feed(source, &feed, book_id, author),
        Err(e) => Err(FeedError::Rss(e)),
    }
}

} // verus!
