use cereal::controllers::books::{book_kind_of_parts, get_book_metadata};
use cereal::models::{Book, BookKind, ChapterKind, NewChapter, RoyalRoadBookKind};
use cereal::providers::feed::{
    chapter_of_item, chapters_of_feed, get_chapter_id_from_link, get_chapter_title_from_rss, Feed,
    FeedError, FeedItem, FeedSource,
};
use cereal::providers::html::{
    chapter_body, concatenate_texts, holds_text, text_of_first, HtmlElement, PageError,
};
use cereal::providers::mail::{Mail, MailError};
use cereal::providers::registry::{
    body_source, book_page, chapters_of_feed as chapters_of_book_feed, collect_announced,
    fetch_chapter_body, provider_for, to_new_book, BodySource, Listing,
};
use cereal::providers::{
    pale, practical_guide, royalroad, the_daily_grind_patreon, wandering_inn,
    wandering_inn_patreon,
};
use cereal::providers::the_daily_grind_patreon::{chapter_of_mail, chapter_title_from_subject};
use cereal::providers::wandering_inn_patreon::{
    body_of_mail, chapter_title_from_link, chapters_of_links, password_from,
};
use cereal::util::{check_host, parse_from_rfc2822, validate_hostname, UrlError, UrlParts};

const BOOK: u128 = 11;

fn parts(scheme: &str, host: Option<&str>, path: &str) -> UrlParts {
    UrlParts { scheme: scheme.into(), host: host.map(String::from), path: path.into() }
}

fn url_text(result: Result<(), UrlError>) -> String {
    match result {
        Err(UrlError::Url(text)) => text,
        other => panic!("expected a refusal, got {:?}", other),
    }
}

#[test]
fn a_host_is_accepted_only_letter_for_letter() {
    assert!(check_host(&parts("https", Some("wanderinginn.com"), "/"), "wanderinginn.com").is_ok());
    assert_eq!(
        url_text(check_host(&parts("https", Some("WanderingInn.com"), "/"), "wanderinginn.com")),
        "Provided hostname WanderingInn.com is not wanderinginn.com."
    );
    assert_eq!(
        url_text(check_host(&parts("https", Some("www.wanderinginn.com"), "/"), "wanderinginn.com")),
        "Provided hostname www.wanderinginn.com is not wanderinginn.com."
    );
    assert_eq!(
        url_text(check_host(&parts("data", None, "text"), "wanderinginn.com")),
        "Url has no host."
    );
}

#[test]
fn validate_hostname_reads_the_url_first() {
    assert!(validate_hostname("https://wanderinginn.com/2024/01/01/ch", "wanderinginn.com").is_ok());
    assert!(validate_hostname("https://wanderinginn.com:8080", "wanderinginn.com").is_ok());
    assert!(matches!(
        validate_hostname("https://wanderinginn.org/", "wanderinginn.com"),
        Err(UrlError::Url(_))
    ));
    assert!(matches!(
        validate_hostname("not a url", "wanderinginn.com"),
        Err(UrlError::Parse(_))
    ));
    assert!(matches!(
        validate_hostname("mailto:a@wanderinginn.com", "wanderinginn.com"),
        Err(UrlError::Url(_))
    ));
}

#[test]
fn each_wordpress_provider_takes_its_own_host_only() {
    assert!(pale::try_parse_url("https://palewebserial.wordpress.com/2020/05/05/blood-run-cold-0-0/").is_ok());
    assert!(pale::try_parse_url("https://practicalguidetoevil.wordpress.com/").is_err());
    assert!(practical_guide::try_parse_url("https://practicalguidetoevil.wordpress.com/2015/03/25/prologue/").is_ok());
    assert!(practical_guide::try_parse_url("https://palewebserial.wordpress.com/").is_err());
    assert!(wandering_inn::try_parse_url("https://wanderinginn.com/2016/07/27/1-00/").is_ok());
    assert!(wandering_inn::try_parse_url("https://www.wanderinginn.com/2016/07/27/1-00/").is_err());
    assert!(wandering_inn::try_parse_url("wanderinginn.com").is_err());
}

#[test]
fn patreon_addresses_have_their_own_scheme() {
    assert!(wandering_inn_patreon::try_parse_url("patreon://wanderinginn.com").is_ok());
    assert!(wandering_inn_patreon::try_parse_url("https://wanderinginn.com").is_err());
    assert!(wandering_inn_patreon::try_parse_url("patreon://thedailygrind.com").is_err());
    assert!(matches!(
        wandering_inn_patreon::try_parse_url("patreon"),
        Err(UrlError::Parse(_))
    ));
    assert!(the_daily_grind_patreon::try_parse_url("patreon://thedailygrind.com").is_ok());
    assert!(the_daily_grind_patreon::try_parse_url("patreon://wanderinginn.com").is_err());
    assert_eq!(
        url_text(the_daily_grind_patreon::check_url(&parts("https", Some("thedailygrind.com"), "/"))),
        "Not a patreon daily grind url."
    );
    assert_eq!(
        url_text(wandering_inn_patreon::check_url(&parts("patreon", None, ""))),
        "Not a patreon wandering inn url."
    );
}

fn royalroad_text(result: Result<RoyalRoadBookKind, UrlError>) -> String {
    match result {
        Err(UrlError::Url(text)) => text,
        other => panic!("expected a refusal, got {:?}", other),
    }
}

#[test]
fn a_royalroad_fiction_is_named_by_its_number() {
    assert_eq!(
        royalroad::try_parse_url("https://www.royalroad.com/fiction/21220/mother-of-learning").unwrap(),
        RoyalRoadBookKind { id: 21220 }
    );
    assert_eq!(
        royalroad::try_parse_url("https://royalroad.com/fiction/7").unwrap(),
        RoyalRoadBookKind { id: 7 }
    );
    assert_eq!(
        royalroad::book_kind_of(&parts("https", Some("royalroad.com"), "/fiction/+12/x")).unwrap(),
        RoyalRoadBookKind { id: 12 }
    );
}

#[test]
fn a_royalroad_address_is_refused_for_its_first_fault() {
    assert_eq!(
        royalroad_text(royalroad::try_parse_url("https://royalroad.org/fiction/1")),
        "Provided hostname is not www.royalroad.com or royalroad.com."
    );
    assert_eq!(
        royalroad_text(royalroad::book_kind_of(&parts("https", None, "/fiction/1"))),
        "Provided hostname is not www.royalroad.com or royalroad.com."
    );
    assert_eq!(
        royalroad_text(royalroad::book_kind_of(&parts("x", Some("royalroad.com"), "fiction/1"))),
        "No path provided."
    );
    assert_eq!(
        royalroad_text(royalroad::try_parse_url("https://www.royalroad.com/profile/1")),
        "Url does not correspond to a book."
    );
    assert_eq!(
        royalroad_text(royalroad::try_parse_url("https://www.royalroad.com/")),
        "Url does not correspond to a book."
    );
    assert_eq!(
        royalroad_text(royalroad::try_parse_url("https://www.royalroad.com/fiction")),
        "Book id not valid."
    );
    assert_eq!(
        royalroad_text(royalroad::try_parse_url("https://www.royalroad.com/fiction/abc")),
        "Book id not valid."
    );
    assert_eq!(
        royalroad_text(royalroad::try_parse_url("https://www.royalroad.com/fiction/")),
        "Book id not valid."
    );
    assert!(matches!(royalroad::try_parse_url("royalroad"), Err(UrlError::Parse(_))));
}

#[test]
fn royalroad_addresses_are_made_from_numbers() {
    assert_eq!(royalroad::syndication_url(21220), "https://www.royalroad.com/syndication/21220");
    assert_eq!(royalroad::chapter_url(301778), "https://www.royalroad.com/fiction/chapter/301778");
    assert_eq!(
        royalroad::fiction_url(&RoyalRoadBookKind { id: 0 }),
        "https://royalroad.com/fiction/0"
    );
}

#[test]
fn a_book_is_found_by_its_address() {
    assert_eq!(
        get_book_metadata("https://www.royalroad.com/fiction/5/x").unwrap(),
        BookKind::RoyalRoad(RoyalRoadBookKind { id: 5 })
    );
    assert_eq!(get_book_metadata("https://palewebserial.wordpress.com/x").unwrap(), BookKind::Pale);
    assert_eq!(
        get_book_metadata("https://practicalguidetoevil.wordpress.com/").unwrap(),
        BookKind::APracticalGuideToEvil
    );
    assert_eq!(get_book_metadata("https://wanderinginn.com/").unwrap(), BookKind::TheWanderingInn);
    assert_eq!(
        get_book_metadata("patreon://wanderinginn.com").unwrap(),
        BookKind::TheWanderingInn
    );
    assert_eq!(
        url_text(get_book_metadata("https://example.com/").map(|_| ())),
        "Failed to parse url https://example.com/ into book metadata"
    );
    assert_eq!(
        url_text(get_book_metadata("nothing").map(|_| ())),
        "Failed to parse url nothing into book metadata"
    );
    assert_eq!(book_kind_of_parts(&parts("https", None, "/")), None);
}

#[test]
fn a_new_book_is_made_by_its_provider() {
    assert_eq!(
        book_page(&BookKind::RoyalRoad(RoyalRoadBookKind { id: 8 })),
        Some("https://royalroad.com/fiction/8".to_string())
    );
    assert_eq!(book_page(&BookKind::Pale), None);
    let pale_book = to_new_book(&BookKind::Pale, "").unwrap();
    assert_eq!((pale_book.name.as_str(), pale_book.metadata), ("Pale", BookKind::Pale));
    let grind = to_new_book(&BookKind::TheDailyGrindPatreon, "").unwrap();
    assert_eq!(grind.author, "argusthecat");
    let page = r#"<div class="fic-header"><h1>Title</h1><h4><span property="name">Writer</span></h4></div>"#;
    let kind = BookKind::RoyalRoad(RoyalRoadBookKind { id: 8 });
    let royal = to_new_book(&kind, page).unwrap();
    assert_eq!((royal.name.as_str(), royal.author.as_str(), royal.metadata), ("Title", "Writer", kind));
    assert!(to_new_book(&kind, "").is_err());
}

#[test]
fn the_books_of_the_fixed_providers() {
    let p = pale::get_book();
    assert_eq!((p.name.as_str(), p.author.as_str(), p.metadata), ("Pale", "Wildbow", BookKind::Pale));
    let g = practical_guide::get_book();
    assert_eq!(
        (g.name.as_str(), g.author.as_str(), g.metadata),
        ("A Practical Guide To Evil", "erraticerrata", BookKind::APracticalGuideToEvil)
    );
    let w = wandering_inn::get_book();
    assert_eq!(
        (w.name.as_str(), w.author.as_str(), w.metadata),
        ("The Wandering Inn", "Pirateaba", BookKind::TheWanderingInn)
    );
    let wp = wandering_inn_patreon::get_book();
    assert_eq!(
        (wp.name.as_str(), wp.author.as_str(), wp.metadata),
        ("The Wandering Inn", "Pirateaba", BookKind::TheWanderingInnPatreon)
    );
    let d = the_daily_grind_patreon::get_book();
    assert_eq!(
        (d.name.as_str(), d.author.as_str(), d.metadata),
        ("The Daily Grind", "argusthecat", BookKind::TheDailyGrindPatreon)
    );
}

#[test]
fn rfc_2822_dates_become_microseconds_since_the_epoch() {
    assert_eq!(parse_from_rfc2822("Wed, 18 Feb 2015 23:16:09 GMT").unwrap(), 1_424_301_369_000_000);
    assert_eq!(parse_from_rfc2822("Mon, 01 Jan 2024 00:00:00 +0000").unwrap(), 1_704_067_200_000_000);
    assert_eq!(parse_from_rfc2822("Mon, 01 Jan 2024 01:00:00 +0100").unwrap(), 1_704_067_200_000_000);
    assert_eq!(parse_from_rfc2822("Thu, 01 Jan 1970 00:00:00 GMT").unwrap(), 0);
    assert!(parse_from_rfc2822("2024-01-01T00:00:00Z").is_err());
    assert!(parse_from_rfc2822("").is_err());
}

fn contents_text<T: std::fmt::Debug>(result: Result<T, FeedError>) -> String {
    match result {
        Err(FeedError::RssContents(text)) => text,
        other => panic!("expected a fault, got {:?}", other),
    }
}

#[test]
fn the_number_of_a_royalroad_chapter_ends_its_link() {
    assert_eq!(
        get_chapter_id_from_link(Some("https://www.royalroad.com/fiction/1/b/chapter/301778")).unwrap(),
        301778
    );
    assert_eq!(get_chapter_id_from_link(Some("/5")).unwrap(), 5);
    for link in [None, Some("301778"), Some("https://x/chapter/"), Some("https://x/chapter/one")] {
        assert_eq!(
            contents_text(get_chapter_id_from_link(link)),
            "No valid royalroad chapter link in RSS Item."
        );
    }
}

#[test]
fn the_books_title_is_stripped_from_a_royalroad_chapters() {
    assert_eq!(get_chapter_title_from_rss(Some("My Book - Chapter 1 "), "My Book").unwrap(), "Chapter 1");
    assert_eq!(get_chapter_title_from_rss(Some("Chapter 1"), "My Book").unwrap(), "Chapter 1");
    assert_eq!(
        get_chapter_title_from_rss(Some("Intro: My Book - One - Two"), "My Book").unwrap(),
        "One - Two"
    );
    assert_eq!(get_chapter_title_from_rss(Some(" padded "), "My Book").unwrap(), " padded ");
    assert_eq!(get_chapter_title_from_rss(Some("My Book - "), "My Book").unwrap(), "");
    assert_eq!(
        contents_text(get_chapter_title_from_rss(None, "My Book")),
        "No valid royalroad chapter title in RSS Item."
    );
}

fn item(title: Option<&str>, link: Option<&str>) -> FeedItem {
    FeedItem { title: title.map(String::from), link: link.map(String::from), pub_date: None }
}

#[test]
fn an_item_of_a_wordpress_feed_is_taken_as_it_is() {
    let made = chapter_of_item(
        FeedSource::Pale,
        &item(Some("Pale - 1.1 "), Some("https://palewebserial.wordpress.com/1")),
        "Pale",
        Some(5),
        BOOK,
        "Wildbow",
    )
    .unwrap();
    assert_eq!(made.name, "Pale - 1.1 ");
    assert_eq!(made.author, "Wildbow");
    assert_eq!(made.book_id, BOOK);
    assert_eq!(made.published_at, 5);
    assert_eq!(made.metadata, ChapterKind::Pale { url: "https://palewebserial.wordpress.com/1".into() });
    let guide = chapter_of_item(
        FeedSource::APracticalGuideToEvil,
        &item(Some("t"), Some("l")),
        "",
        Some(1),
        BOOK,
        "a",
    )
    .unwrap();
    assert_eq!(guide.metadata, ChapterKind::APracticalGuideToEvil { url: "l".into() });
    let inn =
        chapter_of_item(FeedSource::TheWanderingInn, &item(Some("t"), Some("l")), "", Some(1), BOOK, "a")
            .unwrap();
    assert_eq!(inn.metadata, ChapterKind::TheWanderingInn { url: "l".into() });
}

#[test]
fn an_item_is_refused_for_the_first_thing_it_lacks() {
    let lacking = |source, title, link, at| {
        contents_text(chapter_of_item(source, &item(title, link), "B", at, BOOK, "a"))
    };
    assert_eq!(lacking(FeedSource::Pale, None, None, None), "No chapter link in RSS item.");
    assert_eq!(lacking(FeedSource::Pale, None, Some("l"), None), "No chapter title in RSS item.");
    assert_eq!(
        lacking(FeedSource::Pale, Some("t"), Some("l"), None),
        "No valid published date in RSS Item"
    );
    assert_eq!(
        lacking(FeedSource::RoyalRoad, None, Some("l"), Some(1)),
        "No valid royalroad chapter link in RSS Item."
    );
    assert_eq!(
        lacking(FeedSource::RoyalRoad, None, Some("/1"), Some(1)),
        "No valid royalroad chapter title in RSS Item."
    );
    assert_eq!(
        lacking(FeedSource::RoyalRoad, Some("t"), Some("/1"), None),
        "No valid published date in RSS Item"
    );
}

const ROYALROAD_FEED: &str = r#"<?xml version="1.0" encoding="UTF-8"?>
<rss version="2.0"><channel><title>My Book</title><link>https://www.royalroad.com/fiction/1</link><description>d</description>
<item><title>My Book - Chapter 1</title><link>https://www.royalroad.com/fiction/1/my-book/chapter/100</link><pubDate>Mon, 01 Jan 2024 00:00:00 GMT</pubDate></item>
<item><title>Chapter 2 &amp; more</title><link>https://www.royalroad.com/fiction/1/my-book/chapter/101</link><pubDate>Tue, 02 Jan 2024 00:00:00 GMT</pubDate></item>
</channel></rss>"#;

#[test]
fn a_royalroad_feed_lists_its_chapters() {
    let chapters = royalroad::get_chapters(ROYALROAD_FEED.as_bytes(), BOOK, "Writer").unwrap();
    assert_eq!(chapters.len(), 2);
    assert_eq!(chapters[0].name, "Chapter 1");
    assert_eq!(chapters[0].author, "Writer");
    assert_eq!(chapters[0].book_id, BOOK);
    assert_eq!(chapters[0].metadata, ChapterKind::RoyalRoad { id: 100 });
    assert_eq!(chapters[0].published_at, 1_704_067_200_000_000);
    assert_eq!(chapters[1].name, "Chapter 2 & more");
    assert_eq!(chapters[1].metadata, ChapterKind::RoyalRoad { id: 101 });
    assert_eq!(chapters[1].published_at, 1_704_153_600_000_000);
}

#[test]
fn a_wordpress_feed_lists_its_chapters() {
    let feed = r#"<rss version="2.0"><channel><title>Pale</title><link>l</link><description>d</description>
<item><title>One</title><link>https://palewebserial.wordpress.com/one</link><pubDate>Mon, 01 Jan 2024 00:00:00 GMT</pubDate></item>
</channel></rss>"#;
    let chapters = pale::get_chapters(feed.as_bytes(), BOOK).unwrap();
    assert_eq!(chapters.len(), 1);
    assert_eq!(chapters[0].author, "Wildbow");
    assert_eq!(
        chapters[0].metadata,
        ChapterKind::Pale { url: "https://palewebserial.wordpress.com/one".into() }
    );
    let guide = practical_guide::get_chapters(feed.as_bytes(), BOOK).unwrap();
    assert_eq!(guide[0].author, "erraticerrata");
    assert!(matches!(guide[0].metadata, ChapterKind::APracticalGuideToEvil { .. }));
    let inn = wandering_inn::get_chapters(feed.as_bytes(), BOOK).unwrap();
    assert_eq!(inn[0].author, "Pirateaba");
    assert!(matches!(inn[0].metadata, ChapterKind::TheWanderingInn { .. }));
}

#[test]
fn one_bad_item_fails_the_whole_listing() {
    let feed = r#"<rss version="2.0"><channel><title>Pale</title><link>l</link><description>d</description>
<item><title>One</title><link>https://p/one</link><pubDate>Mon, 01 Jan 2024 00:00:00 GMT</pubDate></item>
<item><title>Two</title><link>https://p/two</link><pubDate>yesterday</pubDate></item>
<item><link>https://p/three</link><pubDate>Mon, 01 Jan 2024 00:00:00 GMT</pubDate></item>
</channel></rss>"#;
    assert_eq!(
        contents_text(pale::get_chapters(feed.as_bytes(), BOOK)),
        "No valid published date in RSS Item"
    );
}

#[test]
fn bytes_that_are_no_feed_are_an_error_of_the_reader() {
    assert!(matches!(pale::get_chapters(b"<html></html>", BOOK), Err(FeedError::Rss(_))));
    assert!(matches!(pale::get_chapters(b"", BOOK), Err(FeedError::Rss(_))));
}

#[test]
fn an_empty_feed_lists_nothing() {
    let feed = r#"<rss version="2.0"><channel><title>Pale</title><link>l</link><description>d</description></channel></rss>"#;
    assert!(pale::get_chapters(feed.as_bytes(), BOOK).unwrap().is_empty());
    let none = Feed { title: "t".into(), items: vec![] };
    assert!(chapters_of_feed(FeedSource::Pale, &none, BOOK, "a").unwrap().is_empty());
}

fn element(id: Option<&str>, texts: &[&str], html: &str) -> HtmlElement {
    HtmlElement {
        id: id.map(String::from),
        attribute: None,
        texts: texts.iter().map(|t| t.to_string()).collect(),
        html: html.into(),
        next_texts: None,
    }
}

fn page_text<T: std::fmt::Debug>(result: Result<T, PageError>) -> String {
    match result {
        Err(PageError::WebParse(text)) => text,
        other => panic!("expected an error, got {:?}", other),
    }
}

#[test]
fn a_body_leaves_out_navigation_and_sharing() {
    let elements = vec![
        element(None, &["Previous Chapter"], "<a>Previous Chapter</a>"),
        element(None, &["One"], "<p>One</p>"),
        element(Some("jp-post-flair"), &["Share"], "<div id=\"jp-post-flair\">Share</div>"),
        element(Some("other"), &["Two", "Next"], "<p>Two<b>Next</b></p>"),
        element(None, &["see", "Next Chapter"], "<p>see<a>Next Chapter</a></p>"),
    ];
    assert_eq!(chapter_body(&elements).unwrap(), "<p>One</p>\n<p>Two<b>Next</b></p>");
}

#[test]
fn a_body_of_nothing_or_white_space_is_an_error() {
    assert_eq!(page_text(chapter_body(&vec![])), "Failed to find chapter body.");
    assert_eq!(
        page_text(chapter_body(&vec![element(None, &["Next Chapter"], "<a>Next Chapter</a>")])),
        "Failed to find chapter body."
    );
    assert_eq!(
        page_text(chapter_body(&vec![element(None, &[], " "), element(None, &[], "\t")])),
        "Failed to find chapter body."
    );
    assert_eq!(chapter_body(&vec![element(None, &[], "x")]).unwrap(), "x");
}

#[test]
fn texts_are_looked_up_whole() {
    let texts = vec!["Next".to_string(), "Next Chapter ".to_string()];
    assert!(!holds_text(&texts, "Next Chapter"));
    assert!(holds_text(&texts, "Next"));
    assert_eq!(concatenate_texts(&texts), "NextNext Chapter ");
    assert_eq!(concatenate_texts(&vec![]), "");
}

const PAGE: &str = r#"<html><body><div class="entry-content"><p>One</p><p><a href="/n">Next Chapter</a></p><div id="jp-post-flair">share</div><p>Two</p></div><div class="other"><p>Not this</p></div></body></html>"#;

#[test]
fn the_body_is_taken_from_the_entry_content_of_a_page() {
    assert_eq!(pale::get_chapter_body(PAGE).unwrap(), "<p>One</p>\n<p>Two</p>");
    assert_eq!(practical_guide::get_chapter_body(PAGE).unwrap(), "<p>One</p>\n<p>Two</p>");
    assert_eq!(wandering_inn::get_chapter_body(PAGE).unwrap(), "<p>One</p>\n<p>Two</p>");
    assert_eq!(wandering_inn_patreon::get_chapter_body(PAGE).unwrap(), "<p>One</p>\n<p>Two</p>");
    assert_eq!(
        page_text(pale::get_chapter_body("<html><body><p>nothing</p></body></html>")),
        "Failed to find chapter body."
    );
}

#[test]
fn a_royalroad_body_is_the_whole_container() {
    let page = r#"<html><body><div class="chapter-inner chapter-content"><p>One</p><p>Next Chapter</p></div><div class="chapter-inner">second</div></body></html>"#;
    assert_eq!(
        royalroad::get_chapter_body(page).unwrap(),
        r#"<div class="chapter-inner chapter-content"><p>One</p><p>Next Chapter</p></div>"#
    );
    assert_eq!(
        page_text(royalroad::get_chapter_body("<html><body></body></html>")),
        "Failed to find chapter body."
    );
    assert_eq!(page_text(royalroad::body_of(&vec![])), "Failed to find chapter body.");
}

#[test]
fn a_royalroad_book_is_read_from_its_page() {
    let page = r#"<html><body><div class="fic-header"><h1> Mother of <i>Learning</i> </h1><h4>by <span property="name"> nobody103 </span></h4></div></body></html>"#;
    let kind = RoyalRoadBookKind { id: 21220 };
    let book = royalroad::as_new_book(&kind, page).unwrap();
    assert_eq!(book.name, "Mother of Learning");
    assert_eq!(book.author, "nobody103");
    assert_eq!(book.metadata, BookKind::RoyalRoad(kind));
}

#[test]
fn a_royalroad_page_is_refused_for_the_first_thing_it_lacks() {
    let kind = RoyalRoadBookKind { id: 1 };
    let title = vec![element(None, &[" T "], "")];
    let author = vec![element(None, &["A"], "")];
    let blank = vec![element(None, &[" ", "\n"], "")];
    assert_eq!(
        page_text(royalroad::book_of(&kind, &vec![], &author)),
        "Failed to find title element on royalroad page."
    );
    assert_eq!(
        page_text(royalroad::book_of(&kind, &blank, &author)),
        "Empty title element on royalroad page."
    );
    assert_eq!(
        page_text(royalroad::book_of(&kind, &title, &vec![])),
        "Failed to find author element on royalroad page."
    );
    assert_eq!(
        page_text(royalroad::book_of(&kind, &title, &blank)),
        "Empty author element on royalroad page."
    );
    assert_eq!(royalroad::book_of(&kind, &title, &author).unwrap().name, "T");
    assert_eq!(text_of_first(&title), Some("T".to_string()));
    assert_eq!(text_of_first(&vec![]), None);
    assert_eq!(
        page_text(royalroad::as_new_book(&kind, "<html></html>")),
        "Failed to find title element on royalroad page."
    );
}

fn mail_text<T: std::fmt::Debug>(result: Result<T, MailError>) -> String {
    match result {
        Err(MailError::Contents(text)) => text,
        other => panic!("expected an error, got {:?}", other),
    }
}

#[test]
fn the_title_of_a_daily_grind_chapter_is_quoted_in_the_subject() {
    assert_eq!(
        chapter_title_from_subject("argusthecat posted \"Chapter 200\" on Patreon"),
        Some("Chapter 200".to_string())
    );
    assert_eq!(chapter_title_from_subject("one \"quote only"), Some("quote only".to_string()));
    assert_eq!(chapter_title_from_subject("\"\""), Some("".to_string()));
    assert_eq!(chapter_title_from_subject("no quotes"), None);
    assert_eq!(chapter_title_from_subject(""), None);
}

#[test]
fn a_daily_grind_mail_carries_its_chapter() {
    let mail = Mail {
        header: Some("The Daily Grind: \"Chapter 7\"".into()),
        last_part: Some(Ok("<p>text</p>".into())),
    };
    let chapter = chapter_of_mail(mail, 99, BOOK).unwrap();
    assert_eq!(chapter.name, "Chapter 7");
    assert_eq!(chapter.author, "argusthecat");
    assert_eq!(chapter.book_id, BOOK);
    assert_eq!(chapter.published_at, 99);
    assert_eq!(chapter.metadata, ChapterKind::TheDailyGrindPatreon { html: "<p>text</p>".into() });
}

#[test]
fn a_daily_grind_mail_is_refused_for_the_first_thing_it_lacks() {
    let with = |header: Option<&str>, body: Option<&str>| Mail {
        header: header.map(String::from),
        last_part: body.map(|b| Ok(b.to_string())),
    };
    assert_eq!(mail_text(chapter_of_mail(with(None, Some("b")), 1, BOOK)), "Not a the daily grind Email");
    assert_eq!(
        mail_text(chapter_of_mail(with(Some("Pirateaba \"x\""), Some("b")), 1, BOOK)),
        "Not a the daily grind Email"
    );
    assert_eq!(
        mail_text(chapter_of_mail(with(Some("daily grind \"x\""), None), 1, BOOK)),
        "No html body found."
    );
    assert_eq!(
        mail_text(chapter_of_mail(with(Some("Daily Grind update"), Some("b")), 1, BOOK)),
        "Failed to find chapter title from email subject"
    );
}

const DAILY_GRIND_MAIL: &str = "Subject: New from The Daily Grind: \"Chapter 12\"\r\nContent-Type: multipart/alternative; boundary=frontier\r\n\r\n--frontier\r\nContent-Type: text/plain\r\n\r\nplain text\r\n--frontier\r\nContent-Type: text/html\r\n\r\n<p>The chapter</p>\r\n--frontier--\r\n";

#[test]
fn a_daily_grind_chapter_is_read_from_a_raw_message() {
    let chapter = the_daily_grind_patreon::get_chapter_meta(
        DAILY_GRIND_MAIL.as_bytes(),
        "Mon, 01 Jan 2024 00:00:00 GMT",
        BOOK,
    )
    .unwrap();
    assert_eq!(chapter.name, "Chapter 12");
    assert_eq!(chapter.published_at, 1_704_067_200_000_000);
    match &chapter.metadata {
        ChapterKind::TheDailyGrindPatreon { html } => assert_eq!(html.trim(), "<p>The chapter</p>"),
        other => panic!("unexpected kind {:?}", other),
    }
    assert!(matches!(
        the_daily_grind_patreon::get_chapter_meta(DAILY_GRIND_MAIL.as_bytes(), "today", BOOK),
        Err(MailError::Date(_))
    ));
    assert_eq!(
        mail_text(the_daily_grind_patreon::get_chapter_meta(
            b"Subject: hello\r\n\r\nbody",
            "Mon, 01 Jan 2024 00:00:00 GMT",
            BOOK
        )),
        "Not a the daily grind Email"
    );
    assert_eq!(
        mail_text(the_daily_grind_patreon::get_chapter_meta(
            b"Subject: the daily grind \"x\"\r\n\r\nbody",
            "Mon, 01 Jan 2024 00:00:00 GMT",
            BOOK
        )),
        "No html body found."
    );
}

#[test]
fn the_name_of_an_announced_chapter_ends_its_link() {
    assert_eq!(
        chapter_title_from_link("https://wanderinginn.com/2022/01/01/8-60/"),
        Some("8-60".to_string())
    );
    assert_eq!(chapter_title_from_link("https://wanderinginn.com/a/ /"), Some("a".to_string()));
    assert_eq!(chapter_title_from_link("plain"), Some("plain".to_string()));
    assert_eq!(chapter_title_from_link("// /"), None);
    assert_eq!(chapter_title_from_link(""), None);
}

fn paragraph(texts: &[&str], next: Option<&[&str]>) -> HtmlElement {
    HtmlElement {
        id: None,
        attribute: None,
        texts: texts.iter().map(|t| t.to_string()).collect(),
        html: String::new(),
        next_texts: next.map(|n| n.iter().map(|t| t.to_string()).collect()),
    }
}

fn link(href: Option<&str>) -> HtmlElement {
    HtmlElement {
        id: None,
        attribute: href.map(String::from),
        texts: vec!["here".into()],
        html: String::new(),
        next_texts: None,
    }
}

#[test]
fn the_password_follows_the_one_paragraph_that_speaks_of_it() {
    let one = vec![
        paragraph(&["Hello"], Some(&["x"])),
        paragraph(&["The ", "Password", " is:"], Some(&["open", "sesame"])),
        paragraph(&["opensesame"], None),
    ];
    assert_eq!(password_from(&one), Some("opensesame".to_string()));
    let two = vec![
        paragraph(&["password one"], Some(&["a"])),
        paragraph(&["PASSWORD two"], Some(&["b"])),
    ];
    assert_eq!(password_from(&two), None);
    assert_eq!(password_from(&vec![paragraph(&["password"], None)]), None);
    assert_eq!(password_from(&vec![paragraph(&["nothing"], Some(&["a"]))]), None);
    assert_eq!(password_from(&vec![]), None);
}

#[test]
fn each_link_with_a_name_announces_a_chapter() {
    let paragraphs = vec![paragraph(&["password:"], Some(&["pw"]))];
    let links = vec![
        link(Some("https://wanderinginn.com/2022/01/01/8-60/")),
        link(None),
        link(Some("///")),
        link(Some("https://wanderinginn.com/2022/01/04/8-61")),
    ];
    let chapters = chapters_of_links(&paragraphs, &links, 7, BOOK);
    assert_eq!(chapters.len(), 2);
    assert_eq!(chapters[0].name, "8-60");
    assert_eq!(chapters[0].author, "pirateaba");
    assert_eq!(chapters[0].published_at, 7);
    assert_eq!(
        chapters[0].metadata,
        ChapterKind::TheWanderingInnPatreon {
            url: "https://wanderinginn.com/2022/01/01/8-60/".into(),
            password: Some("pw".into())
        }
    );
    assert_eq!(chapters[1].name, "8-61");
    let open = chapters_of_links(&vec![], &links, 7, BOOK);
    assert_eq!(
        open[1].metadata,
        ChapterKind::TheWanderingInnPatreon {
            url: "https://wanderinginn.com/2022/01/04/8-61".into(),
            password: None
        }
    );
}

#[test]
fn a_wandering_inn_mail_is_refused_for_the_first_thing_it_lacks() {
    let with = |header: Option<&str>, body: Option<&str>| Mail {
        header: header.map(String::from),
        last_part: body.map(|b| Ok(b.to_string())),
    };
    assert_eq!(mail_text(body_of_mail(with(None, Some("b")))), "Not a Wandering Inn Email");
    assert_eq!(
        mail_text(body_of_mail(with(Some("The Daily Grind"), Some("b")))),
        "Not a Wandering Inn Email"
    );
    assert_eq!(mail_text(body_of_mail(with(Some("PirateAba posted"), None))), "No html body found.");
    assert_eq!(body_of_mail(with(Some("pirateaba"), Some("b"))).unwrap(), "b");
}

const WANDERING_INN_MAIL: &str = "Subject: pirateaba just shared: 8.60\r\nContent-Type: multipart/alternative; boundary=frontier\r\n\r\n--frontier\r\nContent-Type: text/plain\r\n\r\nplain text\r\n--frontier\r\nContent-Type: text/html\r\n\r\n<html><body><div><p>New chapters: <a href=\"https://wanderinginn.com/2022/01/01/8-60/\">first</a> and <a href=\"https://wanderinginn.com/2022/01/04/8-61/\">second</a></p><p>The password is</p><p>opensesame</p></div></body></html>\r\n--frontier--\r\n";

#[test]
fn announced_chapters_are_read_from_a_raw_message() {
    let chapters = wandering_inn_patreon::get_chapter_metas(
        WANDERING_INN_MAIL.as_bytes(),
        "Tue, 02 Jan 2024 00:00:00 GMT",
        BOOK,
    )
    .unwrap();
    assert_eq!(chapters.len(), 2);
    assert_eq!(chapters[0].name, "8-60");
    assert_eq!(chapters[1].name, "8-61");
    assert_eq!(chapters[0].published_at, 1_704_153_600_000_000);
    assert_eq!(
        chapters[1].metadata,
        ChapterKind::TheWanderingInnPatreon {
            url: "https://wanderinginn.com/2022/01/04/8-61/".into(),
            password: Some("opensesame".into())
        }
    );
    assert!(matches!(
        wandering_inn_patreon::get_chapter_metas(WANDERING_INN_MAIL.as_bytes(), "", BOOK),
        Err(MailError::Date(_))
    ));
    assert_eq!(
        mail_text(wandering_inn_patreon::get_chapter_metas(
            DAILY_GRIND_MAIL.as_bytes(),
            "Tue, 02 Jan 2024 00:00:00 GMT",
            BOOK
        )),
        "Not a Wandering Inn Email"
    );
}

fn stored_book(metadata: BookKind) -> Book {
    Book { id: BOOK, name: "Name".into(), author: "Writer".into(), created_at: 0, updated_at: 0, metadata }
}

#[test]
fn every_kind_of_book_has_its_provider() {
    match provider_for(&BookKind::RoyalRoad(RoyalRoadBookKind { id: 9 })) {
        Listing::Feed { url, source } => {
            assert_eq!(url, "https://www.royalroad.com/syndication/9");
            assert_eq!(source, FeedSource::RoyalRoad);
        }
        other => panic!("unexpected {:?}", other),
    }
    for (kind, expected, feed) in [
        (BookKind::Pale, "https://palewebserial.wordpress.com/feed/", FeedSource::Pale),
        (
            BookKind::APracticalGuideToEvil,
            "https://practicalguidetoevil.wordpress.com/feed/",
            FeedSource::APracticalGuideToEvil,
        ),
        (BookKind::TheWanderingInn, "https://wanderinginn.com/feed/", FeedSource::TheWanderingInn),
    ] {
        match provider_for(&kind) {
            Listing::Feed { url, source } => {
                assert_eq!(url, expected);
                assert_eq!(source, feed);
            }
            other => panic!("unexpected {:?}", other),
        }
    }
    assert!(matches!(provider_for(&BookKind::TheWanderingInnPatreon), Listing::WanderingInnEmails));
    assert!(matches!(provider_for(&BookKind::TheDailyGrindPatreon), Listing::DailyGrindEmails));
}

#[test]
fn a_books_feed_is_read_by_its_provider() {
    let royal = stored_book(BookKind::RoyalRoad(RoyalRoadBookKind { id: 1 }));
    let chapters = chapters_of_book_feed(&royal, ROYALROAD_FEED.as_bytes()).unwrap();
    assert_eq!(chapters[0].author, "Writer");
    assert_eq!(chapters[0].metadata, ChapterKind::RoyalRoad { id: 100 });
    let pale_book = stored_book(BookKind::Pale);
    let chapters = chapters_of_book_feed(&pale_book, ROYALROAD_FEED.as_bytes()).unwrap();
    assert_eq!(chapters[0].author, "Wildbow");
    assert_eq!(chapters[0].name, "My Book - Chapter 1");
}

fn new_chapter(metadata: ChapterKind) -> NewChapter {
    NewChapter { name: "Ch".into(), author: "a".into(), book_id: BOOK, metadata, published_at: 0 }
}

#[test]
fn every_kind_of_chapter_has_the_place_of_its_body() {
    match body_source(&ChapterKind::RoyalRoad { id: 12 }) {
        BodySource::Page { url, password } => {
            assert_eq!(url, "https://www.royalroad.com/fiction/chapter/12");
            assert_eq!(password, None);
        }
        other => panic!("unexpected {:?}", other),
    }
    match body_source(&ChapterKind::TheWanderingInnPatreon { url: "u".into(), password: Some("p".into()) }) {
        BodySource::Page { url, password } => {
            assert_eq!(url, "u");
            assert_eq!(password, Some("p".to_string()));
        }
        other => panic!("unexpected {:?}", other),
    }
    match body_source(&ChapterKind::Pale { url: "p".into() }) {
        BodySource::Page { url, password } => {
            assert_eq!(url, "p");
            assert_eq!(password, None);
        }
        other => panic!("unexpected {:?}", other),
    }
    assert!(matches!(
        body_source(&ChapterKind::TheDailyGrindPatreon { html: "h".into() }),
        BodySource::Embedded
    ));
}

#[test]
fn an_embedded_body_gets_a_heading() {
    let book = stored_book(BookKind::TheDailyGrindPatreon);
    let chapter = new_chapter(ChapterKind::TheDailyGrindPatreon { html: "<p>x</p>".into() });
    assert_eq!(fetch_chapter_body(&chapter, &book, "").unwrap(), "<h1>Name: Ch</h1><p>x</p>");
    let pale_chapter = new_chapter(ChapterKind::Pale { url: "u".into() });
    assert_eq!(fetch_chapter_body(&pale_chapter, &book, PAGE).unwrap(), "<p>One</p>\n<p>Two</p>");
}

#[test]
fn what_the_emails_announce_is_put_together() {
    let outcomes = vec![
        Ok(vec![new_chapter(ChapterKind::RoyalRoad { id: 1 })]),
        Err(MailError::Contents("Not a Wandering Inn Email".into())),
        Ok(vec![]),
        Ok(vec![new_chapter(ChapterKind::RoyalRoad { id: 2 }), new_chapter(ChapterKind::RoyalRoad { id: 3 })]),
    ];
    let chapters = collect_announced(outcomes);
    let kinds: Vec<ChapterKind> = chapters.iter().map(|c| c.metadata.clone()).collect();
    assert_eq!(
        kinds,
        vec![
            ChapterKind::RoyalRoad { id: 1 },
            ChapterKind::RoyalRoad { id: 2 },
            ChapterKind::RoyalRoad { id: 3 }
        ]
    );
}
