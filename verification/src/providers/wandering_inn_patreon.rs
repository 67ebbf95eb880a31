//! The Wandering Inn, read from the emails that announce its chapters to
//! patrons. One email may announce several chapters, each by a link, and may
//! give the password that opens them.

use crate::models::{
    opt_view, BookKind, ChapterKind, ChapterKindView, Id, NewBook, NewChapter, NewChapterView,
    Timestamp,
};
use crate::providers::html::{
    all_blank_or_body, concatenate_texts, concatenated, elements_view, entry_content, select,
    selected, texts_view, HtmlElement, HtmlElementView, PageError,
};
use crate::providers::mail::{parsed_mail, read_mail, Mail, MailError, MailView};
use crate::text::{
    all_whitespace, chars_of, contains_seq, is_blank, lowercased, mentions, same_text, split,
    split_spec, string_of,
};
use crate::util::{parse_url, rfc2822_instant, rfc2822_micros, url_parts, UrlError, UrlParts};
use vstd::prelude::*;
use vstd::string::*;

verus! {

/// The book itself.
pub fn get_book() -> (book: NewBook)
    ensures
        book.is("The Wandering Inn"@, "Pirateaba"@, BookKind::TheWanderingInnPatreon),
{
    NewBook {
        name: String::from_str("The Wandering Inn"),
        author: String::from_str("Pirateaba"),
        metadata: BookKind::TheWanderingInnPatreon,
    }
}

/// The last of `pieces` that is not white space throughout.
pub open spec fn last_filled(pieces: Seq<Seq<char>>) -> Option<Seq<char>>
    decreases pieces.len(),
{
    if pieces.len() == 0 {
        None
    } else if !all_whitespace(pieces.last()) {
        Some(pieces.last())
    } else {
        last_filled(pieces.drop_last())
    }
}

/// The name of a chapter, from the link to it: the last segment of the link
/// that holds more than white space.
pub open spec fn title_of_link(link: Seq<char>) -> Option<Seq<char>> {
    last_filled(split_spec(link, '/'))
}

/// The name of the chapter that `link` leads to.
pub fn chapter_title_from_link(link: &str) -> (title: Option<String>)
    ensures
        match title {
            Some(text) => title_of_link(link@) == Some(text@),
            None => title_of_link(link@) is None,
        },
{
    let chars = chars_of(link);
    let pieces = split(&chars, '/');
    let ghost all = split_spec(link@, '/');
    let mut n: usize = pieces.len();
    assert(all.take(n as int) == all);
    while n > 0
        invariant
            n <= pieces.len(),
            all == split_spec(link@, '/'),
            pieces@.len() == all.len(),
            forall|k: int| 0 <= k < pieces@.len() ==> (#[trigger] pieces@[k])@ == all[k],
            last_filled(all) == last_filled(all.take(n as int)),
        decreases n,
    {
        let piece = string_of(&pieces[n - 1]);
        assert(all.take(n as int).last() == all[n - 1]);
        assert(all.take(n as int).drop_last() == all.take(n - 1));
        if !is_blank(piece.as_str()) {
            return Some(piece);
        }
        n = n - 1;
    }
    None
}

/// A paragraph speaks of a password: one of its texts holds the word,
/// whatever the case of its letters.
pub open spec fn speaks_of_password(paragraph: HtmlElementView) -> bool {
    exists|k: int|
        0 <= k < paragraph.texts.len() && contains_seq(
            lowercased(#[trigger] paragraph.texts[k]),
            "password"@,
        )
}

/// The paragraphs that speak of a password.
pub open spec fn password_paragraphs(paragraphs: Seq<HtmlElementView>) -> Seq<HtmlElementView>
    decreases paragraphs.len(),
{
    if paragraphs.len() == 0 {
        Seq::empty()
    } else if speaks_of_password(paragraphs.last()) {
        password_paragraphs(paragraphs.drop_last()).push(paragraphs.last())
    } else {
        password_paragraphs(paragraphs.drop_last())
    }
}

/// The password that an email gives: where exactly one paragraph speaks of a
/// password, the text of the element that follows it.
pub open spec fn password_in(paragraphs: Seq<HtmlElementView>) -> Option<Seq<char>> {
    let hits = password_paragraphs(paragraphs);
    if hits.len() == 1 {
        match hits[0].next_texts {
            Some(texts) => Some(concatenated(texts)),
            None => None,
        }
    } else {
        None
    }
}

/// Whether a paragraph speaks of a password.
pub fn mentions_password(paragraph: &HtmlElement) -> (found: bool)
    ensures
        found == speaks_of_password(paragraph@),
{
    let mut i: usize = 0;
    while i < paragraph.texts.len()
        invariant
            i <= paragraph.texts.len(),
            forall|k: int|
                0 <= k < i ==> !contains_seq(
                    lowercased(#[trigger] texts_view(paragraph.texts)[k]),
                    "password"@,
                ),
        decreases paragraph.texts.len() - i,
    {
        assert(texts_view(paragraph.texts)[i as int] == paragraph.texts@[i as int]@);
        if mentions(paragraph.texts[i].as_str(), "password") {
            assert(contains_seq(lowercased(paragraph@.texts[i as int]), "password"@));
            return true;
        }
        i = i + 1;
    }
    false
}

/// The password that the paragraphs of an email give.
pub fn password_from(paragraphs: &Vec<HtmlElement>) -> (password: Option<String>)
    ensures
        opt_view(password) == password_in(elements_view(*paragraphs)),
{
    let ghost views = elements_view(*paragraphs);
    let mut count: usize = 0;
    let mut first: usize = 0;
    let mut i: usize = 0;
    assert(views.take(0) == Seq::<HtmlElementView>::empty());
    while i < paragraphs.len()
        invariant
            i <= paragraphs.len(),
            views == elements_view(*paragraphs),
            count <= i,
            count == password_paragraphs(views.take(i as int)).len(),
            count >= 1 ==> first < i && password_paragraphs(views.take(i as int))[0]
                == views[first as int],
        decreases paragraphs.len() - i,
    {
        assert(views.take(i + 1).drop_last() == views.take(i as int));
        assert(views.take(i + 1).last() == views[i as int]);
        assert(views[i as int] == paragraphs@[i as int]@);
        if mentions_password(&paragraphs[i]) {
            if count == 0 {
                first = i;
            }
            count = count + 1;
        }
        i = i + 1;
    }
    assert(views.take(paragraphs.len() as int) == views);
    if count == 1 {
        assert(views[first as int] == paragraphs@[first as int]@);
        match &paragraphs[first].next_texts {
            Some(texts) => Some(concatenate_texts(texts)),
            None => None,
        }
    } else {
        None
    }
}

/// The chapter that a link announces, where the link has an address and the
/// address gives a name.
pub open spec fn link_chapter(
    link: HtmlElementView,
    password: Option<Seq<char>>,
    published_at: Timestamp,
    book_id: Id,
) -> Option<NewChapterView> {
    match link.attribute {
        None => None,
        Some(url) => match title_of_link(url) {
            None => None,
            Some(name) => Some(
                NewChapterView {
                    name,
                    author: "pirateaba"@,
                    book_id,
                    metadata: ChapterKindView::TheWanderingInnPatreon { url, password },
                    published_at,
                },
            ),
        },
    }
}

/// The chapters that the links of an email announce, in the order of the
/// links.
pub open spec fn link_chapters(
    links: Seq<HtmlElementView>,
    password: Option<Seq<char>>,
    published_at: Timestamp,
    book_id: Id,
) -> Seq<NewChapterView>
    decreases links.len(),
{
    if links.len() == 0 {
        Seq::empty()
    } else {
        let before = link_chapters(links.drop_last(), password, published_at, book_id);
        match link_chapter(links.last(), password, published_at, book_id) {
            Some(chapter) => before.push(chapter),
            None => before,
        }
    }
}

/// The chapters hold the given values, one for one.
pub open spec fn chapters_are(chapters: Seq<NewChapter>, views: Seq<NewChapterView>) -> bool {
    chapters.len() == views.len() && forall|k: int|
        0 <= k < chapters.len() ==> (#[trigger] chapters[k])@ == views[k]
}

/// Makes the chapters that an email announces, from the paragraphs of its
/// body and the links in them. Each link with an address that gives a name is
/// one chapter; all carry the password that the email gives.
pub fn chapters_of_links(
    paragraphs: &Vec<HtmlElement>,
    links: &Vec<HtmlElement>,
    published_at: Timestamp,
    book_id: Id,
) -> (chapters: Vec<NewChapter>)
    ensures
        chapters_are(
            chapters@,
            link_chapters(
                elements_view(*links),
                password_in(elements_view(*paragraphs)),
                published_at,
                book_id,
            ),
        ),
{
    let password = password_from(paragraphs);
    let ghost views = elements_view(*links);
    let ghost secret = password_in(elements_view(*paragraphs));
    let mut chapters: Vec<NewChapter> = Vec::new();
    let mut i: usize = 0;
    assert(views.take(0) == Seq::<HtmlElementView>::empty());
    while i < links.len()
        invariant
            i <= links.len(),
            views == elements_view(*links),
            opt_view(password) == secret,
            chapters_are(
                chapters@,
                link_chapters(views.take(i as int), secret, published_at, book_id),
            ),
        decreases links.len() - i,
    {
        assert(views.take(i + 1).drop_last() == views.take(i as int));
        assert(views.take(i + 1).last() == views[i as int]);
        assert(views[i as int] == links@[i as int]@);
        if let Some(url) = &links[i].attribute {
            if let Some(name) = chapter_title_from_link(url.as_str()) {
                let password = match &password {
                    Some(p) => Some(p.clone()),
                    None => None,
                };
                chapters.push(
                    NewChapter {
                        name,
                        author: String::from_str("pirateaba"),
                        book_id,
                        metadata: ChapterKind::TheWanderingInnPatreon { url: url.clone(), password },
                        published_at,
                    },
                );
            }
        }
        i = i + 1;
    }
    assert(views.take(links.len() as int) == views);
    chapters
}

/// What an email can lack.
#[derive(Clone, Copy, Debug, PartialEq, Eq, Structural)]
pub enum MailFault {
    Subject,
    Body,
    Undecodable,
}

/// The body of an email that announces chapters, or what the email lacks.
/// The subject has to mention the author, whatever the case of its letters;
/// the body is the message's last part.
pub open spec fn announcement(mail: MailView) -> Result<Seq<char>, MailFault> {
    match mail.header {
        None => Err(MailFault::Subject),
        Some(subject) => if !contains_seq(lowercased(subject), "pirateaba"@) {
            Err(MailFault::Subject)
        } else {
            match mail.last_part {
                None => Err(MailFault::Body),
                Some(None) => Err(MailFault::Undecodable),
                Some(Some(html)) => Ok(html),
            }
        },
    }
}

/// What was made is the body that was expected, or the error that reports
/// the expected fault.
pub open spec fn body_agrees(made: Result<String, MailError>, expected: Result<Seq<char>, MailFault>) -> bool {
    match (made, expected) {
        (Ok(html), Ok(view)) => html@ == view,
        (Err(MailError::Parse(_)), Err(fault)) => fault == MailFault::Undecodable,
        (Err(MailError::Contents(text)), Err(fault)) => (fault == MailFault::Subject && text@
            == "Not a Wandering Inn Email"@) || (fault == MailFault::Body && text@
            == "No html body found."@),
        _ => false,
    }
}

/// The body of the email that `mail` is, where it announces chapters.
pub fn body_of_mail(mail: Mail) -> (made: Result<String, MailError>)
    ensures
        body_agrees(made, announcement(mail@)),
{
    let subject_ok = match &mail.header {
        Some(subject) => mentions(subject.as_str(), "pirateaba"),
        None => false,
    };
    if !subject_ok {
        return Err(MailError::Contents(String::from_str("Not a Wandering Inn Email")));
    }
    match mail.last_part {
        Some(Ok(html)) => Ok(html),
        Some(Err(e)) => Err(MailError::Parse(e)),
        None => Err(MailError::Contents(String::from_str("No html body found."))),
    }
}

/// The chapters that a body announces.
pub open spec fn announced(body: Seq<char>, published_at: Timestamp, book_id: Id) -> Option<
    Seq<NewChapterView>,
> {
    match (selected(body, "div > p"@, "href"@), selected(body, "div > p a"@, "href"@)) {
        (Some(paragraphs), Some(links)) => Some(
            link_chapters(links, password_in(paragraphs), published_at, book_id),
        ),
        _ => None,
    }
}

/// What was made are the chapters that the message announces, or the error
/// that reports what the message lacks.
pub open spec fn chapters_agree(
    made: Result<Vec<NewChapter>, MailError>,
    mail: MailView,
    published_at: Timestamp,
    book_id: Id,
) -> bool {
    match announcement(mail) {
        Err(fault) => made is Err && body_agrees(Err(made->Err_0), Err(fault)),
        Ok(body) => match announced(body, published_at, book_id) {
            Some(views) => made matches Ok(chapters) && chapters_are(chapters@, views),
            None => made matches Err(MailError::Contents(_)),
        },
    }
}

/// The chapters that one object of the email-ingest bucket announces. `raw`
/// is the object's content, an RFC 5322 message, and `last_modified` the date
/// the store gives for it. The date is read first, then the message.
pub fn get_chapter_metas(raw: &[u8], last_modified: &str, book_id: Id) -> (made: Result<
    Vec<NewChapter>,
    MailError,
>)
    ensures
        match rfc2822_instant(last_modified@) {
            None => made matches Err(MailError::Date(_)),
            Some(published_at) => match parsed_mail(raw@, "Subject"@) {
                None => made matches Err(MailError::Parse(_)),
                Some(mail) => chapters_agree(made, mail, published_at, book_id),
            },
        },
{
    let published_at = match rfc2822_micros(last_modified) {
        Ok(at) => at,
        Err(e) => {
            return Err(MailError::Date(e));
        },
    };
    let mail = match read_mail(raw, "Subject") {
        Ok(mail) => mail,
        Err(e) => {
            return Err(MailError::Parse(e));
        },
    };
    let ghost view = mail@;
    let body = match body_of_mail(mail) {
        Ok(body) => body,
        Err(e) => {
            return Err(e);
        },
    };
    let paragraphs = select(body.as_str(), "div > p", "href");
    let links = select(body.as_str(), "div > p a", "href");
    match (paragraphs, links) {
        (Some(paragraphs), Some(links)) => Ok(
            chapters_of_links(&paragraphs, &links, published_at, book_id),
        ),
        _ => Err(MailError::Contents(String::from_str("No html body found."))),
    }
}

/// The body of the chapter on a page of the serial.
pub fn get_chapter_body(page: &str) -> (body: Result<String, PageError>)
    ensures
        all_blank_or_body(body, selected(page@, entry_content(), "id"@)),
{
    crate::providers::html::get_chapter_body(page)
}

/// Whether a URL names the serial: its scheme is `patreon` and its host
/// `wanderinginn.com`.
pub open spec fn names_serial(parts: (Seq<char>, Option<Seq<char>>, Seq<char>)) -> bool {
    parts.0 == "patreon"@ && parts.1 == Some("wanderinginn.com"@)
}

/// Checks a parsed URL.
pub fn check_url(parts: &UrlParts) -> (checked: Result<(), UrlError>)
    ensures
        checked is Ok <==> names_serial(parts.parts()),
        checked matches Err(e) ==> e matches UrlError::Url(text) && text@
            == "Not a patreon wandering inn url."@,
{
    let host_ok = match &parts.host {
        Some(host) => same_text(host.as_str(), "wanderinginn.com"),
        None => false,
    };
    if host_ok && same_text(parts.scheme.as_str(), "patreon") {
        Ok(())
    } else {
        Err(UrlError::Url(String::from_str("Not a patreon wandering inn url.")))
    }
}

/// Accepts `url` exactly where its scheme is `patreon` and its host
/// `wanderinginn.com`.
pub fn try_parse_url(url: &str) -> (checked: Result<(), UrlError>)
    ensures
        checked is Ok <==> (url_parts(url@) matches Some(parts) && names_serial(parts)),
        checked matches Err(UrlError::Parse(_)) <==> url_parts(url@) is None,
{
    match parse_url(url) {
        Ok(parts) => check_url(&parts),
        Err(e) => Err(UrlError::Parse(e)),
    }
}

} // verus!
