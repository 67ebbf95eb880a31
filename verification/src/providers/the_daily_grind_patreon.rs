//! The Daily Grind, read from the emails that announce its chapters to
//! patrons. The email carries the chapter itself.

use crate::models::{BookKind, ChapterKind, ChapterKindView, Id, NewBook, NewChapter, NewChapterView, Timestamp};
use crate::providers::mail::{parsed_mail, read_mail, Mail, MailError, MailView};
use crate::text::{chars_of, contains_seq, lowercased, mentions, same_text, split, split_spec, string_of};
use crate::util::{parse_url, rfc2822_instant, rfc2822_micros, url_parts, UrlError, UrlParts};
use vstd::prelude::*;
use vstd::string::*;

verus! {

/// The book itself.
pub fn get_book() -> (book: NewBook)
    ensures
        book.is("The Daily Grind"@, "argusthecat"@, BookKind::TheDailyGrindPatreon),
{
    NewBook {
        name: String::from_str("The Daily Grind"),
        author: String::from_str("argusthecat"),
        metadata: BookKind::TheDailyGrindPatreon,
    }
}

/// The chapter's title: what stands between the first two quotation marks of
/// the subject.
pub open spec fn quoted_title(subject: Seq<char>) -> Option<Seq<char>> {
    if split_spec(subject, '"').len() >= 2 {
        Some(split_spec(subject, '"')[1])
    } else {
        None
    }
}

/// The title of the chapter that an email with this subject announces.
pub fn chapter_title_from_subject(subject: &str) -> (title: Option<String>)
    ensures
        match title {
            Some(text) => quoted_title(subject@) == Some(text@),
            None => quoted_title(subject@) is None,
        },
{
    let chars = chars_of(subject);
    let pieces = split(&chars, '"');
    if pieces.len() >= 2 {
        Some(string_of(&pieces[1]))
    } else {
        None
    }
}

/// What an email can lack.
#[derive(Clone, Copy, Debug, PartialEq, Eq, Structural)]
pub enum MailFault {
    Subject,
    Body,
    Undecodable,
    Title,
}

/// The text that reports a fault.
pub open spec fn mail_fault_text(fault: MailFault) -> Seq<char> {
    match fault {
        MailFault::Subject => "Not a the daily grind Email"@,
        MailFault::Title => "Failed to find chapter title from email subject"@,
        _ => "No html body found."@,
    }
}

/// The chapter that an email announces, or what the email lacks. The subject
/// has to mention the serial, whatever the case of its letters; the body is
/// the message's last part; the title is quoted in the subject.
pub open spec fn mail_chapter(mail: MailView, published_at: Timestamp, book_id: Id) -> Result<
    NewChapterView,
    MailFault,
> {
    match mail.header {
        None => Err(MailFault::Subject),
        Some(subject) => if !contains_seq(lowercased(subject), "daily grind"@) {
            Err(MailFault::Subject)
        } else {
            match mail.last_part {
                None => Err(MailFault::Body),
                Some(None) => Err(MailFault::Undecodable),
                Some(Some(html)) => match quoted_title(subject) {
                    None => Err(MailFault::Title),
                    Some(name) => Ok(
                        NewChapterView {
                            name,
                            author: "argusthecat"@,
                            book_id,
                            metadata: ChapterKindView::TheDailyGrindPatreon { html },
                            published_at,
                        },
                    ),
                },
            }
        },
    }
}

/// What was made is the chapter that was expected, or the error that
/// reports the expected fault.
pub open spec fn chapter_agrees(
    made: Result<NewChapter, MailError>,
    expected: Result<NewChapterView, MailFault>,
) -> bool {
    match (made, expected) {
        (Ok(chapter), Ok(view)) => chapter@ == view,
        (Err(MailError::Parse(_)), Err(fault)) => fault == MailFault::Undecodable,
        (Err(MailError::Contents(text)), Err(fault)) => fault != MailFault::Undecodable && text@
            == mail_fault_text(fault),
        _ => false,
    }
}

/// Makes the chapter that a message announces. `published_at` is the instant
/// at which the message arrived.
pub fn chapter_of_mail(mail: Mail, published_at: Timestamp, book_id: Id) -> (made: Result<
    NewChapter,
    MailError,
>)
    ensures
        chapter_agrees(made, mail_chapter(mail@, published_at, book_id)),
{
    let subject = match mail.header {
        Some(subject) => subject,
        None => {
            return Err(MailError::Contents(String::from_str("Not a the daily grind Email")));
        },
    };
    if !mentions(subject.as_str(), "daily grind") {
        return Err(MailError::Contents(String::from_str("Not a the daily grind Email")));
    }
    let html = match mail.last_part {
        Some(Ok(html)) => html,
        Some(Err(e)) => {
            return Err(MailError::Parse(e));
        },
        None => {
            return Err(MailError::Contents(String::from_str("No html body found.")));
        },
    };
    match chapter_title_from_subject(subject.as_str()) {
        Some(name) => Ok(
            NewChapter {
                name,
                author: String::from_str("argusthecat"),
                book_id,
                metadata: ChapterKind::TheDailyGrindPatreon { html },
                published_at,
            },
        ),
        None => Err(
            MailError::Contents(
                String::from_str("Failed to find chapter title from email subject"),
            ),
        ),
    }
}

/// The chapter that one object of the email-ingest bucket holds. `raw` is the
/// object's content, an RFC 5322 message, and `last_modified` the date the
/// store gives for it. The date is read first, then the message.
pub fn get_chapter_meta(raw: &[u8], last_modified: &str, book_id: Id) -> (made: Result<
    NewChapter,
    MailError,
>)
    ensures
        match rfc2822_instant(last_modified@) {
            None => made matches Err(MailError::Date(_)),
            Some(published_at) => match parsed_mail(raw@, "Subject"@) {
                None => made matches Err(MailError::Parse(_)),
                Some(mail) => chapter_agrees(made, mail_chapter(mail, published_at, book_id)),
            },
        },
{
    let published_at = match rfc2822_micros(last_modified) {
        Ok(at) => at,
        Err(e) => {
            return Err(MailError::Date(e));
        },
    };
    match read_mail(raw, "Subject") {
        Ok(mail) => chapter_of_mail(mail, published_at, book_id),
        Err(e) => Err(MailError::Parse(e)),
    }
}

/// The text that refuses a URL.
pub open spec fn refusal() -> Seq<char> {
    "Not a patreon daily grind url."@
}

/// Whether a URL names the serial: its scheme is `patreon` and its host
/// `thedailygrind.com`.
pub open spec fn names_serial(parts: (Seq<char>, Option<Seq<char>>, Seq<char>)) -> bool {
    parts.0 == "patreon"@ && parts.1 == Some("thedailygrind.com"@)
}

/// Checks a parsed URL.
pub fn check_url(parts: &UrlParts) -> (checked: Result<(), UrlError>)
    ensures
        checked is Ok <==> names_serial(parts.parts()),
        checked matches Err(e) ==> e matches UrlError::Url(text) && text@ == refusal(),
{
    let host_ok = match &parts.host {
        Some(host) => same_text(host.as_str(), "thedailygrind.com"),
        None => false,
    };
    if host_ok && same_text(parts.scheme.as_str(), "patreon") {
        Ok(())
    } else {
        Err(UrlError::Url(String::from_str("Not a patreon daily grind url.")))
    }
}

/// Accepts `url` exactly where its scheme is `patreon` and its host
/// `thedailygrind.com`.
pub fn try_parse_url(url: &str) -> (checked: Result<(), UrlError>)
    ensures
        checked is Ok <==> (url_parts(url@) matches Some(parts) && names_serial(parts)),
        checked matches Err(UrlError::Parse(_)) <==> url_parts(url@) is None,
{
    match parse_url(url) {
        Ok(parts) => check_url(&parts),
        Err(e) => Err(UrlError::Parse(e)),
    }
}

} // verus!
