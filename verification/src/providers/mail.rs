//! Messages from the email-ingest bucket: what the providers read of one.

use crate::models::opt_view;
use vstd::prelude::*;

verus! {

/// The error of `mailparse::parse_mail` and of `ParsedMail::get_body`,
/// carried as it is.
#[verifier::external_type_specification]
#[verifier::external_body]
pub struct ExMailParseError(mailparse::MailParseError);

/// What went wrong with a message.
#[derive(Debug)]
pub enum MailError {
    /// The bytes are no message, or its body cannot be decoded.
    Parse(mailparse::MailParseError),
    /// The date of the object that held the message cannot be read.
    Date(chrono::ParseError),
    /// The message is not what was looked for; the text says why.
    Contents(String),
}

/// What the providers read of a message: the value of one header, and the
/// decoded body of the last part of a multipart message.
#[derive(Debug)]
pub struct Mail {
    pub header: Option<String>,
    pub last_part: Option<Result<String, mailparse::MailParseError>>,
}

/// The mathematical value of a `Mail`. The last part is `None` where the
/// message has no parts and `Some(None)` where the last part's body cannot be
/// decoded.
pub struct MailView {
    pub header: Option<Seq<char>>,
    pub last_part: Option<Option<Seq<char>>>,
}

impl View for Mail {
    type V = MailView;

    open spec fn view(&self) -> MailView {
        MailView {
            header: opt_view(self.header),
            last_part: match self.last_part {
                Some(Ok(body)) => Some(Some(body@)),
                Some(Err(_)) => Some(None),
                None => None,
            },
        }
    }
}

/// What an RFC 5322 message holds: the value of the first header named
/// `header` and the decoded body of its last part; `None` where the bytes are
/// no message.
pub uninterp spec fn parsed_mail(raw: Seq<u8>, header: Seq<char>) -> Option<MailView>;

/// Reads a message. Trusted: `mailparse::parse_mail`, with
/// `MailHeaderMap::get_first_value` and, on the last of the message's
/// subparts, `ParsedMail::get_body` read off the result. The outcome depends
/// on the bytes and the header's name alone.
#[verifier::external_body]
pub(crate) fn read_mail(raw: &[u8], header: &str) -> (read: Result<Mail, mailparse::MailParseError>)
    ensures
        match read {
            Ok(mail) => parsed_mail(raw@, header@) == Some(mail@),
            Err(_) => parsed_mail(raw@, header@) is None,
        },
{
    let mail = mailparse::parse_mail(raw)?;
    Ok(
        Mail {
            header: mailparse::MailHeaderMap::get_first_value(&mail.headers[..], header),
            last_part: mail.subparts.iter().last().map(|part| part.get_body()),
        },
    )
}

} // verus!
