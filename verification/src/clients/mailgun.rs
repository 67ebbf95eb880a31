//! The emails that carry book files to e-readers.

use crate::models::opt_view;
use vstd::prelude::*;
use vstd::string::*;

verus! {

/// A file sent along with an email.
#[derive(Debug)]
pub struct Attachment {
    pub content_type: String,
    pub file_name: String,
    pub bytes: Vec<u8>,
}

/// An email.
#[derive(Debug)]
pub struct Message {
    to: String,
    subject: String,
    text: Option<String>,
    html: Option<String>,
    attachment: Option<Attachment>,
}

/// The characters of an optional string slice.
pub open spec fn opt_str_view(s: Option<&str>) -> Option<Seq<char>> {
    match s {
        Some(t) => Some(t@),
        None => None,
    }
}

/// The text of a body that may have been left out: the subject stands in for
/// it.
pub open spec fn body_or_subject(body: Option<Seq<char>>, subject: Seq<char>) -> Seq<char> {
    match body {
        Some(text) => text,
        None => subject,
    }
}

impl Message {
    pub closed spec fn to_view(&self) -> Seq<char> {
        self.to@
    }

    pub closed spec fn subject_view(&self) -> Seq<char> {
        self.subject@
    }

    pub closed spec fn text_view(&self) -> Option<Seq<char>> {
        opt_view(self.text)
    }

    pub closed spec fn html_view(&self) -> Option<Seq<char>> {
        opt_view(self.html)
    }

    pub closed spec fn attachment_view(&self) -> Option<Attachment> {
        self.attachment
    }

    pub fn new(
        to: &str,
        subject: &str,
        text: Option<&str>,
        html: Option<&str>,
        attachment: Option<Attachment>,
    ) -> (message: Message)
        ensures
            message.to_view() == to@,
            message.subject_view() == subject@,
            message.text_view() == opt_str_view(text),
            message.html_view() == opt_str_view(html),
            message.attachment_view() == attachment,
    {
        Message {
            to: String::from_str(to),
            subject: String::from_str(subject),
            text: match text {
                Some(t) => Some(String::from_str(t)),
                None => None,
            },
            html: match html {
                Some(t) => Some(String::from_str(t)),
                None => None,
            },
            attachment,
        }
    }

    /// The address the email goes to.
    pub fn to(&self) -> (to: &String)
        ensures
            to@ == self.to_view(),
    {
        &self.to
    }

    /// The subject of the email.
    pub fn subject(&self) -> (subject: &String)
        ensures
            subject@ == self.subject_view(),
    {
        &self.subject
    }

    /// The plain body of the email: the subject where none was given.
    pub fn text(&self) -> (text: &String)
        ensures
            text@ == body_or_subject(self.text_view(), self.subject_view()),
    {
        match &self.text {
            Some(text) => text,
            None => &self.subject,
        }
    }

    /// The HTML body of the email: the subject where none was given.
    pub fn html(&self) -> (html: &String)
        ensures
            html@ == body_or_subject(self.html_view(), self.subject_view()),
    {
        match &self.html {
            Some(html) => html,
            None => &self.subject,
        }
    }

    /// The file sent along, if any.
    pub fn attachment(&self) -> (attachment: &Option<Attachment>)
        ensures
            *attachment == self.attachment_view(),
    {
        &self.attachment
    }
}

/// The email that carries a book file: the file is attached as
/// `<title>.mobi`, and the subject is the text of both bodies.
pub fn send_mobi_file(bytes: Vec<u8>, email: &str, title: &str, subject: &str) -> (message: Message)
    ensures
        message.to_view() == email@,
        message.subject_view() == subject@,
        message.text_view() == Some(subject@),
        message.html_view() == Some(subject@),
        message.attachment_view() matches Some(file) && file.content_type@
            == "application/x-mobipocket-ebook"@ && file.file_name@ == title@ + ".mobi"@
            && file.bytes == bytes,
{
    let mut file_name = String::from_str(title);
    file_name.append(".mobi");
    let attachment = Attachment {
        content_type: String::from_str("application/x-mobipocket-ebook"),
        file_name,
        bytes,
    };
    Message::new(email, subject, Some(subject), Some(subject), Some(attachment))
}

/// The email that carries a whole book, under the book's title.
pub fn send_book(bytes: Vec<u8>, email: &str, title: &str) -> (message: Message)
    ensures
        message.to_view() == email@,
        message.subject_view() == "A new chapter of "@ + title@ + "."@,
        message.text_view() == Some(message.subject_view()),
        message.html_view() == Some(message.subject_view()),
        message.attachment_view() matches Some(file) && file.content_type@
            == "application/x-mobipocket-ebook"@ && file.file_name@ == title@ + ".mobi"@
            && file.bytes == bytes,
{
    let mut subject = String::from_str("A new chapter of ");
    subject.append(title);
    subject.append(".");
    send_mobi_file(bytes, email, title, subject.as_str())
}

/// Why an email was not delivered.
#[derive(Clone, Copy, Debug, PartialEq, Eq, Structural)]
pub enum MailgunError {
    /// The attachment's content type is not one the service takes.
    ContentTypeError,
    /// The service answered, but not with one of the 2xx; the status is kept.
    MailgunError(u16),
}

/// What the answer of the service means: any status but the 2xx is a
/// failure of the delivery.
pub fn check_status(status: u16) -> (checked: Result<(), MailgunError>)
    ensures
        checked == if 200 <= status <= 299 {
            Ok::<(), MailgunError>(())
        } else {
            Err::<(), MailgunError>(MailgunError::MailgunError(status))
        },
{
    if is_success(status) {
        Ok(())
    } else {
        Err(MailgunError::MailgunError(status))
    }
}

/// Whether a service took what was sent to it: whether the status of its
/// answer is one of the 2xx.
pub fn is_success(status: u16) -> (accepted: bool)
    ensures
        accepted == (200 <= status <= 299),
{
    200 <= status && status <= 299
}

} // verus!
