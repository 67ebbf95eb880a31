//! Reading URLs and dates: the two places where a provider's text is handed
//! to a parser, and the checks made on what comes back.

use crate::models::{opt_view, Timestamp};
use crate::text::same_text;
use vstd::prelude::*;
use vstd::string::*;

verus! {

/// The error of `url::Url::parse`, carried as it is.
#[verifier::external_type_specification]
#[verifier::external_body]
pub struct ExUrlParseError(url::ParseError);

/// The error of `chrono::DateTime::parse_from_rfc2822`, carried as it is.
#[verifier::external_type_specification]
#[verifier::external_body]
pub struct ExDateParseError(chrono::ParseError);

/// What went wrong with a URL.
#[derive(Debug)]
pub enum UrlError {
    /// The text is no absolute URL.
    Parse(url::ParseError),
    /// The URL is not one of the provider's; the text says why.
    Url(String),
}

/// The parts of an absolute URL that the providers look at.
#[derive(Debug)]
pub struct UrlParts {
    pub scheme: String,
    pub host: Option<String>,
    pub path: String,
}

/// The scheme, the host and the path that the WHATWG URL parser gives for a
/// text, or `None` where the text is no absolute URL.
pub uninterp spec fn url_parts(input: Seq<char>) -> Option<(Seq<char>, Option<Seq<char>>, Seq<char>)>;

impl UrlParts {
    /// The parts as plain sequences.
    pub open spec fn parts(&self) -> (Seq<char>, Option<Seq<char>>, Seq<char>) {
        (self.scheme@, opt_view(self.host), self.path@)
    }
}

/// Parses an absolute URL. Trusted: `url::Url::parse`, with `Url::scheme`,
/// `Url::host_str` and `Url::path` read off the result. The outcome depends
/// on the text alone.
#[verifier::external_body]
pub(crate) fn parse_url(input: &str) -> (parsed: Result<UrlParts, url::ParseError>)
    ensures
        match parsed {
            Ok(parts) => url_parts(input@) == Some(parts.parts()),
            Err(_) => url_parts(input@) is None,
        },
{
    let url = url::Url::parse(input)?;
    Ok(
        UrlParts {
            scheme: url.scheme().to_string(),
            host: url.host_str().map(|host| host.to_string()),
            path: url.path().to_string(),
        },
    )
}

/// The text of the complaint about a host that is not the expected one.
pub open spec fn wrong_host_text(host: Seq<char>, valid_host: Seq<char>) -> Seq<char> {
    "Provided hostname "@ + host + " is not "@ + valid_host + "."@
}

/// Whether the host of a URL is `valid_host`, letter for letter.
pub open spec fn host_is(parts: (Seq<char>, Option<Seq<char>>, Seq<char>), valid_host: Seq<char>) -> bool {
    parts.1 == Some(valid_host)
}

/// `checked` is what the check of a URL's host against `valid_host` gives:
/// success exactly where the host is `valid_host`, else the refusal that
/// names the host, or says that there is none.
pub open spec fn host_checked(
    checked: Result<(), UrlError>,
    parts: (Seq<char>, Option<Seq<char>>, Seq<char>),
    valid_host: Seq<char>,
) -> bool {
    match checked {
        Ok(_) => host_is(parts, valid_host),
        Err(UrlError::Url(text)) => !host_is(parts, valid_host) && match parts.1 {
            Some(host) => text@ == wrong_host_text(host, valid_host),
            None => text@ == "Url has no host."@,
        },
        Err(UrlError::Parse(_)) => false,
    }
}

/// `checked` is what the check of the text `url` gives: the error of the
/// parser where the text is no absolute URL, else what the check of its host
/// gives.
pub open spec fn url_checked(
    checked: Result<(), UrlError>,
    url: Seq<char>,
    valid_host: Seq<char>,
) -> bool {
    match url_parts(url) {
        Some(parts) => host_checked(checked, parts, valid_host),
        None => checked matches Err(UrlError::Parse(_)),
    }
}

/// Checks the host of a parsed URL against the one host a provider serves
/// from. The comparison is exact: case matters, and so does a `www.` in front.
pub fn check_host(parts: &UrlParts, valid_host: &str) -> (checked: Result<(), UrlError>)
    ensures
        checked is Ok <==> host_is(parts.parts(), valid_host@),
        host_checked(checked, parts.parts(), valid_host@),
{
    match &parts.host {
        Some(host) => {
            if same_text(host.as_str(), valid_host) {
                Ok(())
            } else {
                let mut text = String::from_str("Provided hostname ");
                text.append(host.as_str());
                text.append(" is not ");
                text.append(valid_host);
                text.append(".");
                Err(UrlError::Url(text))
            }
        },
        None => Err(UrlError::Url(String::from_str("Url has no host."))),
    }
}

/// Accepts `url` exactly where it is an absolute URL whose host is
/// `valid_host`.
pub fn validate_hostname(url: &str, valid_host: &str) -> (checked: Result<(), UrlError>)
    ensures
        checked is Ok <==> (url_parts(url@) matches Some(parts) && host_is(parts, valid_host@)),
        url_checked(checked, url@, valid_host@),
{
    match parse_url(url) {
        Ok(parts) => check_host(&parts, valid_host),
        Err(e) => Err(UrlError::Parse(e)),
    }
}

/// The instant that an RFC 2822 date names, in microseconds since the Unix
/// epoch, or `None` where the text is no such date.
pub uninterp spec fn rfc2822_instant(text: Seq<char>) -> Option<Timestamp>;

/// Reads an RFC 2822 date. Trusted: `chrono::DateTime::parse_from_rfc2822`,
/// brought to UTC by `with_timezone` and to microseconds by
/// `timestamp_micros`. The outcome depends on the text alone.
#[verifier::external_body]
pub(crate) fn rfc2822_micros(text: &str) -> (parsed: Result<Timestamp, chrono::ParseError>)
    ensures
        match parsed {
            Ok(at) => rfc2822_instant(text@) == Some(at),
            Err(_) => rfc2822_instant(text@) is None,
        },
{
    let date = chrono::DateTime::parse_from_rfc2822(text)?;
    Ok(date.with_timezone(&chrono::Utc).timestamp_micros())
}

/// The instant that the RFC 2822 date `pub_date` names.
pub fn parse_from_rfc2822(pub_date: &str) -> (parsed: Result<Timestamp, chrono::ParseError>)
    ensures
        match parsed {
            Ok(at) => rfc2822_instant(pub_date@) == Some(at),
            Err(_) => rfc2822_instant(pub_date@) is None,
        },
{
    rfc2822_micros(pub_date)
}

} // verus!
