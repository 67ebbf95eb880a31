//! Registering books by their address.

use crate::models::BookKind;
use crate::providers::royalroad::{book_kind_of, fiction_of};
use crate::util::{check_host, host_is, parse_url, url_parts, UrlError, UrlParts};
use vstd::prelude::*;
use vstd::string::*;

verus! {

/// A request to follow the book at `url`.
#[derive(Debug)]
pub struct CreateBookRequest {
    pub url: String,
}

/// The book that a URL names. The providers are asked in turn: RoyalRoad,
/// Pale, A Practical Guide to Evil, The Wandering Inn.
pub open spec fn book_of_parts(parts: (Seq<char>, Option<Seq<char>>, Seq<char>)) -> Option<
    BookKind,
> {
    match fiction_of(parts) {
        Ok(id) => Some(BookKind::RoyalRoad(crate::models::RoyalRoadBookKind { id })),
        Err(_) => if host_is(parts, "palewebserial.wordpress.com"@) {
            Some(BookKind::Pale)
        } else if host_is(parts, "practicalguidetoevil.wordpress.com"@) {
            Some(BookKind::APracticalGuideToEvil)
        } else if host_is(parts, "wanderinginn.com"@) {
            Some(BookKind::TheWanderingInn)
        } else {
            None
        },
    }
}

/// The book that a parsed URL names, if it names one.
pub fn book_kind_of_parts(parts: &UrlParts) -> (kind: Option<BookKind>)
    ensures
        kind == book_of_parts(parts.parts()),
{
    if let Ok(fiction) = book_kind_of(parts) {
        return Some(BookKind::RoyalRoad(fiction));
    }
    if check_host(parts, "palewebserial.wordpress.com").is_ok() {
        return Some(BookKind::Pale);
    }
    if check_host(parts, "practicalguidetoevil.wordpress.com").is_ok() {
        return Some(BookKind::APracticalGuideToEvil);
    }
    if check_host(parts, "wanderinginn.com").is_ok() {
        return Some(BookKind::TheWanderingInn);
    }
    None
}

/// The text that says no provider takes a URL for one of its books.
pub open spec fn no_book_text(url: Seq<char>) -> Seq<char> {
    "Failed to parse url "@ + url + " into book metadata"@
}

/// The book that `url` names. A text that is no URL, and a URL that no
/// provider takes for one of its books, are refused alike.
pub fn get_book_metadata(url: &str) -> (kind: Result<BookKind, UrlError>)
    ensures
        match kind {
            Ok(found) => url_parts(url@) matches Some(parts) && book_of_parts(parts) == Some(
                found,
            ),
            Err(UrlError::Url(text)) => text@ == no_book_text(url@) && (url_parts(url@) matches Some(
                parts,
            ) ==> book_of_parts(parts) is None),
            Err(UrlError::Parse(_)) => false,
        },
{
    if let Ok(parts) = parse_url(url) {
        if let Some(kind) = book_kind_of_parts(&parts) {
            return Ok(kind);
        }
    }
    let mut text = String::from_str("Failed to parse url ");
    text.append(url);
    text.append(" into book metadata");
    Err(UrlError::Url(text))
}

} // verus!
