//! The rows the service works on. Identifiers are 128-bit numbers and instants
//! are microseconds since the Unix epoch, UTC: what the store keeps of each.

use vstd::prelude::*;
use vstd::std_specs::cmp::PartialEqSpecImpl;

verus! {

/// An instant: microseconds since 1970-01-01T00:00:00Z.
pub type Timestamp = i64;

/// A row identifier.
pub type Id = u128;

/// The identity of a RoyalRoad fiction.
#[derive(Clone, Copy, Debug, PartialEq, Eq, Hash, Structural)]
pub struct RoyalRoadBookKind {
    pub id: u64,
}

/// Where a book comes from. One book row exists for each value.
#[derive(Clone, Copy, Debug, PartialEq, Eq, Hash, Structural)]
pub enum BookKind {
    RoyalRoad(RoyalRoadBookKind),
    Pale,
    APracticalGuideToEvil,
    TheWanderingInn,
    TheWanderingInnPatreon,
    TheDailyGrindPatreon,
}

/// What a provider needs to fetch a chapter's body again. Within a book it is
/// the chapter's identity.
#[derive(Debug, Eq, Hash)]
pub enum ChapterKind {
    RoyalRoad { id: u64 },
    Pale { url: String },
    APracticalGuideToEvil { url: String },
    TheWanderingInn { url: String },
    TheWanderingInnPatreon { url: String, password: Option<String> },
    TheDailyGrindPatreon { html: String },
}

/// The mathematical value of a `ChapterKind`.
pub enum ChapterKindView {
    RoyalRoad { id: u64 },
    Pale { url: Seq<char> },
    APracticalGuideToEvil { url: Seq<char> },
    TheWanderingInn { url: Seq<char> },
    TheWanderingInnPatreon { url: Seq<char>, password: Option<Seq<char>> },
    TheDailyGrindPatreon { html: Seq<char> },
}

/// The characters of an optional string.
pub open spec fn opt_view(s: Option<String>) -> Option<Seq<char>> {
    match s {
        Some(t) => Some(t@),
        None => None,
    }
}

impl View for ChapterKind {
    type V = ChapterKindView;

    open spec fn view(&self) -> ChapterKindView {
        match *self {
            ChapterKind::RoyalRoad { id } => ChapterKindView::RoyalRoad { id },
            ChapterKind::Pale { url } => ChapterKindView::Pale { url: url@ },
            ChapterKind::APracticalGuideToEvil { url } => ChapterKindView::APracticalGuideToEvil {
                url: url@,
            },
            ChapterKind::TheWanderingInn { url } => ChapterKindView::TheWanderingInn { url: url@ },
            ChapterKind::TheWanderingInnPatreon {
                url,
                password,
            } => ChapterKindView::TheWanderingInnPatreon { url: url@, password: opt_view(password) },
            ChapterKind::TheDailyGrindPatreon { html } => ChapterKindView::TheDailyGrindPatreon {
                html: html@,
            },
        }
    }
}

/// Whether two optional strings hold the same characters, or are both absent.
pub fn same_optional_text(a: &Option<String>, b: &Option<String>) -> (same: bool)
    ensures
        same == (opt_view(*a) == opt_view(*b)),
{
    match (a, b) {
        (Some(x), Some(y)) => *x == *y,
        (None, None) => true,
        _ => false,
    }
}

impl PartialEq for ChapterKind {
    fn eq(&self, other: &ChapterKind) -> (same: bool) {
        match (self, other) {
            (ChapterKind::RoyalRoad { id: a }, ChapterKind::RoyalRoad { id: b }) => *a == *b,
            (ChapterKind::Pale { url: a }, ChapterKind::Pale { url: b }) => *a == *b,
            (
                ChapterKind::APracticalGuideToEvil { url: a },
                ChapterKind::APracticalGuideToEvil { url: b },
            ) => *a == *b,
            (ChapterKind::TheWanderingInn { url: a }, ChapterKind::TheWanderingInn { url: b }) => *a
                == *b,
            (
                ChapterKind::TheWanderingInnPatreon { url: a, password: p },
                ChapterKind::TheWanderingInnPatreon { url: b, password: q },
            ) => *a == *b && same_optional_text(p, q),
            (
                ChapterKind::TheDailyGrindPatreon { html: a },
                ChapterKind::TheDailyGrindPatreon { html: b },
            ) => *a == *b,
            _ => false,
        }
    }
}

impl PartialEqSpecImpl for ChapterKind {
    open spec fn obeys_eq_spec() -> bool {
        true
    }

    open spec fn eq_spec(&self, other: &ChapterKind) -> bool {
        self@ == other@
    }
}

impl Clone for ChapterKind {
    fn clone(&self) -> (copy: ChapterKind)
        ensures
            copy == *self,
    {
        match self {
            ChapterKind::RoyalRoad { id } => ChapterKind::RoyalRoad { id: *id },
            ChapterKind::Pale { url } => ChapterKind::Pale { url: url.clone() },
            ChapterKind::APracticalGuideToEvil { url } => ChapterKind::APracticalGuideToEvil {
                url: url.clone(),
            },
            ChapterKind::TheWanderingInn { url } => ChapterKind::TheWanderingInn {
                url: url.clone(),
            },
            ChapterKind::TheWanderingInnPatreon { url, password } => {
                let password = match password {
                    Some(p) => Some(p.clone()),
                    None => None,
                };
                ChapterKind::TheWanderingInnPatreon { url: url.clone(), password }
            },
            ChapterKind::TheDailyGrindPatreon { html } => ChapterKind::TheDailyGrindPatreon {
                html: html.clone(),
            },
        }
    }
}

/// A book that is not stored yet.
#[derive(Debug)]
pub struct NewBook {
    pub name: String,
    pub author: String,
    pub metadata: BookKind,
}

impl NewBook {
    /// The book has the given name, author and source.
    pub open spec fn is(&self, name: Seq<char>, author: Seq<char>, metadata: BookKind) -> bool {
        self.name@ == name && self.author@ == author && self.metadata == metadata
    }
}

/// A stored book.
#[derive(Debug)]
pub struct Book {
    pub id: Id,
    pub name: String,
    pub author: String,
    pub created_at: Timestamp,
    pub updated_at: Timestamp,
    pub metadata: BookKind,
}

impl Clone for Book {
    fn clone(&self) -> (copy: Book)
        ensures
            copy == *self,
    {
        Book {
            id: self.id,
            name: self.name.clone(),
            author: self.author.clone(),
            created_at: self.created_at,
            updated_at: self.updated_at,
            metadata: self.metadata,
        }
    }
}

/// A chapter as a provider lists it, before it has a row.
#[derive(Debug)]
pub struct NewChapter {
    pub name: String,
    pub author: String,
    pub book_id: Id,
    pub metadata: ChapterKind,
    pub published_at: Timestamp,
}

/// The mathematical value of a `NewChapter`.
pub struct NewChapterView {
    pub name: Seq<char>,
    pub author: Seq<char>,
    pub book_id: Id,
    pub metadata: ChapterKindView,
    pub published_at: Timestamp,
}

impl View for NewChapter {
    type V = NewChapterView;

    open spec fn view(&self) -> NewChapterView {
        NewChapterView {
            name: self.name@,
            author: self.author@,
            book_id: self.book_id,
            metadata: self.metadata@,
            published_at: self.published_at,
        }
    }
}

impl Clone for NewChapter {
    fn clone(&self) -> (copy: NewChapter)
        ensures
            copy == *self,
    {
        NewChapter {
            name: self.name.clone(),
            author: self.author.clone(),
            book_id: self.book_id,
            metadata: self.metadata.clone(),
            published_at: self.published_at,
        }
    }
}

/// A stored chapter.
#[derive(Debug)]
pub struct Chapter {
    pub id: Id,
    pub name: String,
    pub author: String,
    pub created_at: Timestamp,
    pub updated_at: Timestamp,
    pub book_id: Id,
    pub published_at: Timestamp,
    pub metadata: ChapterKind,
}

impl Clone for Chapter {
    fn clone(&self) -> (copy: Chapter)
        ensures
            copy == *self,
    {
        Chapter {
            id: self.id,
            name: self.name.clone(),
            author: self.author.clone(),
            created_at: self.created_at,
            updated_at: self.updated_at,
            book_id: self.book_id,
            published_at: self.published_at,
            metadata: self.metadata.clone(),
        }
    }
}

/// One user's subscription to one book. `grouping_quantity` is the number of
/// pending chapters at which a delivery is made; `last_chapter_id` is the
/// chapter delivered last, `None` before the first delivery.
#[derive(Debug)]
pub struct Subscription {
    pub book_id: Id,
    pub created_at: Timestamp,
    pub user_id: String,
    pub grouping_quantity: i64,
    pub last_chapter_id: Option<Id>,
}

/// Where in the object store a chapter's artifact lies.
#[derive(Debug)]
pub struct StorageLocation {
    pub bucket: String,
    pub key: String,
}

/// The row that ties a chapter to its stored artifact.
#[derive(Debug)]
pub struct ChapterBody {
    pub key: String,
    pub bucket: String,
    pub chapter_id: Id,
}

impl Clone for ChapterBody {
    fn clone(&self) -> (copy: ChapterBody)
        ensures
            copy == *self,
    {
        ChapterBody { key: self.key.clone(), bucket: self.bucket.clone(), chapter_id: self.chapter_id }
    }
}

impl ChapterBody {
    /// The place this row points to.
    pub fn location(&self) -> (place: StorageLocation)
        ensures
            place.bucket == self.bucket,
            place.key == self.key,
    {
        StorageLocation { bucket: self.bucket.clone(), key: self.key.clone() }
    }
}

/// How one user is reached.
#[derive(Debug)]
pub struct DeliveryMethod {
    pub user_id: String,
    pub kindle_email: Option<String>,
    pub kindle_email_verified: bool,
    pub kindle_email_enabled: bool,
    pub kindle_email_verification_code_time: Option<Timestamp>,
    pub kindle_email_verification_code: Option<String>,
    pub pushover_key: Option<String>,
    pub pushover_key_verified: bool,
    pub pushover_enabled: bool,
    pub created_at: Timestamp,
    pub updated_at: Timestamp,
    pub pushover_verification_code_time: Option<Timestamp>,
    pub pushover_verification_code: Option<String>,
}

/// A copy of an optional string.
pub fn clone_optional_text(text: &Option<String>) -> (copy: Option<String>)
    ensures
        copy == *text,
{
    match text {
        Some(t) => Some(t.clone()),
        None => None,
    }
}

impl Clone for DeliveryMethod {
    fn clone(&self) -> (copy: DeliveryMethod)
        ensures
            copy == *self,
    {
        DeliveryMethod {
            user_id: self.user_id.clone(),
            kindle_email: clone_optional_text(&self.kindle_email),
            kindle_email_verified: self.kindle_email_verified,
            kindle_email_enabled: self.kindle_email_enabled,
            kindle_email_verification_code_time: self.kindle_email_verification_code_time,
            kindle_email_verification_code: clone_optional_text(
                &self.kindle_email_verification_code,
            ),
            pushover_key: clone_optional_text(&self.pushover_key),
            pushover_key_verified: self.pushover_key_verified,
            pushover_enabled: self.pushover_enabled,
            created_at: self.created_at,
            updated_at: self.updated_at,
            pushover_verification_code_time: self.pushover_verification_code_time,
            pushover_verification_code: clone_optional_text(&self.pushover_verification_code),
        }
    }
}

impl DeliveryMethod {
    /// The push key that messages go to: the stored key where the channel is
    /// both enabled and verified.
    pub open spec fn push_target(&self) -> Option<String> {
        if self.pushover_enabled && self.pushover_key_verified {
            self.pushover_key
        } else {
            None
        }
    }

    /// The e-reader address that files go to: the stored address where the
    /// channel is both enabled and verified.
    pub open spec fn email_target(&self) -> Option<String> {
        if self.kindle_email_enabled && self.kindle_email_verified {
            self.kindle_email
        } else {
            None
        }
    }

    pub fn get_pushover_key(&self) -> (key: &Option<String>)
        ensures
            *key == self.push_target(),
    {
        if self.pushover_enabled && self.pushover_key_verified {
            &self.pushover_key
        } else {
            &None
        }
    }

    pub fn get_kindle_email(&self) -> (address: &Option<String>)
        ensures
            *address == self.email_target(),
    {
        if self.kindle_email_enabled && self.kindle_email_verified {
            &self.kindle_email
        } else {
            &None
        }
    }
}

} // verus!
