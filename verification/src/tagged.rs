//! The stored form of a book's and a chapter's kind: the name of the variant
//! and, for a variant that has fields, the fields by name. As a JSON value a
//! variant without fields is the string of its name; any other is an object
//! with the name as its one key and the object of the fields as its value.
//! The store finds books and chapters by this form, so it must not change.

use crate::models::{BookKind, ChapterKind, ChapterKindView, RoyalRoadBookKind};
use crate::text::same_text;
use vstd::prelude::*;
use vstd::string::*;

verus! {

/// The value of a field.
#[derive(Debug)]
pub enum FieldValue {
    Number(u64),
    Text(String),
    Null,
}

/// The mathematical value of a `FieldValue`.
pub enum FieldValueView {
    Number(u64),
    Text(Seq<char>),
    Null,
}

impl View for FieldValue {
    type V = FieldValueView;

    open spec fn view(&self) -> FieldValueView {
        match *self {
            FieldValue::Number(n) => FieldValueView::Number(n),
            FieldValue::Text(text) => FieldValueView::Text(text@),
            FieldValue::Null => FieldValueView::Null,
        }
    }
}

/// A field: its name and its value.
#[derive(Debug)]
pub struct Field {
    pub name: String,
    pub value: FieldValue,
}

/// The mathematical value of a `Field`.
pub struct FieldView {
    pub name: Seq<char>,
    pub value: FieldValueView,
}

impl View for Field {
    type V = FieldView;

    open spec fn view(&self) -> FieldView {
        FieldView { name: self.name@, value: self.value@ }
    }
}

/// A variant by name, with its fields where it has any.
#[derive(Debug)]
pub struct Tagged {
    pub tag: String,
    pub fields: Option<Vec<Field>>,
}

/// The mathematical value of a `Tagged`.
pub struct TaggedView {
    pub tag: Seq<char>,
    pub fields: Option<Seq<FieldView>>,
}

impl View for Tagged {
    type V = TaggedView;

    open spec fn view(&self) -> TaggedView {
        TaggedView {
            tag: self.tag@,
            fields: match self.fields {
                Some(fields) => Some(fields@.map_values(|field: Field| field@)),
                None => None,
            },
        }
    }
}

/// The value of the first field named `name`.
pub open spec fn field_value(fields: Seq<FieldView>, name: Seq<char>) -> Option<FieldValueView>
    decreases fields.len(),
{
    if fields.len() == 0 {
        None
    } else if fields[0].name == name {
        Some(fields[0].value)
    } else {
        field_value(fields.skip(1), name)
    }
}

/// Looks a field up by its name.
pub fn find_field<'a>(fields: &'a Vec<Field>, name: &str) -> (found: Option<&'a FieldValue>)
    ensures
        match found {
            Some(value) => field_value(fields@.map_values(|field: Field| field@), name@) == Some(
                value@,
            ),
            None => field_value(fields@.map_values(|field: Field| field@), name@) is None,
        },
{
    let ghost views = fields@.map_values(|field: Field| field@);
    let mut i: usize = 0;
    assert(views.skip(0) == views);
    while i < fields.len()
        invariant
            i <= fields.len(),
            views == fields@.map_values(|field: Field| field@),
            field_value(views, name@) == field_value(views.skip(i as int), name@),
        decreases fields.len() - i,
    {
        assert(views.skip(i as int)[0] == fields@[i as int]@);
        assert(views.skip(i as int).skip(1) == views.skip(i + 1));
        if same_text(fields[i].name.as_str(), name) {
            return Some(&fields[i].value);
        }
        i = i + 1;
    }
    None
}

/// The stored form of a book's kind.
pub open spec fn book_kind_form(kind: BookKind) -> TaggedView {
    match kind {
        BookKind::RoyalRoad(fiction) => TaggedView {
            tag: "RoyalRoad"@,
            fields: Some(seq![FieldView { name: "id"@, value: FieldValueView::Number(fiction.id) }]),
        },
        BookKind::Pale => TaggedView { tag: "Pale"@, fields: None },
        BookKind::APracticalGuideToEvil => TaggedView { tag: "APracticalGuideToEvil"@, fields: None },
        BookKind::TheWanderingInn => TaggedView { tag: "TheWanderingInn"@, fields: None },
        BookKind::TheWanderingInnPatreon => TaggedView {
            tag: "TheWanderingInnPatreon"@,
            fields: None,
        },
        BookKind::TheDailyGrindPatreon => TaggedView { tag: "TheDailyGrindPatreon"@, fields: None },
    }
}

/// The kind of book that a stored form stands for.
pub open spec fn book_kind_of_form(form: TaggedView) -> Option<BookKind> {
    match form.fields {
        Some(fields) => if form.tag == "RoyalRoad"@ {
            match field_value(fields, "id"@) {
                Some(FieldValueView::Number(id)) => Some(
                    BookKind::RoyalRoad(RoyalRoadBookKind { id }),
                ),
                _ => None,
            }
        } else {
            None
        },
        None => if form.tag == "Pale"@ {
            Some(BookKind::Pale)
        } else if form.tag == "APracticalGuideToEvil"@ {
            Some(BookKind::APracticalGuideToEvil)
        } else if form.tag == "TheWanderingInn"@ {
            Some(BookKind::TheWanderingInn)
        } else if form.tag == "TheWanderingInnPatreon"@ {
            Some(BookKind::TheWanderingInnPatreon)
        } else if form.tag == "TheDailyGrindPatreon"@ {
            Some(BookKind::TheDailyGrindPatreon)
        } else {
            None
        },
    }
}

/// The names of the variants and of the fields differ from one another.
pub proof fn lemma_names_differ()
    ensures
        "RoyalRoad"@.len() == 9,
        "Pale"@.len() == 4,
        "APracticalGuideToEvil"@.len() == 21,
        "TheWanderingInn"@.len() == 15,
        "TheWanderingInnPatreon"@.len() == 22,
        "TheDailyGrindPatreon"@.len() == 20,
        "id"@.len() == 2,
        "url"@.len() == 3,
        "password"@.len() == 8,
        "html"@.len() == 4,
{
    reveal_strlit("RoyalRoad");
    reveal_strlit("Pale");
    reveal_strlit("APracticalGuideToEvil");
    reveal_strlit("TheWanderingInn");
    reveal_strlit("TheWanderingInnPatreon");
    reveal_strlit("TheDailyGrindPatreon");
    reveal_strlit("id");
    reveal_strlit("url");
    reveal_strlit("password");
    reveal_strlit("html");
}

/// Round trip. What is stored for a book's kind stands for that kind again,
/// so no two kinds are stored alike.
pub proof fn lemma_book_kind_round_trip(kind: BookKind)
    ensures
        book_kind_of_form(book_kind_form(kind)) == Some(kind),
        forall|other: BookKind| book_kind_form(other) == book_kind_form(kind) ==> other == kind,
{
    lemma_names_differ();
    assert forall|other: BookKind| book_kind_form(other) == book_kind_form(kind) implies other
        == kind by {
        lemma_book_kind_round_trip_one(other);
        lemma_book_kind_round_trip_one(kind);
    }
    lemma_book_kind_round_trip_one(kind);
}

proof fn lemma_book_kind_round_trip_one(kind: BookKind)
    ensures
        book_kind_of_form(book_kind_form(kind)) == Some(kind),
{
    lemma_names_differ();
}

impl BookKind {
    /// The stored form of this kind.
    pub fn to_tagged(&self) -> (form: Tagged)
        ensures
            form@ == book_kind_form(*self),
    {
        match self {
            BookKind::RoyalRoad(fiction) => {
                let mut fields: Vec<Field> = Vec::new();
                fields.push(
                    Field { name: String::from_str("id"), value: FieldValue::Number(fiction.id) },
                );
                assert(fields@.map_values(|field: Field| field@) == seq![
                    FieldView { name: "id"@, value: FieldValueView::Number(fiction.id) },
                ]);
                Tagged { tag: String::from_str("RoyalRoad"), fields: Some(fields) }
            },
            BookKind::Pale => Tagged { tag: String::from_str("Pale"), fields: None },
            BookKind::APracticalGuideToEvil => Tagged {
                tag: String::from_str("APracticalGuideToEvil"),
                fields: None,
            },
            BookKind::TheWanderingInn => Tagged {
                tag: String::from_str("TheWanderingInn"),
                fields: None,
            },
            BookKind::TheWanderingInnPatreon => Tagged {
                tag: String::from_str("TheWanderingInnPatreon"),
                fields: None,
            },
            BookKind::TheDailyGrindPatreon => Tagged {
                tag: String::from_str("TheDailyGrindPatreon"),
                fields: None,
            },
        }
    }

    /// The kind that a stored form stands for, or `None` where it stands for
    /// none.
    pub fn from_tagged(form: &Tagged) -> (kind: Option<BookKind>)
        ensures
            kind == book_kind_of_form(form@),
    {
        let tag = form.tag.as_str();
        match &form.fields {
            Some(fields) => {
                if same_text(tag, "RoyalRoad") {
                    match find_field(fields, "id") {
                        Some(FieldValue::Number(id)) => Some(
                            BookKind::RoyalRoad(RoyalRoadBookKind { id: *id }),
                        ),
                        _ => None,
                    }
                } else {
                    None
                }
            },
            None => {
                if same_text(tag, "Pale") {
                    Some(BookKind::Pale)
                } else if same_text(tag, "APracticalGuideToEvil") {
                    Some(BookKind::APracticalGuideToEvil)
                } else if same_text(tag, "TheWanderingInn") {
                    Some(BookKind::TheWanderingInn)
                } else if same_text(tag, "TheWanderingInnPatreon") {
                    Some(BookKind::TheWanderingInnPatreon)
                } else if same_text(tag, "TheDailyGrindPatreon") {
                    Some(BookKind::TheDailyGrindPatreon)
                } else {
                    None
                }
            },
        }
    }
}

/// The one field `url`.
pub open spec fn url_field(url: Seq<char>) -> Seq<FieldView> {
    seq![FieldView { name: "url"@, value: FieldValueView::Text(url) }]
}

/// The stored form of a chapter's kind.
pub open spec fn chapter_kind_form(kind: ChapterKindView) -> TaggedView {
    match kind {
        ChapterKindView::RoyalRoad { id } => TaggedView {
            tag: "RoyalRoad"@,
            fields: Some(seq![FieldView { name: "id"@, value: FieldValueView::Number(id) }]),
        },
        ChapterKindView::Pale { url } => TaggedView { tag: "Pale"@, fields: Some(url_field(url)) },
        ChapterKindView::APracticalGuideToEvil { url } => TaggedView {
            tag: "APracticalGuideToEvil"@,
            fields: Some(url_field(url)),
        },
        ChapterKindView::TheWanderingInn { url } => TaggedView {
            tag: "TheWanderingInn"@,
            fields: Some(url_field(url)),
        },
        ChapterKindView::TheWanderingInnPatreon { url, password } => TaggedView {
            tag: "TheWanderingInnPatreon"@,
            fields: Some(
                seq![
                    FieldView { name: "url"@, value: FieldValueView::Text(url) },
                    FieldView {
                        name: "password"@,
                        value: match password {
                            Some(text) => FieldValueView::Text(text),
                            None => FieldValueView::Null,
                        },
                    },
                ],
            ),
        },
        ChapterKindView::TheDailyGrindPatreon { html } => TaggedView {
            tag: "TheDailyGrindPatreon"@,
            fields: Some(seq![FieldView { name: "html"@, value: FieldValueView::Text(html) }]),
        },
    }
}

/// The text of the field `name`, where it is a text.
pub open spec fn text_field(fields: Seq<FieldView>, name: Seq<char>) -> Option<Seq<char>> {
    match field_value(fields, name) {
        Some(FieldValueView::Text(text)) => Some(text),
        _ => None,
    }
}

/// The kind of chapter that a stored form stands for. A password that is
/// missing stands for none, as one that is null does.
pub open spec fn chapter_kind_of_form(form: TaggedView) -> Option<ChapterKindView> {
    match form.fields {
        None => None,
        Some(fields) => if form.tag == "RoyalRoad"@ {
            match field_value(fields, "id"@) {
                Some(FieldValueView::Number(id)) => Some(ChapterKindView::RoyalRoad { id }),
                _ => None,
            }
        } else if form.tag == "Pale"@ {
            match text_field(fields, "url"@) {
                Some(url) => Some(ChapterKindView::Pale { url }),
                None => None,
            }
        } else if form.tag == "APracticalGuideToEvil"@ {
            match text_field(fields, "url"@) {
                Some(url) => Some(ChapterKindView::APracticalGuideToEvil { url }),
                None => None,
            }
        } else if form.tag == "TheWanderingInn"@ {
            match text_field(fields, "url"@) {
                Some(url) => Some(ChapterKindView::TheWanderingInn { url }),
                None => None,
            }
        } else if form.tag == "TheWanderingInnPatreon"@ {
            match text_field(fields, "url"@) {
                Some(url) => match field_value(fields, "password"@) {
                    Some(FieldValueView::Text(text)) => Some(
                        ChapterKindView::TheWanderingInnPatreon { url, password: Some(text) },
                    ),
                    Some(FieldValueView::Number(_)) => None,
                    _ => Some(ChapterKindView::TheWanderingInnPatreon { url, password: None }),
                },
                None => None,
            }
        } else if form.tag == "TheDailyGrindPatreon"@ {
            match text_field(fields, "html"@) {
                Some(html) => Some(ChapterKindView::TheDailyGrindPatreon { html }),
                None => None,
            }
        } else {
            None
        },
    }
}

/// Round trip. What is stored for a chapter's kind stands for that kind
/// again.
pub proof fn lemma_chapter_kind_round_trip(kind: ChapterKindView)
    ensures
        chapter_kind_of_form(chapter_kind_form(kind)) == Some(kind),
{
    lemma_names_differ();
    let form = chapter_kind_form(kind);
    let fields = form.fields.unwrap();
    match kind {
        ChapterKindView::TheWanderingInnPatreon { url, password } => {
            assert(fields[0].name == "url"@);
            assert(fields.skip(1)[0] == fields[1]);
            assert(field_value(fields, "url"@) == Some(FieldValueView::Text(url)));
            assert(field_value(fields.skip(1), "password"@) == Some(fields[1].value));
            assert(field_value(fields, "password"@) == Some(fields[1].value));
        },
        _ => {
            assert(field_value(fields, fields[0].name) == Some(fields[0].value));
        },
    }
}

/// Equality is equality of what is stored: two kinds of chapter have the same
/// stored form exactly where they are the same kind.
pub proof fn lemma_chapter_kind_equality(a: ChapterKindView, b: ChapterKindView)
    ensures
        chapter_kind_form(a) == chapter_kind_form(b) <==> a == b,
{
    lemma_chapter_kind_round_trip(a);
    lemma_chapter_kind_round_trip(b);
}

/// A text as a field's value.
fn text_value(text: &String) -> (value: FieldValue)
    ensures
        value@ == FieldValueView::Text(text@),
{
    FieldValue::Text(text.clone())
}

/// The one field `url`.
fn url_fields(url: &String) -> (fields: Vec<Field>)
    ensures
        fields@.map_values(|field: Field| field@) == url_field(url@),
{
    let mut fields: Vec<Field> = Vec::new();
    fields.push(Field { name: String::from_str("url"), value: text_value(url) });
    assert(fields@.map_values(|field: Field| field@) == url_field(url@));
    fields
}

impl ChapterKind {
    /// The stored form of this kind.
    pub fn to_tagged(&self) -> (form: Tagged)
        ensures
            form@ == chapter_kind_form(self@),
    {
        match self {
            ChapterKind::RoyalRoad { id } => {
                let mut fields: Vec<Field> = Vec::new();
                fields.push(Field { name: String::from_str("id"), value: FieldValue::Number(*id) });
                assert(fields@.map_values(|field: Field| field@) == seq![
                    FieldView { name: "id"@, value: FieldValueView::Number(*id) },
                ]);
                Tagged { tag: String::from_str("RoyalRoad"), fields: Some(fields) }
            },
            ChapterKind::Pale { url } => Tagged {
                tag: String::from_str("Pale"),
                fields: Some(url_fields(url)),
            },
            ChapterKind::APracticalGuideToEvil { url } => Tagged {
                tag: String::from_str("APracticalGuideToEvil"),
                fields: Some(url_fields(url)),
            },
            ChapterKind::TheWanderingInn { url } => Tagged {
                tag: String::from_str("TheWanderingInn"),
                fields: Some(url_fields(url)),
            },
            ChapterKind::TheWanderingInnPatreon { url, password } => {
                let mut fields: Vec<Field> = Vec::new();
                fields.push(Field { name: String::from_str("url"), value: text_value(url) });
                let value = match password {
                    Some(text) => text_value(text),
                    None => FieldValue::Null,
                };
                fields.push(Field { name: String::from_str("password"), value });
                assert(fields@.map_values(|field: Field| field@)
                    == chapter_kind_form(self@).fields.unwrap());
                Tagged { tag: String::from_str("TheWanderingInnPatreon"), fields: Some(fields) }
            },
            ChapterKind::TheDailyGrindPatreon { html } => {
                let mut fields: Vec<Field> = Vec::new();
                fields.push(Field { name: String::from_str("html"), value: text_value(html) });
                assert(fields@.map_values(|field: Field| field@) == seq![
                    FieldView { name: "html"@, value: FieldValueView::Text(html@) },
                ]);
                Tagged { tag: String::from_str("TheDailyGrindPatreon"), fields: Some(fields) }
            },
        }
    }

    /// The kind that a stored form stands for, or `None` where it stands for
    /// none.
    pub fn from_tagged(form: &Tagged) -> (kind: Option<ChapterKind>)
        ensures
            match kind {
                Some(found) => chapter_kind_of_form(form@) == Some(found@),
                None => chapter_kind_of_form(form@) is None,
            },
    {
        let tag = form.tag.as_str();
        let fields = match &form.fields {
            Some(fields) => fields,
            None => {
                return None;
            },
        };
        if same_text(tag, "RoyalRoad") {
            return match find_field(fields, "id") {
                Some(FieldValue::Number(id)) => Some(ChapterKind::RoyalRoad { id: *id }),
                _ => None,
            };
        }
        if same_text(tag, "TheDailyGrindPatreon") {
            proof {
                lemma_names_differ();
            }
            return match find_field(fields, "html") {
                Some(FieldValue::Text(html)) => Some(
                    ChapterKind::TheDailyGrindPatreon { html: html.clone() },
                ),
                _ => None,
            };
        }
        let url = match find_field(fields, "url") {
            Some(FieldValue::Text(url)) => url.clone(),
            _ => {
                return None;
            },
        };
        if same_text(tag, "Pale") {
            Some(ChapterKind::Pale { url })
        } else if same_text(tag, "APracticalGuideToEvil") {
            Some(ChapterKind::APracticalGuideToEvil { url })
        } else if same_text(tag, "TheWanderingInn") {
            Some(ChapterKind::TheWanderingInn { url })
        } else if same_text(tag, "TheWanderingInnPatreon") {
            match find_field(fields, "password") {
                Some(FieldValue::Text(text)) => Some(
                    ChapterKind::TheWanderingInnPatreon { url, password: Some(text.clone()) },
                ),
                Some(FieldValue::Number(_)) => None,
                _ => Some(ChapterKind::TheWanderingInnPatreon { url, password: None }),
            }
        } else {
            None
        }
    }
}

} // verus!
