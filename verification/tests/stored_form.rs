use cereal::aggregator::get_book_html;
use cereal::chapter::{Book, BookMeta, Chapter};
use cereal::configuration::RoyalRoadConfiguration;
use cereal::models::{BookKind, ChapterKind, RoyalRoadBookKind};
use cereal::supervisor::{Command, Event, Supervisor, Task};
use cereal::tagged::{find_field, Field, FieldValue, Tagged};

fn all_book_kinds() -> Vec<BookKind> {
    vec![
        BookKind::RoyalRoad(RoyalRoadBookKind { id: 0 }),
        BookKind::RoyalRoad(RoyalRoadBookKind { id: u64::MAX }),
        BookKind::Pale,
        BookKind::APracticalGuideToEvil,
        BookKind::TheWanderingInn,
        BookKind::TheWanderingInnPatreon,
        BookKind::TheDailyGrindPatreon,
    ]
}

fn all_chapter_kinds() -> Vec<ChapterKind> {
    vec![
        ChapterKind::RoyalRoad { id: 7 },
        ChapterKind::Pale { url: "https://p/1".into() },
        ChapterKind::APracticalGuideToEvil { url: "https://p/1".into() },
        ChapterKind::TheWanderingInn { url: "https://p/1".into() },
        ChapterKind::TheWanderingInnPatreon { url: "https://p/1".into(), password: None },
        ChapterKind::TheWanderingInnPatreon { url: "https://p/1".into(), password: Some("pw".into()) },
        ChapterKind::TheWanderingInnPatreon { url: "https://p/1".into(), password: Some("".into()) },
        ChapterKind::TheDailyGrindPatreon { html: "<p>\"x\"</p>".into() },
        ChapterKind::TheDailyGrindPatreon { html: "".into() },
    ]
}

#[test]
fn a_book_kind_comes_back_from_its_stored_form() {
    for kind in all_book_kinds() {
        assert_eq!(BookKind::from_tagged(&kind.to_tagged()), Some(kind));
    }
}

#[test]
fn a_chapter_kind_comes_back_from_its_stored_form() {
    for kind in all_chapter_kinds() {
        assert_eq!(ChapterKind::from_tagged(&kind.to_tagged()), Some(kind.clone()));
    }
}

fn shape(form: &Tagged) -> (String, Option<Vec<(String, String)>>) {
    let fields = form.fields.as_ref().map(|fields| {
        fields
            .iter()
            .map(|f| {
                let value = match &f.value {
                    FieldValue::Number(n) => format!("{}", n),
                    FieldValue::Text(t) => format!("{:?}", t),
                    FieldValue::Null => "null".to_string(),
                };
                (f.name.clone(), value)
            })
            .collect()
    });
    (form.tag.clone(), fields)
}

#[test]
fn different_kinds_are_stored_differently() {
    let kinds = all_chapter_kinds();
    for (i, a) in kinds.iter().enumerate() {
        for (j, b) in kinds.iter().enumerate() {
            assert_eq!(shape(&a.to_tagged()) == shape(&b.to_tagged()), i == j);
            assert_eq!(a == b, i == j);
        }
    }
    let books = all_book_kinds();
    for (i, a) in books.iter().enumerate() {
        for (j, b) in books.iter().enumerate() {
            assert_eq!(shape(&a.to_tagged()) == shape(&b.to_tagged()), i == j);
        }
    }
}

#[test]
fn the_stored_form_names_variant_and_fields() {
    assert_eq!(shape(&BookKind::Pale.to_tagged()), ("Pale".to_string(), None));
    assert_eq!(
        shape(&BookKind::RoyalRoad(RoyalRoadBookKind { id: 5 }).to_tagged()),
        ("RoyalRoad".to_string(), Some(vec![("id".to_string(), "5".to_string())]))
    );
    assert_eq!(
        shape(&ChapterKind::RoyalRoad { id: 5 }.to_tagged()),
        ("RoyalRoad".to_string(), Some(vec![("id".to_string(), "5".to_string())]))
    );
    assert_eq!(
        shape(&ChapterKind::Pale { url: "u".into() }.to_tagged()),
        ("Pale".to_string(), Some(vec![("url".to_string(), "\"u\"".to_string())]))
    );
    assert_eq!(
        shape(&ChapterKind::TheWanderingInnPatreon { url: "u".into(), password: None }.to_tagged()),
        (
            "TheWanderingInnPatreon".to_string(),
            Some(vec![
                ("url".to_string(), "\"u\"".to_string()),
                ("password".to_string(), "null".to_string())
            ])
        )
    );
    assert_eq!(
        shape(&ChapterKind::TheDailyGrindPatreon { html: "h".into() }.to_tagged()),
        ("TheDailyGrindPatreon".to_string(), Some(vec![("html".to_string(), "\"h\"".to_string())]))
    );
}

fn text_field(name: &str, value: &str) -> Field {
    Field { name: name.into(), value: FieldValue::Text(value.into()) }
}

#[test]
fn forms_that_stand_for_nothing_are_refused() {
    let unknown = Tagged { tag: "Worm".into(), fields: None };
    assert_eq!(BookKind::from_tagged(&unknown), None);
    assert_eq!(ChapterKind::from_tagged(&unknown), None);
    let bare_royal = Tagged { tag: "RoyalRoad".into(), fields: None };
    assert_eq!(BookKind::from_tagged(&bare_royal), None);
    let pale_with_fields = Tagged { tag: "Pale".into(), fields: Some(vec![]) };
    assert_eq!(BookKind::from_tagged(&pale_with_fields), None);
    assert_eq!(ChapterKind::from_tagged(&pale_with_fields), None);
    let text_id = Tagged { tag: "RoyalRoad".into(), fields: Some(vec![text_field("id", "5")]) };
    assert_eq!(BookKind::from_tagged(&text_id), None);
    assert_eq!(ChapterKind::from_tagged(&text_id), None);
    let lower = Tagged { tag: "pale".into(), fields: Some(vec![text_field("url", "u")]) };
    assert_eq!(ChapterKind::from_tagged(&lower), None);
    let numbered = Tagged {
        tag: "TheWanderingInnPatreon".into(),
        fields: Some(vec![
            text_field("url", "u"),
            Field { name: "password".into(), value: FieldValue::Number(1) },
        ]),
    };
    assert_eq!(ChapterKind::from_tagged(&numbered), None);
}

#[test]
fn fields_are_found_by_name_in_any_order() {
    let form = Tagged {
        tag: "TheWanderingInnPatreon".into(),
        fields: Some(vec![text_field("password", "pw"), text_field("extra", "x"), text_field("url", "u")]),
    };
    assert_eq!(
        ChapterKind::from_tagged(&form),
        Some(ChapterKind::TheWanderingInnPatreon { url: "u".into(), password: Some("pw".into()) })
    );
    let missing = Tagged { tag: "TheWanderingInnPatreon".into(), fields: Some(vec![text_field("url", "u")]) };
    assert_eq!(
        ChapterKind::from_tagged(&missing),
        Some(ChapterKind::TheWanderingInnPatreon { url: "u".into(), password: None })
    );
    let fields = vec![text_field("a", "1"), text_field("b", "2"), text_field("a", "3")];
    assert!(matches!(find_field(&fields, "a"), Some(FieldValue::Text(t)) if t == "1"));
    assert!(matches!(find_field(&fields, "b"), Some(FieldValue::Text(t)) if t == "2"));
    assert!(find_field(&fields, "c").is_none());
}

#[test]
fn the_supervisor_starts_everything_once() {
    let (supervisor, commands) = Supervisor::start();
    assert!(supervisor.running);
    assert_eq!(
        commands,
        vec![
            Command::Migrate,
            Command::Spawn(Task::Server),
            Command::Spawn(Task::NewChapters),
            Command::Spawn(Task::Notifications),
            Command::Listen,
        ]
    );
}

#[test]
fn a_task_that_ends_is_started_again() {
    let (mut supervisor, _) = Supervisor::start();
    for task in [Task::Server, Task::NewChapters, Task::Notifications, Task::Server] {
        assert_eq!(supervisor.handle(Event::Ended(task)), Command::Spawn(task));
        assert!(supervisor.running);
    }
}

#[test]
fn the_signal_ends_the_run_and_nothing_is_started_after() {
    let (mut supervisor, _) = Supervisor::start();
    assert_eq!(supervisor.handle(Event::Signal), Command::Shutdown);
    assert!(!supervisor.running);
    assert_eq!(supervisor.handle(Event::Ended(Task::Server)), Command::Ignore);
    assert_eq!(supervisor.handle(Event::Signal), Command::Ignore);
    assert!(!supervisor.running);
}

#[test]
fn the_periods_and_the_pool() {
    assert_eq!(cereal::supervisor::CHECK_PERIOD_SECONDS, 5 * 60);
    assert_eq!(cereal::supervisor::DELIVERY_PERIOD_SECONDS, 30);
    assert_eq!(cereal::supervisor::POOL_SIZE, 30);
}

#[test]
fn a_book_becomes_one_document() {
    let book = Book {
        title: "T".into(),
        author: "A".into(),
        chapters: vec![
            Chapter { body: "<p>1</p>".into(), title: "One".into() },
            Chapter { body: "<p>2</p>".into(), title: "Two".into() },
        ],
    };
    let whole = get_book_html(&book);
    assert_eq!(whole.body, "<h1>T</h1><h2>One</h2><p>1</p><h2>Two</h2><p>2</p>");
    assert_eq!(whole.title, "T");
    assert_eq!(whole.author, "A");
    assert_eq!(whole.chapter_titles, vec!["One", "Two"]);
    let meta = BookMeta::from(whole);
    assert_eq!(meta.title, "T");
    assert_eq!(meta.author, "A");
    assert_eq!(meta.chapter_titles, vec!["One", "Two"]);
    let empty = get_book_html(&Book { title: "E".into(), author: "A".into(), chapters: vec![] });
    assert_eq!(empty.body, "<h1>E</h1>");
    assert!(empty.chapter_titles.is_empty());
}

#[test]
fn no_fictions_are_configured_by_default() {
    assert!(RoyalRoadConfiguration::default().ids.is_empty());
}
