use cereal::models::{BookKind, ChapterBody, ChapterKind, DeliveryMethod, RoyalRoadBookKind};

fn method() -> DeliveryMethod {
    DeliveryMethod {
        user_id: "alice".into(),
        kindle_email: Some("alice@kindle.com".into()),
        kindle_email_verified: true,
        kindle_email_enabled: true,
        kindle_email_verification_code_time: None,
        kindle_email_verification_code: None,
        pushover_key: Some("key-1".into()),
        pushover_key_verified: true,
        pushover_enabled: true,
        created_at: 0,
        updated_at: 0,
        pushover_verification_code_time: None,
        pushover_verification_code: None,
    }
}

#[test]
fn a_channel_is_deliverable_when_verified_and_enabled_and_set() {
    let m = method();
    assert_eq!(m.get_pushover_key(), &Some("key-1".to_string()));
    assert_eq!(m.get_kindle_email(), &Some("alice@kindle.com".to_string()));
}

#[test]
fn a_channel_that_is_not_verified_is_not_deliverable() {
    let mut m = method();
    m.pushover_key_verified = false;
    m.kindle_email_verified = false;
    assert_eq!(m.get_pushover_key(), &None);
    assert_eq!(m.get_kindle_email(), &None);
}

#[test]
fn a_channel_that_is_not_enabled_is_not_deliverable() {
    let mut m = method();
    m.pushover_enabled = false;
    m.kindle_email_enabled = false;
    assert_eq!(m.get_pushover_key(), &None);
    assert_eq!(m.get_kindle_email(), &None);
}

#[test]
fn a_channel_without_a_target_is_not_deliverable() {
    let mut m = method();
    m.pushover_key = None;
    m.kindle_email = None;
    assert_eq!(m.get_pushover_key(), &None);
    assert_eq!(m.get_kindle_email(), &None);
}

#[test]
fn chapter_kinds_are_equal_where_variant_and_fields_are() {
    let a = ChapterKind::Pale { url: "https://p/1".into() };
    let b = ChapterKind::Pale { url: "https://p/1".into() };
    let c = ChapterKind::Pale { url: "https://p/2".into() };
    let d = ChapterKind::TheWanderingInn { url: "https://p/1".into() };
    assert_eq!(a, b);
    assert_ne!(a, c);
    assert_ne!(a, d);
    assert_eq!(ChapterKind::RoyalRoad { id: 5 }, ChapterKind::RoyalRoad { id: 5 });
    assert_ne!(ChapterKind::RoyalRoad { id: 5 }, ChapterKind::RoyalRoad { id: 6 });
}

#[test]
fn a_password_is_part_of_a_chapters_identity() {
    let open = ChapterKind::TheWanderingInnPatreon { url: "u".into(), password: None };
    let locked =
        ChapterKind::TheWanderingInnPatreon { url: "u".into(), password: Some("pw".into()) };
    let other =
        ChapterKind::TheWanderingInnPatreon { url: "u".into(), password: Some("pw2".into()) };
    assert_ne!(open, locked);
    assert_ne!(locked, other);
    assert_eq!(locked, locked.clone());
    assert_eq!(open, open.clone());
}

#[test]
fn book_kinds_compare_by_variant_and_number() {
    assert_eq!(BookKind::Pale, BookKind::Pale);
    assert_ne!(BookKind::Pale, BookKind::TheWanderingInn);
    assert_eq!(
        BookKind::RoyalRoad(RoyalRoadBookKind { id: 1 }),
        BookKind::RoyalRoad(RoyalRoadBookKind { id: 1 })
    );
    assert_ne!(
        BookKind::RoyalRoad(RoyalRoadBookKind { id: 1 }),
        BookKind::RoyalRoad(RoyalRoadBookKind { id: 2 })
    );
}

#[test]
fn a_body_row_points_to_its_place() {
    let row = ChapterBody { key: "k.mobi".into(), bucket: "b".into(), chapter_id: 9 };
    let place = row.location();
    assert_eq!(place.bucket, "b");
    assert_eq!(place.key, "k.mobi");
}
