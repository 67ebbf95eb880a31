use cereal::clients::mailgun::{send_mobi_file, Message};
use cereal::models::{
    Book, BookKind, Chapter, ChapterBody, ChapterKind, DeliveryMethod, Subscription,
};
use cereal::store::{advance_subscription_watermark, list_pending_deliveries};
use cereal::tasks::delivery::{
    concatenate, find_body, locations_for, DeliveryAction, DeliveryGroup, DeliveryProgress,
};
use cereal::tasks::grouping::{group_pending, has_id, insert_chapter, ChapterWithUser};
use cereal::tasks::messages::{cover_title, email_subject, push_message, range_title};

const DAY: i64 = 86_400_000_000;
const MARCH_FIRST_2024: i64 = 1_709_251_200_000_000;
const BOOK: u128 = 77;

fn chapter(id: u128, name: &str, published_at: i64) -> Chapter {
    Chapter {
        id,
        name: name.into(),
        author: "Author".into(),
        created_at: published_at,
        updated_at: published_at,
        book_id: BOOK,
        published_at,
        metadata: ChapterKind::RoyalRoad { id: id as u64 },
    }
}

fn book() -> Book {
    Book {
        id: BOOK,
        name: "B".into(),
        author: "Author".into(),
        created_at: 0,
        updated_at: 0,
        metadata: BookKind::Pale,
    }
}

fn subscription(user: &str, n: i64) -> Subscription {
    Subscription {
        book_id: BOOK,
        created_at: 0,
        user_id: user.into(),
        grouping_quantity: n,
        last_chapter_id: None,
    }
}

fn method(user: &str, push: bool, email: bool) -> DeliveryMethod {
    DeliveryMethod {
        user_id: user.into(),
        kindle_email: Some(format!("{}@kindle.com", user)),
        kindle_email_verified: email,
        kindle_email_enabled: email,
        kindle_email_verification_code_time: None,
        kindle_email_verification_code: None,
        pushover_key: Some(format!("{}-key", user)),
        pushover_key_verified: push,
        pushover_enabled: push,
        created_at: 0,
        updated_at: 0,
        pushover_verification_code_time: None,
        pushover_verification_code: None,
    }
}

fn body_row(chapter_id: u128) -> ChapterBody {
    ChapterBody { key: format!("{}.mobi", chapter_id), bucket: "bucket".into(), chapter_id }
}

/// What the outside world saw of one round of delivery.
struct Seen {
    pushes: Vec<(String, String)>,
    emails: Vec<Message>,
    converted: Vec<(String, Vec<u8>)>,
    loads: usize,
}

/// One round of delivery against rows held in memory. The object store holds,
/// under each key, the key's own text as bytes.
fn tick(
    subscriptions: &mut Vec<Subscription>,
    chapters: &Vec<Chapter>,
    bodies: &Vec<ChapterBody>,
    methods: &Vec<DeliveryMethod>,
    push_works: bool,
) -> Seen {
    let mut seen = Seen { pushes: vec![], emails: vec![], converted: vec![], loads: 0 };
    let rows = list_pending_deliveries(subscriptions, chapters);
    let groups = group_pending(&rows);
    let the_book = book();
    for group in groups.iter() {
        let method = methods.iter().find(|m| m.user_id == group.user_id).unwrap();
        let mut progress = DeliveryProgress::begin(group, method);
        let mut places = vec![];
        let mut parts: Vec<Vec<u8>> = vec![];
        let mut file: Vec<u8> = vec![];
        while !progress.is_finished() {
            let ok = match progress.current {
                DeliveryAction::LoadBodies => {
                    seen.loads += 1;
                    match locations_for(&group.chapters, bodies) {
                        Some(found) => {
                            places = found;
                            true
                        }
                        None => false,
                    }
                }
                DeliveryAction::FetchArtifacts => {
                    parts = places.iter().map(|p| p.key.clone().into_bytes()).collect();
                    true
                }
                DeliveryAction::Convert => {
                    file = concatenate(&parts);
                    seen.converted.push((cover_title(&the_book, &group.chapters), file.clone()));
                    true
                }
                DeliveryAction::SendPush => {
                    let key = method.get_pushover_key().clone().unwrap();
                    seen.pushes.push((key, push_message(&the_book, &group.chapters)));
                    push_works
                }
                DeliveryAction::SendEmail => {
                    let to = method.get_kindle_email().clone().unwrap();
                    seen.emails.push(send_mobi_file(
                        file.clone(),
                        &to,
                        &range_title(&group.chapters),
                        &email_subject(&the_book, &group.chapters),
                    ));
                    true
                }
                DeliveryAction::AdvanceWatermark => {
                    advance_subscription_watermark(
                        subscriptions,
                        &group.user_id,
                        group.book_id,
                        group.watermark(),
                    );
                    true
                }
                _ => unreachable!(),
            };
            progress = progress.advance(ok);
        }
    }
    seen
}

#[test]
fn a_single_chapter_goes_out_by_push_only() {
    let mut subs = vec![subscription("alice", 1)];
    let chapters = vec![chapter(1, "c1", MARCH_FIRST_2024)];
    let bodies = vec![body_row(1)];
    let methods = vec![method("alice", true, false)];
    let seen = tick(&mut subs, &chapters, &bodies, &methods, true);
    assert_eq!(
        seen.pushes,
        vec![(
            "alice-key".to_string(),
            "A new chapter of B by Author has been released: c1".to_string()
        )]
    );
    assert!(seen.emails.is_empty());
    assert_eq!(subs[0].last_chapter_id, Some(1));
}

#[test]
fn below_the_threshold_nothing_is_sent() {
    let mut subs = vec![subscription("bob", 5)];
    let chapters = vec![
        chapter(1, "c1", MARCH_FIRST_2024),
        chapter(2, "c2", MARCH_FIRST_2024 + DAY),
        chapter(3, "c3", MARCH_FIRST_2024 + 2 * DAY),
    ];
    let bodies = vec![body_row(1), body_row(2), body_row(3)];
    let methods = vec![method("bob", true, true)];
    let seen = tick(&mut subs, &chapters, &bodies, &methods, true);
    assert!(seen.pushes.is_empty());
    assert!(seen.emails.is_empty());
    assert!(seen.converted.is_empty());
    assert_eq!(seen.loads, 0);
    assert_eq!(subs[0].last_chapter_id, None);
}

#[test]
fn a_full_batch_goes_out_on_both_channels() {
    let mut subs = vec![subscription("carol", 2)];
    let chapters =
        vec![chapter(2, "c2", MARCH_FIRST_2024 + DAY), chapter(1, "c1", MARCH_FIRST_2024)];
    let bodies = vec![body_row(1), body_row(2)];
    let methods = vec![method("carol", true, true)];
    let seen = tick(&mut subs, &chapters, &bodies, &methods, true);
    assert_eq!(
        seen.pushes,
        vec![(
            "carol-key".to_string(),
            "2 new chapters of B by Author has been released: c1 through c2".to_string()
        )]
    );
    assert_eq!(seen.emails.len(), 1);
    let email = &seen.emails[0];
    assert_eq!(email.to(), "carol@kindle.com");
    assert_eq!(email.subject(), "2 New Chapters of B: c1 through c2");
    let file = email.attachment().as_ref().unwrap();
    assert_eq!(file.file_name, "c1 through c2.mobi");
    assert_eq!(file.content_type, "application/x-mobipocket-ebook");
    assert_eq!(file.bytes, b"1.mobi2.mobi".to_vec());
    assert_eq!(seen.converted, vec![("B: c1 through c2".to_string(), b"1.mobi2.mobi".to_vec())]);
    assert_eq!(subs[0].last_chapter_id, Some(2));
}

#[test]
fn a_failed_push_leaves_the_watermark_and_the_chapters_pending() {
    let mut subs = vec![subscription("carol", 2)];
    let chapters =
        vec![chapter(1, "c1", MARCH_FIRST_2024), chapter(2, "c2", MARCH_FIRST_2024 + DAY)];
    let bodies = vec![body_row(1), body_row(2)];
    let methods = vec![method("carol", true, true)];
    let seen = tick(&mut subs, &chapters, &bodies, &methods, false);
    assert_eq!(seen.pushes.len(), 1);
    assert!(seen.emails.is_empty());
    assert_eq!(subs[0].last_chapter_id, None);
    let again = list_pending_deliveries(&subs, &chapters);
    let ids: Vec<u128> = again.iter().map(|row| row.chapter.id).collect();
    assert_eq!(ids, vec![1, 2]);
}

#[test]
fn delivered_chapters_are_not_pending_in_the_next_round() {
    let mut subs = vec![subscription("carol", 2)];
    let mut chapters =
        vec![chapter(1, "c1", MARCH_FIRST_2024), chapter(2, "c2", MARCH_FIRST_2024 + DAY)];
    let bodies = vec![body_row(1), body_row(2), body_row(3)];
    let methods = vec![method("carol", true, true)];
    tick(&mut subs, &chapters, &bodies, &methods, true);
    assert!(list_pending_deliveries(&subs, &chapters).is_empty());
    chapters.push(chapter(3, "c3", MARCH_FIRST_2024 + 2 * DAY));
    let next = list_pending_deliveries(&subs, &chapters);
    let ids: Vec<u128> = next.iter().map(|row| row.chapter.id).collect();
    assert_eq!(ids, vec![3]);
    let seen = tick(&mut subs, &chapters, &bodies, &methods, true);
    assert!(seen.pushes.is_empty());
    assert_eq!(subs[0].last_chapter_id, Some(2));
}

#[test]
fn after_a_failure_newer_chapters_join_the_group() {
    let mut subs = vec![subscription("carol", 2)];
    let mut chapters =
        vec![chapter(1, "c1", MARCH_FIRST_2024), chapter(2, "c2", MARCH_FIRST_2024 + DAY)];
    let bodies = vec![body_row(1), body_row(2), body_row(3)];
    let methods = vec![method("carol", true, false)];
    tick(&mut subs, &chapters, &bodies, &methods, false);
    chapters.push(chapter(3, "c3", MARCH_FIRST_2024 + 2 * DAY));
    let seen = tick(&mut subs, &chapters, &bodies, &methods, true);
    assert_eq!(
        seen.pushes,
        vec![(
            "carol-key".to_string(),
            "3 new chapters of B by Author has been released: c1 through c3".to_string()
        )]
    );
    assert_eq!(subs[0].last_chapter_id, Some(3));
}

#[test]
fn without_channels_the_watermark_still_advances() {
    let mut subs = vec![subscription("dave", 1)];
    let chapters = vec![chapter(1, "c1", MARCH_FIRST_2024)];
    let bodies = vec![body_row(1)];
    let methods = vec![method("dave", false, false)];
    let seen = tick(&mut subs, &chapters, &bodies, &methods, true);
    assert!(seen.pushes.is_empty());
    assert!(seen.emails.is_empty());
    assert_eq!(seen.converted.len(), 1);
    assert_eq!(subs[0].last_chapter_id, Some(1));
}

#[test]
fn a_chapter_without_a_body_abandons_the_group() {
    let mut subs = vec![subscription("erin", 1)];
    let chapters = vec![chapter(1, "c1", MARCH_FIRST_2024)];
    let methods = vec![method("erin", true, true)];
    let seen = tick(&mut subs, &chapters, &vec![], &methods, true);
    assert!(seen.pushes.is_empty());
    assert!(seen.converted.is_empty());
    assert_eq!(subs[0].last_chapter_id, None);
}

#[test]
fn chapters_at_or_before_the_watermark_are_not_pending() {
    let mut subs = vec![subscription("alice", 1)];
    subs[0].last_chapter_id = Some(2);
    let chapters = vec![
        chapter(1, "c1", 10),
        chapter(2, "c2", 20),
        chapter(3, "c3", 20),
        chapter(4, "c4", 21),
    ];
    let rows = list_pending_deliveries(&subs, &chapters);
    let ids: Vec<u128> = rows.iter().map(|row| row.chapter.id).collect();
    assert_eq!(ids, vec![4]);
}

#[test]
fn without_a_watermark_everything_after_the_epoch_is_pending() {
    let subs = vec![subscription("alice", 1)];
    let mut other = chapter(9, "other", 50);
    other.book_id = BOOK + 1;
    let chapters = vec![chapter(1, "old", 0), chapter(2, "c2", 1), other];
    let rows = list_pending_deliveries(&subs, &chapters);
    let ids: Vec<u128> = rows.iter().map(|row| row.chapter.id).collect();
    assert_eq!(ids, vec![2]);
    assert_eq!(rows[0].user_id, "alice");
    assert_eq!(rows[0].grouping_quantity, 1);
}

#[test]
fn a_watermark_that_names_no_chapter_counts_as_none() {
    let mut subs = vec![subscription("alice", 1)];
    subs[0].last_chapter_id = Some(404);
    let chapters = vec![chapter(1, "c1", 5)];
    assert_eq!(list_pending_deliveries(&subs, &chapters).len(), 1);
}

#[test]
fn advancing_touches_one_subscription_only() {
    let mut subs = vec![subscription("alice", 1), subscription("bob", 2)];
    subs.push(Subscription { book_id: BOOK + 1, ..subscription("alice", 3) });
    advance_subscription_watermark(&mut subs, "alice", BOOK, 42);
    assert_eq!(subs[0].last_chapter_id, Some(42));
    assert_eq!(subs[1].last_chapter_id, None);
    assert_eq!(subs[2].last_chapter_id, None);
    assert_eq!(subs[0].grouping_quantity, 1);
    assert_eq!(subs[0].user_id, "alice");
}

fn row(user: &str, n: i64, c: Chapter) -> ChapterWithUser {
    ChapterWithUser { user_id: user.into(), grouping_quantity: n, chapter: c }
}

#[test]
fn rows_are_grouped_by_subscription_and_ordered_by_publication() {
    let rows = vec![
        row("alice", 1, chapter(3, "c3", 30)),
        row("bob", 2, chapter(3, "c3", 30)),
        row("alice", 1, chapter(1, "c1", 10)),
        row("alice", 1, chapter(2, "c2", 20)),
        row("alice", 1, chapter(3, "c3", 30)),
    ];
    let groups = group_pending(&rows);
    assert_eq!(groups.len(), 2);
    let alice = groups.iter().find(|g| g.user_id == "alice").unwrap();
    let ids: Vec<u128> = alice.chapters.iter().map(|c| c.id).collect();
    assert_eq!(ids, vec![1, 2, 3]);
    assert_eq!(alice.grouping_quantity, 1);
    assert_eq!(alice.book_id, BOOK);
    let bob = groups.iter().find(|g| g.user_id == "bob").unwrap();
    assert_eq!(bob.chapters.len(), 1);
}

#[test]
fn chapters_of_one_instant_stay_in_the_order_of_their_rows() {
    let rows = vec![
        row("alice", 1, chapter(5, "five", 10)),
        row("alice", 1, chapter(4, "four", 10)),
        row("alice", 1, chapter(6, "six", 5)),
    ];
    let groups = group_pending(&rows);
    let ids: Vec<u128> = groups[0].chapters.iter().map(|c| c.id).collect();
    assert_eq!(ids, vec![6, 5, 4]);
}

#[test]
fn no_rows_make_no_groups() {
    assert!(group_pending(&vec![]).is_empty());
}

#[test]
fn inserting_keeps_order_and_skips_known_chapters() {
    let mut chapters = vec![chapter(1, "c1", 10), chapter(3, "c3", 30)];
    insert_chapter(&mut chapters, chapter(2, "c2", 20));
    insert_chapter(&mut chapters, chapter(3, "again", 99));
    insert_chapter(&mut chapters, chapter(0, "c0", 1));
    let ids: Vec<u128> = chapters.iter().map(|c| c.id).collect();
    assert_eq!(ids, vec![0, 1, 2, 3]);
    assert_eq!(chapters[3].name, "c3");
    assert!(has_id(&chapters, 2));
    assert!(!has_id(&chapters, 7));
}

fn group(n: i64, count: usize) -> DeliveryGroup {
    DeliveryGroup {
        user_id: "u".into(),
        book_id: BOOK,
        grouping_quantity: n,
        chapters: (0..count).map(|i| chapter(i as u128 + 1, "c", i as i64)).collect(),
    }
}

#[test]
fn a_group_is_due_exactly_from_its_threshold_on() {
    assert!(!group(3, 2).is_due());
    assert!(group(3, 3).is_due());
    assert!(group(3, 4).is_due());
    assert!(group(1, 1).is_due());
    assert!(!group(i64::MAX, 5).is_due());
    assert!(group(0, 1).is_due());
    assert!(group(-4, 1).is_due());
}

#[test]
fn the_watermark_is_the_newest_chapter() {
    let g = group(1, 3);
    assert_eq!(g.watermark(), 3);
    assert_eq!(g.chapter_ids(), vec![1, 2, 3]);
}

#[test]
fn the_actions_follow_one_another_in_order() {
    let mut p = DeliveryProgress::begin(&group(1, 1), &method("u", true, true));
    let mut trace = vec![p.current];
    while !p.is_finished() {
        p = p.advance(true);
        trace.push(p.current);
    }
    assert_eq!(
        trace,
        vec![
            DeliveryAction::LoadBodies,
            DeliveryAction::FetchArtifacts,
            DeliveryAction::Convert,
            DeliveryAction::SendPush,
            DeliveryAction::SendEmail,
            DeliveryAction::AdvanceWatermark,
            DeliveryAction::Complete,
        ]
    );
}

#[test]
fn every_failure_abandons_without_advancing() {
    for failing in 0..6 {
        let mut p = DeliveryProgress::begin(&group(1, 1), &method("u", true, true));
        let mut step = 0;
        let mut advanced = false;
        while !p.is_finished() {
            if p.current == DeliveryAction::AdvanceWatermark && step != failing {
                advanced = true;
            }
            p = p.advance(step != failing);
            step += 1;
        }
        assert_eq!(p.current, DeliveryAction::Abandon);
        assert!(!advanced || failing == 5);
    }
}

#[test]
fn a_finished_delivery_stays_finished() {
    let skipped = DeliveryProgress::begin(&group(2, 1), &method("u", true, true));
    assert_eq!(skipped.current, DeliveryAction::Skip);
    assert!(skipped.is_finished());
    assert_eq!(skipped.advance(true).current, DeliveryAction::Skip);
    assert_eq!(skipped.advance(false).current, DeliveryAction::Skip);
}

#[test]
fn an_email_only_user_gets_no_push() {
    let mut p = DeliveryProgress::begin(&group(1, 1), &method("u", false, true));
    let mut trace = vec![];
    while !p.is_finished() {
        trace.push(p.current);
        p = p.advance(true);
    }
    assert!(!trace.contains(&DeliveryAction::SendPush));
    assert!(trace.contains(&DeliveryAction::SendEmail));
}

#[test]
fn bodies_are_lined_up_with_their_chapters() {
    let chapters = vec![chapter(2, "b", 1), chapter(1, "a", 2)];
    let bodies = vec![body_row(1), body_row(2), body_row(3)];
    let places = locations_for(&chapters, &bodies).unwrap();
    let keys: Vec<String> = places.iter().map(|p| p.key.clone()).collect();
    assert_eq!(keys, vec!["2.mobi", "1.mobi"]);
    assert_eq!(places[0].bucket, "bucket");
    assert!(locations_for(&chapters, &vec![body_row(1)]).is_none());
    assert_eq!(locations_for(&vec![], &bodies).unwrap().len(), 0);
    assert_eq!(find_body(&bodies, 3), Some(2));
    assert_eq!(find_body(&bodies, 4), None);
}

#[test]
fn artifacts_are_joined_in_order() {
    assert_eq!(concatenate(&vec![vec![1, 2], vec![], vec![3]]), vec![1, 2, 3]);
    assert_eq!(concatenate(&vec![]), Vec::<u8>::new());
}

#[test]
fn titles_of_one_chapter() {
    let chapters = vec![chapter(1, "Chapter One", 1)];
    let b = book();
    assert_eq!(range_title(&chapters), "Chapter One");
    assert_eq!(cover_title(&b, &chapters), "B: Chapter One");
    assert_eq!(
        push_message(&b, &chapters),
        "A new chapter of B by Author has been released: Chapter One"
    );
    assert_eq!(email_subject(&b, &chapters), "New Chapter of B: Chapter One");
}

#[test]
fn titles_of_several_chapters() {
    let chapters: Vec<Chapter> =
        (1..=12).map(|i| chapter(i, &format!("Ch {}", i), i as i64)).collect();
    let b = book();
    assert_eq!(range_title(&chapters), "Ch 1 through Ch 12");
    assert_eq!(cover_title(&b, &chapters), "B: Ch 1 through Ch 12");
    assert_eq!(
        push_message(&b, &chapters),
        "12 new chapters of B by Author has been released: Ch 1 through Ch 12"
    );
    assert_eq!(email_subject(&b, &chapters), "12 New Chapters of B: Ch 1 through Ch 12");
}
