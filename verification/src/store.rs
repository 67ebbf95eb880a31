//! What the relational store answers and records, stated over its rows held
//! in memory: the queries that the two jobs ask, the advance of a
//! subscription's watermark, and what the jobs' writes keep true of the
//! tables.

use crate::models::{
    Book, Chapter, ChapterBody, DeliveryMethod, Id, NewChapter, Subscription, Timestamp,
};
use crate::text::same_text;
use crate::tasks::delivery::ascending;
use crate::tasks::grouping::ChapterWithUser;
use vstd::prelude::*;

verus! {

/// The instant before which a subscription without a watermark has received
/// everything: the Unix epoch.
pub const EPOCH: Timestamp = 0;

/// Some subscription is to the book.
pub open spec fn is_subscribed(subscriptions: Seq<Subscription>, book_id: Id) -> bool {
    exists|s: int| 0 <= s < subscriptions.len() && (#[trigger] subscriptions[s]).book_id == book_id
}

/// The books that have a subscriber, in the order of the table.
pub open spec fn subscribed_books(books: Seq<Book>, subscriptions: Seq<Subscription>) -> Seq<Book>
    decreases books.len(),
{
    if books.len() == 0 {
        Seq::empty()
    } else if is_subscribed(subscriptions, books.last().id) {
        subscribed_books(books.drop_last(), subscriptions).push(books.last())
    } else {
        subscribed_books(books.drop_last(), subscriptions)
    }
}

/// Whether some subscription is to the book.
pub fn has_subscriber(subscriptions: &Vec<Subscription>, book_id: Id) -> (found: bool)
    ensures
        found == is_subscribed(subscriptions@, book_id),
{
    let mut i: usize = 0;
    while i < subscriptions.len()
        invariant
            i <= subscriptions.len(),
            forall|s: int| 0 <= s < i ==> (#[trigger] subscriptions@[s]).book_id != book_id,
        decreases subscriptions.len() - i,
    {
        if subscriptions[i].book_id == book_id {
            return true;
        }
        i = i + 1;
    }
    false
}

/// The books to look at for new chapters: those with at least one
/// subscription, each once. A book that nobody is subscribed to is left out.
pub fn list_subscribed_books(books: &Vec<Book>, subscriptions: &Vec<Subscription>) -> (found: Vec<
    Book,
>)
    ensures
        found@ == subscribed_books(books@, subscriptions@),
{
    let mut found: Vec<Book> = Vec::new();
    let mut i: usize = 0;
    assert(books@.take(0) == Seq::<Book>::empty());
    while i < books.len()
        invariant
            i <= books.len(),
            found@ == subscribed_books(books@.take(i as int), subscriptions@),
        decreases books.len() - i,
    {
        assert(books@.take(i + 1).drop_last() == books@.take(i as int));
        assert(books@.take(i + 1).last() == books@[i as int]);
        if has_subscriber(subscriptions, books[i].id) {
            found.push(books[i].clone());
        }
        i = i + 1;
    }
    assert(books@.take(books.len() as int) == books@);
    found
}

/// `chapters` are in descending order of publication.
pub open spec fn newest_first(chapters: Seq<Chapter>) -> bool {
    forall|i: int, j: int|
        0 <= i < j < chapters.len() ==> chapters[i].published_at >= chapters[j].published_at
}

/// The place of a chapter published at `at` among chapters that stand newest
/// first: behind the last chapter that is not older.
pub open spec fn slot_newest_first(chapters: Seq<Chapter>, at: Timestamp) -> int
    decreases chapters.len(),
{
    if chapters.len() == 0 {
        0
    } else if chapters.last().published_at >= at {
        chapters.len() as int
    } else {
        slot_newest_first(chapters.drop_last(), at)
    }
}

/// `chapter` is of the book and not older than `since`.
pub open spec fn is_since(chapter: Chapter, book_id: Id, since: Timestamp) -> bool {
    chapter.book_id == book_id && chapter.published_at >= since
}

/// The chapters of a book published at `since` or later, newest first;
/// chapters of one instant stand in the order of the table.
pub open spec fn since_spec(chapters: Seq<Chapter>, book_id: Id, since: Timestamp) -> Seq<Chapter>
    decreases chapters.len(),
{
    if chapters.len() == 0 {
        Seq::empty()
    } else {
        let before = since_spec(chapters.drop_last(), book_id, since);
        if is_since(chapters.last(), book_id, since) {
            before.insert(slot_newest_first(before, chapters.last().published_at), chapters.last())
        } else {
            before
        }
    }
}

/// Before the slot nothing is older than `at`, and from the slot on all is.
pub proof fn lemma_slot_newest_first(chapters: Seq<Chapter>, at: Timestamp)
    requires
        newest_first(chapters),
    ensures
        0 <= slot_newest_first(chapters, at) <= chapters.len(),
        forall|j: int| 0 <= j < slot_newest_first(chapters, at) ==> chapters[j].published_at >= at,
        forall|j: int|
            slot_newest_first(chapters, at) <= j < chapters.len() ==> chapters[j].published_at < at,
    decreases chapters.len(),
{
    if chapters.len() == 0 {
    } else if chapters.last().published_at >= at {
    } else {
        let front = chapters.drop_last();
        assert(newest_first(front)) by {
            assert forall|i: int, j: int| 0 <= i < j < front.len() implies front[i].published_at
                >= front[j].published_at by {
                assert(front[i] == chapters[i]);
                assert(front[j] == chapters[j]);
            }
        }
        lemma_slot_newest_first(front, at);
        assert forall|j: int| 0 <= j < slot_newest_first(chapters, at) implies chapters[j].published_at
            >= at by {
            assert(front[j] == chapters[j]);
        }
        assert forall|j: int|
            slot_newest_first(chapters, at) <= j < chapters.len() implies chapters[j].published_at
            < at by {
            if j < front.len() {
                assert(front[j] == chapters[j]);
            }
        }
    }
}

/// What the query gives stands newest first, holds nothing but chapters of
/// the book that are not older than `since`, and holds each of those.
pub proof fn lemma_since(chapters: Seq<Chapter>, book_id: Id, since: Timestamp)
    ensures
        newest_first(since_spec(chapters, book_id, since)),
        forall|k: int|
            0 <= k < since_spec(chapters, book_id, since).len() ==> is_since(
                #[trigger] since_spec(chapters, book_id, since)[k],
                book_id,
                since,
            ) && chapters.contains(since_spec(chapters, book_id, since)[k]),
        forall|k: int|
            0 <= k < chapters.len() && is_since(#[trigger] chapters[k], book_id, since)
                ==> since_spec(chapters, book_id, since).contains(chapters[k]),
    decreases chapters.len(),
{
    if chapters.len() > 0 {
        let front = chapters.drop_last();
        let last = chapters.last();
        lemma_since(front, book_id, since);
        let before = since_spec(front, book_id, since);
        let all = since_spec(chapters, book_id, since);
        if is_since(last, book_id, since) {
            let at = slot_newest_first(before, last.published_at);
            lemma_slot_newest_first(before, last.published_at);
            assert(all[at] == last);
            assert forall|i: int, j: int| 0 <= i < j < all.len() implies all[i].published_at
                >= all[j].published_at by {
                if i != at {
                    assert(all[i] == before[if i < at {
                        i
                    } else {
                        i - 1
                    }]);
                }
                if j != at {
                    assert(all[j] == before[if j < at {
                        j
                    } else {
                        j - 1
                    }]);
                }
            }
            assert forall|k: int| 0 <= k < all.len() implies is_since(
                #[trigger] all[k],
                book_id,
                since,
            ) && chapters.contains(all[k]) by {
                if k == at {
                    assert(chapters[chapters.len() - 1] == last);
                } else {
                    let b = if k < at {
                        k
                    } else {
                        k - 1
                    };
                    assert(all[k] == before[b]);
                    let j = choose|j: int| 0 <= j < front.len() && front[j] == before[b];
                    assert(chapters[j] == front[j]);
                }
            }
            assert forall|k: int|
                0 <= k < chapters.len() && is_since(
                    #[trigger] chapters[k],
                    book_id,
                    since,
                ) implies all.contains(chapters[k]) by {
                if k < front.len() {
                    assert(front[k] == chapters[k]);
                    let b = choose|b: int| 0 <= b < before.len() && before[b] == front[k];
                    if b < at {
                        assert(all[b] == before[b]);
                    } else {
                        assert(all[b + 1] == before[b]);
                    }
                } else {
                    assert(all[at] == chapters[k]);
                }
            }
        } else {
            assert forall|k: int| 0 <= k < all.len() implies is_since(
                #[trigger] all[k],
                book_id,
                since,
            ) && chapters.contains(all[k]) by {
                let j = choose|j: int| 0 <= j < front.len() && front[j] == before[k];
                assert(chapters[j] == front[j]);
            }
            assert forall|k: int|
                0 <= k < chapters.len() && is_since(
                    #[trigger] chapters[k],
                    book_id,
                    since,
                ) implies all.contains(chapters[k]) by {
                assert(front[k] == chapters[k]);
            }
        }
    }
}

/// The chapters of the book `book_id` that were published at `since` or
/// later, newest first: what a provider's listing is compared with.
pub fn chapters_since(chapters: &Vec<Chapter>, book_id: Id, since: Timestamp) -> (found: Vec<
    Chapter,
>)
    ensures
        found@ == since_spec(chapters@, book_id, since),
        newest_first(found@),
{
    let mut found: Vec<Chapter> = Vec::new();
    let mut i: usize = 0;
    assert(chapters@.take(0) == Seq::<Chapter>::empty());
    while i < chapters.len()
        invariant
            i <= chapters.len(),
            found@ == since_spec(chapters@.take(i as int), book_id, since),
        decreases chapters.len() - i,
    {
        assert(chapters@.take(i + 1).drop_last() == chapters@.take(i as int));
        assert(chapters@.take(i + 1).last() == chapters@[i as int]);
        let chapter = &chapters[i];
        if chapter.book_id == book_id && chapter.published_at >= since {
            let mut n: usize = found.len();
            assert(found@.take(n as int) == found@);
            while n > 0 && found[n - 1].published_at < chapter.published_at
                invariant
                    n <= found.len(),
                    slot_newest_first(found@, chapter.published_at) == slot_newest_first(
                        found@.take(n as int),
                        chapter.published_at,
                    ),
                decreases n,
            {
                assert(found@.take(n as int).drop_last() == found@.take(n - 1));
                n = n - 1;
            }
            found.insert(n, chapter.clone());
        }
        i = i + 1;
    }
    assert(chapters@.take(chapters.len() as int) == chapters@);
    proof {
        lemma_since(chapters@, book_id, since);
    }
    found
}

/// One of `ids` is `id`.
pub open spec fn asked_for(ids: Seq<Id>, id: Id) -> bool {
    exists|k: int| 0 <= k < ids.len() && #[trigger] ids[k] == id
}

/// Whether one of `ids` is `id`.
pub fn is_asked_for(ids: &Vec<Id>, id: Id) -> (found: bool)
    ensures
        found == asked_for(ids@, id),
{
    let mut i: usize = 0;
    while i < ids.len()
        invariant
            i <= ids.len(),
            forall|k: int| 0 <= k < i ==> #[trigger] ids@[k] != id,
        decreases ids.len() - i,
    {
        if ids[i] == id {
            return true;
        }
        i = i + 1;
    }
    false
}

/// The books with one of the identifiers `ids`, in the order of the table.
pub open spec fn books_of(books: Seq<Book>, ids: Seq<Id>) -> Seq<Book>
    decreases books.len(),
{
    if books.len() == 0 {
        Seq::empty()
    } else if asked_for(ids, books.last().id) {
        books_of(books.drop_last(), ids).push(books.last())
    } else {
        books_of(books.drop_last(), ids)
    }
}

/// The books that the groups of a round of delivery are of.
pub fn load_books(books: &Vec<Book>, book_ids: &Vec<Id>) -> (found: Vec<Book>)
    ensures
        found@ == books_of(books@, book_ids@),
{
    let mut found: Vec<Book> = Vec::new();
    let mut i: usize = 0;
    assert(books@.take(0) == Seq::<Book>::empty());
    while i < books.len()
        invariant
            i <= books.len(),
            found@ == books_of(books@.take(i as int), book_ids@),
        decreases books.len() - i,
    {
        assert(books@.take(i + 1).drop_last() == books@.take(i as int));
        assert(books@.take(i + 1).last() == books@[i as int]);
        if is_asked_for(book_ids, books[i].id) {
            found.push(books[i].clone());
        }
        i = i + 1;
    }
    assert(books@.take(books.len() as int) == books@);
    found
}

/// One of `users` is `user`.
pub open spec fn names_user(users: Seq<String>, user: Seq<char>) -> bool {
    exists|k: int| 0 <= k < users.len() && (#[trigger] users[k])@ == user
}

/// Whether one of `users` is `user`.
pub fn is_named(users: &Vec<String>, user: &str) -> (found: bool)
    ensures
        found == names_user(users@, user@),
{
    let mut i: usize = 0;
    while i < users.len()
        invariant
            i <= users.len(),
            forall|k: int| 0 <= k < i ==> (#[trigger] users@[k])@ != user@,
        decreases users.len() - i,
    {
        if same_text(users[i].as_str(), user) {
            return true;
        }
        i = i + 1;
    }
    false
}

/// The delivery methods of the users `users`, in the order of the table.
pub open spec fn methods_of(methods: Seq<DeliveryMethod>, users: Seq<String>) -> Seq<
    DeliveryMethod,
>
    decreases methods.len(),
{
    if methods.len() == 0 {
        Seq::empty()
    } else if names_user(users, methods.last().user_id@) {
        methods_of(methods.drop_last(), users).push(methods.last())
    } else {
        methods_of(methods.drop_last(), users)
    }
}

/// The delivery methods of the users that a round of delivery serves.
pub fn load_delivery_methods(methods: &Vec<DeliveryMethod>, user_ids: &Vec<String>) -> (found: Vec<
    DeliveryMethod,
>)
    ensures
        found@ == methods_of(methods@, user_ids@),
{
    let mut found: Vec<DeliveryMethod> = Vec::new();
    let mut i: usize = 0;
    assert(methods@.take(0) == Seq::<DeliveryMethod>::empty());
    while i < methods.len()
        invariant
            i <= methods.len(),
            found@ == methods_of(methods@.take(i as int), user_ids@),
        decreases methods.len() - i,
    {
        assert(methods@.take(i + 1).drop_last() == methods@.take(i as int));
        assert(methods@.take(i + 1).last() == methods@[i as int]);
        if is_named(user_ids, methods[i].user_id.as_str()) {
            found.push(methods[i].clone());
        }
        i = i + 1;
    }
    assert(methods@.take(methods.len() as int) == methods@);
    found
}

/// The rows stand in ascending order of their chapters' identifiers.
pub open spec fn by_chapter(bodies: Seq<ChapterBody>) -> bool {
    forall|i: int, j: int|
        0 <= i < j < bodies.len() ==> bodies[i].chapter_id <= bodies[j].chapter_id
}

/// The place of a row for `chapter_id` among rows in ascending order: behind
/// the last row whose chapter's identifier is not greater.
pub open spec fn slot_by_chapter(bodies: Seq<ChapterBody>, chapter_id: Id) -> int
    decreases bodies.len(),
{
    if bodies.len() == 0 {
        0
    } else if bodies.last().chapter_id <= chapter_id {
        bodies.len() as int
    } else {
        slot_by_chapter(bodies.drop_last(), chapter_id)
    }
}

/// The rows of the bodies of the chapters `ids`, in ascending order of the
/// chapters' identifiers.
pub open spec fn bodies_for(bodies: Seq<ChapterBody>, ids: Seq<Id>) -> Seq<ChapterBody>
    decreases bodies.len(),
{
    if bodies.len() == 0 {
        Seq::empty()
    } else {
        let before = bodies_for(bodies.drop_last(), ids);
        if asked_for(ids, bodies.last().chapter_id) {
            before.insert(slot_by_chapter(before, bodies.last().chapter_id), bodies.last())
        } else {
            before
        }
    }
}

/// Before the slot no row's chapter has a greater identifier, and from the
/// slot on every row's has.
pub proof fn lemma_slot_by_chapter(bodies: Seq<ChapterBody>, chapter_id: Id)
    requires
        by_chapter(bodies),
    ensures
        0 <= slot_by_chapter(bodies, chapter_id) <= bodies.len(),
        forall|j: int|
            0 <= j < slot_by_chapter(bodies, chapter_id) ==> bodies[j].chapter_id <= chapter_id,
        forall|j: int|
            slot_by_chapter(bodies, chapter_id) <= j < bodies.len() ==> bodies[j].chapter_id
                > chapter_id,
    decreases bodies.len(),
{
    if bodies.len() == 0 {
    } else if bodies.last().chapter_id <= chapter_id {
    } else {
        let front = bodies.drop_last();
        assert(by_chapter(front)) by {
            assert forall|i: int, j: int| 0 <= i < j < front.len() implies front[i].chapter_id
                <= front[j].chapter_id by {
                assert(front[i] == bodies[i]);
                assert(front[j] == bodies[j]);
            }
        }
        lemma_slot_by_chapter(front, chapter_id);
        assert forall|j: int| 0 <= j < slot_by_chapter(bodies, chapter_id) implies bodies[j].chapter_id
            <= chapter_id by {
            assert(front[j] == bodies[j]);
        }
        assert forall|j: int|
            slot_by_chapter(bodies, chapter_id) <= j < bodies.len() implies bodies[j].chapter_id
            > chapter_id by {
            if j < front.len() {
                assert(front[j] == bodies[j]);
            }
        }
    }
}

/// What the query gives stands in ascending order, holds nothing but rows of
/// the chapters asked for, and holds each of those.
pub proof fn lemma_bodies_for(bodies: Seq<ChapterBody>, ids: Seq<Id>)
    ensures
        by_chapter(bodies_for(bodies, ids)),
        forall|k: int|
            0 <= k < bodies_for(bodies, ids).len() ==> asked_for(
                ids,
                (#[trigger] bodies_for(bodies, ids)[k]).chapter_id,
            ) && bodies.contains(bodies_for(bodies, ids)[k]),
        forall|k: int|
            0 <= k < bodies.len() && asked_for(ids, (#[trigger] bodies[k]).chapter_id)
                ==> bodies_for(bodies, ids).contains(bodies[k]),
    decreases bodies.len(),
{
    if bodies.len() > 0 {
        let front = bodies.drop_last();
        let last = bodies.last();
        lemma_bodies_for(front, ids);
        let before = bodies_for(front, ids);
        let all = bodies_for(bodies, ids);
        if asked_for(ids, last.chapter_id) {
            let at = slot_by_chapter(before, last.chapter_id);
            lemma_slot_by_chapter(before, last.chapter_id);
            assert(all[at] == last);
            assert forall|i: int, j: int| 0 <= i < j < all.len() implies all[i].chapter_id
                <= all[j].chapter_id by {
                if i != at {
                    assert(all[i] == before[if i < at {
                        i
                    } else {
                        i - 1
                    }]);
                }
                if j != at {
                    assert(all[j] == before[if j < at {
                        j
                    } else {
                        j - 1
                    }]);
                }
            }
            assert forall|k: int| 0 <= k < all.len() implies asked_for(
                ids,
                (#[trigger] all[k]).chapter_id,
            ) && bodies.contains(all[k]) by {
                if k == at {
                    assert(bodies[bodies.len() - 1] == last);
                } else {
                    let b = if k < at {
                        k
                    } else {
                        k - 1
                    };
                    assert(all[k] == before[b]);
                    let j = choose|j: int| 0 <= j < front.len() && front[j] == before[b];
                    assert(bodies[j] == front[j]);
                }
            }
            assert forall|k: int|
                0 <= k < bodies.len() && asked_for(
                    ids,
                    (#[trigger] bodies[k]).chapter_id,
                ) implies all.contains(bodies[k]) by {
                if k < front.len() {
                    assert(front[k] == bodies[k]);
                    let b = choose|b: int| 0 <= b < before.len() && before[b] == front[k];
                    if b < at {
                        assert(all[b] == before[b]);
                    } else {
                        assert(all[b + 1] == before[b]);
                    }
                } else {
                    assert(all[at] == bodies[k]);
                }
            }
        } else {
            assert forall|k: int| 0 <= k < all.len() implies asked_for(
                ids,
                (#[trigger] all[k]).chapter_id,
            ) && bodies.contains(all[k]) by {
                let j = choose|j: int| 0 <= j < front.len() && front[j] == before[k];
                assert(bodies[j] == front[j]);
            }
            assert forall|k: int|
                0 <= k < bodies.len() && asked_for(
                    ids,
                    (#[trigger] bodies[k]).chapter_id,
                ) implies all.contains(bodies[k]) by {
                assert(front[k] == bodies[k]);
            }
        }
    }
}

/// The rows of the bodies of the chapters `chapter_ids`, in ascending order of
/// the chapters' identifiers.
pub fn load_chapter_bodies(bodies: &Vec<ChapterBody>, chapter_ids: &Vec<Id>) -> (found: Vec<
    ChapterBody,
>)
    ensures
        found@ == bodies_for(bodies@, chapter_ids@),
        by_chapter(found@),
{
    let mut found: Vec<ChapterBody> = Vec::new();
    let mut i: usize = 0;
    assert(bodies@.take(0) == Seq::<ChapterBody>::empty());
    while i < bodies.len()
        invariant
            i <= bodies.len(),
            found@ == bodies_for(bodies@.take(i as int), chapter_ids@),
        decreases bodies.len() - i,
    {
        assert(bodies@.take(i + 1).drop_last() == bodies@.take(i as int));
        assert(bodies@.take(i + 1).last() == bodies@[i as int]);
        let body = &bodies[i];
        if is_asked_for(chapter_ids, body.chapter_id) {
            let mut n: usize = found.len();
            assert(found@.take(n as int) == found@);
            while n > 0 && found[n - 1].chapter_id > body.chapter_id
                invariant
                    n <= found.len(),
                    slot_by_chapter(found@, body.chapter_id) == slot_by_chapter(
                        found@.take(n as int),
                        body.chapter_id,
                    ),
                decreases n,
            {
                assert(found@.take(n as int).drop_last() == found@.take(n - 1));
                n = n - 1;
            }
            found.insert(n, body.clone());
        }
        i = i + 1;
    }
    assert(bodies@.take(bodies.len() as int) == bodies@);
    proof {
        lemma_bodies_for(bodies@, chapter_ids@);
    }
    found
}

/// The position of the first chapter with identifier `id`.
pub open spec fn chapter_position(chapters: Seq<Chapter>, id: Id) -> Option<int>
    decreases chapters.len(),
{
    if chapters.len() == 0 {
        None
    } else if chapters[0].id == id {
        Some(0)
    } else {
        match chapter_position(chapters.skip(1), id) {
            Some(i) => Some(i + 1),
            None => None,
        }
    }
}

/// `chapter_position` gives the least position of a chapter with the
/// identifier, and `None` only where there is none.
pub proof fn lemma_chapter_position(chapters: Seq<Chapter>, id: Id)
    ensures
        match chapter_position(chapters, id) {
            Some(i) => 0 <= i < chapters.len() && chapters[i].id == id && forall|j: int|
                0 <= j < i ==> chapters[j].id != id,
            None => forall|j: int| 0 <= j < chapters.len() ==> chapters[j].id != id,
        },
    decreases chapters.len(),
{
    if chapters.len() == 0 {
    } else if chapters[0].id == id {
    } else {
        lemma_chapter_position(chapters.skip(1), id);
        match chapter_position(chapters.skip(1), id) {
            Some(i) => {
                assert(chapters.skip(1)[i] == chapters[i + 1]);
                assert forall|j: int| 0 <= j < i + 1 implies chapters[j].id != id by {
                    if j > 0 {
                        assert(chapters.skip(1)[j - 1] == chapters[j]);
                    }
                }
            },
            None => {
                assert forall|j: int| 0 <= j < chapters.len() implies chapters[j].id != id by {
                    if j > 0 {
                        assert(chapters.skip(1)[j - 1] == chapters[j]);
                    }
                }
            },
        }
    }
}

/// The instant up to which a subscription has been served: that of the
/// chapter its watermark names, or the epoch where it names none.
pub open spec fn watermark_time(sub: Subscription, chapters: Seq<Chapter>) -> Timestamp {
    match sub.last_chapter_id {
        Some(id) => match chapter_position(chapters, id) {
            Some(k) => chapters[k].published_at,
            None => EPOCH,
        },
        None => EPOCH,
    }
}

/// `chapter` is owed to the subscriber: it is of the subscribed book and
/// newer than the watermark.
pub open spec fn is_pending(sub: Subscription, chapters: Seq<Chapter>, chapter: Chapter) -> bool {
    chapter.book_id == sub.book_id && chapter.published_at > watermark_time(sub, chapters)
}

/// The row that says `chapter` is owed under `sub`.
pub open spec fn pending_row(sub: Subscription, chapter: Chapter) -> ChapterWithUser {
    ChapterWithUser {
        user_id: sub.user_id,
        grouping_quantity: sub.grouping_quantity,
        chapter,
    }
}

/// The rows for the chapters among `candidates` that are owed under `sub`.
pub open spec fn pending_for(
    sub: Subscription,
    chapters: Seq<Chapter>,
    candidates: Seq<Chapter>,
) -> Seq<ChapterWithUser>
    decreases candidates.len(),
{
    if candidates.len() == 0 {
        Seq::empty()
    } else if is_pending(sub, chapters, candidates.last()) {
        pending_for(sub, chapters, candidates.drop_last()).push(
            pending_row(sub, candidates.last()),
        )
    } else {
        pending_for(sub, chapters, candidates.drop_last())
    }
}

/// The answer to the pending-deliveries query: for each subscription in turn,
/// a row for each chapter owed under it.
pub open spec fn pending_rows(subs: Seq<Subscription>, chapters: Seq<Chapter>) -> Seq<
    ChapterWithUser,
>
    decreases subs.len(),
{
    if subs.len() == 0 {
        Seq::empty()
    } else {
        pending_rows(subs.drop_last(), chapters) + pending_for(subs.last(), chapters, chapters)
    }
}

/// Finds the chapter with identifier `id`.
pub fn find_chapter(chapters: &Vec<Chapter>, id: Id) -> (found: Option<usize>)
    ensures
        match found {
            Some(i) => chapter_position(chapters@, id) == Some(i as int) && i < chapters.len(),
            None => chapter_position(chapters@, id) is None,
        },
{
    let mut i: usize = 0;
    while i < chapters.len()
        invariant
            i <= chapters.len(),
            forall|j: int| 0 <= j < i ==> chapters@[j].id != id,
        decreases chapters.len() - i,
    {
        if chapters[i].id == id {
            proof {
                lemma_chapter_position(chapters@, id);
            }
            return Some(i);
        }
        i = i + 1;
    }
    proof {
        lemma_chapter_position(chapters@, id);
    }
    None
}

/// The instant up to which `sub` has been served.
pub fn watermark_instant(sub: &Subscription, chapters: &Vec<Chapter>) -> (at: Timestamp)
    ensures
        at == watermark_time(*sub, chapters@),
{
    match sub.last_chapter_id {
        Some(id) => match find_chapter(chapters, id) {
            Some(k) => chapters[k].published_at,
            None => EPOCH,
        },
        None => EPOCH,
    }
}

/// The pending-deliveries query over rows held in memory: what is owed to
/// whom. For every subscription it gives each chapter of the subscribed book
/// that is newer than the subscription's watermark.
pub fn list_pending_deliveries(subscriptions: &Vec<Subscription>, chapters: &Vec<Chapter>) -> (rows:
    Vec<ChapterWithUser>)
    ensures
        rows@ == pending_rows(subscriptions@, chapters@),
{
    let mut rows: Vec<ChapterWithUser> = Vec::new();
    let mut s: usize = 0;
    while s < subscriptions.len()
        invariant
            s <= subscriptions.len(),
            rows@ == pending_rows(subscriptions@.take(s as int), chapters@),
        decreases subscriptions.len() - s,
    {
        let sub = &subscriptions[s];
        let since = watermark_instant(sub, chapters);
        let ghost before = rows@;
        let mut c: usize = 0;
        while c < chapters.len()
            invariant
                c <= chapters.len(),
                s < subscriptions.len(),
                *sub == subscriptions@[s as int],
                since == watermark_time(*sub, chapters@),
                rows@ == before + pending_for(*sub, chapters@, chapters@.take(c as int)),
            decreases chapters.len() - c,
        {
            assert(chapters@.take(c + 1).drop_last() == chapters@.take(c as int));
            let chapter = &chapters[c];
            if chapter.book_id == sub.book_id && chapter.published_at > since {
                rows.push(
                    ChapterWithUser {
                        user_id: sub.user_id.clone(),
                        grouping_quantity: sub.grouping_quantity,
                        chapter: chapter.clone(),
                    },
                );
                assert(rows@ == before + pending_for(*sub, chapters@, chapters@.take(c + 1)));
            }
            c = c + 1;
        }
        assert(chapters@.take(chapters.len() as int) == chapters@);
        assert(subscriptions@.take(s + 1).drop_last() == subscriptions@.take(s as int));
        s = s + 1;
    }
    assert(subscriptions@.take(subscriptions.len() as int) == subscriptions@);
    rows
}

/// `sub` with its watermark set to `chapter_id`.
pub open spec fn advanced(sub: Subscription, chapter_id: Id) -> Subscription {
    Subscription { last_chapter_id: Some(chapter_id), ..sub }
}

/// `sub` is the subscription of `user_id` to `book_id`.
pub open spec fn is_subscription_of(sub: Subscription, user_id: Seq<char>, book_id: Id) -> bool {
    sub.user_id@ == user_id && sub.book_id == book_id
}

/// Records `chapter_id` as the chapter delivered last to `user_id` for
/// `book_id`. No other subscription changes, and nothing else of this one.
pub fn advance_subscription_watermark(
    subscriptions: &mut Vec<Subscription>,
    user_id: &str,
    book_id: Id,
    chapter_id: Id,
)
    ensures
        final(subscriptions)@.len() == old(subscriptions)@.len(),
        forall|k: int|
            0 <= k < old(subscriptions)@.len() ==> #[trigger] final(subscriptions)@[k] == if is_subscription_of(
                old(subscriptions)@[k],
                user_id@,
                book_id,
            ) {
                advanced(old(subscriptions)@[k], chapter_id)
            } else {
                old(subscriptions)@[k]
            },
{
    let ghost before = subscriptions@;
    let mut i: usize = 0;
    while i < subscriptions.len()
        invariant
            i <= subscriptions.len(),
            subscriptions@.len() == before.len(),
            forall|k: int|
                0 <= k < i ==> #[trigger] subscriptions@[k] == if is_subscription_of(
                    before[k],
                    user_id@,
                    book_id,
                ) {
                    advanced(before[k], chapter_id)
                } else {
                    before[k]
                },
            forall|k: int| i <= k < before.len() ==> subscriptions@[k] == before[k],
        decreases subscriptions.len() - i,
    {
        if subscriptions[i].book_id == book_id && same_text(
            subscriptions[i].user_id.as_str(),
            user_id,
        ) {
            let mut sub = subscriptions.remove(i);
            sub.last_chapter_id = Some(chapter_id);
            subscriptions.insert(i, sub);
        }
        i = i + 1;
    }
}

/// No two chapters share an identifier.
pub open spec fn unique_chapters(chapters: Seq<Chapter>) -> bool {
    forall|i: int, j: int| 0 <= i < j < chapters.len() ==> chapters[i].id != chapters[j].id
}

/// Every row of a body points to a chapter that has a row.
pub open spec fn bodies_have_chapters(chapters: Seq<Chapter>, bodies: Seq<ChapterBody>) -> bool {
    forall|b: int|
        0 <= b < bodies.len() ==> chapter_position(chapters, (#[trigger] bodies[b]).chapter_id)
            is Some
}

/// The rows of `bodies` point to chapters among `inserted`.
pub open spec fn bodies_of(inserted: Seq<Chapter>, bodies: Seq<ChapterBody>) -> bool {
    forall|b: int|
        0 <= b < bodies.len() ==> has_chapter(inserted, (#[trigger] bodies[b]).chapter_id)
}

/// Some chapter of `chapters` has the identifier `id`.
pub open spec fn has_chapter(chapters: Seq<Chapter>, id: Id) -> bool {
    exists|c: int| 0 <= c < chapters.len() && (#[trigger] chapters[c]).id == id
}

/// The row that a new chapter gets: the chapter as it was listed, under the
/// identifier `id`, created at `now`.
pub open spec fn row_of(chapter: NewChapter, id: Id, now: Timestamp) -> Chapter {
    Chapter {
        id,
        name: chapter.name,
        author: chapter.author,
        created_at: now,
        updated_at: now,
        book_id: chapter.book_id,
        published_at: chapter.published_at,
        metadata: chapter.metadata,
    }
}

/// Inserts the rows of new chapters and gives them back. The store hands out
/// the identifiers: `ids[k]` is the one for `new_chapters[k]`, and a chapter
/// without one is not inserted.
pub fn insert_chapters(
    chapters: &mut Vec<Chapter>,
    new_chapters: &Vec<NewChapter>,
    ids: &Vec<Id>,
    now: Timestamp,
) -> (inserted: Vec<Chapter>)
    ensures
        final(chapters)@ == old(chapters)@ + inserted@,
        inserted@.len() == if new_chapters@.len() <= ids@.len() {
            new_chapters@.len()
        } else {
            ids@.len()
        },
        forall|k: int|
            0 <= k < inserted@.len() ==> #[trigger] inserted@[k] == row_of(
                new_chapters@[k],
                ids@[k],
                now,
            ),
{
    let ghost before = chapters@;
    let mut inserted: Vec<Chapter> = Vec::new();
    let mut i: usize = 0;
    while i < new_chapters.len() && i < ids.len()
        invariant
            i <= new_chapters.len(),
            i <= ids.len(),
            inserted@.len() == i,
            chapters@ == before + inserted@,
            forall|k: int|
                0 <= k < i ==> #[trigger] inserted@[k] == row_of(new_chapters@[k], ids@[k], now),
        decreases new_chapters.len() - i,
    {
        let listed = &new_chapters[i];
        let row = Chapter {
            id: ids[i],
            name: listed.name.clone(),
            author: listed.author.clone(),
            created_at: now,
            updated_at: now,
            book_id: listed.book_id,
            published_at: listed.published_at,
            metadata: listed.metadata.clone(),
        };
        let ghost so_far = inserted@;
        chapters.push(row.clone());
        inserted.push(row);
        assert(before + so_far.push(row) == (before + so_far).push(row));
        i = i + 1;
    }
    inserted
}

/// Whether every row of `rows` points to a chapter that has a row.
pub fn all_have_chapters(chapters: &Vec<Chapter>, rows: &Vec<ChapterBody>) -> (sound: bool)
    ensures
        sound == bodies_have_chapters(chapters@, rows@),
{
    let mut i: usize = 0;
    while i < rows.len()
        invariant
            i <= rows.len(),
            forall|b: int|
                0 <= b < i ==> chapter_position(chapters@, (#[trigger] rows@[b]).chapter_id)
                    is Some,
        decreases rows.len() - i,
    {
        if find_chapter(chapters, rows[i].chapter_id).is_none() {
            return false;
        }
        i = i + 1;
    }
    true
}

/// Inserts the rows of bodies, all or none: a row that points to no chapter
/// makes the store refuse them all. So a body's row never stands without its
/// chapter's.
pub fn insert_chapter_bodies(
    bodies: &mut Vec<ChapterBody>,
    chapters: &Vec<Chapter>,
    rows: &Vec<ChapterBody>,
) -> (taken: bool)
    ensures
        taken == bodies_have_chapters(chapters@, rows@),
        final(bodies)@ == if taken {
            old(bodies)@ + rows@
        } else {
            old(bodies)@
        },
        bodies_have_chapters(chapters@, old(bodies)@) ==> bodies_have_chapters(
            chapters@,
            final(bodies)@,
        ),
{
    if !all_have_chapters(chapters, rows) {
        return false;
    }
    let ghost before = bodies@;
    let mut i: usize = 0;
    while i < rows.len()
        invariant
            i <= rows.len(),
            bodies@ == before + rows@.take(i as int),
        decreases rows.len() - i,
    {
        bodies.push(rows[i].clone());
        assert(rows@.take(i + 1) == rows@.take(i as int).push(rows@[i as int]));
        i = i + 1;
    }
    assert(rows@.take(rows.len() as int) == rows@);
    proof {
        if bodies_have_chapters(chapters@, before) {
            assert forall|b: int| 0 <= b < bodies@.len() implies chapter_position(
                chapters@,
                (#[trigger] bodies@[b]).chapter_id,
            ) is Some by {
                if b < before.len() {
                    assert(bodies@[b] == before[b]);
                } else {
                    assert(bodies@[b] == rows@[b - before.len()]);
                }
            }
        }
    }
    true
}

/// Body after chapter. Where the rows of new chapters are inserted first and
/// the rows of their bodies second, a body's row never stands without its
/// chapter's: neither between the two insertions nor after them.
pub proof fn lemma_body_after_chapter(
    chapters: Seq<Chapter>,
    bodies: Seq<ChapterBody>,
    inserted: Seq<Chapter>,
    new_bodies: Seq<ChapterBody>,
)
    requires
        bodies_have_chapters(chapters, bodies),
        bodies_of(inserted, new_bodies),
    ensures
        bodies_have_chapters(chapters + inserted, bodies),
        bodies_have_chapters(chapters + inserted, bodies + new_bodies),
{
    let all = chapters + inserted;
    assert forall|b: int| 0 <= b < bodies.len() implies chapter_position(
        all,
        (#[trigger] bodies[b]).chapter_id,
    ) is Some by {
        lemma_chapter_position(chapters, bodies[b].chapter_id);
        lemma_chapter_position(all, bodies[b].chapter_id);
        let k = chapter_position(chapters, bodies[b].chapter_id).unwrap();
        assert(all[k] == chapters[k]);
    }
    assert forall|b: int| 0 <= b < (bodies + new_bodies).len() implies chapter_position(
        all,
        (#[trigger] (bodies + new_bodies)[b]).chapter_id,
    ) is Some by {
        if b < bodies.len() {
            assert((bodies + new_bodies)[b] == bodies[b]);
        } else {
            let row = new_bodies[b - bodies.len()];
            assert((bodies + new_bodies)[b] == row);
            assert(has_chapter(inserted, row.chapter_id));
            let c = choose|c: int|
                0 <= c < inserted.len() && (#[trigger] inserted[c]).id == row.chapter_id;
            assert(all[chapters.len() + c] == inserted[c]);
            lemma_chapter_position(all, row.chapter_id);
        }
    }
}

/// No duplicate delivery. Once the watermark of a subscription names the
/// newest chapter of a delivered group, no chapter of the group is owed under
/// it again, whatever chapters the store has come to hold, as long as it
/// still holds that newest chapter and no two chapters share an identifier.
pub proof fn lemma_delivered_not_pending(
    sub: Subscription,
    group: Seq<Chapter>,
    later: Seq<Chapter>,
)
    requires
        group.len() >= 1,
        ascending(group),
        unique_chapters(later),
        later.contains(group.last()),
    ensures
        forall|k: int|
            0 <= k < group.len() ==> !is_pending(
                advanced(sub, group.last().id),
                later,
                #[trigger] group[k],
            ),
{
    let newest = group.last();
    let after = advanced(sub, newest.id);
    lemma_chapter_position(later, newest.id);
    let at = choose|at: int| 0 <= at < later.len() && later[at] == newest;
    let found = chapter_position(later, newest.id).unwrap();
    assert(found == at) by {
        if found < at {
            assert(later[found].id != later[at].id);
        } else if at < found {
            assert(later[at].id != later[found].id);
        }
    }
    assert(watermark_time(after, later) == newest.published_at);
    assert forall|k: int| 0 <= k < group.len() implies !is_pending(
        after,
        later,
        #[trigger] group[k],
    ) by {
        if k < group.len() - 1 {
            assert(group[k].published_at <= group[group.len() - 1].published_at);
        }
    }
}

/// Retry after failure. A subscription whose watermark was not advanced is
/// owed, at the next look, every chapter it was owed before, and any newer
/// chapter of its book besides: provided the store still holds the chapters
/// it held, no two chapters share an identifier, and the watermark names a
/// chapter that the store held.
pub proof fn lemma_pending_persists(sub: Subscription, chapters: Seq<Chapter>, later: Seq<Chapter>)
    requires
        unique_chapters(later),
        forall|k: int| 0 <= k < chapters.len() ==> later.contains(#[trigger] chapters[k]),
        sub.last_chapter_id is Some ==> chapter_position(chapters, sub.last_chapter_id.unwrap())
            is Some,
    ensures
        watermark_time(sub, later) == watermark_time(sub, chapters),
        forall|k: int|
            0 <= k < chapters.len() && is_pending(sub, chapters, #[trigger] chapters[k])
                ==> is_pending(sub, later, chapters[k]),
        forall|k: int|
            0 <= k < later.len() && (#[trigger] later[k]).book_id == sub.book_id
                && later[k].published_at > watermark_time(sub, chapters) ==> is_pending(
                sub,
                later,
                later[k],
            ),
{
    match sub.last_chapter_id {
        Some(id) => {
            lemma_chapter_position(chapters, id);
            lemma_chapter_position(later, id);
            let k = chapter_position(chapters, id).unwrap();
            assert(later.contains(chapters[k]));
            let at = choose|at: int| 0 <= at < later.len() && later[at] == chapters[k];
            let found = chapter_position(later, id).unwrap();
            assert(found == at) by {
                if found < at {
                    assert(later[found].id != later[at].id);
                } else if at < found {
                    assert(later[at].id != later[found].id);
                }
            }
        },
        None => {},
    }
}

} // verus!
