//! Discovery of new chapters for one book: what of a provider's listing is
//! new, which chapters survive the fetching of their bodies, and the rows that
//! tie the inserted chapters to what was stored for them.

use crate::models::{Chapter, ChapterBody, ChapterKind, NewChapter, StorageLocation, Timestamp};
use vstd::prelude::*;

verus! {

/// The earliest instant of publication in a listing.
pub open spec fn earliest(listed: Seq<NewChapter>) -> Timestamp
    recommends
        listed.len() > 0,
    decreases listed.len(),
{
    if listed.len() <= 1 {
        listed[0].published_at
    } else if listed.last().published_at < earliest(listed.drop_last()) {
        listed.last().published_at
    } else {
        earliest(listed.drop_last())
    }
}

/// `earliest` is the instant of some listed chapter, and no listed chapter is
/// older.
pub proof fn lemma_earliest(listed: Seq<NewChapter>)
    requires
        listed.len() > 0,
    ensures
        exists|k: int| 0 <= k < listed.len() && listed[k].published_at == earliest(listed),
        forall|k: int| 0 <= k < listed.len() ==> earliest(listed) <= listed[k].published_at,
    decreases listed.len(),
{
    if listed.len() <= 1 {
        assert(listed[0].published_at == earliest(listed));
    } else {
        let front = listed.drop_last();
        lemma_earliest(front);
        let k = choose|k: int| 0 <= k < front.len() && front[k].published_at == earliest(front);
        assert(front[k] == listed[k]);
        if listed.last().published_at < earliest(front) {
            assert(listed[listed.len() - 1].published_at == earliest(listed));
        } else {
            assert(listed[k].published_at == earliest(listed));
        }
        assert forall|j: int| 0 <= j < listed.len() implies earliest(listed)
            <= listed[j].published_at by {
            if j < front.len() {
                assert(front[j] == listed[j]);
            }
        }
    }
}

/// The instant from which the stored chapters have to be compared with a
/// listing: the oldest instant in it. `None` for an empty listing, for which
/// nothing is to be done.
pub fn oldest_published_at(listed: &Vec<NewChapter>) -> (since: Option<Timestamp>)
    ensures
        listed@.len() == 0 ==> since is None,
        listed@.len() > 0 ==> since == Some(earliest(listed@)),
{
    if listed.len() == 0 {
        return None;
    }
    let mut oldest: Timestamp = listed[0].published_at;
    let mut i: usize = 1;
    assert(listed@.take(1).len() == 1);
    assert(listed@.take(1)[0] == listed@[0]);
    while i < listed.len()
        invariant
            1 <= i <= listed.len(),
            oldest == earliest(listed@.take(i as int)),
        decreases listed.len() - i,
    {
        assert(listed@.take(i + 1).drop_last() == listed@.take(i as int));
        if listed[i].published_at < oldest {
            oldest = listed[i].published_at;
        }
        i = i + 1;
    }
    assert(listed@.take(listed.len() as int) == listed@);
    Some(oldest)
}

/// A stored chapter has the identity `kind`.
pub open spec fn known(existing: Seq<Chapter>, kind: ChapterKind) -> bool {
    exists|k: int| 0 <= k < existing.len() && (#[trigger] existing[k]).metadata@ == kind@
}

/// The listed chapters whose identity no stored chapter has, in the order of
/// the listing.
pub open spec fn unknown_of(listed: Seq<NewChapter>, existing: Seq<Chapter>) -> Seq<NewChapter>
    decreases listed.len(),
{
    if listed.len() == 0 {
        Seq::empty()
    } else if known(existing, listed.last().metadata) {
        unknown_of(listed.drop_last(), existing)
    } else {
        unknown_of(listed.drop_last(), existing).push(listed.last())
    }
}

/// Nothing that `unknown_of` keeps has the identity of a stored chapter, and
/// all it keeps was listed.
pub proof fn lemma_unknown_of(listed: Seq<NewChapter>, existing: Seq<Chapter>)
    ensures
        forall|k: int|
            0 <= k < unknown_of(listed, existing).len() ==> !known(
                existing,
                (#[trigger] unknown_of(listed, existing)[k]).metadata,
            ) && listed.contains(unknown_of(listed, existing)[k]),
        forall|k: int|
            0 <= k < listed.len() && !known(existing, (#[trigger] listed[k]).metadata)
                ==> unknown_of(listed, existing).contains(listed[k]),
    decreases listed.len(),
{
    if listed.len() > 0 {
        let front = listed.drop_last();
        lemma_unknown_of(front, existing);
        let kept = unknown_of(listed, existing);
        let before = unknown_of(front, existing);
        assert forall|k: int| 0 <= k < kept.len() implies !known(
            existing,
            (#[trigger] kept[k]).metadata,
        ) && listed.contains(kept[k]) by {
            if k < before.len() {
                assert(kept[k] == before[k]);
                let j = choose|j: int| 0 <= j < front.len() && front[j] == before[k];
                assert(listed[j] == before[k]);
            } else {
                assert(kept[k] == listed[listed.len() - 1]);
            }
        }
        assert forall|k: int|
            0 <= k < listed.len() && !known(
                existing,
                (#[trigger] listed[k]).metadata,
            ) implies kept.contains(listed[k]) by {
            if k < front.len() {
                assert(front[k] == listed[k]);
                let j = choose|j: int| 0 <= j < before.len() && before[j] == front[k];
                assert(kept[j] == listed[k]);
            } else {
                assert(kept[kept.len() - 1] == listed[k]);
            }
        }
    }
}

/// Whether a stored chapter has the identity `kind`.
pub fn is_known(existing: &Vec<Chapter>, kind: &ChapterKind) -> (found: bool)
    ensures
        found == known(existing@, *kind),
{
    let mut i: usize = 0;
    while i < existing.len()
        invariant
            i <= existing.len(),
            forall|k: int| 0 <= k < i ==> (#[trigger] existing@[k]).metadata@ != kind@,
        decreases existing.len() - i,
    {
        if existing[i].metadata == *kind {
            return true;
        }
        i = i + 1;
    }
    false
}

/// The chapters of a listing that are new: those whose identity none of the
/// stored chapters has. A chapter's name and instant play no part, so a
/// chapter that was renamed or dated anew is not taken for a new one.
pub fn select_new_chapters(listed: &Vec<NewChapter>, existing: &Vec<Chapter>) -> (fresh: Vec<
    NewChapter,
>)
    ensures
        fresh@ == unknown_of(listed@, existing@),
        forall|k: int| 0 <= k < fresh@.len() ==> !known(existing@, (#[trigger] fresh@[k]).metadata),
{
    let mut fresh: Vec<NewChapter> = Vec::new();
    let mut i: usize = 0;
    while i < listed.len()
        invariant
            i <= listed.len(),
            fresh@ == unknown_of(listed@.take(i as int), existing@),
        decreases listed.len() - i,
    {
        assert(listed@.take(i + 1).drop_last() == listed@.take(i as int));
        if !is_known(existing, &listed[i].metadata) {
            fresh.push(listed[i].clone());
        }
        i = i + 1;
    }
    assert(listed@.take(listed.len() as int) == listed@);
    proof {
        lemma_unknown_of(listed@, existing@);
    }
    fresh
}

/// The chapters whose body was fetched and stored, each with the place of its
/// artifact. `stored[i]` is the outcome for `chapters[i]`; a chapter without
/// an outcome, or whose outcome is `None`, is left out.
pub open spec fn survivors(chapters: Seq<NewChapter>, stored: Seq<Option<StorageLocation>>) -> Seq<
    (NewChapter, StorageLocation),
>
    decreases chapters.len(),
{
    if chapters.len() == 0 {
        Seq::empty()
    } else {
        let before = survivors(chapters.drop_last(), stored);
        if chapters.len() <= stored.len() && stored[chapters.len() - 1] is Some {
            before.push((chapters.last(), stored[chapters.len() - 1].unwrap()))
        } else {
            before
        }
    }
}

/// Whatever survives was among the chapters.
pub proof fn lemma_survivors(chapters: Seq<NewChapter>, stored: Seq<Option<StorageLocation>>)
    ensures
        forall|k: int|
            0 <= k < survivors(chapters, stored).len() ==> chapters.contains(
                (#[trigger] survivors(chapters, stored)[k]).0,
            ),
    decreases chapters.len(),
{
    if chapters.len() > 0 {
        let front = chapters.drop_last();
        lemma_survivors(front, stored);
        let all = survivors(chapters, stored);
        let before = survivors(front, stored);
        assert forall|k: int| 0 <= k < all.len() implies chapters.contains(
            (#[trigger] all[k]).0,
        ) by {
            if k < before.len() {
                assert(all[k] == before[k]);
                let j = choose|j: int| 0 <= j < front.len() && front[j] == before[k].0;
                assert(chapters[j] == front[j]);
            } else {
                assert(all[k].0 == chapters[chapters.len() - 1]);
            }
        }
    }
}

/// Metadata identity. Of a listing, only chapters whose identity no stored
/// chapter has come to be inserted: what survives the storing of the bodies
/// was picked as new, and nothing picked as new has the identity of a stored
/// chapter.
pub proof fn lemma_inserted_are_new(
    listed: Seq<NewChapter>,
    existing: Seq<Chapter>,
    stored: Seq<Option<StorageLocation>>,
)
    ensures
        forall|k: int|
            0 <= k < survivors(unknown_of(listed, existing), stored).len() ==> !known(
                existing,
                (#[trigger] survivors(unknown_of(listed, existing), stored)[k]).0.metadata,
            ),
{
    let fresh = unknown_of(listed, existing);
    lemma_unknown_of(listed, existing);
    lemma_survivors(fresh, stored);
    assert forall|k: int| 0 <= k < survivors(fresh, stored).len() implies !known(
        existing,
        (#[trigger] survivors(fresh, stored)[k]).0.metadata,
    ) by {
        let kept = survivors(fresh, stored)[k].0;
        let j = choose|j: int| 0 <= j < fresh.len() && fresh[j] == kept;
        assert(!known(existing, fresh[j].metadata));
    }
}

/// Drops the chapters whose body could not be fetched or stored. No row is
/// made for them, so the next run lists them as new again.
pub fn keep_stored(chapters: &Vec<NewChapter>, stored: &Vec<Option<StorageLocation>>) -> (kept: (
    Vec<NewChapter>,
    Vec<StorageLocation>,
))
    ensures
        kept.0@.len() == kept.1@.len(),
        kept.0@.len() == survivors(chapters@, stored@).len(),
        forall|k: int|
            0 <= k < kept.0@.len() ==> {
                &&& kept.0@[k] == (#[trigger] survivors(chapters@, stored@)[k]).0
                &&& kept.1@[k].bucket == survivors(chapters@, stored@)[k].1.bucket
                &&& kept.1@[k].key == survivors(chapters@, stored@)[k].1.key
            },
{
    let mut kept: Vec<NewChapter> = Vec::new();
    let mut places: Vec<StorageLocation> = Vec::new();
    let mut i: usize = 0;
    while i < chapters.len()
        invariant
            i <= chapters.len(),
            kept@.len() == places@.len(),
            kept@.len() == survivors(chapters@.take(i as int), stored@).len(),
            forall|k: int|
                0 <= k < kept@.len() ==> {
                    &&& kept@[k] == (#[trigger] survivors(chapters@.take(i as int), stored@)[k]).0
                    &&& places@[k].bucket == survivors(chapters@.take(i as int), stored@)[k].1.bucket
                    &&& places@[k].key == survivors(chapters@.take(i as int), stored@)[k].1.key
                },
        decreases chapters.len() - i,
    {
        assert(chapters@.take(i + 1).drop_last() == chapters@.take(i as int));
        if i < stored.len() {
            match &stored[i] {
                Some(place) => {
                    kept.push(chapters[i].clone());
                    places.push(
                        StorageLocation { bucket: place.bucket.clone(), key: place.key.clone() },
                    );
                },
                None => {},
            }
        }
        i = i + 1;
    }
    assert(chapters@.take(chapters.len() as int) == chapters@);
    (kept, places)
}

/// The rows that tie each inserted chapter to the place of its artifact:
/// `places[i]` is what was stored for `inserted[i]`.
pub fn chapter_bodies(inserted: &Vec<Chapter>, places: &Vec<StorageLocation>) -> (rows: Vec<
    ChapterBody,
>)
    ensures
        rows@.len() == if inserted@.len() <= places@.len() {
            inserted@.len()
        } else {
            places@.len()
        },
        forall|k: int|
            0 <= k < rows@.len() ==> {
                &&& (#[trigger] rows@[k]).chapter_id == inserted@[k].id
                &&& rows@[k].bucket == places@[k].bucket
                &&& rows@[k].key == places@[k].key
            },
        crate::store::bodies_of(inserted@, rows@),
{
    let mut rows: Vec<ChapterBody> = Vec::new();
    let mut i: usize = 0;
    while i < inserted.len() && i < places.len()
        invariant
            i <= inserted.len(),
            i <= places.len(),
            rows@.len() == i,
            forall|k: int|
                0 <= k < i ==> {
                    &&& (#[trigger] rows@[k]).chapter_id == inserted@[k].id
                    &&& rows@[k].bucket == places@[k].bucket
                    &&& rows@[k].key == places@[k].key
                },
        decreases inserted.len() - i,
    {
        rows.push(
            ChapterBody {
                key: places[i].key.clone(),
                bucket: places[i].bucket.clone(),
                chapter_id: inserted[i].id,
            },
        );
        i = i + 1;
    }
    assert forall|b: int| 0 <= b < rows@.len() implies crate::store::has_chapter(
        inserted@,
        (#[trigger] rows@[b]).chapter_id,
    ) by {
        assert(inserted@[b].id == rows@[b].chapter_id);
    }
    rows
}

/// What the caller is asked to do next for a book.
#[derive(Clone, Copy, Debug, PartialEq, Eq, Structural)]
pub enum IngestAction {
    /// Ask the book's provider for its chapters.
    ListChapters,
    /// Load the stored chapters from the listing's oldest instant on.
    LoadExisting,
    /// Fetch, convert and store the body of each new chapter.
    StoreBodies,
    /// Insert the rows of the chapters whose body was stored.
    InsertChapters,
    /// Insert the rows that tie the inserted chapters to their bodies.
    InsertBodies,
    /// Nothing more: the book is up to date.
    Complete,
    /// Nothing more: a step failed; the next run starts over.
    Abandon,
}

/// The action that follows `current`. `succeeded` says how `current` ended and
/// `yielded` how many items it gave: an empty listing ends the run.
pub open spec fn next_ingest_action(
    current: IngestAction,
    succeeded: bool,
    yielded: nat,
) -> IngestAction {
    match current {
        IngestAction::Complete => IngestAction::Complete,
        IngestAction::Abandon => IngestAction::Abandon,
        _ => if !succeeded {
            IngestAction::Abandon
        } else {
            match current {
                IngestAction::ListChapters => if yielded == 0 {
                    IngestAction::Complete
                } else {
                    IngestAction::LoadExisting
                },
                IngestAction::LoadExisting => IngestAction::StoreBodies,
                IngestAction::StoreBodies => IngestAction::InsertChapters,
                IngestAction::InsertChapters => IngestAction::InsertBodies,
                _ => IngestAction::Complete,
            }
        },
    }
}

/// The first action of a run.
pub fn begin_ingest() -> (first: IngestAction)
    ensures
        first == IngestAction::ListChapters,
{
    IngestAction::ListChapters
}

/// Records how `current` ended and gives the next action. The rows of the
/// bodies are inserted only after the rows of their chapters were.
pub fn advance_ingest(current: IngestAction, succeeded: bool, yielded: usize) -> (next:
    IngestAction)
    ensures
        next == next_ingest_action(current, succeeded, yielded as nat),
{
    match current {
        IngestAction::Complete => IngestAction::Complete,
        IngestAction::Abandon => IngestAction::Abandon,
        _ => if !succeeded {
            IngestAction::Abandon
        } else {
            match current {
                IngestAction::ListChapters => if yielded == 0 {
                    IngestAction::Complete
                } else {
                    IngestAction::LoadExisting
                },
                IngestAction::LoadExisting => IngestAction::StoreBodies,
                IngestAction::StoreBodies => IngestAction::InsertChapters,
                IngestAction::InsertChapters => IngestAction::InsertBodies,
                _ => IngestAction::Complete,
            }
        },
    }
}

/// The actions of a run whose actions end with `outcomes`, one after another.
pub open spec fn ingest_actions(outcomes: Seq<(bool, nat)>) -> Seq<IngestAction>
    decreases outcomes.len(),
{
    if outcomes.len() == 0 {
        seq![IngestAction::ListChapters]
    } else {
        let before = ingest_actions(outcomes.drop_last());
        before.push(next_ingest_action(before.last(), outcomes.last().0, outcomes.last().1))
    }
}

/// Bodies follow chapters: where a run comes to insert the rows of the bodies,
/// the action just before it was the insertion of the chapters' rows, and it
/// succeeded.
pub proof fn lemma_bodies_follow_chapters(outcomes: Seq<(bool, nat)>, k: int)
    requires
        0 <= k <= outcomes.len(),
        ingest_actions(outcomes)[k] == IngestAction::InsertBodies,
    ensures
        k >= 1,
        ingest_actions(outcomes)[k - 1] == IngestAction::InsertChapters,
        outcomes[k - 1].0,
    decreases outcomes.len(),
{
    if k == outcomes.len() {
        if outcomes.len() > 0 {
            lemma_ingest_len(outcomes.drop_last());
            let before = ingest_actions(outcomes.drop_last());
            assert(ingest_actions(outcomes)[k - 1] == before.last());
        }
    } else {
        lemma_ingest_len(outcomes.drop_last());
        assert(ingest_actions(outcomes)[k] == ingest_actions(outcomes.drop_last())[k]);
        lemma_bodies_follow_chapters(outcomes.drop_last(), k);
        assert(outcomes.drop_last()[k - 1] == outcomes[k - 1]);
    }
}

proof fn lemma_ingest_len(outcomes: Seq<(bool, nat)>)
    ensures
        ingest_actions(outcomes).len() == outcomes.len() + 1,
    decreases outcomes.len(),
{
    if outcomes.len() > 0 {
        lemma_ingest_len(outcomes.drop_last());
    }
}

} // verus!
