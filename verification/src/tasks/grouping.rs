//! From the rows of the pending-deliveries query to delivery groups: one group
//! for each subscription, its chapters once each and oldest first.

use crate::models::{Chapter, Id, Timestamp};
use crate::tasks::delivery::{ascending, distinct_ids, DeliveryGroup};
use vstd::prelude::*;

verus! {

/// One row of the pending-deliveries query: a chapter owed to a user, with the
/// threshold of the user's subscription to the chapter's book.
#[derive(Debug)]
pub struct ChapterWithUser {
    pub user_id: String,
    pub grouping_quantity: i64,
    pub chapter: Chapter,
}

/// What tells one subscription's group from another's.
pub open spec fn group_key(group: DeliveryGroup) -> (Seq<char>, Id, i64) {
    (group.user_id@, group.book_id, group.grouping_quantity)
}

/// The group that a row belongs to.
pub open spec fn row_key(row: ChapterWithUser) -> (Seq<char>, Id, i64) {
    (row.user_id@, row.chapter.book_id, row.grouping_quantity)
}

/// Some chapter of `chapters` has the identifier `id`.
pub open spec fn holds_id(chapters: Seq<Chapter>, id: Id) -> bool {
    exists|k: int| 0 <= k < chapters.len() && (#[trigger] chapters[k]).id == id
}

/// The place of a chapter published at `at` among `chapters`: behind the last
/// chapter that is not newer.
pub open spec fn slot(chapters: Seq<Chapter>, at: Timestamp) -> int
    decreases chapters.len(),
{
    if chapters.len() == 0 {
        0
    } else if chapters.last().published_at <= at {
        chapters.len() as int
    } else {
        slot(chapters.drop_last(), at)
    }
}

/// In an ascending sequence the chapters before the slot are not newer than
/// `at` and those from the slot on are newer.
pub proof fn lemma_slot(chapters: Seq<Chapter>, at: Timestamp)
    requires
        ascending(chapters),
    ensures
        0 <= slot(chapters, at) <= chapters.len(),
        forall|j: int| 0 <= j < slot(chapters, at) ==> chapters[j].published_at <= at,
        forall|j: int| slot(chapters, at) <= j < chapters.len() ==> chapters[j].published_at > at,
    decreases chapters.len(),
{
    if chapters.len() == 0 {
    } else if chapters.last().published_at <= at {
    } else {
        let front = chapters.drop_last();
        assert(ascending(front)) by {
            assert forall|i: int, j: int| 0 <= i < j < front.len() implies front[i].published_at
                <= front[j].published_at by {
                assert(front[i] == chapters[i]);
                assert(front[j] == chapters[j]);
            }
        }
        lemma_slot(front, at);
        assert forall|j: int| 0 <= j < slot(chapters, at) implies chapters[j].published_at
            <= at by {
            assert(front[j] == chapters[j]);
        }
        assert forall|j: int| slot(chapters, at) <= j < chapters.len() implies chapters[j].published_at
            > at by {
            if j < front.len() {
                assert(front[j] == chapters[j]);
            }
        }
    }
}

/// `chapters` with `chapter` added at its slot, unless a chapter of that
/// identifier is there already.
pub open spec fn with_chapter(chapters: Seq<Chapter>, chapter: Chapter) -> Seq<Chapter> {
    if holds_id(chapters, chapter.id) {
        chapters
    } else {
        chapters.insert(slot(chapters, chapter.published_at), chapter)
    }
}

/// Adding a chapter keeps the order and the distinctness, keeps every chapter
/// that was there, and adds nothing but the chapter.
pub proof fn lemma_with_chapter(chapters: Seq<Chapter>, chapter: Chapter)
    requires
        ascending(chapters),
        distinct_ids(chapters),
    ensures
        ascending(with_chapter(chapters, chapter)),
        distinct_ids(with_chapter(chapters, chapter)),
        holds_id(with_chapter(chapters, chapter), chapter.id),
        forall|k: int|
            0 <= k < chapters.len() ==> with_chapter(chapters, chapter).contains(
                #[trigger] chapters[k],
            ),
        forall|m: int|
            0 <= m < with_chapter(chapters, chapter).len() ==> (#[trigger] with_chapter(
                chapters,
                chapter,
            )[m]) == chapter || chapters.contains(with_chapter(chapters, chapter)[m]),
        with_chapter(chapters, chapter).len() >= 1,
{
    let after = with_chapter(chapters, chapter);
    if holds_id(chapters, chapter.id) {
        assert forall|k: int| 0 <= k < chapters.len() implies after.contains(
            #[trigger] chapters[k],
        ) by {
            assert(after[k] == chapters[k]);
        }
    } else {
        let at = slot(chapters, chapter.published_at);
        lemma_slot(chapters, chapter.published_at);
        assert(after.len() == chapters.len() + 1);
        assert(after[at] == chapter);
        assert forall|m: int| 0 <= m < after.len() implies (#[trigger] after[m]) == chapter
            || chapters.contains(after[m]) by {
            if m < at {
                assert(after[m] == chapters[m]);
            } else if m > at {
                assert(after[m] == chapters[m - 1]);
            }
        }
        assert forall|k: int| 0 <= k < chapters.len() implies after.contains(
            #[trigger] chapters[k],
        ) by {
            if k < at {
                assert(after[k] == chapters[k]);
            } else {
                assert(after[k + 1] == chapters[k]);
            }
        }
        assert forall|i: int, j: int| 0 <= i < j < after.len() implies after[i].published_at
            <= after[j].published_at && after[i].id != after[j].id by {
            let x = if i < at {
                i
            } else {
                i - 1
            };
            let y = if j < at {
                j
            } else {
                j - 1
            };
            if i != at {
                assert(after[i] == chapters[x]);
            }
            if j != at {
                assert(after[j] == chapters[y]);
            }
        }
    }
}

/// Whether a chapter of `chapters` has the identifier `id`.
pub fn has_id(chapters: &Vec<Chapter>, id: Id) -> (found: bool)
    ensures
        found == holds_id(chapters@, id),
{
    let mut i: usize = 0;
    while i < chapters.len()
        invariant
            i <= chapters.len(),
            forall|k: int| 0 <= k < i ==> (#[trigger] chapters@[k]).id != id,
        decreases chapters.len() - i,
    {
        if chapters[i].id == id {
            return true;
        }
        i = i + 1;
    }
    false
}

/// Adds `chapter` to the chapters of a group: behind every chapter that is not
/// newer, and not at all where the group holds it already.
pub fn insert_chapter(chapters: &mut Vec<Chapter>, chapter: Chapter)
    ensures
        final(chapters)@ == with_chapter(old(chapters)@, chapter),
{
    if has_id(chapters, chapter.id) {
        return ;
    }
    let mut n: usize = chapters.len();
    assert(chapters@.take(n as int) == chapters@);
    while n > 0 && chapters[n - 1].published_at > chapter.published_at
        invariant
            n <= chapters.len(),
            slot(chapters@, chapter.published_at) == slot(
                chapters@.take(n as int),
                chapter.published_at,
            ),
        decreases n,
    {
        assert(chapters@.take(n as int).drop_last() == chapters@.take(n - 1));
        n = n - 1;
    }
    chapters.insert(n, chapter);
}

/// Some row of the subscription `key` gives `chapter`.
pub open spec fn gives(rows: Seq<ChapterWithUser>, key: (Seq<char>, Id, i64), chapter: Chapter) -> bool {
    exists|r: int|
        0 <= r < rows.len() && row_key(#[trigger] rows[r]) == key && rows[r].chapter == chapter
}

/// Every chapter of `group` is given by a row of the group's subscription.
pub open spec fn drawn_from(group: DeliveryGroup, rows: Seq<ChapterWithUser>) -> bool {
    forall|c: int|
        0 <= c < group.chapters@.len() ==> gives(
            rows,
            group_key(group),
            #[trigger] group.chapters@[c],
        )
}

/// Some group of `groups` is the row's, and holds the row's chapter.
pub open spec fn covered(groups: Seq<DeliveryGroup>, row: ChapterWithUser) -> bool {
    exists|g: int|
        0 <= g < groups.len() && group_key(#[trigger] groups[g]) == row_key(row) && holds_id(
            groups[g].chapters@,
            row.chapter.id,
        )
}

/// No two groups are of the same subscription.
pub open spec fn distinct_keys(groups: Seq<DeliveryGroup>) -> bool {
    forall|a: int, b: int|
        0 <= a < b < groups.len() ==> group_key(groups[a]) != group_key(groups[b])
}

/// The chapters that `rows` give for the subscription `key`: each row of the
/// subscription adds its chapter at the chapter's slot, unless a row before
/// it gave the same chapter.
pub open spec fn chapters_for(rows: Seq<ChapterWithUser>, key: (Seq<char>, Id, i64)) -> Seq<
    Chapter,
>
    decreases rows.len(),
{
    if rows.len() == 0 {
        Seq::empty()
    } else if row_key(rows.last()) == key {
        with_chapter(chapters_for(rows.drop_last(), key), rows.last().chapter)
    } else {
        chapters_for(rows.drop_last(), key)
    }
}

/// Rows of other subscriptions give a subscription nothing.
pub proof fn lemma_chapters_for_none(rows: Seq<ChapterWithUser>, key: (Seq<char>, Id, i64))
    requires
        forall|r: int| 0 <= r < rows.len() ==> row_key(#[trigger] rows[r]) != key,
    ensures
        chapters_for(rows, key) == Seq::<Chapter>::empty(),
    decreases rows.len(),
{
    if rows.len() > 0 {
        assert(row_key(rows[rows.len() - 1]) != key);
        assert forall|r: int| 0 <= r < rows.drop_last().len() implies row_key(
            #[trigger] rows.drop_last()[r],
        ) != key by {
            assert(rows.drop_last()[r] == rows[r]);
        }
        lemma_chapters_for_none(rows.drop_last(), key);
    }
}

/// What `group_pending` makes of `rows`: one group for each subscription that
/// has a row, holding exactly the chapters that the rows give for it.
pub open spec fn grouped(groups: Seq<DeliveryGroup>, rows: Seq<ChapterWithUser>) -> bool {
    &&& distinct_keys(groups)
    &&& forall|g: int|
        0 <= g < groups.len() ==> (#[trigger] groups[g]).chapters@ == chapters_for(
            rows,
            group_key(groups[g]),
        )
    &&& forall|g: int| 0 <= g < groups.len() ==> (#[trigger] groups[g]).well_formed()
    &&& forall|g: int| 0 <= g < groups.len() ==> drawn_from(#[trigger] groups[g], rows)
    &&& forall|r: int| 0 <= r < rows.len() ==> covered(groups, #[trigger] rows[r])
}

/// The position of the group of `row`'s subscription.
fn find_group(groups: &Vec<DeliveryGroup>, row: &ChapterWithUser) -> (found: Option<usize>)
    ensures
        match found {
            Some(g) => g < groups.len() && group_key(groups@[g as int]) == row_key(*row),
            None => forall|g: int|
                0 <= g < groups.len() ==> group_key(#[trigger] groups@[g]) != row_key(*row),
        },
{
    let mut g: usize = 0;
    while g < groups.len()
        invariant
            g <= groups.len(),
            forall|k: int| 0 <= k < g ==> group_key(#[trigger] groups@[k]) != row_key(*row),
        decreases groups.len() - g,
    {
        let group = &groups[g];
        if group.book_id == row.chapter.book_id && group.grouping_quantity
            == row.grouping_quantity && group.user_id == row.user_id {
            return Some(g);
        }
        g = g + 1;
    }
    None
}

/// Sorts the rows of the pending-deliveries query into groups, one for each
/// subscription that occurs in them. Each group holds every chapter that the
/// rows give for it, once each however often a row repeats it, in ascending
/// order of publication; chapters published at the same instant stay in the
/// order of their rows. The groups come in no stated order.
pub fn group_pending(rows: &Vec<ChapterWithUser>) -> (groups: Vec<DeliveryGroup>)
    ensures
        grouped(groups@, rows@),
{
    let mut groups: Vec<DeliveryGroup> = Vec::new();
    let mut i: usize = 0;
    assert(rows@.take(0) == Seq::<ChapterWithUser>::empty());
    while i < rows.len()
        invariant
            i <= rows.len(),
            grouped(groups@, rows@.take(i as int)),
        decreases rows.len() - i,
    {
        let row = &rows[i];
        let ghost before = groups@;
        let ghost seen = rows@.take(i as int);
        assert(rows@.take(i + 1) == seen.push(*row));
        match find_group(&groups, row) {
            Some(g) => {
                let mut group = groups.remove(g);
                let ghost old_group = group;
                insert_chapter(&mut group.chapters, row.chapter.clone());
                let ghost new_group = group;
                groups.insert(g, group);
                proof {
                    assert(groups@.len() == before.len());
                    assert(groups@[g as int] == new_group);
                    assert forall|a: int| 0 <= a < before.len() && a != g implies groups@[a]
                        == before[a] by {}
                    lemma_group_extended(before, groups@, seen, *row, g as int);
                }
            },
            None => {
                let mut chapters: Vec<Chapter> = Vec::new();
                chapters.push(row.chapter.clone());
                assert(chapters@ == seq![row.chapter]);
                let group = DeliveryGroup {
                    user_id: row.user_id.clone(),
                    book_id: row.chapter.book_id,
                    grouping_quantity: row.grouping_quantity,
                    chapters,
                };
                groups.push(group);
                proof {
                    lemma_group_added(before, groups@, seen, *row);
                }
            },
        }
        i = i + 1;
    }
    assert(rows@.take(rows.len() as int) == rows@);
    groups
}

/// Two sequences of groups agree but at `g`, where the later one holds the
/// earlier group with one more row's chapter.
spec fn extended_at(
    before: Seq<DeliveryGroup>,
    after: Seq<DeliveryGroup>,
    row: ChapterWithUser,
    g: int,
) -> bool {
    &&& 0 <= g < before.len()
    &&& after.len() == before.len()
    &&& forall|a: int| 0 <= a < before.len() && a != g ==> after[a] == before[a]
    &&& group_key(before[g]) == row_key(row)
    &&& group_key(after[g]) == row_key(row)
    &&& after[g].chapters@ == with_chapter(before[g].chapters@, row.chapter)
}

proof fn lemma_group_extended(
    before: Seq<DeliveryGroup>,
    after: Seq<DeliveryGroup>,
    seen: Seq<ChapterWithUser>,
    row: ChapterWithUser,
    g: int,
)
    requires
        grouped(before, seen),
        extended_at(before, after, row, g),
    ensures
        grouped(after, seen.push(row)),
{
    let now = seen.push(row);
    assert(now.drop_last() == seen);
    assert(before[g].well_formed());
    lemma_with_chapter(before[g].chapters@, row.chapter);
    assert(distinct_keys(after)) by {
        assert forall|a: int, b: int| 0 <= a < b < after.len() implies group_key(after[a])
            != group_key(after[b]) by {
            assert(group_key(after[a]) == group_key(before[a]));
            assert(group_key(after[b]) == group_key(before[b]));
        }
    }
    assert forall|a: int| 0 <= a < after.len() implies (#[trigger] after[a]).chapters@
        == chapters_for(now, group_key(after[a])) by {
        if a != g {
            assert(after[a] == before[a]);
            if a < g {
                assert(group_key(before[a]) != group_key(before[g]));
            } else {
                assert(group_key(before[g]) != group_key(before[a]));
            }
        }
    }
    assert forall|a: int| 0 <= a < after.len() implies (#[trigger] after[a]).well_formed() by {
        if a == g {
            lemma_extended_well_formed(before[g], after[g], row);
        } else {
            assert(after[a] == before[a]);
        }
    }
    assert forall|a: int| 0 <= a < after.len() implies drawn_from(#[trigger] after[a], now) by {
        if a == g {
            lemma_extended_drawn(before[g], after[g], seen, row);
        } else {
            assert(after[a] == before[a]);
            lemma_drawn_from_more(before[a], seen, now);
        }
    }
    assert forall|r: int| 0 <= r < now.len() implies covered(after, #[trigger] now[r]) by {
        if r < seen.len() {
            assert(now[r] == seen[r]);
            lemma_still_covered(before, after, row, g, seen[r]);
        } else {
            assert(group_key(after[g]) == row_key(now[r]));
        }
    }
}

proof fn lemma_extended_well_formed(old_group: DeliveryGroup, group: DeliveryGroup, row: ChapterWithUser)
    requires
        old_group.well_formed(),
        group_key(old_group) == row_key(row),
        group_key(group) == row_key(row),
        group.chapters@ == with_chapter(old_group.chapters@, row.chapter),
    ensures
        group.well_formed(),
{
    lemma_with_chapter(old_group.chapters@, row.chapter);
    assert forall|c: int| 0 <= c < group.chapters@.len() implies (
    #[trigger] group.chapters@[c]).book_id == group.book_id by {
        if group.chapters@[c] != row.chapter {
            assert(old_group.chapters@.contains(group.chapters@[c]));
            let k = choose|k: int|
                0 <= k < old_group.chapters@.len() && old_group.chapters@[k] == group.chapters@[c];
            assert(old_group.chapters@[k].book_id == old_group.book_id);
        }
    }
}

proof fn lemma_extended_drawn(
    old_group: DeliveryGroup,
    group: DeliveryGroup,
    seen: Seq<ChapterWithUser>,
    row: ChapterWithUser,
)
    requires
        old_group.well_formed(),
        drawn_from(old_group, seen),
        group_key(old_group) == row_key(row),
        group_key(group) == row_key(row),
        group.chapters@ == with_chapter(old_group.chapters@, row.chapter),
    ensures
        drawn_from(group, seen.push(row)),
{
    let now = seen.push(row);
    lemma_with_chapter(old_group.chapters@, row.chapter);
    assert forall|c: int| 0 <= c < group.chapters@.len() implies gives(
        now,
        group_key(group),
        #[trigger] group.chapters@[c],
    ) by {
        if group.chapters@[c] == row.chapter {
            assert(now[seen.len() as int] == row);
        } else {
            assert(old_group.chapters@.contains(group.chapters@[c]));
            let k = choose|k: int|
                0 <= k < old_group.chapters@.len() && old_group.chapters@[k] == group.chapters@[c];
            assert(gives(seen, group_key(old_group), old_group.chapters@[k]));
            let r = choose|r: int|
                0 <= r < seen.len() && row_key(#[trigger] seen[r]) == group_key(old_group)
                    && seen[r].chapter == old_group.chapters@[k];
            assert(now[r] == seen[r]);
        }
    }
}

proof fn lemma_still_covered(
    before: Seq<DeliveryGroup>,
    after: Seq<DeliveryGroup>,
    row: ChapterWithUser,
    g: int,
    earlier: ChapterWithUser,
)
    requires
        covered(before, earlier),
        extended_at(before, after, row, g),
        before[g].well_formed(),
    ensures
        covered(after, earlier),
{
    let w = choose|w: int|
        0 <= w < before.len() && group_key(#[trigger] before[w]) == row_key(earlier) && holds_id(
            before[w].chapters@,
            earlier.chapter.id,
        );
    if w == g {
        lemma_with_chapter(before[g].chapters@, row.chapter);
        let k = choose|k: int|
            0 <= k < before[g].chapters@.len() && (#[trigger] before[g].chapters@[k]).id
                == earlier.chapter.id;
        assert(after[g].chapters@.contains(before[g].chapters@[k]));
        let m = choose|m: int|
            0 <= m < after[g].chapters@.len() && after[g].chapters@[m] == before[g].chapters@[k];
        assert(after[g].chapters@[m].id == earlier.chapter.id);
        assert(holds_id(after[g].chapters@, earlier.chapter.id));
        assert(group_key(after[g]) == row_key(earlier));
    } else {
        assert(after[w] == before[w]);
        assert(group_key(after[w]) == row_key(earlier));
    }
}

proof fn lemma_group_added(
    before: Seq<DeliveryGroup>,
    after: Seq<DeliveryGroup>,
    seen: Seq<ChapterWithUser>,
    row: ChapterWithUser,
)
    requires
        grouped(before, seen),
        forall|g: int| 0 <= g < before.len() ==> group_key(#[trigger] before[g]) != row_key(row),
        after.len() == before.len() + 1,
        forall|a: int| 0 <= a < before.len() ==> after[a] == before[a],
        group_key(after.last()) == row_key(row),
        after.last().chapters@ == seq![row.chapter],
        after.last().book_id == row.chapter.book_id,
    ensures
        grouped(after, seen.push(row)),
{
    let now = seen.push(row);
    let last = after.len() - 1;
    assert(now.drop_last() == seen);
    assert forall|r: int| 0 <= r < seen.len() implies row_key(#[trigger] seen[r]) != row_key(
        row,
    ) by {
        let w = choose|w: int|
            0 <= w < before.len() && group_key(#[trigger] before[w]) == row_key(seen[r])
                && holds_id(before[w].chapters@, seen[r].chapter.id);
    }
    lemma_chapters_for_none(seen, row_key(row));
    assert(with_chapter(Seq::<Chapter>::empty(), row.chapter) == seq![row.chapter]);
    assert(distinct_keys(after)) by {
        assert forall|a: int, b: int| 0 <= a < b < after.len() implies group_key(after[a])
            != group_key(after[b]) by {
            assert(after[a] == before[a]);
            if b < last {
                assert(after[b] == before[b]);
            }
        }
    }
    assert forall|a: int| 0 <= a < after.len() implies (#[trigger] after[a]).chapters@
        == chapters_for(now, group_key(after[a])) by {
        if a < last {
            assert(after[a] == before[a]);
        }
    }
    assert forall|a: int| 0 <= a < after.len() implies (#[trigger] after[a]).well_formed() by {
        if a < last {
            assert(after[a] == before[a]);
        }
    }
    assert forall|a: int| 0 <= a < after.len() implies drawn_from(#[trigger] after[a], now) by {
        if a < last {
            assert(after[a] == before[a]);
            lemma_drawn_from_more(before[a], seen, now);
        } else {
            assert(now[seen.len() as int] == row);
            assert(after[a].chapters@[0] == row.chapter);
        }
    }
    assert forall|r: int| 0 <= r < now.len() implies covered(after, #[trigger] now[r]) by {
        if r < seen.len() {
            assert(now[r] == seen[r]);
            let w = choose|w: int|
                0 <= w < before.len() && group_key(#[trigger] before[w]) == row_key(seen[r])
                    && holds_id(before[w].chapters@, seen[r].chapter.id);
            assert(after[w] == before[w]);
            assert(group_key(after[w]) == row_key(now[r]));
        } else {
            assert(after[last].chapters@[0].id == now[r].chapter.id);
            assert(group_key(after[last]) == row_key(now[r]));
        }
    }
}

/// A group drawn from some rows is drawn from any rows that begin with them.
proof fn lemma_drawn_from_more(
    group: DeliveryGroup,
    fewer: Seq<ChapterWithUser>,
    more: Seq<ChapterWithUser>,
)
    requires
        drawn_from(group, fewer),
        fewer.len() <= more.len(),
        forall|r: int| 0 <= r < fewer.len() ==> more[r] == fewer[r],
    ensures
        drawn_from(group, more),
{
    assert forall|c: int| 0 <= c < group.chapters@.len() implies gives(
        more,
        group_key(group),
        #[trigger] group.chapters@[c],
    ) by {
        assert(gives(fewer, group_key(group), group.chapters@[c]));
        let r = choose|r: int|
            0 <= r < fewer.len() && row_key(#[trigger] fewer[r]) == group_key(group)
                && fewer[r].chapter == group.chapters@[c];
        assert(more[r] == fewer[r]);
    }
}

} // verus!
