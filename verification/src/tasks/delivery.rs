//! One delivery group: the pending chapters of one user's subscription to one
//! book. The decisions of a delivery are stated here; the calls to the store,
//! the converter and the notification services are made by the caller, who
//! reports each outcome back.

use crate::models::{Chapter, ChapterBody, DeliveryMethod, Id, StorageLocation};
use vstd::prelude::*;

verus! {

/// The chapters owed to one user for one book, oldest first.
#[derive(Debug)]
pub struct DeliveryGroup {
    pub user_id: String,
    pub book_id: Id,
    pub grouping_quantity: i64,
    pub chapters: Vec<Chapter>,
}

/// `chapters` are in ascending order of publication.
pub open spec fn ascending(chapters: Seq<Chapter>) -> bool {
    forall|i: int, j: int|
        0 <= i < j < chapters.len() ==> chapters[i].published_at <= chapters[j].published_at
}

/// No two of `chapters` share an identifier.
pub open spec fn distinct_ids(chapters: Seq<Chapter>) -> bool {
    forall|i: int, j: int| 0 <= i < j < chapters.len() ==> chapters[i].id != chapters[j].id
}

impl DeliveryGroup {
    /// A group holds at least one chapter, each of its book and each once,
    /// oldest first.
    pub open spec fn well_formed(&self) -> bool {
        &&& self.chapters@.len() >= 1
        &&& ascending(self.chapters@)
        &&& distinct_ids(self.chapters@)
        &&& forall|i: int|
            0 <= i < self.chapters@.len() ==> (#[trigger] self.chapters@[i]).book_id
                == self.book_id
    }

    /// The batching threshold is met.
    pub open spec fn due(&self) -> bool {
        self.chapters@.len() >= self.grouping_quantity
    }

    /// Whether the group holds as many chapters as the subscription asks for.
    pub fn is_due(&self) -> (due: bool)
        ensures
            due == self.due(),
    {
        if self.grouping_quantity <= 0 {
            true
        } else {
            self.chapters.len() as u128 >= self.grouping_quantity as u128
        }
    }

    /// The chapter that becomes the subscription's watermark once the group is
    /// delivered: the newest one.
    pub fn watermark(&self) -> (id: Id)
        requires
            self.chapters@.len() >= 1,
        ensures
            id == self.chapters@.last().id,
    {
        self.chapters[self.chapters.len() - 1].id
    }

    /// The identifiers of the group's chapters, oldest first: what the rows of
    /// their bodies are asked by.
    pub fn chapter_ids(&self) -> (ids: Vec<Id>)
        ensures
            ids@.len() == self.chapters@.len(),
            forall|i: int| 0 <= i < ids@.len() ==> ids@[i] == self.chapters@[i].id,
    {
        let mut ids: Vec<Id> = Vec::new();
        let mut i: usize = 0;
        while i < self.chapters.len()
            invariant
                i <= self.chapters.len(),
                ids@.len() == i,
                forall|k: int| 0 <= k < i ==> ids@[k] == self.chapters@[k].id,
            decreases self.chapters.len() - i,
        {
            ids.push(self.chapters[i].id);
            i = i + 1;
        }
        ids
    }
}

/// The position of the first row of `bodies` that belongs to `chapter_id`.
pub open spec fn body_position(bodies: Seq<ChapterBody>, chapter_id: Id) -> Option<int>
    decreases bodies.len(),
{
    if bodies.len() == 0 {
        None
    } else if bodies[0].chapter_id == chapter_id {
        Some(0)
    } else {
        match body_position(bodies.skip(1), chapter_id) {
            Some(i) => Some(i + 1),
            None => None,
        }
    }
}

/// `body_position` gives the least position whose row belongs to the chapter,
/// and `None` only where no row does.
pub proof fn lemma_body_position(bodies: Seq<ChapterBody>, chapter_id: Id)
    ensures
        match body_position(bodies, chapter_id) {
            Some(i) => 0 <= i < bodies.len() && bodies[i].chapter_id == chapter_id && forall|
                j: int,
            | 0 <= j < i ==> bodies[j].chapter_id != chapter_id,
            None => forall|j: int| 0 <= j < bodies.len() ==> bodies[j].chapter_id != chapter_id,
        },
    decreases bodies.len(),
{
    if bodies.len() == 0 {
    } else if bodies[0].chapter_id == chapter_id {
    } else {
        lemma_body_position(bodies.skip(1), chapter_id);
        match body_position(bodies.skip(1), chapter_id) {
            Some(i) => {
                assert(bodies.skip(1)[i] == bodies[i + 1]);
                assert forall|j: int| 0 <= j < i + 1 implies bodies[j].chapter_id
                    != chapter_id by {
                    if j > 0 {
                        assert(bodies.skip(1)[j - 1] == bodies[j]);
                    }
                }
            },
            None => {
                assert forall|j: int| 0 <= j < bodies.len() implies bodies[j].chapter_id
                    != chapter_id by {
                    if j > 0 {
                        assert(bodies.skip(1)[j - 1] == bodies[j]);
                    }
                }
            },
        }
    }
}

/// Finds the row of `bodies` that belongs to `chapter_id`.
pub fn find_body(bodies: &Vec<ChapterBody>, chapter_id: Id) -> (found: Option<usize>)
    ensures
        match found {
            Some(i) => body_position(bodies@, chapter_id) == Some(i as int) && i < bodies.len(),
            None => body_position(bodies@, chapter_id) is None,
        },
{
    let mut i: usize = 0;
    while i < bodies.len()
        invariant
            i <= bodies.len(),
            forall|j: int| 0 <= j < i ==> bodies@[j].chapter_id != chapter_id,
        decreases bodies.len() - i,
    {
        if bodies[i].chapter_id == chapter_id {
            proof {
                lemma_body_position(bodies@, chapter_id);
            }
            return Some(i);
        }
        i = i + 1;
    }
    proof {
        lemma_body_position(bodies@, chapter_id);
    }
    None
}

/// Every chapter has a row among `bodies`.
pub open spec fn all_stored(chapters: Seq<Chapter>, bodies: Seq<ChapterBody>) -> bool {
    forall|i: int|
        0 <= i < chapters.len() ==> body_position(bodies, (#[trigger] chapters[i]).id) is Some
}

/// `place` is where the row of `chapter_id` among `bodies` points.
pub open spec fn stored_at(bodies: Seq<ChapterBody>, chapter_id: Id, place: StorageLocation) -> bool {
    match body_position(bodies, chapter_id) {
        Some(at) => place.bucket == bodies[at].bucket && place.key == bodies[at].key,
        None => false,
    }
}

/// The stored artifacts of `chapters`, in the order of the chapters, whatever
/// the order of `bodies`. `None` where a chapter has no row among `bodies`:
/// such a group cannot be assembled.
pub fn locations_for(chapters: &Vec<Chapter>, bodies: &Vec<ChapterBody>) -> (places: Option<
    Vec<StorageLocation>,
>)
    ensures
        places is Some <==> all_stored(chapters@, bodies@),
        match places {
            Some(found) => found@.len() == chapters@.len() && forall|i: int|
                0 <= i < chapters@.len() ==> stored_at(
                    bodies@,
                    chapters@[i].id,
                    #[trigger] found@[i],
                ),
            None => true,
        },
{
    let mut found: Vec<StorageLocation> = Vec::new();
    let mut i: usize = 0;
    while i < chapters.len()
        invariant
            i <= chapters.len(),
            found@.len() == i,
            forall|k: int|
                0 <= k < i ==> body_position(bodies@, (#[trigger] chapters@[k]).id) is Some,
            forall|k: int|
                0 <= k < i ==> stored_at(bodies@, chapters@[k].id, #[trigger] found@[k]),
        decreases chapters.len() - i,
    {
        match find_body(bodies, chapters[i].id) {
            Some(at) => {
                found.push(bodies[at].location());
            },
            None => {
                return None;
            },
        }
        i = i + 1;
    }
    Some(found)
}

/// The bytes of `parts` one after another.
pub open spec fn joined(parts: Seq<Vec<u8>>) -> Seq<u8>
    decreases parts.len(),
{
    if parts.len() == 0 {
        Seq::empty()
    } else {
        joined(parts.drop_last()) + parts.last()@
    }
}

/// Concatenates the fetched artifacts into one body, in the order given.
pub fn concatenate(parts: &Vec<Vec<u8>>) -> (whole: Vec<u8>)
    ensures
        whole@ == joined(parts@),
{
    let mut whole: Vec<u8> = Vec::new();
    let mut i: usize = 0;
    while i < parts.len()
        invariant
            i <= parts.len(),
            whole@ == joined(parts@.take(i as int)),
        decreases parts.len() - i,
    {
        let part = &parts[i];
        let mut k: usize = 0;
        while k < part.len()
            invariant
                i < parts.len(),
                part == parts@[i as int],
                k <= part.len(),
                whole@ == joined(parts@.take(i as int)) + part@.take(k as int),
            decreases part.len() - k,
        {
            whole.push(part[k]);
            assert(part@.take(k + 1) == part@.take(k as int).push(part@[k as int]));
            k = k + 1;
        }
        assert(part@.take(part.len() as int) == part@);
        assert(parts@.take(i + 1).drop_last() == parts@.take(i as int));
        i = i + 1;
    }
    assert(parts@.take(parts.len() as int) == parts@);
    whole
}

/// What the caller is asked to do next for a group.
#[derive(Clone, Copy, Debug, PartialEq, Eq, Structural)]
pub enum DeliveryAction {
    /// Load the rows of the chapters' bodies.
    LoadBodies,
    /// Fetch each artifact from the object store.
    FetchArtifacts,
    /// Convert the concatenated body into one file.
    Convert,
    /// Send the push message.
    SendPush,
    /// Send the file by email.
    SendEmail,
    /// Record the newest chapter as delivered.
    AdvanceWatermark,
    /// Nothing more: too few chapters are pending.
    Skip,
    /// Nothing more: the group was delivered and recorded.
    Complete,
    /// Nothing more: a step failed and the watermark stays where it was.
    Abandon,
}

/// Where a delivery stands: the action that is under way, and the channels the
/// user has enabled.
#[derive(Clone, Copy, Debug, PartialEq, Eq, Structural)]
pub struct DeliveryProgress {
    pub current: DeliveryAction,
    pub push: bool,
    pub email: bool,
}

/// The action that follows the conversion or a channel, given the channels
/// that are still to be served.
pub open spec fn after_channels(push_left: bool, email_left: bool) -> DeliveryAction {
    if push_left {
        DeliveryAction::SendPush
    } else if email_left {
        DeliveryAction::SendEmail
    } else {
        DeliveryAction::AdvanceWatermark
    }
}

/// The action that follows `current` once it ended with `succeeded`.
pub open spec fn next_action(
    current: DeliveryAction,
    push: bool,
    email: bool,
    succeeded: bool,
) -> DeliveryAction {
    match current {
        DeliveryAction::Skip => DeliveryAction::Skip,
        DeliveryAction::Complete => DeliveryAction::Complete,
        DeliveryAction::Abandon => DeliveryAction::Abandon,
        _ => if !succeeded {
            DeliveryAction::Abandon
        } else {
            match current {
                DeliveryAction::LoadBodies => DeliveryAction::FetchArtifacts,
                DeliveryAction::FetchArtifacts => DeliveryAction::Convert,
                DeliveryAction::Convert => after_channels(push, email),
                DeliveryAction::SendPush => after_channels(false, email),
                DeliveryAction::SendEmail => DeliveryAction::AdvanceWatermark,
                _ => DeliveryAction::Complete,
            }
        },
    }
}

/// The first action for a group: nothing below the threshold, else loading
/// the bodies.
pub open spec fn first_action(due: bool) -> DeliveryAction {
    if due {
        DeliveryAction::LoadBodies
    } else {
        DeliveryAction::Skip
    }
}

impl DeliveryProgress {
    /// Nothing is left to do.
    pub open spec fn finished(&self) -> bool {
        self.current == DeliveryAction::Skip || self.current == DeliveryAction::Complete
            || self.current == DeliveryAction::Abandon
    }

    /// Starts the delivery of `group` to the user whose channels `method`
    /// describes. A group below its threshold is skipped.
    pub fn begin(group: &DeliveryGroup, method: &DeliveryMethod) -> (progress: DeliveryProgress)
        ensures
            progress.current == first_action(group.due()),
            progress.push == method.push_target() is Some,
            progress.email == method.email_target() is Some,
    {
        let current = if group.is_due() {
            DeliveryAction::LoadBodies
        } else {
            DeliveryAction::Skip
        };
        DeliveryProgress {
            current,
            push: method.get_pushover_key().is_some(),
            email: method.get_kindle_email().is_some(),
        }
    }

    /// Records how the current action ended and gives the next one. A failure
    /// abandons the group; the watermark is advanced only after the conversion
    /// and every enabled channel succeeded.
    pub fn advance(&self, succeeded: bool) -> (next: DeliveryProgress)
        ensures
            next.current == next_action(self.current, self.push, self.email, succeeded),
            next.push == self.push,
            next.email == self.email,
    {
        let current = match self.current {
            DeliveryAction::Skip => DeliveryAction::Skip,
            DeliveryAction::Complete => DeliveryAction::Complete,
            DeliveryAction::Abandon => DeliveryAction::Abandon,
            _ => if !succeeded {
                DeliveryAction::Abandon
            } else {
                match self.current {
                    DeliveryAction::LoadBodies => DeliveryAction::FetchArtifacts,
                    DeliveryAction::FetchArtifacts => DeliveryAction::Convert,
                    DeliveryAction::Convert => if self.push {
                        DeliveryAction::SendPush
                    } else if self.email {
                        DeliveryAction::SendEmail
                    } else {
                        DeliveryAction::AdvanceWatermark
                    },
                    DeliveryAction::SendPush => if self.email {
                        DeliveryAction::SendEmail
                    } else {
                        DeliveryAction::AdvanceWatermark
                    },
                    DeliveryAction::SendEmail => DeliveryAction::AdvanceWatermark,
                    _ => DeliveryAction::Complete,
                }
            },
        };
        DeliveryProgress { current, push: self.push, email: self.email }
    }

    /// Whether the delivery has come to an end.
    pub fn is_finished(&self) -> (done: bool)
        ensures
            done == self.finished(),
    {
        match self.current {
            DeliveryAction::Skip | DeliveryAction::Complete | DeliveryAction::Abandon => true,
            _ => false,
        }
    }
}

/// The actions of a delivery that starts with `first` and whose actions end
/// with `outcomes`, one after another.
pub open spec fn actions_taken(
    first: DeliveryAction,
    push: bool,
    email: bool,
    outcomes: Seq<bool>,
) -> Seq<DeliveryAction>
    decreases outcomes.len(),
{
    if outcomes.len() == 0 {
        seq![first]
    } else {
        let before = actions_taken(first, push, email, outcomes.drop_last());
        before.push(next_action(before.last(), push, email, outcomes.last()))
    }
}

/// A group below its threshold is never delivered: whatever the caller
/// reports, no body is loaded, nothing is sent and the watermark stays.
pub proof fn lemma_nothing_below_threshold(push: bool, email: bool, outcomes: Seq<bool>)
    ensures
        forall|k: int|
            0 <= k < actions_taken(first_action(false), push, email, outcomes).len()
                ==> actions_taken(first_action(false), push, email, outcomes)[k]
                == DeliveryAction::Skip,
        actions_taken(first_action(false), push, email, outcomes).len() == outcomes.len() + 1,
    decreases outcomes.len(),
{
    if outcomes.len() > 0 {
        lemma_nothing_below_threshold(push, email, outcomes.drop_last());
    }
}

/// The watermark is advanced only after everything before it succeeded: where
/// the actions of a delivery hold `AdvanceWatermark` at position `k`, the
/// threshold was met, every earlier outcome was a success, and every enabled
/// channel was served before it.
pub proof fn lemma_watermark_after_success(
    due: bool,
    push: bool,
    email: bool,
    outcomes: Seq<bool>,
    k: int,
)
    requires
        0 <= k <= outcomes.len(),
        actions_taken(first_action(due), push, email, outcomes)[k]
            == DeliveryAction::AdvanceWatermark,
    ensures
        due,
        forall|j: int| 0 <= j < k ==> outcomes[j],
        k == 3 + (if push { 1int } else { 0 }) + (if email { 1int } else { 0 }),
        push ==> actions_taken(first_action(due), push, email, outcomes)[3]
            == DeliveryAction::SendPush,
        email ==> actions_taken(first_action(due), push, email, outcomes)[k - 1]
            == DeliveryAction::SendEmail,
{
    let all = actions_taken(first_action(due), push, email, outcomes);
    lemma_actions_prefix(first_action(due), push, email, outcomes, k);
    let upto = outcomes.take(k);
    let head = actions_taken(first_action(due), push, email, upto);
    assert(head.last() == DeliveryAction::AdvanceWatermark);
    lemma_trace_shape(due, push, email, upto);
    assert forall|j: int| 0 <= j < k implies outcomes[j] by {
        assert(upto[j] == outcomes[j]);
    }
    if push {
        lemma_actions_prefix(first_action(due), push, email, outcomes, 3);
        lemma_actions_prefix(first_action(due), push, email, upto, 3);
        assert(upto.take(3) == outcomes.take(3));
    }
    if email {
        lemma_actions_prefix(first_action(due), push, email, outcomes, k - 1);
        lemma_actions_prefix(first_action(due), push, email, upto, k - 1);
        assert(upto.take(k - 1) == outcomes.take(k - 1));
    }
}

/// The action reached after `n` successes in a row.
spec fn after_successes(n: nat, push: bool, email: bool) -> DeliveryAction
    decreases n,
{
    if n == 0 {
        DeliveryAction::LoadBodies
    } else {
        next_action(after_successes((n - 1) as nat, push, email), push, email, true)
    }
}

proof fn lemma_after_successes(push: bool, email: bool, outcomes: Seq<bool>)
    requires
        forall|j: int| 0 <= j < outcomes.len() ==> outcomes[j],
    ensures
        actions_taken(first_action(true), push, email, outcomes).last() == after_successes(
            outcomes.len(),
            push,
            email,
        ),
    decreases outcomes.len(),
{
    if outcomes.len() > 0 {
        assert forall|j: int| 0 <= j < outcomes.drop_last().len() implies outcomes.drop_last()[j] by {
            assert(outcomes.drop_last()[j] == outcomes[j]);
        }
        lemma_after_successes(push, email, outcomes.drop_last());
        assert(outcomes.last());
    }
}

/// Success is recorded. Where the threshold is met and the loading, the
/// fetching, the conversion and every enabled channel succeed, the next
/// action is to advance the watermark; and once that succeeded too, the
/// delivery is complete.
pub proof fn lemma_success_advances(push: bool, email: bool, outcomes: Seq<bool>)
    requires
        outcomes.len() == 3 + (if push { 1int } else { 0 }) + (if email { 1int } else { 0 }),
        forall|j: int| 0 <= j < outcomes.len() ==> outcomes[j],
    ensures
        actions_taken(first_action(true), push, email, outcomes).last()
            == DeliveryAction::AdvanceWatermark,
        actions_taken(first_action(true), push, email, outcomes.push(true)).last()
            == DeliveryAction::Complete,
{
    lemma_after_successes(push, email, outcomes);
    reveal_with_fuel(after_successes, 7);
    assert(outcomes.push(true).drop_last() == outcomes);
}

/// The actions of a longer run begin with the actions of each shorter one.
proof fn lemma_actions_prefix(
    first: DeliveryAction,
    push: bool,
    email: bool,
    outcomes: Seq<bool>,
    k: int,
)
    requires
        0 <= k <= outcomes.len(),
    ensures
        actions_taken(first, push, email, outcomes).len() == outcomes.len() + 1,
        actions_taken(first, push, email, outcomes.take(k)).len() == k + 1,
        actions_taken(first, push, email, outcomes)[k] == actions_taken(
            first,
            push,
            email,
            outcomes.take(k),
        ).last(),
        forall|j: int|
            0 <= j <= k ==> actions_taken(first, push, email, outcomes)[j] == actions_taken(
                first,
                push,
                email,
                outcomes.take(k),
            )[j],
    decreases outcomes.len(),
{
    if k == outcomes.len() {
        assert(outcomes.take(k) == outcomes);
        lemma_actions_len(first, push, email, outcomes);
    } else {
        lemma_actions_prefix(first, push, email, outcomes.drop_last(), k);
        assert(outcomes.drop_last().take(k) == outcomes.take(k));
    }
}

proof fn lemma_actions_len(first: DeliveryAction, push: bool, email: bool, outcomes: Seq<bool>)
    ensures
        actions_taken(first, push, email, outcomes).len() == outcomes.len() + 1,
    decreases outcomes.len(),
{
    if outcomes.len() > 0 {
        lemma_actions_len(first, push, email, outcomes.drop_last());
    }
}

/// The stage of a delivery: the number of actions that succeeded on the way
/// to `action`, where it lies on the way to the watermark.
spec fn stage(action: DeliveryAction, push: bool, email: bool) -> int {
    match action {
        DeliveryAction::LoadBodies => 0,
        DeliveryAction::FetchArtifacts => 1,
        DeliveryAction::Convert => 2,
        DeliveryAction::SendPush => 3,
        DeliveryAction::SendEmail => 3 + if push {
            1int
        } else {
            0
        },
        DeliveryAction::AdvanceWatermark => 3 + (if push {
            1int
        } else {
            0
        }) + (if email {
            1int
        } else {
            0
        }),
        _ => -1,
    }
}

/// Where the last action of a run is still on the way to the watermark, the
/// run is as long as the action's stage, every outcome was a success, and only
/// enabled channels are served.
proof fn lemma_trace_shape(due: bool, push: bool, email: bool, outcomes: Seq<bool>)
    ensures
        ({
            let last = actions_taken(first_action(due), push, email, outcomes).last();
            stage(last, push, email) >= 0 ==> {
                &&& due
                &&& stage(last, push, email) == outcomes.len()
                &&& forall|j: int| 0 <= j < outcomes.len() ==> outcomes[j]
                &&& last == DeliveryAction::SendPush ==> push
                &&& last == DeliveryAction::SendEmail ==> email
            }
        }),
    decreases outcomes.len(),
{
    if outcomes.len() > 0 {
        lemma_trace_shape(due, push, email, outcomes.drop_last());
        let before = actions_taken(first_action(due), push, email, outcomes.drop_last());
        let last = next_action(before.last(), push, email, outcomes.last());
        if stage(last, push, email) >= 0 {
            assert forall|j: int| 0 <= j < outcomes.len() implies outcomes[j] by {
                if j < outcomes.len() - 1 {
                    assert(outcomes.drop_last()[j] == outcomes[j]);
                }
            }
        }
    }
}

} // verus!
