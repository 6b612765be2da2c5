//! Catch-up subscriptions: consumers walk the log from a persisted
//! checkpoint, advancing it after each event, so delivery is at-least-once
//! and in order. Idempotency markers let a consumer skip events it has
//! already handled.

use vstd::prelude::*;

use crate::event::Recorded;
use crate::store::memory::{feed_indices, law_feed_pagination, MemoryStore, StoredEvent};
use crate::text::concat;

verus! {

/// Document collection used to store subscription checkpoints.
pub const CHECKPOINTS: &'static str = "__checkpoint";

/// Document collection used to store idempotency markers.
pub const PROCESSED: &'static str = "__processed";

/// The document key of the marker for `event_id` within `scope`.
pub open spec fn marker_key(scope: Seq<char>, event_id: Seq<char>) -> Seq<char> {
    scope + ":"@ + event_id
}

/// The document key of the marker for `event_id` within `scope`.
pub fn processed_key(scope: &str, event_id: &str) -> (key: String)
    ensures
        key@ == marker_key(scope@, event_id@),
{
    let mut key = concat(scope, ":");
    key.append(event_id);
    key
}

/// Mark `event_id` as processed within `scope`.
pub fn mark_processed(store: &mut MemoryStore, scope: &str, event_id: &str)
    requires
        old(store).wf(),
    ensures
        final(store).wf(),
        final(store).events() == old(store).events(),
        final(store).documents() == old(store).documents().insert(
            (PROCESSED@, marker_key(scope@, event_id@)),
            "true"@,
        ),
{
    let key = processed_key(scope, event_id);
    store.save(PROCESSED, key.as_str(), "true".to_owned());
}

/// Has `event_id` already been processed within `scope`?
pub fn already_processed(store: &MemoryStore, scope: &str, event_id: &str) -> (b: bool)
    requires
        store.wf(),
    ensures
        b == store.documents().contains_key((PROCESSED@, marker_key(scope@, event_id@))),
{
    let key = processed_key(scope, event_id);
    store.fetch(PROCESSED, key.as_str()).is_some()
}

/// Once an event is marked processed within a scope, it reads as processed,
/// whatever else was marked or saved alongside.
pub proof fn law_marked_reads_processed(
    before: MemoryStore,
    after: MemoryStore,
    scope: Seq<char>,
    event_id: Seq<char>,
)
    requires
        after.documents() == before.documents().insert(
            (PROCESSED@, marker_key(scope, event_id)),
            "true"@,
        ),
    ensures
        after.documents().contains_key((PROCESSED@, marker_key(scope, event_id))),
{
}

/// The checkpoint of a subscription that started from `start` and advanced
/// its cursor after each of the first `handled` events of its feed.
pub open spec fn checkpoint_after(
    log: Seq<StoredEvent>,
    start: nat,
    names: Seq<Seq<char>>,
    handled: int,
) -> nat {
    if handled <= 0 {
        start
    } else {
        (feed_indices(log, start, names)[handled - 1] + 1) as nat
    }
}

/// Delivery is in order and at least once: a subscription that started
/// from checkpoint `start` and advanced its cursor after each of the first
/// `handled` events of its feed reads, from its new checkpoint, exactly the
/// rest of that feed in order. Nothing is skipped, and an event whose
/// handling did not complete, so that the cursor never moved past it, is
/// delivered again.
pub proof fn law_resume_delivers_the_rest(
    log: Seq<StoredEvent>,
    start: nat,
    names: Seq<Seq<char>>,
    handled: int,
)
    requires
        0 <= handled <= feed_indices(log, start, names).len(),
    ensures
        feed_indices(log, checkpoint_after(log, start, names, handled), names) == feed_indices(
            log,
            start,
            names,
        ).skip(handled),
{
    if handled == 0 {
        assert(feed_indices(log, start, names).skip(0) =~= feed_indices(log, start, names));
    } else {
        law_feed_pagination(log, start, names, handled);
    }
}

/// A marker key is the scope, then `:`, then the whole event id: it starts
/// with the scope, has `:` right after it, and ends with exactly the event
/// id.
pub proof fn law_marker_key_holds_the_whole_id(scope: Seq<char>, event_id: Seq<char>)
    ensures
        marker_key(scope, event_id).len() == scope.len() + 1 + event_id.len(),
        marker_key(scope, event_id).take(scope.len() as int) == scope,
        marker_key(scope, event_id)[scope.len() as int] == ':',
        marker_key(scope, event_id).skip(scope.len() as int + 1) == event_id,
{
    reveal_strlit(":");
    let k = marker_key(scope, event_id);
    assert(k.take(scope.len() as int) =~= scope);
    assert(k.skip(scope.len() as int + 1) =~= event_id);
}

/// Within one scope, distinct event ids have distinct markers: marking one
/// event leaves every other event of that scope exactly as processed as it
/// was before.
pub proof fn law_marking_one_leaves_the_others(
    before: MemoryStore,
    after: MemoryStore,
    scope: Seq<char>,
    marked: Seq<char>,
    other: Seq<char>,
)
    requires
        after.documents() == before.documents().insert(
            (PROCESSED@, marker_key(scope, marked)),
            "true"@,
        ),
        other != marked,
    ensures
        marker_key(scope, other) != marker_key(scope, marked),
        after.documents().contains_key((PROCESSED@, marker_key(scope, other)))
            == before.documents().contains_key((PROCESSED@, marker_key(scope, other))),
{
    law_marker_key_holds_the_whole_id(scope, marked);
    law_marker_key_holds_the_whole_id(scope, other);
}

/// Where a subscription stands: the global position of the last event
/// handled, and how many events it handled in this run.
pub struct Cursor {
    /// Global position of the last event handled (0: none yet).
    pub position: u64,
    /// Events handled in this run.
    pub processed: u64,
}

impl Cursor {
    /// A cursor resuming from a stored checkpoint.
    pub fn resume(position: u64) -> (c: Self)
        ensures
            c.position == position,
            c.processed == 0,
    {
        Cursor { position, processed: 0 }
    }

    /// Record that `event` was handled: the checkpoint moves to it.
    pub fn advance<E>(&mut self, event: &Recorded<E>)
        requires
            old(self).processed < u64::MAX,
        ensures
            final(self).position == event.global_position,
            final(self).processed == old(self).processed + 1,
    {
        self.position = event.global_position;
        self.processed = self.processed + 1;
    }
}

} // verus!
