//! An in-process event log and document store.
//!
//! The log is a single vector in append order; an event's index plus one is its
//! global position. Payloads and documents are kept as encoded text (JSON in
//! practice), so one store holds events of any type.

use vstd::prelude::*;

use crate::error::StoreError;
use crate::event::{ExpectedRevision, Metadata, Recorded};
use crate::store::rules::{feed_step, next_versions};
use crate::store::select::{
    lemma_select_bounds, lemma_select_prefix, lemma_select_push, lemma_select_take_step, select,
};

verus! {

/// An event as the log keeps it: the bookkeeping plus the encoded payload.
#[derive(Debug)]
pub struct StoredEvent {
    pub id: String,
    pub aggregate_type: String,
    pub stream_id: String,
    pub version: u64,
    pub event_type: String,
    pub payload: String,
    pub recorded_at: i64,
    pub metadata: Metadata,
}

/// An encoded event waiting to be appended: its stable name and its payload.
#[derive(Debug, Clone)]
pub struct PendingEvent {
    pub event_type: String,
    pub payload: String,
}

/// Whether `e` belongs to the stream `(ty, id)`.
pub open spec fn in_stream(e: StoredEvent, ty: Seq<char>, id: Seq<char>) -> bool {
    e.aggregate_type@ == ty && e.stream_id@ == id
}

/// Keeps the events of the stream `(ty, id)`.
pub open spec fn stream_filter(ty: Seq<char>, id: Seq<char>) -> spec_fn(int, StoredEvent) -> bool {
    |i: int, e: StoredEvent| in_stream(e, ty, id)
}

/// Keeps the events of the stream `(ty, id)` whose version is above `after`.
pub open spec fn tail_filter(ty: Seq<char>, id: Seq<char>, after: nat) -> spec_fn(
    int,
    StoredEvent,
) -> bool {
    |i: int, e: StoredEvent| in_stream(e, ty, id) && e.version > after
}

/// Keeps the events after global position `after` whose name is in `names`.
pub open spec fn feed_filter(after: nat, names: Seq<Seq<char>>) -> spec_fn(int, StoredEvent) -> bool {
    |i: int, e: StoredEvent| i + 1 > after && names.contains(e.event_type@)
}

/// Log indices of the events of stream `(ty, id)`, in log order.
pub open spec fn stream_indices(log: Seq<StoredEvent>, ty: Seq<char>, id: Seq<char>) -> Seq<int> {
    select(log, stream_filter(ty, id))
}

/// The current version of stream `(ty, id)`: how many events it holds.
pub open spec fn stream_version(log: Seq<StoredEvent>, ty: Seq<char>, id: Seq<char>) -> nat {
    stream_indices(log, ty, id).len()
}

/// Log indices of the events of stream `(ty, id)` with version above `after`.
pub open spec fn tail_indices(log: Seq<StoredEvent>, ty: Seq<char>, id: Seq<char>, after: nat) -> Seq<
    int,
> {
    select(log, tail_filter(ty, id, after))
}

/// Log indices of the events after global position `after` whose name is in
/// `names`, in global order.
pub open spec fn feed_indices(log: Seq<StoredEvent>, after: nat, names: Seq<Seq<char>>) -> Seq<int> {
    select(log, feed_filter(after, names))
}

/// Within every stream, versions are contiguous from 1 in append order: each
/// event's version is one more than the number of earlier events of its
/// stream.
pub open spec fn versions_contiguous(log: Seq<StoredEvent>) -> bool {
    forall|i: int|
        0 <= i < log.len() ==> (#[trigger] log[i]).version == stream_version(
            log.take(i),
            log[i].aggregate_type@,
            log[i].stream_id@,
        ) + 1
}

/// `r` is the event at log index `i`, as handed out by the store: the stored
/// bookkeeping, the global position `i + 1`, and the encoded payload.
pub open spec fn recorded_as(r: Recorded<String>, log: Seq<StoredEvent>, i: int) -> bool {
    let e = log[i];
    &&& r.id == e.id
    &&& r.aggregate_type == e.aggregate_type
    &&& r.stream_id == e.stream_id
    &&& r.version == e.version
    &&& r.global_position == i + 1
    &&& r.event_type == e.event_type
    &&& r.payload == e.payload
    &&& r.recorded_at == e.recorded_at
    &&& r.metadata@ == e.metadata@
}

/// `rs` are the events at log indices `idx`, in that order.
pub open spec fn records_of(rs: Seq<Recorded<String>>, log: Seq<StoredEvent>, idx: Seq<int>) -> bool {
    &&& rs.len() == idx.len()
    &&& forall|k: int| 0 <= k < idx.len() ==> recorded_as(#[trigger] rs[k], log, idx[k])
}

/// The `n` consecutive indices starting at `start`.
pub open spec fn index_range(start: int, n: nat) -> Seq<int> {
    Seq::new(n, |k: int| start + k)
}

/// `e` was appended to stream `(ty, id)` as its version `version`, from
/// `pending`, with a fresh version 7 UUID as its id, `recorded_at` and
/// `metadata`.
pub open spec fn appended_as(
    e: StoredEvent,
    ty: Seq<char>,
    id: Seq<char>,
    version: int,
    pending: PendingEvent,
    recorded_at: i64,
    metadata: Map<String, String>,
) -> bool {
    &&& e.aggregate_type@ == ty
    &&& e.stream_id@ == id
    &&& e.version == version
    &&& uuid_v7_text(e.id@)
    &&& e.event_type == pending.event_type
    &&& e.payload == pending.payload
    &&& e.recorded_at == recorded_at
    &&& e.metadata@ == metadata
}

/// Whether `c` is a lower-case hexadecimal digit.
pub open spec fn is_hex_digit(c: char) -> bool {
    ('0' <= c <= '9') || ('a' <= c <= 'f')
}

/// `s` is the hyphenated lower-case text of a version 7 UUID: 36
/// characters, `-` at 8, 13, 18 and 23 and hexadecimal digits elsewhere,
/// the version digit `7` at 14 and an RFC 4122 variant digit (`8`, `9`, `a`
/// or `b`) at 19.
pub open spec fn uuid_v7_text(s: Seq<char>) -> bool {
    &&& s.len() == 36
    &&& forall|i: int|
        0 <= i < 36 ==> if i == 8 || i == 13 || i == 18 || i == 23 {
            #[trigger] s[i] == '-'
        } else {
            is_hex_digit(s[i])
        }
    &&& s[14] == '7'
    &&& (s[19] == '8' || s[19] == '9' || s[19] == 'a' || s[19] == 'b')
}

/// A fresh, time-ordered unique event id in its hyphenated text form.
///
/// Trusted: calls `uuid::Uuid::now_v7` and formats the result with
/// `to_string`, which writes the hyphenated lower-case form of a version 7,
/// RFC 4122 variant UUID. Which id comes back depends on the clock and on
/// chance, so nothing is stated of its time and random digits, nor of its
/// uniqueness or its order among the ids made before it.
#[verifier::external_body]
fn fresh_event_id() -> (id: String)
    ensures
        uuid_v7_text(id@),
{
    uuid::Uuid::now_v7().to_string()
}

/// Stream versions never exceed the number of events in the log.
pub proof fn lemma_stream_version_bound(log: Seq<StoredEvent>, ty: Seq<char>, id: Seq<char>)
    ensures
        stream_version(log, ty, id) <= log.len(),
{
    lemma_select_bounds(log, stream_filter(ty, id));
}

/// Appending an event that carries the next version of its stream keeps
/// versions contiguous.
proof fn lemma_contiguous_push(log: Seq<StoredEvent>, e: StoredEvent)
    requires
        versions_contiguous(log),
        e.version == stream_version(log, e.aggregate_type@, e.stream_id@) + 1,
    ensures
        versions_contiguous(log.push(e)),
{
    let log2 = log.push(e);
    assert forall|i: int| 0 <= i < log2.len() implies (#[trigger] log2[i]).version
        == stream_version(log2.take(i), log2[i].aggregate_type@, log2[i].stream_id@) + 1 by {
        if i < log.len() {
            assert(log2.take(i) =~= log.take(i));
            assert(log2[i] == log[i]);
        } else {
            assert(log2.take(i) =~= log);
        }
    }
}

/// In a log with contiguous versions, the `k`-th event of a stream has
/// version `k + 1`.
pub proof fn lemma_stream_versions(log: Seq<StoredEvent>, ty: Seq<char>, id: Seq<char>)
    requires
        versions_contiguous(log),
    ensures
        forall|k: int|
            0 <= k < stream_indices(log, ty, id).len() ==> log[#[trigger] stream_indices(
                log,
                ty,
                id,
            )[k]].version == k + 1,
    decreases log.len(),
{
    lemma_select_bounds(log, stream_filter(ty, id));
    if log.len() > 0 {
        let prev = log.drop_last();
        assert forall|i: int| 0 <= i < prev.len() implies (#[trigger] prev[i]).version
            == stream_version(prev.take(i), prev[i].aggregate_type@, prev[i].stream_id@) + 1 by {
            assert(prev.take(i) =~= log.take(i));
            assert(prev[i] == log[i]);
        }
        lemma_stream_versions(prev, ty, id);
        lemma_select_bounds(prev, stream_filter(ty, id));
        let last = log.len() - 1;
        assert(log.take(last) =~= prev);
        assert(log[last] == log.last());
        let s = stream_indices(log, ty, id);
        let sp = stream_indices(prev, ty, id);
        assert forall|k: int| 0 <= k < s.len() implies log[#[trigger] s[k]].version == k + 1 by {
            if k < sp.len() {
                assert(s[k] == sp[k]);
                assert(log[sp[k]] == prev[sp[k]]);
            } else {
                assert(in_stream(log.last(), ty, id));
                assert(s[k] == last);
            }
        }
    }
}

/// The events of a stream above version `after` are the stream's events
/// after its first `after` ones.
pub proof fn lemma_tail_is_suffix(log: Seq<StoredEvent>, ty: Seq<char>, id: Seq<char>, after: nat)
    requires
        versions_contiguous(log),
    ensures
        tail_indices(log, ty, id, after) == stream_indices(log, ty, id).skip(
            if after <= stream_version(log, ty, id) {
                after as int
            } else {
                stream_version(log, ty, id) as int
            },
        ),
    decreases log.len(),
{
    let s = stream_indices(log, ty, id);
    let n = s.len();
    if log.len() == 0 {
        assert(s.skip(0) =~= s);
    } else {
        let prev = log.drop_last();
        assert forall|i: int| 0 <= i < prev.len() implies (#[trigger] prev[i]).version
            == stream_version(prev.take(i), prev[i].aggregate_type@, prev[i].stream_id@) + 1 by {
            assert(prev.take(i) =~= log.take(i));
            assert(prev[i] == log[i]);
        }
        lemma_tail_is_suffix(prev, ty, id, after);
        let sp = stream_indices(prev, ty, id);
        let last = log.len() - 1;
        assert(log.take(last) =~= prev);
        assert(log[last] == log.last());
        if in_stream(log.last(), ty, id) {
            assert(s == sp.push(last));
            assert(log.last().version == sp.len() + 1);
            if log.last().version > after {
                assert(s.skip(after as int) =~= sp.skip(after as int).push(last));
            } else {
                assert(s.skip(n as int) =~= sp.skip(sp.len() as int));
            }
        } else {
            assert(s == sp);
        }
    }
}

/// The names in `names`, as character sequences.
pub open spec fn name_views(names: Seq<String>) -> Seq<Seq<char>> {
    names.map_values(|s: String| s@)
}

/// A `(key, body)` pair as character sequences.
pub open spec fn pair_views(pairs: Seq<(String, String)>) -> Seq<(Seq<char>, Seq<char>)> {
    pairs.map_values(|p: (String, String)| (p.0@, p.1@))
}

/// One stored document.
struct Document {
    collection: String,
    key: String,
    body: String,
}

spec fn doc_key(d: Document) -> (Seq<char>, Seq<char>) {
    (d.collection@, d.key@)
}

/// The documents as a map; a later entry for a key overrides an earlier one.
spec fn docs_map(s: Seq<Document>) -> Map<(Seq<char>, Seq<char>), Seq<char>>
    decreases s.len(),
{
    if s.len() == 0 {
        Map::empty()
    } else {
        docs_map(s.drop_last()).insert(doc_key(s.last()), s.last().body@)
    }
}

/// No two entries share a `(collection, key)`.
spec fn docs_unique(s: Seq<Document>) -> bool {
    forall|i: int, j: int| 0 <= i < j < s.len() ==> doc_key(s[i]) != doc_key(s[j])
}

/// The `(key, body)` pairs of collection `c`, in storage order.
spec fn collection_entries(s: Seq<Document>, c: Seq<char>) -> Seq<(Seq<char>, Seq<char>)>
    decreases s.len(),
{
    if s.len() == 0 {
        Seq::empty()
    } else {
        let prev = collection_entries(s.drop_last(), c);
        if s.last().collection@ == c {
            prev.push((s.last().key@, s.last().body@))
        } else {
            prev
        }
    }
}

proof fn lemma_docs_unique_prefix(s: Seq<Document>)
    requires
        docs_unique(s),
        s.len() > 0,
    ensures
        docs_unique(s.drop_last()),
        forall|i: int| 0 <= i < s.len() - 1 ==> doc_key(#[trigger] s[i]) != doc_key(s.last()),
{
    assert forall|i: int| 0 <= i < s.len() - 1 implies doc_key(#[trigger] s[i]) != doc_key(
        s.last(),
    ) by {
        assert(doc_key(s[i]) != doc_key(s[s.len() - 1]));
    }
}

/// A key that no entry carries is absent from the map.
proof fn lemma_docs_absent(s: Seq<Document>, key: (Seq<char>, Seq<char>))
    requires
        forall|i: int| 0 <= i < s.len() ==> doc_key(#[trigger] s[i]) != key,
    ensures
        !docs_map(s).contains_key(key),
    decreases s.len(),
{
    if s.len() > 0 {
        lemma_docs_absent(s.drop_last(), key);
        assert(doc_key(s[s.len() - 1]) != key);
    }
}

/// The map holds each entry's body under its key.
proof fn lemma_docs_lookup(s: Seq<Document>, i: int)
    requires
        docs_unique(s),
        0 <= i < s.len(),
    ensures
        docs_map(s).contains_key(doc_key(s[i])),
        docs_map(s)[doc_key(s[i])] == s[i].body@,
    decreases s.len(),
{
    if i < s.len() - 1 {
        lemma_docs_unique_prefix(s);
        lemma_docs_lookup(s.drop_last(), i);
        assert(s.drop_last()[i] == s[i]);
    }
}

/// Replacing an entry by one with the same key replaces that key's body.
proof fn lemma_docs_update(s: Seq<Document>, i: int, d: Document)
    requires
        docs_unique(s),
        0 <= i < s.len(),
        doc_key(d) == doc_key(s[i]),
    ensures
        docs_unique(s.update(i, d)),
        docs_map(s.update(i, d)) == docs_map(s).insert(doc_key(d), d.body@),
    decreases s.len(),
{
    let t = s.update(i, d);
    assert forall|a: int, b: int| 0 <= a < b < t.len() implies doc_key(t[a]) != doc_key(t[b]) by {
        assert(doc_key(t[a]) == doc_key(s[a]));
        assert(doc_key(t[b]) == doc_key(s[b]));
    }
    if i == s.len() - 1 {
        assert(t.drop_last() =~= s.drop_last());
        assert(docs_map(t) =~= docs_map(s).insert(doc_key(d), d.body@));
    } else {
        lemma_docs_unique_prefix(s);
        lemma_docs_update(s.drop_last(), i, d);
        assert(t.drop_last() =~= s.drop_last().update(i, d));
        assert(t.last() == s.last());
        assert(doc_key(s[i]) != doc_key(s.last()));
        assert(docs_map(t) =~= docs_map(s).insert(doc_key(d), d.body@));
    }
}

/// Removing an entry removes its key.
proof fn lemma_docs_remove(s: Seq<Document>, i: int)
    requires
        docs_unique(s),
        0 <= i < s.len(),
    ensures
        docs_unique(s.remove(i)),
        docs_map(s.remove(i)) == docs_map(s).remove(doc_key(s[i])),
    decreases s.len(),
{
    let t = s.remove(i);
    let key = doc_key(s[i]);
    assert forall|a: int, b: int| 0 <= a < b < t.len() implies doc_key(t[a]) != doc_key(t[b]) by {
        let sa = if a < i { a } else { a + 1 };
        let sb = if b < i { b } else { b + 1 };
        assert(t[a] == s[sa]);
        assert(t[b] == s[sb]);
    }
    lemma_docs_unique_prefix(s);
    if i == s.len() - 1 {
        assert(t =~= s.drop_last());
        lemma_docs_absent(s.drop_last(), key);
        assert(docs_map(t) =~= docs_map(s).remove(key));
    } else {
        lemma_docs_remove(s.drop_last(), i);
        assert(t.drop_last() =~= s.drop_last().remove(i));
        assert(t.last() == s.last());
        assert(s.drop_last()[i] == s[i]);
        assert(key != doc_key(s.last()));
        assert(docs_map(t) =~= docs_map(s).remove(key));
    }
}

/// A collection's entries are exactly the documents of that collection, each
/// key once.
proof fn lemma_collection_entries(s: Seq<Document>, c: Seq<char>)
    requires
        docs_unique(s),
    ensures
        forall|k: Seq<char>, b: Seq<char>|
            #![trigger collection_entries(s, c).contains((k, b))]
            collection_entries(s, c).contains((k, b)) <==> (docs_map(s).contains_key((c, k))
                && docs_map(s)[(c, k)] == b),
        forall|a: int, b: int|
            0 <= a < b < collection_entries(s, c).len() ==> (#[trigger] collection_entries(s, c)[a]).0
                != (#[trigger] collection_entries(s, c)[b]).0,
    decreases s.len(),
{
    if s.len() > 0 {
        let p = s.drop_last();
        lemma_docs_unique_prefix(s);
        lemma_collection_entries(p, c);
        let e = collection_entries(s, c);
        let ep = collection_entries(p, c);
        let lk = doc_key(s.last());
        assert forall|k: Seq<char>, b: Seq<char>|
            #![trigger e.contains((k, b))]
            e.contains((k, b)) <==> (docs_map(s).contains_key((c, k)) && docs_map(s)[(c, k)] == b) by {
            if lk == (c, k) {
                lemma_docs_absent(p, lk);
                if e.contains((k, b)) {
                    let w = choose|w: int| 0 <= w < e.len() && e[w] == (k, b);
                    if w < ep.len() {
                        assert(e[w] == ep[w]);
                        assert(ep.contains((k, b)));
                    }
                }
                if docs_map(s)[(c, k)] == b {
                    assert(e[e.len() - 1] == (k, b));
                }
            } else {
                if e.contains((k, b)) {
                    let w = choose|w: int| 0 <= w < e.len() && e[w] == (k, b);
                    if w < ep.len() {
                        assert(e[w] == ep[w]);
                    } else {
                        assert(e[w] == (s.last().key@, s.last().body@));
                    }
                    assert(ep.contains((k, b)));
                }
                if ep.contains((k, b)) {
                    let w = choose|w: int| 0 <= w < ep.len() && ep[w] == (k, b);
                    assert(e[w] == ep[w]);
                }
            }
        }
        assert forall|a: int, b: int| 0 <= a < b < e.len() implies (#[trigger] e[a]).0 != (
        #[trigger] e[b]).0 by {
            if b == e.len() - 1 && s.last().collection@ == c {
                assert(e[a] == ep[a]);
                let ka = ep[a].0;
                let ba = ep[a].1;
                assert(ep[a] == (ka, ba));
                assert(ep.contains((ka, ba)));
                assert(docs_map(p).contains_key((c, ka)));
                if ka == e[b].0 {
                    assert(lk == (c, ka));
                    lemma_docs_absent(p, lk);
                }
            } else {
                assert(e[a] == ep[a]);
                assert(e[b] == ep[b]);
            }
        }
    }
}

/// Reading the feed again from just after its `m`-th event gives the rest of
/// the feed: pagination by global position neither skips nor repeats.
pub proof fn law_feed_pagination(log: Seq<StoredEvent>, after: nat, names: Seq<Seq<char>>, m: int)
    requires
        0 < m <= feed_indices(log, after, names).len(),
    ensures
        feed_indices(log, after, names)[m - 1] + 1 >= after,
        feed_indices(log, (feed_indices(log, after, names)[m - 1] + 1) as nat, names) == feed_indices(
            log,
            after,
            names,
        ).skip(m),
    decreases log.len(),
{
    let s = feed_indices(log, after, names);
    let p = (s[m - 1] + 1) as nat;
    lemma_select_bounds(log, feed_filter(after, names));
    let prev = log.drop_last();
    let last = log.len() - 1;
    let sp = feed_indices(prev, after, names);
    let t = feed_indices(log, p, names);
    let tp = feed_indices(prev, p, names);
    lemma_select_bounds(prev, feed_filter(after, names));
    lemma_select_bounds(prev, feed_filter(p, names));
    if s[m - 1] == last {
        assert(m == s.len()) by {
            if m < s.len() {
                assert(s[m - 1] < s[m]);
            }
        }
        assert(tp.len() == 0) by {
            if tp.len() > 0 {
                assert(tp[0] < prev.len());
            }
        }
        assert(t == tp);
        assert(s.skip(m) =~= Seq::<int>::empty());
    } else {
        assert(s[m - 1] < last);
        assert(m - 1 < sp.len()) by {
            if m - 1 >= sp.len() {
                assert(s == sp.push(last));
            }
        }
        assert(s[m - 1] == sp[m - 1]);
        law_feed_pagination(prev, after, names, m);
        if feed_filter(after, names)(last, log.last()) {
            assert(s == sp.push(last));
            assert(t == tp.push(last));
            assert(s.skip(m) =~= sp.skip(m).push(last));
        } else {
            assert(s == sp);
            assert(t == tp);
        }
    }
}

/// A thread-unsafe, in-process event log plus document store.
///
/// Events of every stream share one vector in append order; index + 1 is an
/// event's global position. Documents are `(collection, key) -> body`.
pub struct MemoryStore {
    log: Vec<StoredEvent>,
    documents: Vec<Document>,
}

impl Default for MemoryStore {
    fn default() -> (s: Self)
        ensures
            s.wf(),
            s.events() == Seq::<StoredEvent>::empty(),
            s.documents() == Map::<(Seq<char>, Seq<char>), Seq<char>>::empty(),
    {
        MemoryStore::new()
    }
}

impl MemoryStore {
    /// Every event ever appended, in append order.
    pub closed spec fn events(self) -> Seq<StoredEvent> {
        self.log@
    }

    /// The documents: `(collection, key)` to body.
    pub closed spec fn documents(self) -> Map<(Seq<char>, Seq<char>), Seq<char>> {
        docs_map(self.documents@)
    }

    /// The store's internal consistency: versions are contiguous per stream,
    /// and no two documents share a `(collection, key)`.
    pub closed spec fn wf(self) -> bool {
        &&& versions_contiguous(self.log@)
        &&& docs_unique(self.documents@)
    }

    /// Create an empty store.
    pub fn new() -> (s: Self)
        ensures
            s.wf(),
            s.events() == Seq::<StoredEvent>::empty(),
            s.documents() == Map::<(Seq<char>, Seq<char>), Seq<char>>::empty(),
    {
        MemoryStore { log: Vec::new(), documents: Vec::new() }
    }

    /// Total number of events across all streams.
    pub fn len(&self) -> (n: usize)
        ensures
            n == self.events().len(),
    {
        self.log.len()
    }

    /// `true` if no events have been appended yet.
    pub fn is_empty(&self) -> (b: bool)
        ensures
            b <==> self.events().len() == 0,
    {
        self.len() == 0
    }

    /// The event at log index `i`, as handed out by the store.
    fn record_at(&self, i: usize) -> (r: Recorded<String>)
        requires
            i < self.log@.len(),
        ensures
            recorded_as(r, self.log@, i as int),
    {
        let len = self.log.len();
        proof {
            assert(i + 1 <= len);
        }
        let e = &self.log[i];
        Recorded {
            id: e.id.clone(),
            aggregate_type: e.aggregate_type.clone(),
            stream_id: e.stream_id.clone(),
            version: e.version,
            global_position: (i + 1) as u64,
            event_type: e.event_type.clone(),
            payload: e.payload.clone(),
            recorded_at: e.recorded_at,
            metadata: e.metadata.clone(),
        }
    }

    /// The current version of stream `(ty, id)`.
    fn current_version(&self, ty: &String, id: &String) -> (v: u64)
        requires
            self.wf(),
        ensures
            v == stream_version(self.log@, ty@, id@),
    {
        let mut current: u64 = 0;
        let mut i: usize = 0;
        while i < self.log.len()
            invariant
                i <= self.log@.len(),
                versions_contiguous(self.log@),
                current == stream_version(self.log@.take(i as int), ty@, id@),
            decreases self.log@.len() - i,
        {
            proof {
                lemma_select_take_step(self.log@, i as int, stream_filter(ty@, id@));
            }
            let e = &self.log[i];
            if e.aggregate_type == *ty && e.stream_id == *id {
                if e.version > current {
                    current = e.version;
                }
            }
            i += 1;
        }
        proof {
            assert(self.log@.take(i as int) =~= self.log@);
        }
        current
    }

    /// Append `events` to stream `(aggregate_type, stream_id)`, enforcing
    /// `expected` for optimistic concurrency. Every event gets a fresh id, the
    /// next version of its stream, the next global position, `recorded_at`
    /// and a copy of `metadata`. Appending an empty slice is a no-op.
    pub fn append(
        &mut self,
        aggregate_type: &str,
        stream_id: &str,
        expected: ExpectedRevision,
        events: &[PendingEvent],
        metadata: &Metadata,
        recorded_at: i64,
    ) -> (r: Result<Vec<Recorded<String>>, StoreError>)
        requires
            old(self).wf(),
            old(self).events().len() + events@.len() <= usize::MAX,
        ensures
            final(self).wf(),
            final(self).documents() == old(self).documents(),
            ({
                let log = old(self).events();
                let current = stream_version(log, aggregate_type@, stream_id@);
                if events@.len() == 0 {
                    &&& r matches Ok(v) && v@.len() == 0
                    &&& final(self).events() == log
                } else if !expected.admits(current) {
                    &&& r matches Err(StoreError::Conflict { stream_id: s, expected: d, actual: a })
                        && s@ == stream_id@ && d@ == expected.description() && a == current
                    &&& final(self).events() == log
                } else {
                    let new_log = final(self).events();
                    &&& new_log.len() == log.len() + events@.len()
                    &&& new_log.take(log.len() as int) == log
                    &&& forall|i: int|
                        log.len() <= i < new_log.len() ==> appended_as(
                            #[trigger] new_log[i],
                            aggregate_type@,
                            stream_id@,
                            current + (i - log.len()) + 1,
                            events@[i - log.len()],
                            recorded_at,
                            metadata@,
                        )
                    &&& r matches Ok(v) && records_of(
                        v@,
                        new_log,
                        index_range(log.len() as int, events@.len()),
                    )
                }
            }),
    {
        if events.len() == 0 {
            return Ok(Vec::new());
        }
        let ty = aggregate_type.to_owned();
        let id = stream_id.to_owned();
        let current = self.current_version(&ty, &id);
        proof {
            lemma_stream_version_bound(self.log@, ty@, id@);
        }
        let versions = match next_versions(stream_id, expected, current, events.len()) {
            Err(e) => {
                return Err(e);
            },
            Ok(v) => v,
        };
        let ghost log0 = self.log@;
        let base = self.log.len();
        let mut recorded: Vec<Recorded<String>> = Vec::new();
        let mut offset: usize = 0;
        while offset < events.len()
            invariant
                offset <= events@.len(),
                base == log0.len(),
                base + events@.len() <= usize::MAX,
                current == stream_version(log0, ty@, id@),
                current <= base,
                versions@.len() == events@.len(),
                forall|k: int| 0 <= k < events@.len() ==> #[trigger] versions@[k] == current + k + 1,
                ty@ == aggregate_type@,
                id@ == stream_id@,
                versions_contiguous(self.log@),
                self.documents@ == old(self).documents@,
                self.log@.len() == base + offset,
                self.log@.take(base as int) == log0,
                stream_version(self.log@, ty@, id@) == current + offset,
                forall|i: int|
                    base <= i < base + offset ==> appended_as(
                        #[trigger] self.log@[i],
                        ty@,
                        id@,
                        current + (i - base) + 1,
                        events@[i - base],
                        recorded_at,
                        metadata@,
                    ),
                records_of(recorded@, self.log@, index_range(base as int, offset as nat)),
            decreases events@.len() - offset,
        {
            let version = versions[offset];
            let pending = &events[offset];
            let stored = StoredEvent {
                id: fresh_event_id(),
                aggregate_type: ty.clone(),
                stream_id: id.clone(),
                version,
                event_type: pending.event_type.clone(),
                payload: pending.payload.clone(),
                recorded_at,
                metadata: metadata.clone(),
            };
            let ghost before = self.log@;
            proof {
                lemma_contiguous_push(before, stored);
                lemma_select_push(before, stored, stream_filter(ty@, id@));
                assert(before.push(stored).take(base as int) =~= before.take(base as int));
            }
            self.log.push(stored);
            let rec = self.record_at(self.log.len() - 1);
            recorded.push(rec);
            proof {
                assert(index_range(base as int, (offset + 1) as nat) =~= index_range(
                    base as int,
                    offset as nat,
                ).push(base + offset));
                assert forall|k: int| 0 <= k < offset implies recorded_as(
                    #[trigger] recorded@[k],
                    self.log@,
                    index_range(base as int, (offset + 1) as nat)[k],
                ) by {
                    assert(self.log@[base + k] == before[base + k]);
                }
            }
            offset += 1;
        }
        Ok(recorded)
    }

    /// Load the full event stream of one aggregate instance, in version order.
    /// An unknown stream loads as empty.
    pub fn load(&self, aggregate_type: &str, stream_id: &str) -> (r: Vec<Recorded<String>>)
        requires
            self.wf(),
        ensures
            records_of(r@, self.events(), stream_indices(self.events(), aggregate_type@, stream_id@)),
            forall|k: int| 0 <= k < r@.len() ==> (#[trigger] r@[k]).version == k + 1,
    {
        let ty = aggregate_type.to_owned();
        let id = stream_id.to_owned();
        let mut out: Vec<Recorded<String>> = Vec::new();
        let mut i: usize = 0;
        while i < self.log.len()
            invariant
                i <= self.log@.len(),
                ty@ == aggregate_type@,
                id@ == stream_id@,
                records_of(out@, self.log@, stream_indices(self.log@.take(i as int), ty@, id@)),
            decreases self.log@.len() - i,
        {
            proof {
                lemma_select_take_step(self.log@, i as int, stream_filter(ty@, id@));
            }
            if self.log[i].aggregate_type == ty && self.log[i].stream_id == id {
                let rec = self.record_at(i);
                out.push(rec);
            }
            i += 1;
        }
        proof {
            assert(self.log@.take(i as int) =~= self.log@);
            lemma_stream_versions(self.log@, ty@, id@);
        }
        out
    }

    /// Load only the events of a stream after version `after_version`, in
    /// version order.
    pub fn load_from(&self, aggregate_type: &str, stream_id: &str, after_version: u64) -> (r: Vec<
        Recorded<String>,
    >)
        requires
            self.wf(),
        ensures
            records_of(
                r@,
                self.events(),
                tail_indices(self.events(), aggregate_type@, stream_id@, after_version as nat),
            ),
            forall|k: int| 0 <= k < r@.len() ==> (#[trigger] r@[k]).version > after_version,
    {
        let ty = aggregate_type.to_owned();
        let id = stream_id.to_owned();
        let mut out: Vec<Recorded<String>> = Vec::new();
        let mut i: usize = 0;
        while i < self.log.len()
            invariant
                i <= self.log@.len(),
                ty@ == aggregate_type@,
                id@ == stream_id@,
                records_of(
                    out@,
                    self.log@,
                    tail_indices(self.log@.take(i as int), ty@, id@, after_version as nat),
                ),
            decreases self.log@.len() - i,
        {
            proof {
                lemma_select_take_step(
                    self.log@,
                    i as int,
                    tail_filter(ty@, id@, after_version as nat),
                );
            }
            if self.log[i].aggregate_type == ty && self.log[i].stream_id == id
                && self.log[i].version > after_version {
                let rec = self.record_at(i);
                out.push(rec);
            }
            i += 1;
        }
        proof {
            assert(self.log@.take(i as int) =~= self.log@);
            lemma_select_bounds(self.log@, tail_filter(ty@, id@, after_version as nat));
        }
        out
    }

    /// Read events across all streams, in global order, starting strictly
    /// after `after_global_position`. Only events whose stored name is in
    /// `names` are returned, and the read stops once `limit` events are
    /// collected (a `limit` of 0 still yields the first matching event).
    pub fn read_all(&self, after_global_position: u64, limit: usize, names: &[String]) -> (r: Vec<
        Recorded<String>,
    >)
        ensures
            ({
                let all = feed_indices(self.events(), after_global_position as nat, name_views(names@));
                let cap: int = if limit == 0 {
                    1
                } else {
                    limit as int
                };
                records_of(
                    r@,
                    self.events(),
                    all.take(
                        if all.len() <= cap {
                            all.len() as int
                        } else {
                            cap
                        },
                    ),
                )
            }),
    {
        let ghost keep = feed_filter(after_global_position as nat, name_views(names@));
        let ghost cap: int = if limit == 0 {
            1
        } else {
            limit as int
        };
        let n = self.log.len();
        let mut out: Vec<Recorded<String>> = Vec::new();
        let mut i: usize = 0;
        let mut full = false;
        while i < n && !full
            invariant
                n == self.log@.len(),
                i <= n,
                keep == feed_filter(after_global_position as nat, name_views(names@)),
                cap == (if limit == 0 {
                    1
                } else {
                    limit as int
                }),
                records_of(out@, self.log@, select(self.log@.take(i as int), keep)),
                full ==> out@.len() == cap,
                !full ==> out@.len() < cap,
            decreases n - i,
        {
            proof {
                lemma_select_take_step(self.log@, i as int, keep);
            }
            let position = i as u64 + 1;
            if position > after_global_position {
                let (take, page_full) = feed_step(out.len(), limit, names, &self.log[i].event_type);
                if take {
                    let rec = self.record_at(i);
                    out.push(rec);
                    full = page_full;
                }
            }
            i += 1;
        }
        proof {
            lemma_select_prefix(self.log@, i as int, keep);
            if !full {
                assert(self.log@.take(i as int) =~= self.log@);
            }
            let all = select(self.log@, keep);
            let part = select(self.log@.take(i as int), keep);
            assert(all.take(part.len() as int) == part);
        }
        out
    }

    /// Insert or replace the document `(collection, key)`.
    pub fn save(&mut self, collection: &str, key: &str, body: String)
        requires
            old(self).wf(),
        ensures
            final(self).wf(),
            final(self).events() == old(self).events(),
            final(self).documents() == old(self).documents().insert((collection@, key@), body@),
    {
        let doc = Document { collection: collection.to_owned(), key: key.to_owned(), body };
        match self.find_document(&doc.collection, &doc.key) {
            Some(i) => {
                proof {
                    lemma_docs_update(self.documents@, i as int, doc);
                }
                self.documents.set(i, doc);
            },
            None => {
                proof {
                    let s = self.documents@;
                    assert(s.push(doc).drop_last() =~= s);
                    assert forall|a: int, b: int|
                        0 <= a < b < s.push(doc).len() implies doc_key(s.push(doc)[a]) != doc_key(
                        s.push(doc)[b],
                    ) by {
                        if b == s.len() {
                            assert(doc_key(s[a]) != doc_key(doc));
                        }
                    }
                }
                self.documents.push(doc);
            },
        }
    }

    /// Fetch a document's body, or `None` if absent.
    pub fn fetch(&self, collection: &str, key: &str) -> (r: Option<String>)
        requires
            self.wf(),
        ensures
            match r {
                Some(body) => self.documents().contains_key((collection@, key@))
                    && self.documents()[(collection@, key@)] == body@,
                None => !self.documents().contains_key((collection@, key@)),
            },
    {
        let c = collection.to_owned();
        let k = key.to_owned();
        match self.find_document(&c, &k) {
            Some(i) => {
                proof {
                    lemma_docs_lookup(self.documents@, i as int);
                }
                Some(self.documents[i].body.clone())
            },
            None => {
                proof {
                    lemma_docs_absent(self.documents@, (c@, k@));
                }
                None
            },
        }
    }

    /// Delete a document. Deleting a missing key is not an error.
    pub fn delete(&mut self, collection: &str, key: &str)
        requires
            old(self).wf(),
        ensures
            final(self).wf(),
            final(self).events() == old(self).events(),
            final(self).documents() == old(self).documents().remove((collection@, key@)),
    {
        let c = collection.to_owned();
        let k = key.to_owned();
        match self.find_document(&c, &k) {
            Some(i) => {
                proof {
                    lemma_docs_remove(self.documents@, i as int);
                }
                self.documents.remove(i);
            },
            None => {
                proof {
                    lemma_docs_absent(self.documents@, (c@, k@));
                    assert(self.documents() =~= self.documents().remove((c@, k@)));
                }
            },
        }
    }

    /// Every `(key, body)` pair of a collection, each key once.
    pub fn list(&self, collection: &str) -> (r: Vec<(String, String)>)
        requires
            self.wf(),
        ensures
            forall|k: Seq<char>, b: Seq<char>|
                #![trigger pair_views(r@).contains((k, b))]
                pair_views(r@).contains((k, b)) <==> (self.documents().contains_key((collection@, k))
                    && self.documents()[(collection@, k)] == b),
            forall|a: int, b: int| 0 <= a < b < r@.len() ==> (#[trigger] r@[a]).0@ != (#[trigger] r@[b]).0@,
    {
        let c = collection.to_owned();
        let mut out: Vec<(String, String)> = Vec::new();
        let mut i: usize = 0;
        while i < self.documents.len()
            invariant
                i <= self.documents@.len(),
                c@ == collection@,
                pair_views(out@) == collection_entries(self.documents@.take(i as int), c@),
            decreases self.documents@.len() - i,
        {
            proof {
                assert(self.documents@.take(i as int + 1).drop_last() =~= self.documents@.take(
                    i as int,
                ));
            }
            let d = &self.documents[i];
            if d.collection == c {
                out.push((d.key.clone(), d.body.clone()));
                proof {
                    assert(pair_views(out@) =~= collection_entries(
                        self.documents@.take(i as int + 1),
                        c@,
                    ));
                }
            } else {
                proof {
                    assert(pair_views(out@) =~= collection_entries(
                        self.documents@.take(i as int + 1),
                        c@,
                    ));
                }
            }
            i += 1;
        }
        proof {
            assert(self.documents@.take(i as int) =~= self.documents@);
            lemma_collection_entries(self.documents@, c@);
            assert forall|a: int, b: int| 0 <= a < b < out@.len() implies (#[trigger] out@[a]).0@ != (
            #[trigger] out@[b]).0@ by {
                assert(pair_views(out@)[a] == (out@[a].0@, out@[a].1@));
                assert(pair_views(out@)[b] == (out@[b].0@, out@[b].1@));
            }
        }
        out
    }

    /// The index of document `(c, k)`, if stored.
    fn find_document(&self, c: &String, k: &String) -> (r: Option<usize>)
        ensures
            match r {
                Some(i) => i < self.documents@.len() && doc_key(self.documents@[i as int]) == (c@, k@),
                None => forall|i: int|
                    0 <= i < self.documents@.len() ==> doc_key(#[trigger] self.documents@[i]) != (
                    c@,
                    k@,
                ),
            },
    {
        let mut i: usize = 0;
        while i < self.documents.len()
            invariant
                i <= self.documents@.len(),
                forall|j: int|
                    0 <= j < i ==> doc_key(#[trigger] self.documents@[j]) != (c@, k@),
            decreases self.documents@.len() - i,
        {
            if self.documents[i].collection == *c && self.documents[i].key == *k {
                return Some(i);
            }
            i += 1;
        }
        None
    }
}

/// A batch appended to stream `(ty, id)` extends that stream's selection by
/// its positions, and leaves every other stream's selection unchanged.
proof fn lemma_append_selection(
    log: Seq<StoredEvent>,
    new_log: Seq<StoredEvent>,
    ty: Seq<char>,
    id: Seq<char>,
    n: nat,
    ty2: Seq<char>,
    id2: Seq<char>,
)
    requires
        new_log.len() == log.len() + n,
        new_log.take(log.len() as int) == log,
        forall|k: int| 0 <= k < n ==> in_stream(#[trigger] new_log[log.len() + k], ty, id),
    ensures
        stream_indices(new_log, ty, id) == stream_indices(log, ty, id) + index_range(
            log.len() as int,
            n,
        ),
        (ty2, id2) != (ty, id) ==> stream_indices(new_log, ty2, id2) == stream_indices(log, ty2, id2),
    decreases n,
{
    if n == 0 {
        assert(new_log =~= log);
        assert(stream_indices(log, ty, id) + index_range(log.len() as int, 0) =~= stream_indices(
            log,
            ty,
            id,
        ));
    } else {
        let prev = new_log.drop_last();
        assert(prev.take(log.len() as int) =~= log);
        assert forall|k: int| 0 <= k < n - 1 implies in_stream(#[trigger] prev[log.len() + k], ty, id) by {
            assert(prev[log.len() + k] == new_log[log.len() + k]);
        }
        lemma_append_selection(log, prev, ty, id, (n - 1) as nat, ty2, id2);
        assert(in_stream(new_log[log.len() + (n - 1)], ty, id));
        assert(new_log.last() == new_log[log.len() + (n - 1)]);
        assert(index_range(log.len() as int, n) =~= index_range(log.len() as int, (n - 1) as nat).push(
            new_log.len() - 1,
        ));
    }
}

/// Appending to a stream makes it read back as its old events followed by
/// the appended ones, and every other stream reads back unchanged.
pub proof fn law_append_extends_only_its_stream(
    before: MemoryStore,
    after: MemoryStore,
    ty: Seq<char>,
    id: Seq<char>,
    n: nat,
)
    requires
        after.events().len() == before.events().len() + n,
        after.events().take(before.events().len() as int) == before.events(),
        forall|i: int|
            before.events().len() <= i < after.events().len() ==> in_stream(
                #[trigger] after.events()[i],
                ty,
                id,
            ),
    ensures
        stream_indices(after.events(), ty, id) == stream_indices(before.events(), ty, id)
            + index_range(before.events().len() as int, n),
        forall|ty2: Seq<char>, id2: Seq<char>|
            (ty2, id2) != (ty, id) ==> #[trigger] stream_indices(after.events(), ty2, id2)
                == stream_indices(before.events(), ty2, id2),
{
    assert forall|k: int| 0 <= k < n implies in_stream(
        #[trigger] after.events()[before.events().len() + k],
        ty,
        id,
    ) by {
        let i = before.events().len() + k;
        assert(in_stream(after.events()[i], ty, id));
    }
    lemma_append_selection(before.events(), after.events(), ty, id, n, ty, id);
    assert forall|ty2: Seq<char>, id2: Seq<char>|
        (ty2, id2) != (ty, id) implies #[trigger] stream_indices(after.events(), ty2, id2)
            == stream_indices(before.events(), ty2, id2) by {
        lemma_append_selection(before.events(), after.events(), ty, id, n, ty2, id2);
    }
}

/// Loading a stream from a version skips exactly the stream's first events
/// up to that version: it is the stream loaded in full, minus that prefix.
pub proof fn law_load_from_skips_prefix(store: MemoryStore, ty: Seq<char>, id: Seq<char>, after: nat)
    requires
        store.wf(),
    ensures
        tail_indices(store.events(), ty, id, after) == stream_indices(store.events(), ty, id).skip(
            if after <= stream_version(store.events(), ty, id) {
                after as int
            } else {
                stream_version(store.events(), ty, id) as int
            },
        ),
{
    lemma_tail_is_suffix(store.events(), ty, id, after);
}

/// Within every stream of a consistent store, the events loaded are
/// numbered 1, 2, 3, ... and their global positions strictly increase.
pub proof fn law_stream_order(store: MemoryStore, ty: Seq<char>, id: Seq<char>)
    requires
        store.wf(),
    ensures
        forall|k: int|
            0 <= k < stream_indices(store.events(), ty, id).len() ==> store.events()[
                #[trigger] stream_indices(store.events(), ty, id)[k]].version == k + 1,
        forall|k: int, l: int|
            0 <= k < l < stream_indices(store.events(), ty, id).len() ==> #[trigger] stream_indices(
                store.events(),
                ty,
                id,
            )[k] < #[trigger] stream_indices(store.events(), ty, id)[l],
{
    lemma_stream_versions(store.events(), ty, id);
    lemma_select_bounds(store.events(), stream_filter(ty, id));
}

/// Global positions strictly increase across every append: the events an
/// append hands back come after every event already in the log (whose
/// positions are 1 to its length), in the order they were given.
pub proof fn law_global_position_increases(
    log: Seq<StoredEvent>,
    new_log: Seq<StoredEvent>,
    written: Seq<Recorded<String>>,
    n: nat,
)
    requires
        records_of(written, new_log, index_range(log.len() as int, n)),
    ensures
        forall|k: int| 0 <= k < written.len() ==> (#[trigger] written[k]).global_position > log.len(),
        forall|k: int, l: int|
            0 <= k < l < written.len() ==> (#[trigger] written[k]).global_position < (
            #[trigger] written[l]).global_position,
{
    assert forall|k: int| 0 <= k < written.len() implies (#[trigger] written[k]).global_position
        == log.len() + k + 1 by {
        assert(recorded_as(written[k], new_log, index_range(log.len() as int, n)[k]));
    }
}

/// A document reads back as last saved, and saving one leaves every other
/// document as it was; a deleted document reads back as absent, and
/// deleting one leaves every other document as it was. `saved` and
/// `deleted` are `before` after a `save` and after a `delete` of `key`.
pub proof fn law_documents_read_back(
    before: MemoryStore,
    saved: MemoryStore,
    deleted: MemoryStore,
    key: (Seq<char>, Seq<char>),
    other: (Seq<char>, Seq<char>),
    body: Seq<char>,
)
    requires
        saved.documents() == before.documents().insert(key, body),
        deleted.documents() == before.documents().remove(key),
        other != key,
    ensures
        saved.documents().contains_key(key),
        saved.documents()[key] == body,
        saved.documents().contains_key(other) == before.documents().contains_key(other),
        before.documents().contains_key(other) ==> saved.documents()[other]
            == before.documents()[other],
        !deleted.documents().contains_key(key),
        deleted.documents().contains_key(other) == before.documents().contains_key(other),
        before.documents().contains_key(other) ==> deleted.documents()[other]
            == before.documents()[other],
{
}

} // verus!
