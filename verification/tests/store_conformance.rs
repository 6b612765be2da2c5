//! The in-memory store held to the log's contract: contiguous versions, a
//! monotonic global position, optimistic-concurrency enforcement,
//! type-filtered global reads, document round-trips, projection replay and
//! catch-up, and service execution.

use streamlet::store::memory::PendingEvent;
use streamlet::store::rules::{feed_step, next_versions};
use streamlet::{
    Aggregate, Command, DomainEvent, ExpectedRevision, MemoryStore, Metadata, Projection,
    Recorded, Service, ServiceError, StoreError, View,
};

// --- events, encoded by hand as "<variant>:<n>" ---------------------------

#[derive(Debug, Clone, PartialEq)]
enum Ev {
    Added { n: i64 },
    Removed { n: i64 },
    Reset,
}

impl DomainEvent for Ev {
    fn event_type(&self) -> &'static str {
        match self {
            Ev::Added { .. } => "test.Added",
            Ev::Removed { .. } => "test.Removed",
            Ev::Reset => "test.Cleared",
        }
    }

    fn event_types() -> &'static [&'static str] {
        &["test.Added", "test.Removed", "test.Cleared"]
    }
}

fn encode(e: &Ev) -> Result<PendingEvent, StoreError> {
    let payload = match e {
        Ev::Added { n } => format!("added:{n}"),
        Ev::Removed { n } => format!("removed:{n}"),
        Ev::Reset => "reset".to_string(),
    };
    Ok(PendingEvent {
        event_type: e.event_type().to_string(),
        payload,
    })
}

fn decode_payload(s: &str) -> Result<Ev, StoreError> {
    if s == "reset" {
        return Ok(Ev::Reset);
    }
    let (tag, n) = s
        .split_once(':')
        .ok_or_else(|| StoreError::Serialization(format!("bad payload {s}")))?;
    let n: i64 = n
        .parse()
        .map_err(|_| StoreError::Serialization(format!("bad number in {s}")))?;
    match tag {
        "added" => Ok(Ev::Added { n }),
        "removed" => Ok(Ev::Removed { n }),
        _ => Err(StoreError::Serialization(format!("bad tag in {s}"))),
    }
}

fn decode(r: &Recorded<String>) -> Result<Recorded<Ev>, StoreError> {
    let payload = decode_payload(&r.payload)?;
    Ok(r.clone().map_payload(|_| payload))
}

fn pending(events: &[Ev]) -> Vec<PendingEvent> {
    events.iter().map(|e| encode(e).unwrap()).collect()
}

fn names<E: DomainEvent>() -> Vec<String> {
    E::event_types().iter().map(|s| s.to_string()).collect()
}

#[derive(Debug, Clone)]
enum OtherEv {
    Noise,
}

impl DomainEvent for OtherEv {
    fn event_type(&self) -> &'static str {
        "other.Noise"
    }

    fn event_types() -> &'static [&'static str] {
        &["other.Noise"]
    }
}

// --- an aggregate and a view ----------------------------------------------

enum Cmd {
    Add(i64),
    Remove(i64),
}

impl Command for Cmd {
    fn command_type(&self) -> &'static str {
        match self {
            Cmd::Add(_) => "test.Add",
            Cmd::Remove(_) => "test.Remove",
        }
    }

    fn command_types() -> &'static [&'static str] {
        &["test.Add", "test.Remove"]
    }
}

#[derive(Debug, Default)]
struct Acc {
    total: i64,
}

#[derive(Debug, PartialEq)]
struct WouldGoNegative {
    to: i64,
}

impl Aggregate for Acc {
    type Command = Cmd;
    type Event = Ev;
    type Rejection = WouldGoNegative;
    const TYPE: &'static str = "acc";

    fn initial() -> Self {
        Acc::default()
    }

    fn handle(&self, command: Cmd) -> Result<Vec<Ev>, WouldGoNegative> {
        match command {
            Cmd::Add(n) => Ok(vec![Ev::Added { n }]),
            Cmd::Remove(n) => {
                let to = self.total - n;
                if to < 0 {
                    Err(WouldGoNegative { to })
                } else {
                    Ok(vec![Ev::Removed { n }])
                }
            }
        }
    }

    fn apply(&mut self, event: &Ev) {
        match event {
            Ev::Added { n } => self.total += n,
            Ev::Removed { n } => self.total -= n,
            Ev::Reset => self.total = 0,
        }
    }
}

#[derive(Debug, Default)]
struct SumView {
    net: i64,
    events: u64,
}

impl View for SumView {
    type Event = Ev;
    const NAME: &'static str = "sum-view";

    fn initial() -> Self {
        SumView::default()
    }

    fn apply(&mut self, event: &Recorded<Ev>) {
        self.events += 1;
        match event.payload {
            Ev::Added { n } => self.net += n,
            Ev::Removed { n } => self.net -= n,
            Ev::Reset => self.net = 0,
        }
    }
}

fn append(
    store: &mut MemoryStore,
    ty: &str,
    id: &str,
    expected: ExpectedRevision,
    events: &[PendingEvent],
) -> Result<Vec<Recorded<String>>, StoreError> {
    store.append(ty, id, expected, events, &Metadata::new(), 1_700_000_000_000)
}

// --- the suites -------------------------------------------------------------

#[test]
fn memory_append_and_load() {
    let mut store = MemoryStore::new();
    let written = append(
        &mut store,
        "acc",
        "a1",
        ExpectedRevision::NoStream,
        &pending(&[Ev::Added { n: 2 }, Ev::Added { n: 3 }]),
    )
    .expect("append");

    assert_eq!(written.len(), 2);
    assert_eq!(written[0].version, 1);
    assert_eq!(written[1].version, 2);
    assert!(written[1].global_position > written[0].global_position);
    assert_eq!(written[0].event_type, "test.Added");
    assert!(!written[0].id.is_empty());
    assert_eq!(written[0].id.len(), 36);
    assert_ne!(written[0].id, written[1].id);
    assert_eq!(written[0].recorded_at, 1_700_000_000_000);

    let loaded = store.load("acc", "a1");
    assert_eq!(loaded.len(), 2);
    assert_eq!(decode(&loaded[0]).unwrap().payload, Ev::Added { n: 2 });
    assert_eq!(decode(&loaded[1]).unwrap().payload, Ev::Added { n: 3 });

    // A second append continues the version sequence.
    let more = append(
        &mut store,
        "acc",
        "a1",
        ExpectedRevision::Exact(2),
        &pending(&[Ev::Reset]),
    )
    .expect("second append");
    assert_eq!(more[0].version, 3);
    assert_eq!(more[0].event_type, "test.Cleared");

    // Empty append is a no-op.
    let none = append(&mut store, "acc", "a1", ExpectedRevision::Any, &[]).expect("empty append");
    assert!(none.is_empty());
    assert_eq!(store.len(), 3);

    // Unknown stream loads as empty.
    assert!(store.load("acc", "does-not-exist").is_empty());
}

#[test]
fn memory_concurrency() {
    let mut store = MemoryStore::new();
    append(
        &mut store,
        "acc",
        "c1",
        ExpectedRevision::NoStream,
        &pending(&[Ev::Added { n: 1 }]),
    )
    .expect("first");

    // NoStream on an existing stream must conflict.
    let err = append(
        &mut store,
        "acc",
        "c1",
        ExpectedRevision::NoStream,
        &pending(&[Ev::Added { n: 1 }]),
    )
    .unwrap_err();
    match err {
        StoreError::Conflict {
            stream_id,
            expected,
            actual,
        } => {
            assert_eq!(stream_id, "c1");
            assert_eq!(expected, "no stream");
            assert_eq!(actual, 1);
        }
        other => panic!("got {other:?}"),
    }

    // Exact mismatch must conflict.
    let err = append(
        &mut store,
        "acc",
        "c1",
        ExpectedRevision::Exact(99),
        &pending(&[Ev::Added { n: 1 }]),
    )
    .unwrap_err();
    assert!(
        matches!(&err, StoreError::Conflict { expected, actual: 1, .. } if expected == "version 99"),
        "got {err:?}"
    );

    // A conflict writes nothing.
    assert_eq!(store.len(), 1);

    // Any always succeeds.
    append(
        &mut store,
        "acc",
        "c1",
        ExpectedRevision::Any,
        &pending(&[Ev::Added { n: 1 }]),
    )
    .expect("any append");

    assert_eq!(store.load("acc", "c1").len(), 2);
}

#[test]
fn memory_read_all() {
    let mut store = MemoryStore::new();
    append(
        &mut store,
        "acc",
        "r1",
        ExpectedRevision::Any,
        &pending(&[Ev::Added { n: 1 }, Ev::Added { n: 2 }]),
    )
    .unwrap();
    // Interleave an event of a different type / aggregate.
    append(
        &mut store,
        "other",
        "x",
        ExpectedRevision::Any,
        &[PendingEvent {
            event_type: OtherEv::Noise.event_type().to_string(),
            payload: "noise".to_string(),
        }],
    )
    .unwrap();
    append(
        &mut store,
        "acc",
        "r2",
        ExpectedRevision::Any,
        &pending(&[Ev::Removed { n: 1 }]),
    )
    .unwrap();

    // Reading `Ev` names sees only test.* events, in global order.
    let all = store.read_all(0, 100, &names::<Ev>());
    assert_eq!(all.len(), 3);
    assert!(all
        .windows(2)
        .all(|w| w[0].global_position < w[1].global_position));
    assert!(all.iter().all(|e| e.event_type.starts_with("test.")));
    assert_eq!(
        all.iter().map(|e| e.global_position).collect::<Vec<_>>(),
        vec![1, 2, 4]
    );

    // `after` + `limit` paginate.
    let first = store.read_all(0, 2, &names::<Ev>());
    assert_eq!(first.len(), 2);
    let rest = store.read_all(first.last().unwrap().global_position, 100, &names::<Ev>());
    assert_eq!(rest.len(), 1);

    // The other type's reader sees only its own event.
    let other = store.read_all(0, 100, &names::<OtherEv>());
    assert_eq!(other.len(), 1);
    assert_eq!(other[0].global_position, 3);
}

#[test]
fn memory_read_all_limit_zero_still_yields_one() {
    let mut store = MemoryStore::new();
    append(
        &mut store,
        "acc",
        "z",
        ExpectedRevision::Any,
        &pending(&[Ev::Added { n: 1 }, Ev::Added { n: 2 }]),
    )
    .unwrap();
    assert_eq!(store.read_all(0, 0, &names::<Ev>()).len(), 1);
    assert!(store.read_all(2, 0, &names::<Ev>()).is_empty());
    assert!(store.read_all(0, 10, &[]).is_empty());
}

#[test]
fn memory_load_from_skips_the_prefix() {
    let mut store = MemoryStore::new();
    let events: Vec<Ev> = (0..10).map(|n| Ev::Added { n }).collect();
    append(
        &mut store,
        "acc",
        "s1",
        ExpectedRevision::NoStream,
        &pending(&events),
    )
    .unwrap();
    for cut in 0..12u64 {
        let tail = store.load_from("acc", "s1", cut);
        assert!(tail.iter().all(|r| r.version > cut));
        assert_eq!(tail.len() as u64, 10u64.saturating_sub(cut.min(10)));
    }
}

#[test]
fn memory_documents() {
    let mut store = MemoryStore::new();
    assert!(store.fetch("c", "k").is_none());

    store.save("c", "k", r#"{"name":"a","hits":1}"#.to_string());
    assert_eq!(store.fetch("c", "k").unwrap(), r#"{"name":"a","hits":1}"#);

    // Save replaces.
    store.save("c", "k", r#"{"name":"a","hits":2}"#.to_string());
    store.save("c", "k2", r#"{"name":"b","hits":9}"#.to_string());
    store.save("other", "k", "x".to_string());

    let mut listed = store.list("c");
    listed.sort_by(|a, b| a.0.cmp(&b.0));
    assert_eq!(listed.len(), 2);
    assert_eq!(listed[0].0, "k");
    assert_eq!(listed[0].1, r#"{"name":"a","hits":2}"#);

    store.delete("c", "k");
    assert!(store.fetch("c", "k").is_none());
    assert_eq!(store.fetch("other", "k").unwrap(), "x");
    // Deleting a missing key is fine.
    store.delete("c", "nope");
    assert_eq!(store.list("c").len(), 1);
}

#[test]
fn memory_projection() {
    let mut store = MemoryStore::new();
    append(
        &mut store,
        "acc",
        "p1",
        ExpectedRevision::Any,
        &pending(&[Ev::Added { n: 10 }, Ev::Removed { n: 4 }]),
    )
    .unwrap();

    let replayed = Projection::<SumView>::replay(&store, &names::<Ev>(), &decode).unwrap();
    assert_eq!(replayed.view.net, 6);
    assert_eq!(replayed.view.events, 2);
    assert_eq!(replayed.position, 2);

    // Catching up again finds nothing new.
    let mut p = Projection::<SumView>::new();
    assert!(p.catch_up(&store, &names::<Ev>(), &decode).unwrap());
    assert!(!p.catch_up(&store, &names::<Ev>(), &decode).unwrap());
    let p1 = p.position;

    append(
        &mut store,
        "acc",
        "p1",
        ExpectedRevision::Any,
        &pending(&[Ev::Added { n: 5 }]),
    )
    .unwrap();

    assert!(p.catch_up(&store, &names::<Ev>(), &decode).unwrap());
    assert_eq!(p.view.net, 11);
    assert_eq!(p.view.events, 3);
    assert!(p.position > p1);
}

#[test]
fn memory_projection_pages_through_long_logs() {
    let mut store = MemoryStore::new();
    let events: Vec<Ev> = (0..600).map(|_| Ev::Added { n: 1 }).collect();
    append(
        &mut store,
        "acc",
        "long",
        ExpectedRevision::NoStream,
        &pending(&events),
    )
    .unwrap();
    let replayed = Projection::<SumView>::replay(&store, &names::<Ev>(), &decode).unwrap();
    assert_eq!(replayed.view.net, 600);
    assert_eq!(replayed.view.events, 600);
    assert_eq!(replayed.position, 600);
}

#[test]
fn memory_service() {
    let mut service = Service::<Acc, _>::new(MemoryStore::new());

    assert_eq!(
        Service::<Acc, MemoryStore>::handled_commands(),
        &["test.Add", "test.Remove"]
    );

    service.execute("s1", Cmd::Add(10), 1, &decode, &encode).unwrap();
    service.execute("s1", Cmd::Remove(3), 2, &decode, &encode).unwrap();
    let (acc, rev) = service.load("s1", &decode).unwrap();
    assert_eq!(acc.total, 7);
    assert_eq!(rev, ExpectedRevision::Exact(2));

    // A business rejection is reported as Rejected, not Store.
    let err = service
        .execute("s1", Cmd::Remove(999), 3, &decode, &encode)
        .unwrap_err();
    assert!(err.is_rejection());
    assert!(!err.is_infrastructure());
    match err {
        ServiceError::Rejected(WouldGoNegative { to }) => assert_eq!(to, -992),
        other => panic!("expected rejection, got {other:?}"),
    }

    // The rejected command wrote nothing.
    assert_eq!(service.load("s1", &decode).unwrap().0.total, 7);
    assert_eq!(service.store().len(), 2);

    // A fresh instance loads as the initial state, expecting no stream.
    let (fresh, rev) = service.load("s2", &decode).unwrap();
    assert_eq!(fresh.total, 0);
    assert_eq!(rev, ExpectedRevision::NoStream);
}

#[test]
fn memory_service_metadata_and_stored_records() {
    let mut service = Service::<Acc, _>::new(MemoryStore::new());
    let mut md = Metadata::new();
    md.insert("actor".to_string(), "alice".to_string());
    let written = service
        .execute_with("m1", Cmd::Add(4), &md, 42, &decode, &encode)
        .unwrap();
    assert_eq!(written.len(), 1);
    assert_eq!(written[0].aggregate_type, "acc");
    assert_eq!(written[0].stream_id, "m1");
    assert_eq!(written[0].payload, "added:4");
    assert_eq!(written[0].metadata.get("actor").map(String::as_str), Some("alice"));
    assert_eq!(written[0].recorded_at, 42);
}

#[test]
fn memory_service_surfaces_decode_failures() {
    let mut service = Service::<Acc, _>::new(MemoryStore::new());
    service.execute("d1", Cmd::Add(1), 1, &decode, &encode).unwrap();
    let refuse = |_: &Recorded<String>| -> Result<Recorded<Ev>, StoreError> {
        Err(StoreError::Serialization("refused".to_string()))
    };
    let err = service
        .execute("d1", Cmd::Add(1), 2, &refuse, &encode)
        .unwrap_err();
    assert!(err.is_infrastructure());
    assert_eq!(service.store().len(), 1);
}

#[test]
fn service_store_holds_documents_too() {
    let mut service = Service::<Acc, _>::new(MemoryStore::new());
    service.execute("s1", Cmd::Add(2), 1, &decode, &encode).unwrap();
    service.store_mut().save("proj", "sum-view", "{\"net\":2}".to_string());
    assert_eq!(
        service.store().fetch("proj", "sum-view").as_deref(),
        Some("{\"net\":2}")
    );
    assert_eq!(service.store().len(), 1);
}

#[test]
fn next_versions_numbers_the_batch_after_the_current_version() {
    let versions = next_versions("c-1", ExpectedRevision::Exact(4), 4, 3).unwrap();
    assert_eq!(versions, vec![5, 6, 7]);
    let versions = next_versions("c-1", ExpectedRevision::NoStream, 0, 2).unwrap();
    assert_eq!(versions, vec![1, 2]);
    let versions = next_versions("c-1", ExpectedRevision::Any, 9, 1).unwrap();
    assert_eq!(versions, vec![10]);
}

#[test]
fn next_versions_reports_the_conflict() {
    match next_versions("c-1", ExpectedRevision::Exact(2), 3, 1) {
        Err(StoreError::Conflict { stream_id, expected, actual }) => {
            assert_eq!(stream_id, "c-1");
            assert_eq!(expected, "version 2");
            assert_eq!(actual, 3);
        }
        other => panic!("expected a conflict, got {other:?}"),
    }
    match next_versions("c-2", ExpectedRevision::NoStream, 1, 1) {
        Err(StoreError::Conflict { expected, actual, .. }) => {
            assert_eq!(expected, "no stream");
            assert_eq!(actual, 1);
        }
        other => panic!("expected a conflict, got {other:?}"),
    }
}

#[test]
fn feed_step_takes_listed_names_and_fills_the_page() {
    let names = vec!["test.Added".to_string(), "test.Removed".to_string()];
    assert_eq!(feed_step(0, 2, &names, &"test.Added".to_string()), (true, false));
    assert_eq!(feed_step(1, 2, &names, &"test.Removed".to_string()), (true, true));
    assert_eq!(feed_step(1, 2, &names, &"test.Cleared".to_string()), (false, false));
    assert_eq!(feed_step(0, 0, &names, &"test.Added".to_string()), (true, true));
}

#[test]
fn appended_ids_are_hyphenated_v7_uuids() {
    let mut store = MemoryStore::new();
    let written = append(
        &mut store,
        "acc",
        "a9",
        ExpectedRevision::Any,
        &pending(&[Ev::Added { n: 1 }, Ev::Reset]),
    )
    .expect("append");
    for event in &written {
        let chars: Vec<char> = event.id.chars().collect();
        assert_eq!(chars.len(), 36);
        for (i, c) in chars.iter().enumerate() {
            if i == 8 || i == 13 || i == 18 || i == 23 {
                assert_eq!(*c, '-');
            } else {
                assert!(c.is_ascii_digit() || ('a'..='f').contains(c));
            }
        }
        assert_eq!(chars[14], '7');
        assert!(matches!(chars[19], '8' | '9' | 'a' | 'b'));
    }
}

#[test]
fn appended_positions_follow_every_earlier_event() {
    let mut store = MemoryStore::new();
    append(&mut store, "acc", "p1", ExpectedRevision::Any, &pending(&[Ev::Added { n: 1 }]))
        .expect("first");
    append(&mut store, "acc", "p2", ExpectedRevision::Any, &pending(&[Ev::Added { n: 2 }]))
        .expect("second");
    let written = append(
        &mut store,
        "acc",
        "p1",
        ExpectedRevision::Exact(1),
        &pending(&[Ev::Removed { n: 1 }, Ev::Reset]),
    )
    .expect("third");
    assert_eq!(written[0].global_position, 3);
    assert_eq!(written[1].global_position, 4);
    assert_eq!(written[0].version, 2);
    assert_eq!(written[1].version, 3);
}

#[test]
fn executing_a_command_leaves_other_streams_alone() {
    let mut service = Service::<Acc, _>::new(MemoryStore::new());
    service.execute("x1", Cmd::Add(5), 1, &decode, &encode).unwrap();
    service.execute("x2", Cmd::Add(7), 2, &decode, &encode).unwrap();
    let before = service.store().load("acc", "x2");
    let written = service.execute("x1", Cmd::Add(1), 3, &decode, &encode).unwrap();
    let after = service.store().load("acc", "x2");
    assert_eq!(before.len(), after.len());
    for (b, a) in before.iter().zip(after.iter()) {
        assert_eq!(b.id, a.id);
        assert_eq!(b.global_position, a.global_position);
        assert_eq!(b.payload, a.payload);
    }
    let own = service.store().load("acc", "x1");
    assert_eq!(own.len(), 2);
    assert_eq!(own[1].id, written[0].id);
    assert_eq!(own[1].global_position, 3);
}

#[test]
fn failed_catch_up_keeps_the_pages_it_finished() {
    let mut store = MemoryStore::new();
    let events: Vec<Ev> = (0..300).map(|_| Ev::Added { n: 1 }).collect();
    append(
        &mut store,
        "acc",
        "broken",
        ExpectedRevision::NoStream,
        &pending(&events),
    )
    .unwrap();
    let refuse_late = |r: &Recorded<String>| -> Result<Recorded<Ev>, StoreError> {
        if r.global_position == 280 {
            Err(StoreError::Serialization("unreadable".to_string()))
        } else {
            decode(r)
        }
    };
    let mut p = Projection::<SumView>::new();
    let err = p.catch_up(&store, &names::<Ev>(), &refuse_late).unwrap_err();
    assert!(matches!(err, StoreError::Serialization(_)));
    assert_eq!(p.position, 256);
    assert_eq!(p.view.net, 256);
    assert_eq!(p.view.events, 256);
}

#[test]
fn replay_fails_only_on_an_event_it_cannot_decode() {
    let refuse = |_: &Recorded<String>| -> Result<Recorded<Ev>, StoreError> {
        Err(StoreError::Serialization("refused".to_string()))
    };
    let mut store = MemoryStore::new();
    let empty = Projection::<SumView>::replay(&store, &names::<Ev>(), &refuse).unwrap();
    assert_eq!(empty.position, 0);
    append(&mut store, "acc", "r1", ExpectedRevision::Any, &pending(&[Ev::Added { n: 1 }]))
        .unwrap();
    match Projection::<SumView>::replay(&store, &names::<Ev>(), &refuse) {
        Err(StoreError::Serialization(_)) => {}
        Err(other) => panic!("unexpected error {other:?}"),
        Ok(_) => panic!("replay should have failed"),
    }
}
