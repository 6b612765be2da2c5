//! A typed application service for one aggregate: load, render, decide,
//! append. The store round-trips happen outside; what is decided between them
//! is here.

use std::marker::PhantomData;

use vstd::prelude::*;

use crate::aggregate::{fold_events, payloads, render_from, Aggregate};
use crate::command::Command;
use crate::handler::{CommandKind, Handles};
use crate::error::{ServiceError, StoreError};
use crate::event::{ExpectedRevision, Metadata, Recorded};
use crate::store::memory::{
    appended_as, index_range, law_append_extends_only_its_stream, recorded_as, records_of,
    stream_indices, MemoryStore, PendingEvent, StoredEvent,
};
use crate::store::projection::{decode_batch, decoded_as, fails_on};

verus! {

/// The version of the last recorded event (0 when there is none).
pub open spec fn last_version<E>(events: Seq<Recorded<E>>) -> nat {
    if events.len() == 0 {
        0
    } else {
        events.last().version as nat
    }
}

/// `pending` is what `encode` may produce from `events`, element by element.
pub open spec fn encoded_as<E, C: Fn(&E) -> Result<PendingEvent, StoreError>>(
    encode: C,
    events: Seq<E>,
    pending: Seq<PendingEvent>,
) -> bool {
    &&& events.len() == pending.len()
    &&& forall|k: int|
        0 <= k < events.len() ==> encode.ensures(
            (&events[k],),
            Ok::<PendingEvent, StoreError>(#[trigger] pending[k]),
        )
}

/// Encode every event of a batch, stopping at the first failure.
pub fn encode_batch<E, C: Fn(&E) -> Result<PendingEvent, StoreError>>(
    events: &Vec<E>,
    encode: &C,
) -> (r: Result<Vec<PendingEvent>, StoreError>)
    requires
        forall|x: &E| encode.requires((x,)),
    ensures
        r matches Ok(pending) ==> encoded_as(*encode, events@, pending@),
        r matches Err(e) ==> exists|k: int|
            0 <= k < events@.len() && encode.ensures((&events@[k],), Err::<PendingEvent, StoreError>(e)),
{
    let mut pending: Vec<PendingEvent> = Vec::new();
    let mut i: usize = 0;
    while i < events.len()
        invariant
            i <= events@.len(),
            forall|x: &E| encode.requires((x,)),
            encoded_as(*encode, events@.take(i as int), pending@),
        decreases events@.len() - i,
    {
        match encode(&events[i]) {
            Ok(p) => {
                pending.push(p);
            },
            Err(e) => {
                return Err(e);
            },
        }
        proof {
            assert forall|k: int| 0 <= k < i + 1 implies encode.ensures(
                (&events@.take(i + 1)[k],),
                Ok::<PendingEvent, StoreError>(#[trigger] pending@[k]),
            ) by {
                assert(events@.take(i + 1)[k] == events@[k]);
                if k < i {
                    assert(events@.take(i as int)[k] == events@[k]);
                }
            }
        }
        i += 1;
    }
    proof {
        assert(events@.take(i as int) =~= events@);
    }
    Ok(pending)
}

/// `encode` may fail with `e` on one of `events`.
pub open spec fn encode_fails_on<E, C: Fn(&E) -> Result<PendingEvent, StoreError>>(
    encode: C,
    events: Seq<E>,
    e: StoreError,
) -> bool {
    exists|k: int|
        0 <= k < events.len() && encode.ensures(
            (&#[trigger] events[k],),
            Err::<PendingEvent, StoreError>(e),
        )
}

/// `e` is the error a service reports when the log cannot grow by a batch.
pub open spec fn log_full(e: StoreError) -> bool {
    e matches StoreError::Backend(m) && m@ == "event log is full"@
}

/// Decoding keeps versions, so a stream loaded as versions 1, 2, 3, ...
/// decodes to events whose last version is their number.
proof fn lemma_decoded_last_version<E, D: Fn(&Recorded<String>) -> Result<Recorded<E>, StoreError>>(
    decode: D,
    raw: Seq<Recorded<String>>,
    typed: Seq<Recorded<E>>,
)
    requires
        decoded_as(decode, raw, typed),
        forall|k: int| 0 <= k < raw.len() ==> (#[trigger] raw[k]).version == k + 1,
        forall|x: &Recorded<String>, y: Recorded<E>|
            decode.ensures((x,), Ok::<Recorded<E>, StoreError>(y)) ==> y.version == x.version,
    ensures
        last_version(typed) == typed.len(),
{
    if typed.len() > 0 {
        let last = typed.len() - 1;
        assert(typed.last() == typed[last]);
        assert(decode.ensures((&raw[last],), Ok::<Recorded<E>, StoreError>(typed[last])));
        assert(raw[last].version == last + 1);
    }
}

/// A decode failure on a loaded stream is a failure on one of its events.
proof fn lemma_decode_failure<E, D: Fn(&Recorded<String>) -> Result<Recorded<E>, StoreError>>(
    decode: D,
    raw: Seq<Recorded<String>>,
    log: Seq<StoredEvent>,
    stream: Seq<int>,
    e: StoreError,
)
    requires
        records_of(raw, log, stream),
        exists|k: int|
            0 <= k < raw.len() && decode.ensures((&raw[k],), Err::<Recorded<E>, StoreError>(e)),
    ensures
        fails_on(decode, log, stream, e),
{
    let k = choose|k: int|
        0 <= k < raw.len() && decode.ensures((&raw[k],), Err::<Recorded<E>, StoreError>(e));
    assert(recorded_as(raw[k], log, stream[k]));
}

/// `r` is the outcome of executing `command` against instance `id` of `A`
/// in store `before`, leaving store `after`: see [`Service::execute_with`].
pub open spec fn executed<
    A: Aggregate,
    D: Fn(&Recorded<String>) -> Result<Recorded<A::Event>, StoreError>,
    C: Fn(&A::Event) -> Result<PendingEvent, StoreError>,
>(
    before: MemoryStore,
    after: MemoryStore,
    id: Seq<char>,
    command: A::Command,
    metadata: Map<String, String>,
    recorded_at: i64,
    decode: D,
    encode: C,
    r: Result<Vec<Recorded<String>>, ServiceError<A::Rejection>>,
) -> bool {
    let log = before.events();
    let stream = stream_indices(before.events(), A::TYPE@, id);
    match r {
        Err(ServiceError::Rejected(rejection)) => {
            &&& after.events() == log
            &&& exists|raw: Seq<Recorded<String>>, typed: Seq<Recorded<A::Event>>|
                #![trigger decoded_as(decode, raw, typed)]
                records_of(raw, log, stream) && decoded_as(decode, raw, typed)
                    && fold_events(A::spec_initial(), payloads(typed)).spec_handle(
                    command,
                ) == Err::<Seq<A::Event>, A::Rejection>(rejection)
        },
        Err(ServiceError::Store(e)) => {
            &&& after.events() == log
            &&& {
                ||| fails_on(decode, log, stream, e)
                ||| exists|raw: Seq<Recorded<String>>, typed: Seq<Recorded<A::Event>>, events: Seq<A::Event>|
                    #![trigger decoded_as(decode, raw, typed), encode_fails_on(encode, events, e)]
                    {
                        &&& records_of(raw, log, stream)
                        &&& decoded_as(decode, raw, typed)
                        &&& fold_events(A::spec_initial(), payloads(typed)).spec_handle(command)
                            == Ok::<Seq<A::Event>, A::Rejection>(events)
                        &&& encode_fails_on(encode, events, e)
                    }
                ||| exists|
                    raw: Seq<Recorded<String>>,
                    typed: Seq<Recorded<A::Event>>,
                    events: Seq<A::Event>,
                    pending: Seq<PendingEvent>,
                |
                    #![trigger decoded_as(decode, raw, typed), encoded_as(encode, events, pending)]
                    {
                        &&& records_of(raw, log, stream)
                        &&& decoded_as(decode, raw, typed)
                        &&& fold_events(A::spec_initial(), payloads(typed)).spec_handle(command)
                            == Ok::<Seq<A::Event>, A::Rejection>(events)
                        &&& encoded_as(encode, events, pending)
                        &&& events.len() > 0
                        &&& log.len() + events.len() > usize::MAX
                        &&& log_full(e)
                    }
            }
        },
        Ok(written) => exists|
            raw: Seq<Recorded<String>>,
            typed: Seq<Recorded<A::Event>>,
            events: Seq<A::Event>,
            pending: Seq<PendingEvent>,
        |
            #![trigger decoded_as(decode, raw, typed), encoded_as(encode, events, pending)]
            {
                let new_log = after.events();
                &&& records_of(raw, log, stream)
                &&& decoded_as(decode, raw, typed)
                &&& fold_events(A::spec_initial(), payloads(typed)).spec_handle(command)
                    == Ok::<Seq<A::Event>, A::Rejection>(events)
                &&& encoded_as(encode, events, pending)
                &&& events.len() > 0 ==> log.len() + events.len() <= usize::MAX
                &&& new_log.len() == log.len() + events.len()
                &&& new_log.take(log.len() as int) == log
                &&& forall|i: int|
                    log.len() <= i < new_log.len() ==> appended_as(
                        #[trigger] new_log[i],
                        A::TYPE@,
                        id,
                        stream.len() + (i - log.len()) + 1,
                        pending[i - log.len()],
                        recorded_at,
                        metadata,
                    )
                &&& records_of(written@, new_log, index_range(log.len() as int, events.len()))
            },
    }
}

/// What a command decided to write: the events, and the expectation under
/// which they must be appended.
pub struct Decision<E> {
    /// The concurrency expectation for the append.
    pub expected: ExpectedRevision,
    /// The new events; empty when the aggregate chose to emit none.
    pub events: Vec<E>,
}

/// A typed application service for a single [`Aggregate`], over a store `S`.
pub struct Service<A, S> {
    store: S,
    aggregate: PhantomData<A>,
}

impl<A: Aggregate, S> Service<A, S> {
    /// The store this service writes to.
    pub closed spec fn spec_store(&self) -> S {
        self.store
    }

    /// Build a service over the given event store.
    pub fn new(store: S) -> (s: Self)
        ensures
            s.spec_store() == store,
    {
        Service { store, aggregate: PhantomData }
    }

    /// Borrow the underlying store.
    pub fn store(&self) -> (s: &S)
        ensures
            *s == self.spec_store(),
    {
        &self.store
    }

    /// Borrow the underlying store mutably (e.g. to save documents beside
    /// the log).
    pub fn store_mut(&mut self) -> (s: &mut S)
        ensures
            *s == old(self).spec_store(),
            final(self).spec_store() == *final(s),
    {
        &mut self.store
    }

    /// The exact set of command names this service handles: precisely the
    /// commands the aggregate's command type declares.
    pub fn handled_commands() -> (names: &'static [&'static str])
        ensures
            names@.map_values(|s: &str| s@) == <A::Command as Command>::spec_command_types(),
    {
        <A::Command as Command>::command_types()
    }

    /// The current state of an aggregate instance rendered from its loaded
    /// stream, alongside the expectation needed to safely append to it next.
    pub fn rehydrate(events: &[Recorded<A::Event>]) -> (r: (A, ExpectedRevision))
        ensures
            r.0 == fold_events(A::spec_initial(), payloads(events@)),
            r.1 == ExpectedRevision::after_version(last_version(events@)),
    {
        let version = if events.len() == 0 {
            0
        } else {
            events[events.len() - 1].version
        };
        let state = render_from::<A>(events);
        let expected = if version == 0 {
            ExpectedRevision::NoStream
        } else {
            ExpectedRevision::Exact(version)
        };
        (state, expected)
    }

    /// Execute `command` against the stream `events`: render, then decide. A
    /// rejection is a domain outcome and comes back as `Err`; otherwise the
    /// decision names the events to append and the expectation to append
    /// them under (nothing is to be written when the events are empty).
    pub fn decide(events: &[Recorded<A::Event>], command: A::Command) -> (r: Result<
        Decision<A::Event>,
        A::Rejection,
    >)
        ensures
            ({
                let state = fold_events(A::spec_initial(), payloads(events@));
                match r {
                    Ok(d) => state.spec_handle(command) == Ok::<Seq<A::Event>, A::Rejection>(
                        d.events@,
                    ) && d.expected == ExpectedRevision::after_version(last_version(events@)),
                    Err(rejection) => state.spec_handle(command) == Err::<
                        Seq<A::Event>,
                        A::Rejection,
                    >(rejection),
                }
            }),
    {
        let (state, expected) = Self::rehydrate(events);
        match state.handle(command) {
            Ok(new_events) => Ok(Decision { expected, events: new_events }),
            Err(rejection) => Err(rejection),
        }
    }

    /// Execute the strongly-typed `command` against the stream `events`:
    /// render, then decide through [`Handles::decide`]. As for
    /// [`Service::decide`], a rejection comes back as `Err`, and otherwise
    /// the decision names the events to append and the expectation to append
    /// them under.
    pub fn decide_typed<C: CommandKind>(events: &[Recorded<A::Event>], command: C) -> (r: Result<
        Decision<A::Event>,
        A::Rejection,
    >) where A: Handles<C>
        ensures
            ({
                let state = fold_events(A::spec_initial(), payloads(events@));
                match r {
                    Ok(d) => <A as Handles<C>>::spec_decide(state, command) == Ok::<
                        Seq<A::Event>,
                        A::Rejection,
                    >(d.events@) && d.expected == ExpectedRevision::after_version(
                        last_version(events@),
                    ),
                    Err(rejection) => <A as Handles<C>>::spec_decide(state, command) == Err::<
                        Seq<A::Event>,
                        A::Rejection,
                    >(rejection),
                }
            }),
    {
        let (state, expected) = Self::rehydrate(events);
        match <A as Handles<C>>::decide(&state, command) {
            Ok(new_events) => Ok(Decision { expected, events: new_events }),
            Err(rejection) => Err(rejection),
        }
    }
}

impl<A: Aggregate> Service<A, MemoryStore> {
    /// The stream of instance `id` of this aggregate, as log indices.
    pub open spec fn stream_of(&self, id: Seq<char>) -> Seq<int> {
        stream_indices(self.spec_store().events(), A::TYPE@, id)
    }

    /// Load and render the current state of one aggregate instance, alongside
    /// the expectation needed to safely append to it next. Events are decoded
    /// with `decode`; the load fails only with an error `decode` gave for one
    /// of the stream's events.
    pub fn load<D: Fn(&Recorded<String>) -> Result<Recorded<A::Event>, StoreError>>(
        &self,
        id: &str,
        decode: &D,
    ) -> (r: Result<(A, ExpectedRevision), ServiceError<A::Rejection>>)
        requires
            self.spec_store().wf(),
            forall|x: &Recorded<String>| decode.requires((x,)),
            forall|x: &Recorded<String>, y: Recorded<A::Event>|
                decode.ensures((x,), Ok::<Recorded<A::Event>, StoreError>(y)) ==> y.version
                    == x.version,
        ensures
            r matches Err(e) ==> e is Store,
            r matches Err(ServiceError::Store(e)) ==> fails_on(
                *decode,
                self.spec_store().events(),
                self.stream_of(id@),
                e,
            ),
            r matches Ok((state, expected)) ==> {
                &&& expected == ExpectedRevision::after_version(self.stream_of(id@).len())
                &&& exists|raw: Seq<Recorded<String>>, typed: Seq<Recorded<A::Event>>|
                    #![trigger decoded_as(*decode, raw, typed)]
                    records_of(raw, self.spec_store().events(), self.stream_of(id@)) && decoded_as(
                        *decode,
                        raw,
                        typed,
                    ) && state == fold_events(A::spec_initial(), payloads(typed))
            },
    {
        let raw = self.store.load(A::TYPE, id);
        let typed = match decode_batch(&raw, decode) {
            Ok(t) => t,
            Err(e) => {
                proof {
                    lemma_decode_failure(*decode, raw@, self.spec_store().events(), self.stream_of(id@), e);
                }
                return Err(ServiceError::Store(e));
            },
        };
        proof {
            lemma_decoded_last_version(*decode, raw@, typed@);
        }
        Ok(Self::rehydrate(typed.as_slice()))
    }

    /// [`Service::execute_with`] with empty metadata.
    pub fn execute<
        D: Fn(&Recorded<String>) -> Result<Recorded<A::Event>, StoreError>,
        C: Fn(&A::Event) -> Result<PendingEvent, StoreError>,
    >(
        &mut self,
        id: &str,
        command: A::Command,
        recorded_at: i64,
        decode: &D,
        encode: &C,
    ) -> (r: Result<Vec<Recorded<String>>, ServiceError<A::Rejection>>)
        requires
            old(self).spec_store().wf(),
            forall|x: &Recorded<String>| decode.requires((x,)),
            forall|x: &Recorded<String>, y: Recorded<A::Event>|
                decode.ensures((x,), Ok::<Recorded<A::Event>, StoreError>(y)) ==> y.version
                    == x.version,
            forall|x: &A::Event| encode.requires((x,)),
        ensures
            final(self).spec_store().wf(),
            final(self).spec_store().documents() == old(self).spec_store().documents(),
            executed::<A, D, C>(
                old(self).spec_store(),
                final(self).spec_store(),
                id@,
                command,
                Map::<String, String>::empty(),
                recorded_at,
                *decode,
                *encode,
                r,
            ),
    {
        let metadata: Metadata = Metadata::new();
        self.execute_with(id, command, &metadata, recorded_at, decode, encode)
    }

    /// Execute a command against an aggregate instance: load its stream,
    /// render it, decide, and append the decided events under the
    /// expectation the load produced. Events are decoded with `decode` and
    /// the new ones encoded with `encode`; every new event carries
    /// `metadata` and `recorded_at`.
    ///
    /// A business rejection comes back as [`ServiceError::Rejected`] and
    /// writes nothing; so does a decision to emit no events, which returns
    /// an empty vector. Otherwise the decided events are appended, as the
    /// next versions of the stream, and returned as stored. A decode or
    /// encode failure comes back as [`ServiceError::Store`] and writes
    /// nothing; so does a log that could not grow by the batch ("event log
    /// is full"). No other store error can come back: the append runs under
    /// the expectation the load just produced.
    pub fn execute_with<
        D: Fn(&Recorded<String>) -> Result<Recorded<A::Event>, StoreError>,
        C: Fn(&A::Event) -> Result<PendingEvent, StoreError>,
    >(
        &mut self,
        id: &str,
        command: A::Command,
        metadata: &Metadata,
        recorded_at: i64,
        decode: &D,
        encode: &C,
    ) -> (r: Result<Vec<Recorded<String>>, ServiceError<A::Rejection>>)
        requires
            old(self).spec_store().wf(),
            forall|x: &Recorded<String>| decode.requires((x,)),
            forall|x: &Recorded<String>, y: Recorded<A::Event>|
                decode.ensures((x,), Ok::<Recorded<A::Event>, StoreError>(y)) ==> y.version
                    == x.version,
            forall|x: &A::Event| encode.requires((x,)),
        ensures
            final(self).spec_store().wf(),
            final(self).spec_store().documents() == old(self).spec_store().documents(),
            executed::<A, D, C>(
                old(self).spec_store(),
                final(self).spec_store(),
                id@,
                command,
                metadata@,
                recorded_at,
                *decode,
                *encode,
                r,
            ),
    {
        let ghost log = self.store.events();
        let ghost stream = stream_indices(log, A::TYPE@, id@);
        let raw = self.store.load(A::TYPE, id);
        let typed = match decode_batch(&raw, decode) {
            Ok(t) => t,
            Err(e) => {
                proof {
                    lemma_decode_failure(*decode, raw@, log, stream, e);
                }
                return Err(ServiceError::Store(e));
            },
        };
        proof {
            lemma_decoded_last_version(*decode, raw@, typed@);
        }
        let decision = match Self::decide(typed.as_slice(), command) {
            Ok(d) => d,
            Err(rejection) => {
                return Err(ServiceError::Rejected(rejection));
            },
        };
        if decision.events.len() == 0 {
            let written: Vec<Recorded<String>> = Vec::new();
            proof {
                assert(index_range(self.store.events().len() as int, 0) =~= Seq::<int>::empty());
                assert(self.store.events().take(self.store.events().len() as int) =~= self.store.events());
                assert(decision.events@ =~= Seq::<A::Event>::empty());
                assert(encoded_as(*encode, Seq::<A::Event>::empty(), Seq::<PendingEvent>::empty()));
                assert(decoded_as(*decode, raw@, typed@));
            }
            return Ok(written);
        }
        let pending = match encode_batch(&decision.events, encode) {
            Ok(p) => p,
            Err(e) => {
                proof {
                    assert(decoded_as(*decode, raw@, typed@));
                    assert(encode_fails_on(*encode, decision.events@, e));
                }
                return Err(ServiceError::Store(e));
            },
        };
        if self.store.len() > usize::MAX - pending.len() {
            let e = StoreError::Backend("event log is full".to_owned());
            proof {
                assert(decoded_as(*decode, raw@, typed@));
                assert(encoded_as(*encode, decision.events@, pending@));
                assert(log_full(e));
            }
            return Err(ServiceError::Store(e));
        }
        proof {
            assert(decision.expected.admits(stream.len()));
        }
        match self.store.append(A::TYPE, id, decision.expected, pending.as_slice(), metadata, recorded_at) {
            Ok(written) => Ok(written),
            Err(e) => Err(ServiceError::Store(e)),
        }
    }
}

/// Executing a command writes only to the aggregate instance's own stream:
/// afterwards that stream reads back as its old events followed by exactly
/// the events written, and every other stream reads back unchanged. A
/// rejected command leaves the log as it was.
pub proof fn law_execute_writes_only_its_stream<
    A: Aggregate,
    D: Fn(&Recorded<String>) -> Result<Recorded<A::Event>, StoreError>,
    C: Fn(&A::Event) -> Result<PendingEvent, StoreError>,
>(
    before: MemoryStore,
    after: MemoryStore,
    id: Seq<char>,
    command: A::Command,
    metadata: Map<String, String>,
    recorded_at: i64,
    decode: D,
    encode: C,
    r: Result<Vec<Recorded<String>>, ServiceError<A::Rejection>>,
)
    requires
        executed::<A, D, C>(before, after, id, command, metadata, recorded_at, decode, encode, r),
    ensures
        r is Err ==> after.events() == before.events(),
        r matches Ok(written) ==> stream_indices(after.events(), A::TYPE@, id) == stream_indices(
            before.events(),
            A::TYPE@,
            id,
        ) + index_range(before.events().len() as int, written@.len()),
        r is Ok ==> forall|ty2: Seq<char>, id2: Seq<char>|
            (ty2, id2) != (A::TYPE@, id) ==> #[trigger] stream_indices(after.events(), ty2, id2)
                == stream_indices(before.events(), ty2, id2),
{
    if let Ok(written) = r {
        let (raw, typed, events, pending) = choose|
            raw: Seq<Recorded<String>>,
            typed: Seq<Recorded<A::Event>>,
            events: Seq<A::Event>,
            pending: Seq<PendingEvent>,
        |
            #![trigger decoded_as(decode, raw, typed), encoded_as(encode, events, pending)]
            {
                let log = before.events();
                let new_log = after.events();
                let stream = stream_indices(before.events(), A::TYPE@, id);
                &&& records_of(raw, log, stream)
                &&& decoded_as(decode, raw, typed)
                &&& fold_events(A::spec_initial(), payloads(typed)).spec_handle(command)
                    == Ok::<Seq<A::Event>, A::Rejection>(events)
                &&& encoded_as(encode, events, pending)
                &&& events.len() > 0 ==> log.len() + events.len() <= usize::MAX
                &&& new_log.len() == log.len() + events.len()
                &&& new_log.take(log.len() as int) == log
                &&& forall|i: int|
                    log.len() <= i < new_log.len() ==> appended_as(
                        #[trigger] new_log[i],
                        A::TYPE@,
                        id,
                        stream.len() + (i - log.len()) + 1,
                        pending[i - log.len()],
                        recorded_at,
                        metadata,
                    )
                &&& records_of(written@, new_log, index_range(log.len() as int, events.len()))
            };
        law_append_extends_only_its_stream(before, after, A::TYPE@, id, events.len());
    }
}

} // verus!
