//! Events as they live in the store, the metadata carried beside them, and
//! the optimistic-concurrency expectation used when appending.

use std::collections::BTreeMap;

use vstd::prelude::*;

use crate::ids::{AggregateType, EventId, Revision, StreamId};
use crate::text::{concat, decimal, decimal_string};

verus! {

/// A domain event payload, usually an `enum` where each variant is a single
/// thing that happened, with a stable string name for every variant.
///
/// An implementation proved with Verus defines the `spec_*` functions and
/// meets the contracts of the methods below. The `spec_*` functions carry
/// placeholder bodies only so that an implementation written in plain Rust
/// compiles without them; such an implementation is outside verification,
/// and what is proved of code that calls it does not hold of it.
pub trait DomainEvent: Sized {
    /// The stable name of `self`.
    open spec fn spec_event_type(&self) -> Seq<char> {
        arbitrary()
    }

    /// Every name this event type can produce.
    open spec fn spec_event_types() -> Seq<Seq<char>> {
        arbitrary()
    }

    /// The stable name of this event value (e.g. `"counter.Incremented"`).
    fn event_type(&self) -> (name: &'static str)
        ensures
            name@ == self.spec_event_type(),
            Self::spec_event_types().contains(name@),
    ;

    /// Every event name this type can ever produce.
    fn event_types() -> (names: &'static [&'static str])
        ensures
            names@.map_values(|s: &str| s@) == Self::spec_event_types(),
    ;
}

/// Free-form, string-keyed metadata carried alongside an event (correlation
/// id, causation id, actor, ...).
pub type Metadata = BTreeMap<String, String>;

/// An event as it lives in the store: the payload plus the bookkeeping the
/// store assigned to it.
#[derive(Debug, Clone, PartialEq, Eq)]
pub struct Recorded<E> {
    /// Unique id of this event.
    pub id: String,
    /// The aggregate type that owns the stream, e.g. `"counter"`.
    pub aggregate_type: String,
    /// The stream / aggregate instance id.
    pub stream_id: String,
    /// 1-based position of this event within its stream.
    pub version: u64,
    /// Position of this event across all streams. Drives projections.
    pub global_position: u64,
    /// The stable event name.
    pub event_type: String,
    /// The payload.
    pub payload: E,
    /// Milliseconds since the Unix epoch when the event was recorded.
    pub recorded_at: i64,
    /// Caller-supplied metadata.
    pub metadata: Metadata,
}

impl<E> Recorded<E> {
    /// Everything but the payload is equal in `self` and `other`.
    pub open spec fn same_bookkeeping<T>(self, other: Recorded<T>) -> bool {
        &&& self.id == other.id
        &&& self.aggregate_type == other.aggregate_type
        &&& self.stream_id == other.stream_id
        &&& self.version == other.version
        &&& self.global_position == other.global_position
        &&& self.event_type == other.event_type
        &&& self.recorded_at == other.recorded_at
        &&& self.metadata == other.metadata
    }

    /// This event's unique id as a typed [`EventId`].
    pub fn event_id(&self) -> (r: EventId)
        ensures
            r@ == self.id@,
    {
        EventId::new(self.id.clone())
    }

    /// The owning aggregate type as a typed [`AggregateType`].
    pub fn aggregate(&self) -> (r: AggregateType)
        ensures
            r@ == self.aggregate_type@,
    {
        AggregateType::new(self.aggregate_type.clone())
    }

    /// The owning stream as a typed [`StreamId`].
    pub fn stream(&self) -> (r: StreamId)
        ensures
            r@ == self.stream_id@,
    {
        StreamId::new(self.stream_id.as_str())
    }

    /// This event's per-stream position as a typed [`Revision`].
    pub fn revision(&self) -> (r: Revision)
        ensures
            r@ == self.version,
    {
        Revision::new(self.version)
    }

    /// This event's global log position as a typed [`Revision`].
    pub fn position(&self) -> (r: Revision)
        ensures
            r@ == self.global_position,
    {
        Revision::new(self.global_position)
    }

    /// Map the payload while preserving all bookkeeping.
    pub fn map_payload<T, F: FnOnce(E) -> T>(self, f: F) -> (r: Recorded<T>)
        requires
            f.requires((self.payload,)),
        ensures
            self.same_bookkeeping(r),
            f.ensures((self.payload,), r.payload),
    {
        Recorded {
            id: self.id,
            aggregate_type: self.aggregate_type,
            stream_id: self.stream_id,
            version: self.version,
            global_position: self.global_position,
            event_type: self.event_type,
            payload: f(self.payload),
            recorded_at: self.recorded_at,
            metadata: self.metadata,
        }
    }
}

/// Optimistic-concurrency expectation when appending to a stream.
#[derive(Debug, Clone, Copy, PartialEq, Eq, Structural)]
pub enum ExpectedRevision {
    /// Append regardless of the current stream version.
    Any,
    /// The stream must not exist yet (current version is 0).
    NoStream,
    /// The stream's current version must be exactly this value.
    Exact(u64),
}

impl ExpectedRevision {
    /// Whether a stream whose current version is `actual` meets this
    /// expectation.
    pub open spec fn admits(self, actual: nat) -> bool {
        match self {
            ExpectedRevision::Any => true,
            ExpectedRevision::NoStream => actual == 0,
            ExpectedRevision::Exact(v) => actual == v,
        }
    }

    /// The human-readable description of this expectation used in conflict
    /// reports.
    pub open spec fn description(self) -> Seq<char> {
        match self {
            ExpectedRevision::Any => "any"@,
            ExpectedRevision::NoStream => "no stream"@,
            ExpectedRevision::Exact(v) => "version "@ + decimal(v as nat),
        }
    }

    /// The expectation that lets a writer append right after a stream whose
    /// last version is `version` (0 for a stream that does not exist).
    pub open spec fn after_version(version: nat) -> ExpectedRevision {
        if version == 0 {
            ExpectedRevision::NoStream
        } else {
            ExpectedRevision::Exact(version as u64)
        }
    }

    /// Validate `actual` (the stream's current version) against this
    /// expectation, returning the conflict description if it fails.
    pub fn check(self, actual: u64) -> (r: Result<(), (String, u64)>)
        ensures
            r is Ok <==> self.admits(actual as nat),
            r matches Err((d, a)) ==> d@ == self.description() && a == actual,
    {
        let ok = match self {
            ExpectedRevision::Any => true,
            ExpectedRevision::NoStream => actual == 0,
            ExpectedRevision::Exact(v) => actual == v,
        };
        if ok {
            Ok(())
        } else {
            Err((self.describe(), actual))
        }
    }

    /// Describe this expectation.
    pub fn describe(self) -> (s: String)
        ensures
            s@ == self.description(),
    {
        match self {
            ExpectedRevision::Any => "any".to_owned(),
            ExpectedRevision::NoStream => "no stream".to_owned(),
            ExpectedRevision::Exact(v) => {
                let digits = decimal_string(v);
                concat("version ", digits.as_str())
            },
        }
    }
}

/// The expectation a load hands out is met by the stream it was loaded
/// from, and by no other version: if anyone appends in between, the next
/// append under it conflicts.
pub proof fn law_expectation_pins_the_version(loaded: nat, current: nat)
    requires
        loaded <= u64::MAX,
    ensures
        ExpectedRevision::after_version(loaded).admits(loaded),
        ExpectedRevision::after_version(loaded).admits(current) ==> current == loaded,
{
}

/// `Any` appends regardless of the stream's version: it admits every
/// current version, so checking it never reports a conflict. `NoStream`
/// admits only a stream that does not exist yet (version 0), and
/// `Exact(v)` only a stream at version `v`.
pub proof fn law_expectations_admit(actual: nat, v: u64)
    ensures
        ExpectedRevision::Any.admits(actual),
        ExpectedRevision::NoStream.admits(actual) <==> actual == 0,
        ExpectedRevision::Exact(v).admits(actual) <==> actual == v,
{
}

} // verus!
