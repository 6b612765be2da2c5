//! Small typed identifiers: thin newtypes that make signatures
//! self-documenting.

use vstd::prelude::*;

verus! {

/// The identifier of a single aggregate instance / event stream.
#[derive(Debug, Clone, PartialEq, Eq, Hash, PartialOrd, Ord)]
pub struct StreamId(String);

impl View for StreamId {
    type V = Seq<char>;

    closed spec fn view(&self) -> Seq<char> {
        self.0@
    }
}

impl StreamId {
    /// Wrap a string as a [`StreamId`].
    pub fn new(id: &str) -> (s: Self)
        ensures
            s@ == id@,
    {
        StreamId(id.to_owned())
    }

    /// Borrow the underlying string slice.
    pub fn as_str(&self) -> (s: &str)
        ensures
            s@ == self@,
    {
        self.0.as_str()
    }

    /// Consume the id, returning the owned `String`.
    pub fn into_inner(self) -> (s: String)
        ensures
            s@ == self@,
    {
        self.0
    }
}

impl From<String> for StreamId {
    fn from(value: String) -> (id: Self) {
        StreamId(value)
    }
}

impl vstd::std_specs::convert::FromSpecImpl<String> for StreamId {
    open spec fn obeys_from_spec() -> bool {
        true
    }

    closed spec fn from_spec(v: String) -> Self {
        StreamId(v)
    }
}

/// Converting a `String` into a [`StreamId`] keeps its text.
pub proof fn law_stream_id_from_string(value: String)
    ensures
        <StreamId as vstd::std_specs::convert::FromSpec<String>>::from_spec(value)@ == value@,
{
}

impl From<StreamId> for String {
    fn from(value: StreamId) -> (s: Self) {
        value.0
    }
}

impl vstd::std_specs::convert::FromSpecImpl<StreamId> for String {
    open spec fn obeys_from_spec() -> bool {
        true
    }

    closed spec fn from_spec(v: StreamId) -> Self {
        v.0
    }
}

/// The unique id of one recorded event.
#[derive(Debug, Clone, PartialEq, Eq, Hash, PartialOrd, Ord)]
pub struct EventId(String);

impl View for EventId {
    type V = Seq<char>;

    closed spec fn view(&self) -> Seq<char> {
        self.0@
    }
}

impl EventId {
    /// Wrap a string as an [`EventId`].
    pub fn new(id: String) -> (s: Self)
        ensures
            s@ == id@,
    {
        EventId(id)
    }

    /// Borrow the underlying string slice.
    pub fn as_str(&self) -> (s: &str)
        ensures
            s@ == self@,
    {
        self.0.as_str()
    }
}

/// The name of an aggregate type, e.g. `"counter"`.
#[derive(Debug, Clone, PartialEq, Eq, Hash, PartialOrd, Ord)]
pub struct AggregateType(String);

impl View for AggregateType {
    type V = Seq<char>;

    closed spec fn view(&self) -> Seq<char> {
        self.0@
    }
}

impl AggregateType {
    /// Wrap a string as an [`AggregateType`].
    pub fn new(name: String) -> (s: Self)
        ensures
            s@ == name@,
    {
        AggregateType(name)
    }

    /// Borrow the underlying string slice.
    pub fn as_str(&self) -> (s: &str)
        ensures
            s@ == self@,
    {
        self.0.as_str()
    }
}

/// A position: an event's version within its stream, or its global
/// position in the log.
#[derive(Debug, Clone, Copy, PartialEq, Eq, Hash, PartialOrd, Ord)]
pub struct Revision(u64);

impl View for Revision {
    type V = nat;

    closed spec fn view(&self) -> nat {
        self.0 as nat
    }
}

impl Revision {
    /// Wrap a position.
    pub fn new(value: u64) -> (r: Self)
        ensures
            r@ == value,
    {
        Revision(value)
    }

    /// The position.
    pub fn value(&self) -> (v: u64)
        ensures
            v == self@,
    {
        self.0
    }
}

} // verus!
