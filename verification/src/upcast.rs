//! Event upcasting: evolve persisted event shapes without rewriting history.
//! An [`Upcaster`] rewrites one event type's stored JSON into its next shape;
//! a registry applies, in registration order, every upcaster registered for
//! an event's type.

use vstd::prelude::*;

use serde_json::Value;

verus! {

/// A JSON value, as the log stores a payload.
#[verifier::external_type_specification]
#[verifier::external_body]
pub struct ExJsonValue(serde_json::Value);

/// Rewrites one event type's stored JSON into its next shape.
///
/// Register several for the same event type to chain migrations
/// (v1 → v2 → v3); they run in registration order.
///
/// An implementation proved with Verus defines the `spec_*` functions and
/// meets the contracts of the methods below. The `spec_*` functions carry
/// placeholder bodies only so that an implementation written in plain Rust
/// compiles without them; such an implementation is outside verification,
/// and what is proved of code that calls it does not hold of it.
pub trait Upcaster {
    /// The stored event name this upcaster applies to.
    open spec fn spec_event_type(&self) -> Seq<char> {
        arbitrary()
    }

    /// The next shape of `payload`.
    open spec fn spec_upcast(&self, payload: Value) -> Value {
        arbitrary()
    }

    /// The stored event name this upcaster applies to (e.g.
    /// `"account.deposited"`).
    fn event_type(&self) -> (name: &str)
        ensures
            name@ == self.spec_event_type(),
    ;

    /// Transform the stored payload into the next shape.
    fn upcast(&self, payload: Value) -> (next: Value)
        ensures
            next == self.spec_upcast(payload),
    ;
}

/// `payload` run through every upcaster of `chain` registered under
/// `event_type`, in registration order.
pub open spec fn run_chain(chain: Seq<(Seq<char>, spec_fn(Value) -> Value)>, event_type: Seq<char>, payload: Value) -> Value
    decreases chain.len(),
{
    if chain.len() == 0 {
        payload
    } else {
        let before = run_chain(chain.drop_last(), event_type, payload);
        if chain.last().0 == event_type {
            (chain.last().1)(before)
        } else {
            before
        }
    }
}

/// `after` is `before` with one more upcaster registered last, under the
/// event type `upcaster` names.
pub open spec fn registered_last<U: Upcaster>(
    before: Seq<(Seq<char>, spec_fn(Value) -> Value)>,
    after: Seq<(Seq<char>, spec_fn(Value) -> Value)>,
    upcaster: U,
) -> bool {
    &&& after.len() == before.len() + 1
    &&& after.drop_last() == before
    &&& after.last().0 == upcaster.spec_event_type()
    &&& forall|p: Value| #[trigger] (after.last().1)(p) == upcaster.spec_upcast(p)
}

/// A boxed upcaster of any type is an upcaster: it names and rewrites as
/// the upcaster inside does.
impl Upcaster for Box<dyn Upcaster> {
    open spec fn spec_event_type(&self) -> Seq<char> {
        (**self).spec_event_type()
    }

    open spec fn spec_upcast(&self, payload: Value) -> Value {
        (**self).spec_upcast(payload)
    }

    fn event_type(&self) -> (name: &str) {
        (**self).event_type()
    }

    fn upcast(&self, payload: Value) -> (next: Value) {
        (**self).upcast(payload)
    }
}

/// The rewrite `upcaster` stands for, as a spec closure.
pub open spec fn rewrite_of<U: Upcaster>(upcaster: U) -> spec_fn(Value) -> Value {
    |p: Value| upcaster.spec_upcast(p)
}

/// The registered entries as `(event type, rewrite)` pairs, in order.
pub open spec fn entry_chain<U: Upcaster>(entries: Seq<(String, U)>) -> Seq<(Seq<char>, spec_fn(Value) -> Value)> {
    entries.map_values(|e: (String, U)| (e.0@, rewrite_of(e.1)))
}

/// A registry of [`Upcaster`]s: each is kept under the event type it named
/// when registered, in registration order. To register upcasters of several
/// types in one registry, gather them in one type (an `enum` whose
/// [`Upcaster`] impl forwards to each variant).
pub struct Upcasters<U: Upcaster> {
    entries: Vec<(String, U)>,
}

impl<U: Upcaster> Upcasters<U> {
    /// The registered upcasters, each with the event type it was registered
    /// under, in registration order.
    pub closed spec fn registered(self) -> Seq<(Seq<char>, spec_fn(Value) -> Value)> {
        entry_chain(self.entries@)
    }

    /// An empty registry: payloads pass through unchanged.
    pub fn new() -> (r: Self)
        ensures
            r.registered() == Seq::<(Seq<char>, spec_fn(Value) -> Value)>::empty(),
    {
        let r = Upcasters { entries: Vec::new() };
        proof {
            assert(r.registered() =~= Seq::<(Seq<char>, spec_fn(Value) -> Value)>::empty());
        }
        r
    }

    /// Register an upcaster (builder style).
    pub fn with(self, upcaster: U) -> (r: Self)
        ensures
            registered_last(self.registered(), r.registered(), upcaster),
    {
        let mut registry = self;
        registry.register(upcaster);
        registry
    }

    /// Register an upcaster under the event type it names.
    pub fn register(&mut self, upcaster: U)
        ensures
            registered_last(old(self).registered(), final(self).registered(), upcaster),
    {
        let name = upcaster.event_type().to_owned();
        self.entries.push((name, upcaster));
        proof {
            assert(self.registered().drop_last() =~= old(self).registered());
        }
    }

    /// Apply every upcaster registered for `event_type`, in order.
    pub fn apply(&self, event_type: &str, payload: Value) -> (r: Value)
        ensures
            r == run_chain(self.registered(), event_type@, payload),
    {
        let ghost start = payload;
        let ty = event_type.to_owned();
        let mut current = payload;
        let mut i: usize = 0;
        while i < self.entries.len()
            invariant
                i <= self.entries@.len(),
                ty@ == event_type@,
                current == run_chain(entry_chain(self.entries@.take(i as int)), ty@, start),
            decreases self.entries@.len() - i,
        {
            proof {
                assert(entry_chain(self.entries@.take(i + 1)).drop_last() =~= entry_chain(
                    self.entries@.take(i as int),
                ));
            }
            let entry = &self.entries[i];
            if entry.0 == ty {
                current = entry.1.upcast(current);
            }
            i += 1;
        }
        proof {
            assert(self.entries@.take(i as int) =~= self.entries@);
        }
        current
    }
}

/// Upcasters registered for other event types never touch a payload: adding
/// one leaves every other type's chain as it was.
pub proof fn law_other_types_untouched(
    chain: Seq<(Seq<char>, spec_fn(Value) -> Value)>,
    entry: (Seq<char>, spec_fn(Value) -> Value),
    event_type: Seq<char>,
    payload: Value,
)
    requires
        entry.0 != event_type,
    ensures
        run_chain(chain.push(entry), event_type, payload) == run_chain(chain, event_type, payload),
{
    assert(chain.push(entry).drop_last() =~= chain);
}

/// A payload with no registered upcaster for its type passes through
/// unchanged.
pub proof fn law_unregistered_passes_through(
    chain: Seq<(Seq<char>, spec_fn(Value) -> Value)>,
    event_type: Seq<char>,
    payload: Value,
)
    requires
        forall|i: int| 0 <= i < chain.len() ==> (#[trigger] chain[i]).0 != event_type,
    ensures
        run_chain(chain, event_type, payload) == payload,
    decreases chain.len(),
{
    if chain.len() > 0 {
        law_unregistered_passes_through(chain.drop_last(), event_type, payload);
        assert(chain.last() == chain[chain.len() - 1]);
    }
}

/// The newest upcaster runs last: after registering `upcaster`, upcasting a
/// payload of its event type gives `upcaster`'s rewrite of what the earlier
/// upcasters made of it, and a payload of any other type is upcast as
/// before. So the upcasters of a type run in registration order, each on
/// the output of the one registered before it.
pub proof fn law_newest_runs_last<U: Upcaster>(
    before: Seq<(Seq<char>, spec_fn(Value) -> Value)>,
    after: Seq<(Seq<char>, spec_fn(Value) -> Value)>,
    upcaster: U,
    event_type: Seq<char>,
    payload: Value,
)
    requires
        registered_last(before, after, upcaster),
    ensures
        event_type == upcaster.spec_event_type() ==> run_chain(after, event_type, payload)
            == upcaster.spec_upcast(run_chain(before, event_type, payload)),
        event_type != upcaster.spec_event_type() ==> run_chain(after, event_type, payload)
            == run_chain(before, event_type, payload),
{
    let inner = run_chain(before, event_type, payload);
    assert((after.last().1)(inner) == upcaster.spec_upcast(inner));
}

/// Two upcasters registered one after the other for the same event type
/// compose in registration order: the second rewrites the output of the
/// first.
pub proof fn law_two_upcasters_compose<U: Upcaster>(
    start: Seq<(Seq<char>, spec_fn(Value) -> Value)>,
    middle: Seq<(Seq<char>, spec_fn(Value) -> Value)>,
    end: Seq<(Seq<char>, spec_fn(Value) -> Value)>,
    first: U,
    second: U,
    payload: Value,
)
    requires
        registered_last(start, middle, first),
        registered_last(middle, end, second),
        first.spec_event_type() == second.spec_event_type(),
    ensures
        run_chain(end, first.spec_event_type(), payload) == second.spec_upcast(
            first.spec_upcast(run_chain(start, first.spec_event_type(), payload)),
        ),
{
    law_newest_runs_last(start, middle, first, first.spec_event_type(), payload);
    law_newest_runs_last(middle, end, second, first.spec_event_type(), payload);
}

} // verus!
