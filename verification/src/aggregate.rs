//! Aggregates and read models: state rebuilt by folding events.

use vstd::prelude::*;

use crate::command::Command;
use crate::event::{DomainEvent, Recorded};

verus! {

/// The heart of the domain model: a small state machine that renders itself
/// from past events ([`Aggregate::apply`]) and decides which new events a
/// command produces ([`Aggregate::handle`]), rejecting the command with a
/// typed business error when a rule is violated.
///
/// Deciding takes `&self` and never mutates state; state only changes by
/// applying events, so replay and live execution are identical.
///
/// An implementation proved with Verus defines the `spec_*` functions and
/// meets the contracts of the methods below. The `spec_*` functions carry
/// placeholder bodies only so that an implementation written in plain Rust
/// compiles without them; such an implementation is outside verification,
/// and what is proved of code that calls it does not hold of it.
pub trait Aggregate: Sized {
    /// The command type this aggregate accepts.
    type Command: Command;
    /// The event type this aggregate emits.
    type Event: DomainEvent;
    /// The business-rule rejection type.
    type Rejection;

    /// Stable aggregate type name, used as the stream's `aggregate_type`.
    const TYPE: &'static str;

    /// The state of an aggregate before any event.
    open spec fn spec_initial() -> Self {
        arbitrary()
    }

    /// The state after folding `event` into `self`.
    open spec fn spec_apply(self, event: Self::Event) -> Self {
        arbitrary()
    }

    /// The decision `command` meets in state `self`.
    open spec fn spec_handle(self, command: Self::Command) -> Result<Seq<Self::Event>, Self::Rejection> {
        arbitrary()
    }

    /// A fresh aggregate, before any event.
    fn initial() -> (state: Self)
        ensures
            state == Self::spec_initial(),
    ;

    /// Decide what happens. Returning `Ok(vec![])` is a valid no-op.
    fn handle(&self, command: Self::Command) -> (r: Result<Vec<Self::Event>, Self::Rejection>)
        ensures
            decided(r, self.spec_handle(command)),
    ;

    /// Fold a single event into the current state.
    fn apply(&mut self, event: &Self::Event)
        ensures
            *final(self) == old(self).spec_apply(*event),
    ;
}

/// An executable decision `r` is the specified decision `d`.
pub open spec fn decided<E, R>(r: Result<Vec<E>, R>, d: Result<Seq<E>, R>) -> bool {
    match r {
        Ok(events) => d == Ok::<Seq<E>, R>(events@),
        Err(rejection) => d == Err::<Seq<E>, R>(rejection),
    }
}

/// The state reached by folding `events`, in order, into `state`.
pub open spec fn fold_events<A: Aggregate>(state: A, events: Seq<A::Event>) -> A
    decreases events.len(),
{
    if events.len() == 0 {
        state
    } else {
        fold_events(state, events.drop_last()).spec_apply(events.last())
    }
}

/// The payloads of recorded events, in order.
pub open spec fn payloads<E>(events: Seq<Recorded<E>>) -> Seq<E> {
    events.map_values(|r: Recorded<E>| r.payload)
}

/// Rendering a history in two parts, the second on top of the state the
/// first produced, gives the same state as rendering it at once. This is
/// what makes snapshots a pure optimisation.
pub proof fn law_fold_split<A: Aggregate>(state: A, first: Seq<A::Event>, second: Seq<A::Event>)
    ensures
        fold_events(state, first + second) == fold_events(fold_events(state, first), second),
    decreases second.len(),
{
    if second.len() == 0 {
        assert(first + second =~= first);
    } else {
        law_fold_split(state, first, second.drop_last());
        assert((first + second).drop_last() =~= first + second.drop_last());
    }
}

/// Render an aggregate by folding event payloads into a fresh value.
pub fn render<A: Aggregate>(events: &[A::Event]) -> (state: A)
    ensures
        state == fold_events(A::spec_initial(), events@),
{
    let mut state = A::initial();
    let mut i: usize = 0;
    while i < events.len()
        invariant
            i <= events@.len(),
            state == fold_events(A::spec_initial(), events@.take(i as int)),
        decreases events@.len() - i,
    {
        proof {
            assert(events@.take(i as int + 1).drop_last() =~= events@.take(i as int));
        }
        state.apply(&events[i]);
        i += 1;
    }
    proof {
        assert(events@.take(i as int) =~= events@);
    }
    state
}

/// Render an aggregate from stored events: the same as rendering their
/// payloads.
pub fn render_from<A: Aggregate>(events: &[Recorded<A::Event>]) -> (state: A)
    ensures
        state == fold_events(A::spec_initial(), payloads(events@)),
{
    let mut state = A::initial();
    let mut i: usize = 0;
    while i < events.len()
        invariant
            i <= events@.len(),
            state == fold_events(A::spec_initial(), payloads(events@.take(i as int))),
        decreases events@.len() - i,
    {
        proof {
            assert(payloads(events@.take(i as int + 1)).drop_last() =~= payloads(
                events@.take(i as int),
            ));
        }
        state.apply(&events[i].payload);
        i += 1;
    }
    proof {
        assert(events@.take(i as int) =~= events@);
    }
    state
}

} // verus!
