//! A given/when/then harness for unit-testing aggregates: a set of past events
//! renders a state, a command produces new events or a rejection.

use vstd::prelude::*;

use crate::aggregate::{decided, fold_events, render, Aggregate};
use crate::handler::{CommandKind, Handles};
use vstd::std_specs::cmp::PartialEqSpec;

verus! {

/// The "given" stage: the historical events that define the starting state.
pub struct Scenario<A: Aggregate> {
    events: Vec<A::Event>,
}

impl<A: Aggregate> Default for Scenario<A> {
    fn default() -> (s: Self)
        ensures
            s.history() == Seq::<A::Event>::empty(),
    {
        Scenario::empty()
    }
}

impl<A: Aggregate> Scenario<A> {
    /// The historical events, in order.
    pub closed spec fn history(self) -> Seq<A::Event> {
        self.events@
    }

    /// Start from no history (a brand-new aggregate).
    pub fn empty() -> (s: Self)
        ensures
            s.history() == Seq::<A::Event>::empty(),
    {
        Scenario { events: Vec::new() }
    }

    /// Start from the given historical events.
    pub fn given(events: Vec<A::Event>) -> (s: Self)
        ensures
            s.history() == events@,
    {
        Scenario { events }
    }

    /// Append one more historical event.
    pub fn and(self, event: A::Event) -> (s: Self)
        ensures
            s.history() == self.history().push(event),
    {
        let mut events = self.events;
        events.push(event);
        Scenario { events }
    }

    /// The "when" stage for an enum command: render the history, then decide.
    pub fn when(self, command: A::Command) -> (o: Outcome<A>)
        ensures
            decided(o.result(), fold_events(A::spec_initial(), self.history()).spec_handle(command)),
    {
        let state = render::<A>(self.events.as_slice());
        Outcome { result: state.handle(command) }
    }

    /// The "when" stage for a strongly-typed command.
    pub fn when_typed<C: CommandKind>(self, command: C) -> (o: Outcome<A>) where A: Handles<C>
        ensures
            decided(
                o.result(),
                <A as Handles<C>>::spec_decide(fold_events(A::spec_initial(), self.history()), command),
            ),
    {
        let state = render::<A>(self.events.as_slice());
        Outcome { result: <A as Handles<C>>::decide(&state, command) }
    }
}

/// The "then" stage: the decision the aggregate made.
pub struct Outcome<A: Aggregate> {
    result: Result<Vec<A::Event>, A::Rejection>,
}

impl<A: Aggregate> Outcome<A> {
    /// The decision.
    pub closed spec fn result(self) -> Result<Vec<A::Event>, A::Rejection> {
        self.result
    }

    /// The raw decision.
    pub fn into_result(self) -> (r: Result<Vec<A::Event>, A::Rejection>)
        ensures
            r == self.result(),
    {
        self.result
    }

    /// The rejection; the command must have been rejected.
    pub fn then_rejected(self) -> (r: A::Rejection)
        requires
            self.result() is Err,
        ensures
            self.result() == Err::<Vec<A::Event>, A::Rejection>(r),
    {
        match self.result {
            Err(rejection) => rejection,
            Ok(_) => vstd::pervasive::unreached(),
        }
    }

    /// Check that the command was accepted but emitted no events (a valid
    /// no-op).
    pub fn then_nothing(self)
        requires
            self.result() matches Ok(events) && events@.len() == 0,
    {
        match self.result {
            Ok(events) => {
                if events.len() != 0 {
                    vstd::pervasive::unreached::<()>()
                }
            },
            Err(_) => vstd::pervasive::unreached(),
        }
    }

    /// Check that exactly these events were emitted, in order.
    pub fn then_events(self, expected: Vec<A::Event>) where A::Event: PartialEq
        requires
            <A::Event as PartialEqSpec>::obeys_eq_spec(),
            self.result() matches Ok(events) && events.eq_spec(&expected),
    {
        match self.result {
            Ok(events) => {
                if !(events == expected) {
                    vstd::pervasive::unreached::<()>()
                }
            },
            Err(_) => vstd::pervasive::unreached(),
        }
    }

    /// Check that the command was rejected with exactly this rejection.
    pub fn then_rejected_with(self, expected: A::Rejection) where A::Rejection: PartialEq
        requires
            <A::Rejection as PartialEqSpec>::obeys_eq_spec(),
            self.result() matches Err(rejection) && rejection.eq_spec(&expected),
    {
        match self.result {
            Err(rejection) => {
                if !(rejection == expected) {
                    vstd::pervasive::unreached::<()>()
                }
            },
            Ok(_) => vstd::pervasive::unreached(),
        }
    }
}

} // verus!
