//! Strongly-typed commands: each command is its own type, and an aggregate
//! advertises the commands it understands by implementing [`Handles`] once
//! per command type.

use vstd::prelude::*;

use crate::aggregate::{decided, Aggregate};

verus! {

/// A single, strongly-typed command addressed at one aggregate.
pub trait CommandKind: Sized {
    /// Stable, unique name for this command (e.g. `"account.Deposit"`).
    const NAME: &'static str;

    /// The name of this command value: always [`CommandKind::NAME`].
    fn command_name(&self) -> (name: &'static str)
        ensures
            name == Self::NAME,
    {
        Self::NAME
    }
}

/// An [`Aggregate`] that knows how to handle one specific [`CommandKind`].
///
/// An implementation proved with Verus defines the `spec_*` functions and
/// meets the contracts of the methods below. The `spec_*` functions carry
/// placeholder bodies only so that an implementation written in plain Rust
/// compiles without them; such an implementation is outside verification,
/// and what is proved of code that calls it does not hold of it.
pub trait Handles<C: CommandKind>: Aggregate {
    /// The decision `command` meets in state `self`.
    open spec fn spec_decide(self, command: C) -> Result<Seq<Self::Event>, Self::Rejection> {
        arbitrary()
    }

    /// Decide which events `command` produces against the current state.
    /// Returning `Ok(vec![])` is a valid no-op.
    fn decide(&self, command: C) -> (r: Result<Vec<Self::Event>, Self::Rejection>)
        ensures
            decided(r, self.spec_decide(command)),
    ;
}

} // verus!
