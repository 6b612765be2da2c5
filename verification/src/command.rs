//! Commands: what a caller wants an aggregate to do.

use vstd::prelude::*;

verus! {

/// A command, usually an `enum` where each variant is one intent, with a
/// stable string name for every variant.
///
/// An implementation proved with Verus defines the `spec_*` functions and
/// meets the contracts of the methods below. The `spec_*` functions carry
/// placeholder bodies only so that an implementation written in plain Rust
/// compiles without them; such an implementation is outside verification,
/// and what is proved of code that calls it does not hold of it.
pub trait Command: Sized {
    /// The stable name of `self`.
    open spec fn spec_command_type(&self) -> Seq<char> {
        arbitrary()
    }

    /// Every name this command type can produce.
    open spec fn spec_command_types() -> Seq<Seq<char>> {
        arbitrary()
    }

    /// The stable name of this command value (e.g. `"counter.Increment"`).
    fn command_type(&self) -> (name: &'static str)
        ensures
            name@ == self.spec_command_type(),
            Self::spec_command_types().contains(name@),
    ;

    /// Every command name this type can produce: exactly the set a service
    /// for the owning aggregate accepts.
    fn command_types() -> (names: &'static [&'static str])
        ensures
            names@.map_values(|s: &str| s@) == Self::spec_command_types(),
    ;
}

} // verus!
