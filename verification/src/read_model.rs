//! Read models: queryable shapes rebuilt by folding recorded events.

use vstd::prelude::*;

use crate::event::{DomainEvent, Recorded};

verus! {

/// A read model: anything rebuilt by folding a stream of recorded events.
/// Unlike an [`Aggregate`], it never makes decisions.
///
/// An implementation proved with Verus defines the `spec_*` functions and
/// meets the contracts of the methods below. The `spec_*` functions carry
/// placeholder bodies only so that an implementation written in plain Rust
/// compiles without them; such an implementation is outside verification,
/// and what is proved of code that calls it does not hold of it.
pub trait View: Sized {
    /// The events this view consumes.
    type Event: DomainEvent;

    /// Stable projection name (a checkpoint key / document collection).
    const NAME: &'static str;

    /// The view before any event.
    open spec fn spec_initial() -> Self {
        arbitrary()
    }

    /// The view after folding `event` into `self`.
    open spec fn spec_apply(self, event: Recorded<Self::Event>) -> Self {
        arbitrary()
    }

    /// An empty view, before any event.
    fn initial() -> (view: Self)
        ensures
            view == Self::spec_initial(),
    ;

    /// Fold one recorded event into the view.
    fn apply(&mut self, event: &Recorded<Self::Event>)
        ensures
            *final(self) == old(self).spec_apply(*event),
    ;
}

/// The view reached by folding `events`, in order, into `view`.
pub open spec fn fold_view<V: View>(view: V, events: Seq<Recorded<V::Event>>) -> V
    decreases events.len(),
{
    if events.len() == 0 {
        view
    } else {
        fold_view(view, events.drop_last()).spec_apply(events.last())
    }
}

/// Folding a log into a view in two batches gives the same view as folding
/// it at once: catching up incrementally equals replaying from scratch.
pub proof fn law_fold_view_split<V: View>(
    view: V,
    first: Seq<Recorded<V::Event>>,
    second: Seq<Recorded<V::Event>>,
)
    ensures
        fold_view(view, first + second) == fold_view(fold_view(view, first), second),
    decreases second.len(),
{
    if second.len() == 0 {
        assert(first + second =~= first);
    } else {
        law_fold_view_split(view, first, second.drop_last());
        assert((first + second).drop_last() =~= first + second.drop_last());
    }
}

} // verus!
