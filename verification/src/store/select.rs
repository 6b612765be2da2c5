//! Selecting positions of the log by a predicate, in log order.

use vstd::prelude::*;

verus! {

/// The indices `i` of `log` (in increasing order) for which `keep(i, log[i])`
/// holds.
pub open spec fn select<T>(log: Seq<T>, keep: spec_fn(int, T) -> bool) -> Seq<int>
    decreases log.len(),
{
    if log.len() == 0 {
        Seq::empty()
    } else {
        let prev = select(log.drop_last(), keep);
        if keep(log.len() - 1, log.last()) {
            prev.push(log.len() - 1)
        } else {
            prev
        }
    }
}

/// Selection is strictly increasing and stays within the log.
pub proof fn lemma_select_bounds<T>(log: Seq<T>, keep: spec_fn(int, T) -> bool)
    ensures
        select(log, keep).len() <= log.len(),
        forall|k: int|
            0 <= k < select(log, keep).len() ==> 0 <= #[trigger] select(log, keep)[k] < log.len()
                && keep(select(log, keep)[k], log[select(log, keep)[k]]),
        forall|k: int, l: int|
            0 <= k < l < select(log, keep).len() ==> #[trigger] select(log, keep)[k] < #[trigger] select(
                log,
                keep,
            )[l],
    decreases log.len(),
{
    if log.len() > 0 {
        lemma_select_bounds(log.drop_last(), keep);
    }
}

/// Appending one element to the log extends the selection by at most that
/// element's index.
pub proof fn lemma_select_push<T>(log: Seq<T>, e: T, keep: spec_fn(int, T) -> bool)
    ensures
        select(log.push(e), keep) == (if keep(log.len() as int, e) {
            select(log, keep).push(log.len() as int)
        } else {
            select(log, keep)
        }),
{
    assert(log.push(e).drop_last() =~= log);
}

/// Selecting from the first `j + 1` elements extends the selection from the
/// first `j` by index `j` when it is kept.
pub proof fn lemma_select_take_step<T>(log: Seq<T>, j: int, keep: spec_fn(int, T) -> bool)
    requires
        0 <= j < log.len(),
    ensures
        select(log.take(j + 1), keep) == (if keep(j, log[j]) {
            select(log.take(j), keep).push(j)
        } else {
            select(log.take(j), keep)
        }),
{
    assert(log.take(j + 1).drop_last() =~= log.take(j));
}

/// The selection from a prefix is a prefix of the selection from the whole
/// log.
pub proof fn lemma_select_prefix<T>(log: Seq<T>, j: int, keep: spec_fn(int, T) -> bool)
    requires
        0 <= j <= log.len(),
    ensures
        select(log.take(j), keep).len() <= select(log, keep).len(),
        select(log, keep).take(select(log.take(j), keep).len() as int) == select(log.take(j), keep),
    decreases log.len() - j,
{
    if j == log.len() {
        assert(log.take(j) =~= log);
    } else {
        lemma_select_prefix(log, j + 1, keep);
        lemma_select_take_step(log, j, keep);
        let a = select(log.take(j), keep);
        let b = select(log.take(j + 1), keep);
        let all = select(log, keep);
        assert(all.take(a.len() as int) =~= b.take(a.len() as int));
        assert(b.take(a.len() as int) =~= a);
    }
}

} // verus!
