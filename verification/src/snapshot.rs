//! Snapshots: the rendered state of an aggregate at a known version, so a
//! later load only folds the events recorded after it.

use vstd::prelude::*;

use crate::text::concat;

verus! {

/// A stored snapshot: the rendered aggregate state plus the stream version it
/// reflects.
#[derive(Debug, Clone)]
pub struct SnapshotEnvelope<A> {
    /// The stream version this snapshot was taken at.
    pub version: u64,
    /// The rendered aggregate state at that version.
    pub state: A,
}

/// When the service should write a fresh snapshot.
#[derive(Debug, Clone, Copy, PartialEq, Eq, Structural)]
pub enum SnapshotPolicy {
    /// Never snapshot automatically.
    Never,
    /// Snapshot whenever the stream version crosses a multiple of `n`.
    EveryNEvents(u64),
}

impl SnapshotPolicy {
    /// Whether a write that brought the stream from `old_version` to
    /// `new_version` crosses a snapshot point.
    pub open spec fn crosses(self, old_version: nat, new_version: nat) -> bool {
        match self {
            SnapshotPolicy::Never => false,
            SnapshotPolicy::EveryNEvents(n) => n != 0 && old_version / (n as nat) != new_version / (
            n as nat),
        }
    }

    /// Whether a write that brought the stream to `new_version` (from
    /// `old_version`) should trigger a snapshot.
    pub fn should_snapshot(self, old_version: u64, new_version: u64) -> (b: bool)
        ensures
            b == self.crosses(old_version as nat, new_version as nat),
    {
        match self {
            SnapshotPolicy::Never => false,
            SnapshotPolicy::EveryNEvents(n) => {
                if n == 0 {
                    false
                } else {
                    old_version / n != new_version / n
                }
            },
        }
    }
}

/// The document collection snapshots for aggregate type `ty` live in.
pub fn collection(ty: &str) -> (c: String)
    ensures
        c@ == "__snapshot."@ + ty@,
{
    concat("__snapshot.", ty)
}

/// Appending one event at a time, an `EveryNEvents(n)` policy snapshots
/// exactly when the stream reaches a multiple of `n`.
pub proof fn law_snapshot_every_n(n: u64, version: nat)
    requires
        n > 0,
    ensures
        SnapshotPolicy::EveryNEvents(n).crosses(version, version + 1) <==> (version + 1) % (n as nat)
            == 0,
{
    let m = n as nat;
    assert(version / m != (version + 1) / m <==> (version + 1) % m == 0) by (nonlinear_arith)
        requires
            m > 0,
    {
        vstd::arithmetic::div_mod::lemma_fundamental_div_mod(version as int, m as int);
        vstd::arithmetic::div_mod::lemma_fundamental_div_mod(version + 1 as int, m as int);
    }
}

} // verus!
