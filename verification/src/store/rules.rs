//! The decisions every store makes the same way, whatever holds its data:
//! which versions an append hands its events, and which rows a page of the
//! global feed takes.

use vstd::prelude::*;

use crate::error::StoreError;
use crate::event::ExpectedRevision;
use crate::store::memory::name_views;

verus! {

/// Decide an append of `count` events to stream `stream_id`, whose current
/// version is `current`, under `expected`: either the conflict, or the
/// versions the new events take, in order (`current + 1`, `current + 2`,
/// ...).
pub fn next_versions(stream_id: &str, expected: ExpectedRevision, current: u64, count: usize) -> (r:
    Result<Vec<u64>, StoreError>)
    requires
        current + count <= u64::MAX,
    ensures
        r is Ok <==> expected.admits(current as nat),
        r matches Err(e) ==> e matches StoreError::Conflict { stream_id: s, expected: d, actual: a }
            && s@ == stream_id@ && d@ == expected.description() && a == current,
        r matches Ok(versions) ==> versions@.len() == count && forall|k: int|
            0 <= k < count ==> #[trigger] versions@[k] == current + k + 1,
{
    match expected.check(current) {
        Err((description, actual)) => {
            return Err(
                StoreError::Conflict { stream_id: stream_id.to_owned(), expected: description, actual },
            );
        },
        Ok(()) => {},
    }
    let mut versions: Vec<u64> = Vec::new();
    let mut offset: usize = 0;
    while offset < count
        invariant
            offset <= count,
            current + count <= u64::MAX,
            versions@.len() == offset,
            forall|k: int| 0 <= k < offset ==> #[trigger] versions@[k] == current + k + 1,
        decreases count - offset,
    {
        versions.push(current + offset as u64 + 1);
        offset += 1;
    }
    Ok(versions)
}

/// Whether `name` is one of `names`.
pub fn name_listed(names: &[String], name: &String) -> (b: bool)
    ensures
        b == name_views(names@).contains(name@),
{
    let mut j: usize = 0;
    while j < names.len()
        invariant
            j <= names@.len(),
            forall|m: int| 0 <= m < j ==> (#[trigger] names@[m])@ != name@,
        decreases names@.len() - j,
    {
        if names[j] == *name {
            proof {
                assert(name_views(names@)[j as int] == name@);
            }
            return true;
        }
        j += 1;
    }
    proof {
        assert forall|m: int| 0 <= m < name_views(names@).len() implies name_views(names@)[m]
            != name@ by {
            assert(name_views(names@)[m] == names@[m]@);
        }
    }
    false
}

/// Decide one row of a page of the feed, named `event_type`, met when the
/// page already holds `taken` rows: whether the row is taken (its name is
/// one of `names`), and whether the page is then full (it holds `limit`
/// rows, or one row when `limit` is 0).
pub fn feed_step(taken: usize, limit: usize, names: &[String], event_type: &String) -> (r: (
    bool,
    bool,
))
    ensures
        r.0 == name_views(names@).contains(event_type@),
        r.1 == (r.0 && taken + 1 >= limit),
{
    let take = name_listed(names, event_type);
    let full = take && (limit == 0 || limit - 1 <= taken);
    (take, full)
}

} // verus!
