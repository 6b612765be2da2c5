//! Projections: a read model together with the global log position it has
//! consumed up to, which makes it resumable.

use vstd::prelude::*;

use crate::error::StoreError;
use crate::event::Recorded;
use crate::read_model;
use crate::read_model::{fold_view, law_fold_view_split};
use crate::store::memory::{
    feed_indices, law_feed_pagination, name_views, recorded_as, records_of, MemoryStore,
    StoredEvent,
};
use crate::store::select::lemma_select_bounds;

verus! {

/// How many events to pull from the log per round-trip while catching up.
pub const DEFAULT_BATCH: usize = 256;

/// `typed` is what `decode` may produce from `raw`, element by element.
pub open spec fn decoded_as<E, F: Fn(&Recorded<String>) -> Result<Recorded<E>, StoreError>>(
    decode: F,
    raw: Seq<Recorded<String>>,
    typed: Seq<Recorded<E>>,
) -> bool {
    &&& raw.len() == typed.len()
    &&& forall|k: int|
        0 <= k < raw.len() ==> decode.ensures((&raw[k],), Ok::<Recorded<E>, StoreError>(#[trigger] typed[k]))
}

/// `decode` may fail with `e` on one of the events at log indices `idx`.
pub open spec fn fails_on<E, F: Fn(&Recorded<String>) -> Result<Recorded<E>, StoreError>>(
    decode: F,
    log: Seq<StoredEvent>,
    idx: Seq<int>,
    e: StoreError,
) -> bool {
    exists|k: int, raw: Recorded<String>|
        0 <= k < idx.len() && #[trigger] recorded_as(raw, log, idx[k]) && decode.ensures(
            (&raw,),
            Err::<Recorded<E>, StoreError>(e),
        )
}

/// Decode every event of a batch, stopping at the first failure.
pub fn decode_batch<E, F: Fn(&Recorded<String>) -> Result<Recorded<E>, StoreError>>(
    raw: &Vec<Recorded<String>>,
    decode: &F,
) -> (r: Result<Vec<Recorded<E>>, StoreError>)
    requires
        forall|x: &Recorded<String>| decode.requires((x,)),
    ensures
        r matches Ok(typed) ==> decoded_as(*decode, raw@, typed@),
        r matches Err(e) ==> exists|k: int|
            0 <= k < raw@.len() && decode.ensures((&raw@[k],), Err::<Recorded<E>, StoreError>(e)),
{
    let mut typed: Vec<Recorded<E>> = Vec::new();
    let mut i: usize = 0;
    while i < raw.len()
        invariant
            i <= raw@.len(),
            forall|x: &Recorded<String>| decode.requires((x,)),
            decoded_as(*decode, raw@.take(i as int), typed@),
        decreases raw@.len() - i,
    {
        match decode(&raw[i]) {
            Ok(event) => {
                typed.push(event);
            },
            Err(e) => {
                return Err(e);
            },
        }
        proof {
            assert forall|k: int| 0 <= k < i + 1 implies decode.ensures(
                (&raw@.take(i + 1)[k],),
                Ok::<Recorded<E>, StoreError>(#[trigger] typed@[k]),
            ) by {
                assert(raw@.take(i + 1)[k] == raw@[k]);
                if k < i {
                    assert(raw@.take(i as int)[k] == raw@[k]);
                }
            }
        }
        i += 1;
    }
    proof {
        assert(raw@.take(i as int) =~= raw@);
    }
    Ok(typed)
}

/// A read model together with the global log position it has consumed up to.
pub struct Projection<V> {
    /// The accumulated read model.
    pub view: V,
    /// Global position of the last event folded in (0 means "nothing yet").
    pub position: u64,
}

impl<V: read_model::View> Default for Projection<V> {
    fn default() -> (p: Self)
        ensures
            p.view == V::spec_initial(),
            p.position == 0,
    {
        Projection::new()
    }
}

impl<V: read_model::View> Projection<V> {
    /// An empty projection that has consumed nothing.
    pub fn new() -> (p: Self)
        ensures
            p.view == V::spec_initial(),
            p.position == 0,
    {
        Projection { view: V::initial(), position: 0 }
    }

    /// Fold one batch read from the log into the projection, advancing the
    /// position to the batch's last event. Returns whether the batch held
    /// anything; an empty batch means the projection has caught up.
    pub fn absorb(&mut self, batch: &[Recorded<V::Event>]) -> (changed: bool)
        ensures
            changed == (batch@.len() > 0),
            final(self).view == fold_view(old(self).view, batch@),
            final(self).position == if batch@.len() == 0 {
                old(self).position
            } else {
                batch@.last().global_position
            },
    {
        let ghost start = self.view;
        let mut i: usize = 0;
        while i < batch.len()
            invariant
                i <= batch@.len(),
                self.view == fold_view(start, batch@.take(i as int)),
                i > 0 ==> self.position == batch@[i - 1].global_position,
                i == 0 ==> self.position == old(self).position,
            decreases batch@.len() - i,
        {
            proof {
                assert(batch@.take(i as int + 1).drop_last() =~= batch@.take(i as int));
            }
            self.view.apply(&batch[i]);
            self.position = batch[i].global_position;
            i += 1;
        }
        proof {
            assert(batch@.take(i as int) =~= batch@);
        }
        batch.len() > 0
    }

    /// Rebuild a projection from scratch: fold in every event of `store`
    /// whose name is in `names`, in global order, decoding each with
    /// `decode`. It fails only with an error `decode` gave for one of those
    /// events.
    pub fn replay<F: Fn(&Recorded<String>) -> Result<Recorded<V::Event>, StoreError>>(
        store: &MemoryStore,
        names: &[String],
        decode: &F,
    ) -> (r: Result<Self, StoreError>)
        requires
            forall|x: &Recorded<String>| decode.requires((x,)),
            forall|x: &Recorded<String>, y: Recorded<V::Event>|
                decode.ensures((x,), Ok::<Recorded<V::Event>, StoreError>(y)) ==> y.global_position
                    == x.global_position,
        ensures
            ({
                let feed = feed_indices(store.events(), 0, name_views(names@));
                r matches Ok(p) ==> {
                    &&& p.position == if feed.len() == 0 {
                        0
                    } else {
                        feed.last() + 1
                    }
                    &&& exists|raw: Seq<Recorded<String>>, typed: Seq<Recorded<V::Event>>|
                        #![trigger decoded_as(*decode, raw, typed)]
                        records_of(raw, store.events(), feed) && decoded_as(*decode, raw, typed)
                            && fold_view(V::spec_initial(), typed) == p.view
                }
            }),
            r matches Err(e) ==> fails_on(
                *decode,
                store.events(),
                feed_indices(store.events(), 0, name_views(names@)),
                e,
            ),
    {
        let mut projection = Self::new();
        match projection.catch_up(store, names, decode) {
            Ok(_) => Ok(projection),
            Err(e) => Err(e),
        }
    }

    /// Bring the projection up to date with `store`: fold in, page by page and
    /// in global order, every event after the projection's position whose
    /// name is in `names`, decoding each with `decode`. Returns whether
    /// anything was folded in.
    ///
    /// On success the view is the old view with exactly those events folded
    /// in, each once, and the position is the global position of the last
    /// of them (unchanged when there were none). It fails only with an error
    /// `decode` gave for one of those events, and then the projection holds a
    /// consistent prefix of that work.
    pub fn catch_up<F: Fn(&Recorded<String>) -> Result<Recorded<V::Event>, StoreError>>(
        &mut self,
        store: &MemoryStore,
        names: &[String],
        decode: &F,
    ) -> (r: Result<bool, StoreError>)
        requires
            forall|x: &Recorded<String>| decode.requires((x,)),
            forall|x: &Recorded<String>, y: Recorded<V::Event>|
                decode.ensures((x,), Ok::<Recorded<V::Event>, StoreError>(y)) ==> y.global_position
                    == x.global_position,
        ensures
            ({
                let feed = feed_indices(store.events(), old(self).position as nat, name_views(names@));
                r matches Ok(changed) ==> {
                    &&& changed == (feed.len() > 0)
                    &&& final(self).position == if feed.len() == 0 {
                        old(self).position as int
                    } else {
                        feed.last() + 1
                    }
                    &&& exists|raw: Seq<Recorded<String>>, typed: Seq<Recorded<V::Event>>|
                        #![trigger decoded_as(*decode, raw, typed)]
                        records_of(raw, store.events(), feed) && decoded_as(*decode, raw, typed)
                            && fold_view(old(self).view, typed) == final(self).view
                }
            }),
            ({
                let feed = feed_indices(store.events(), old(self).position as nat, name_views(names@));
                r is Err ==> exists|c: int, raw: Seq<Recorded<String>>, typed: Seq<Recorded<V::Event>>|
                    #![trigger decoded_as(*decode, raw, typed), feed.take(c)]
                    {
                        &&& 0 <= c <= feed.len()
                        &&& final(self).position == if c == 0 {
                            old(self).position as int
                        } else {
                            feed[c - 1] + 1
                        }
                        &&& records_of(raw, store.events(), feed.take(c))
                        &&& decoded_as(*decode, raw, typed)
                        &&& fold_view(old(self).view, typed) == final(self).view
                    }
            }),
            r matches Err(e) ==> fails_on(
                *decode,
                store.events(),
                feed_indices(store.events(), old(self).position as nat, name_views(names@)),
                e,
            ),
    {
        let ghost log = store.events();
        let ghost nv = name_views(names@);
        let ghost start = self.position as nat;
        let ghost feed = feed_indices(log, start, nv);
        let ghost view0 = self.view;
        let ghost mut consumed: int = 0;
        let ghost mut raw_acc: Seq<Recorded<String>> = Seq::empty();
        let ghost mut typed_acc: Seq<Recorded<V::Event>> = Seq::empty();
        let mut changed = false;
        proof {
            lemma_select_bounds(log, crate::store::memory::feed_filter(start, nv));
            assert(feed.skip(0) =~= feed);
        }
        loop
            invariant
                log == store.events(),
                nv == name_views(names@),
                start == old(self).position,
                view0 == old(self).view,
                feed == feed_indices(log, start, nv),
                forall|x: &Recorded<String>| decode.requires((x,)),
                forall|x: &Recorded<String>, y: Recorded<V::Event>|
                    decode.ensures((x,), Ok::<Recorded<V::Event>, StoreError>(y)) ==> y.global_position
                        == x.global_position,
                0 <= consumed <= feed.len(),
                feed_indices(log, self.position as nat, nv) == feed.skip(consumed),
                self.position == if consumed == 0 {
                    start as int
                } else {
                    feed[consumed - 1] + 1
                },
                records_of(raw_acc, log, feed.take(consumed)),
                decoded_as(*decode, raw_acc, typed_acc),
                self.view == fold_view(view0, typed_acc),
                changed == (consumed > 0),
            ensures
                consumed == feed.len(),
                self.position == if consumed == 0 {
                    start as int
                } else {
                    feed[consumed - 1] + 1
                },
                records_of(raw_acc, log, feed.take(consumed)),
                decoded_as(*decode, raw_acc, typed_acc),
                self.view == fold_view(view0, typed_acc),
                changed == (consumed > 0),
            decreases feed.len() - consumed,
        {
            let batch = store.read_all(self.position, DEFAULT_BATCH, names);
            if batch.len() == 0 {
                proof {
                    let rest = feed.skip(consumed);
                    if rest.len() > 0 {
                        assert(rest.take(1).len() == 1);
                    }
                }
                break;
            }
            let ghost b = batch@.len() as int;
            let ghost rest = feed.skip(consumed);
            proof {
                lemma_select_bounds(log, crate::store::memory::feed_filter(start, nv));
                assert(batch@.len() <= rest.len());
                assert(rest.take(b) =~= feed.subrange(consumed, consumed + b));
            }
            let typed = match decode_batch(&batch, decode) {
                Ok(t) => t,
                Err(e) => {
                    proof {
                        assert(records_of(raw_acc, log, feed.take(consumed)));
                        assert(decoded_as(*decode, raw_acc, typed_acc));
                        let k = choose|k: int|
                            0 <= k < batch@.len() && decode.ensures(
                                (&batch@[k],),
                                Err::<Recorded<V::Event>, StoreError>(e),
                            );
                        assert(rest.take(b)[k] == feed[consumed + k]);
                        assert(recorded_as(batch@[k], log, feed[consumed + k]));
                    }
                    return Err(e);
                },
            };
            let ghost typed_view = typed@;
            proof {
                law_fold_view_split(view0, typed_acc, typed_view);
            }
            self.absorb(typed.as_slice());
            changed = true;
            proof {
                let c2 = consumed + b;
                assert(batch@.last() == batch@[b - 1]);
                assert(typed_view.last() == typed_view[b - 1]);
                assert(decode.ensures(
                    (&batch@[b - 1],),
                    Ok::<Recorded<V::Event>, StoreError>(typed_view[b - 1]),
                ));
                assert(batch@[b - 1].global_position == feed[c2 - 1] + 1);
                law_feed_pagination(log, start, nv, c2);
                assert(feed.take(c2) =~= feed.take(consumed) + feed.subrange(consumed, c2));
                let new_raw = raw_acc + batch@;
                let new_typed = typed_acc + typed_view;
                assert forall|k: int| 0 <= k < c2 implies crate::store::memory::recorded_as(
                    #[trigger] new_raw[k],
                    log,
                    feed.take(c2)[k],
                ) by {
                    if k < consumed {
                        assert(new_raw[k] == raw_acc[k]);
                        assert(feed.take(c2)[k] == feed.take(consumed)[k]);
                    } else {
                        assert(new_raw[k] == batch@[k - consumed]);
                        assert(feed.take(c2)[k] == rest.take(b)[k - consumed]);
                    }
                }
                assert forall|k: int| 0 <= k < new_raw.len() implies decode.ensures(
                    (&new_raw[k],),
                    Ok::<Recorded<V::Event>, StoreError>(#[trigger] new_typed[k]),
                ) by {
                    if k < consumed {
                        assert(new_raw[k] == raw_acc[k]);
                        assert(new_typed[k] == typed_acc[k]);
                    } else {
                        assert(new_raw[k] == batch@[k - consumed]);
                        assert(new_typed[k] == typed_view[k - consumed]);
                    }
                }
                raw_acc = new_raw;
                typed_acc = new_typed;
                consumed = c2;
            }
        }
        proof {
            assert(feed.take(consumed) =~= feed);
            if consumed > 0 {
                assert(feed.last() == feed[consumed - 1]);
            }
        }
        Ok(changed)
    }
}

/// Once a projection has caught up, the log holds nothing more for it until
/// something new is appended: catching up again folds in nothing.
pub proof fn law_caught_up_is_idle(
    log: Seq<crate::store::memory::StoredEvent>,
    start: nat,
    names: Seq<Seq<char>>,
)
    ensures
        ({
            let feed = feed_indices(log, start, names);
            let position: nat = if feed.len() == 0 {
                start
            } else {
                (feed.last() + 1) as nat
            };
            feed_indices(log, position, names).len() == 0
        }),
{
    let feed = feed_indices(log, start, names);
    if feed.len() > 0 {
        law_feed_pagination(log, start, names, feed.len() as int);
        assert(feed.last() == feed[feed.len() - 1]);
    } else {
        assert(feed.len() == 0);
    }
}

} // verus!
