//! The bounded store of recent spots.

use vstd::prelude::*;
use crate::spot::{Spot, SpotModel};

verus! {

/// The newest spots, oldest first, never more than `capacity` of them.
#[derive(Debug)]
pub struct SpotCache {
    capacity: usize,
    items: Vec<Spot>,
}

/// The views of a sequence of spots.
pub open spec fn spot_views(items: Seq<Spot>) -> Seq<SpotModel> {
    items.map_values(|s: Spot| s@)
}

/// What a cache of `capacity` holds after `spot` is pushed: the spot is
/// appended, and the oldest one leaves where the cache was full.
pub open spec fn pushed(items: Seq<SpotModel>, capacity: nat, spot: SpotModel) -> Seq<SpotModel> {
    if capacity == 0 {
        items
    } else if items.len() >= capacity {
        items.skip(items.len() - capacity + 1).push(spot)
    } else {
        items.push(spot)
    }
}

/// The `n` newest of `items`, or all of them where there are fewer, newest first.
pub open spec fn newest_first(items: Seq<SpotModel>, n: nat) -> Seq<SpotModel> {
    let count = if n < items.len() {
        n
    } else {
        items.len()
    };
    Seq::new(count, |i: int| items[items.len() - 1 - i])
}

impl View for SpotCache {
    type V = Seq<SpotModel>;

    closed spec fn view(&self) -> Seq<SpotModel> {
        spot_views(self.items@)
    }
}

impl SpotCache {
    /// The most that the cache holds.
    pub closed spec fn capacity(&self) -> nat {
        self.capacity as nat
    }

    /// The cache holds no more than its capacity.
    pub open spec fn wf(&self) -> bool {
        self@.len() <= self.capacity()
    }

    /// An empty cache that holds up to `capacity` spots.
    pub fn new(capacity: usize) -> (cache: Self)
        ensures
            cache.wf(),
            cache@.len() == 0,
            cache.capacity() == capacity,
    {
        SpotCache { capacity, items: Vec::new() }
    }

    /// The number of spots in the cache.
    pub fn len(&self) -> (n: usize)
        ensures
            n == self@.len(),
    {
        self.items.len()
    }

    /// Stores `spot` as the newest; where the cache is full the oldest spot
    /// leaves. A cache of capacity zero stays empty.
    pub fn push(&mut self, spot: Spot)
        requires
            old(self).wf(),
        ensures
            final(self).wf(),
            final(self).capacity() == old(self).capacity(),
            final(self)@ == pushed(old(self)@, old(self).capacity(), spot@),
    {
        if self.capacity == 0 {
            return ;
        }
        if self.items.len() == self.capacity {
            self.items.remove(0);
            assert(spot_views(self.items@) =~= old(self)@.skip(1));
        }
        let ghost before = spot_views(self.items@);
        self.items.push(spot);
        assert(spot_views(self.items@) =~= before.push(spot@));
    }

    /// The `n` newest spots, newest first.
    pub fn recent(&self, n: usize) -> (out: Vec<Spot>)
        ensures
            spot_views(out@) == newest_first(self@, n as nat),
    {
        let len = self.items.len();
        let count = if n < len {
            n
        } else {
            len
        };
        let mut out: Vec<Spot> = Vec::new();
        let mut i: usize = 0;
        while i < count
            invariant
                i <= count <= len,
                len == self.items.len(),
                out@.len() == i,
                forall|k: int| 0 <= k < i ==> (#[trigger] out@[k])@ == self.items@[len - 1 - k]@,
            decreases count - i,
        {
            out.push(self.items[len - 1 - i].clone());
            i += 1;
        }
        assert(spot_views(out@) =~= newest_first(self@, n as nat));
        out
    }
}

/// However many spots are pushed, a cache never holds more than its capacity,
/// and it lists its newest spots in the reverse of the order in which they
/// came, as many as were asked for or as it has.
pub proof fn lemma_cache_bound(items: Seq<SpotModel>, capacity: nat, spot: SpotModel, n: nat)
    requires
        items.len() <= capacity,
    ensures
        pushed(items, capacity, spot).len() <= capacity,
        capacity > 0 ==> pushed(items, capacity, spot).last() == spot,
        capacity > 0 && items.len() < capacity ==> pushed(items, capacity, spot) == items.push(spot),
        newest_first(items, n).len() == if n < items.len() {
            n
        } else {
            items.len()
        },
        forall|i: int|
            0 <= i < newest_first(items, n).len() ==> #[trigger] newest_first(items, n)[i]
                == items[items.len() - 1 - i],
        capacity > 0 && n > 0 ==> newest_first(pushed(items, capacity, spot), n)[0] == spot,
{
}

/// What a cache of `capacity` holds after the spots `spots` were pushed, one
/// after another, into the empty cache.
pub open spec fn after_pushes(capacity: nat, spots: Seq<SpotModel>) -> Seq<SpotModel>
    decreases spots.len(),
{
    if spots.len() == 0 {
        Seq::<SpotModel>::empty()
    } else {
        pushed(after_pushes(capacity, spots.drop_last()), capacity, spots.last())
    }
}

/// After any sequence of pushes a cache holds no more than its capacity: it
/// holds the last spots pushed, as many as it has room for, in the order in
/// which they came, and it lists them newest first.
pub proof fn lemma_cache_history(capacity: nat, spots: Seq<SpotModel>, n: nat, i: int)
    ensures
        after_pushes(capacity, spots).len() <= capacity,
        after_pushes(capacity, spots).len() <= spots.len(),
        capacity > 0 ==> after_pushes(capacity, spots) == spots.skip(
            if spots.len() > capacity {
                spots.len() - capacity
            } else {
                0
            },
        ),
        capacity > 0 && 0 <= i < n && i < capacity && i < spots.len() ==> newest_first(
            after_pushes(capacity, spots),
            n,
        )[i] == spots[spots.len() - 1 - i],
    decreases spots.len(),
{
    if spots.len() > 0 {
        let front = spots.drop_last();
        lemma_cache_history(capacity, front, n, i);
        if capacity > 0 {
            let kept = after_pushes(capacity, front);
            let start: int = if front.len() > capacity {
                front.len() - capacity
            } else {
                0
            };
            assert(kept == front.skip(start));
            if kept.len() >= capacity {
                assert(kept.skip(kept.len() - capacity + 1).push(spots.last()) =~= spots.skip(
                    start + 1,
                ));
            } else {
                assert(start == 0);
                assert(front.skip(0).push(spots.last()) =~= spots.skip(0));
            }
        }
    } else {
        assert(spots.skip(0) =~= spots);
    }
}

} // verus!
