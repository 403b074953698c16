//! Remembering which spots were seen, and when.

use vstd::prelude::*;
use crate::config::{Span, NANOS_PER_SECOND};
use crate::ids::SpotId;

verus! {

/// What is known of a spot when it is checked.
#[derive(Debug, Clone, Copy, PartialEq, Eq)]
pub enum DedupeResult {
    /// The spot was not seen before.
    Fresh,
    /// The spot was seen no longer ago than the table remembers.
    Duplicate,
    /// The spot was seen longer ago than that.
    Expired,
}

/// For each spot seen, the second at which it was seen last.
pub struct DedupeTable {
    ttl: Span,
    seen: Vec<(SpotId, u64)>,
}

/// The map that a list of entries stands for; a later entry counts.
pub open spec fn entries_map(entries: Seq<(SpotId, u64)>) -> Map<Seq<u8>, u64>
    decreases entries.len(),
{
    if entries.len() == 0 {
        Map::empty()
    } else {
        entries_map(entries.drop_last()).insert(entries.last().0@, entries.last().1)
    }
}

/// No identifier has two entries.
pub open spec fn distinct_ids(entries: Seq<(SpotId, u64)>) -> bool {
    forall|i: int, j: int|
        0 <= i < j < entries.len() ==> (#[trigger] entries[i]).0@ != (#[trigger] entries[j]).0@
}

/// What is known of a spot that is seen at `now`, in a table that remembers
/// for `ttl_secs` seconds.
pub open spec fn verdict(seen: Map<Seq<u8>, u64>, ttl_secs: nat, id: Seq<u8>, now: u64) -> DedupeResult {
    if !seen.contains_key(id) {
        DedupeResult::Fresh
    } else if now <= seen[id] || now - seen[id] <= ttl_secs {
        DedupeResult::Duplicate
    } else {
        DedupeResult::Expired
    }
}

/// The place of the last entry for `id`, or -1 where there is none.
spec fn place_of(entries: Seq<(SpotId, u64)>, id: Seq<u8>) -> int
    decreases entries.len(),
{
    if entries.len() == 0 {
        -1
    } else if entries.last().0@ == id {
        entries.len() - 1
    } else {
        place_of(entries.drop_last(), id)
    }
}

proof fn lemma_place_of(entries: Seq<(SpotId, u64)>, id: Seq<u8>)
    ensures
        -1 <= place_of(entries, id) < entries.len(),
        place_of(entries, id) >= 0 <==> entries_map(entries).contains_key(id),
        place_of(entries, id) >= 0 ==> entries[place_of(entries, id)].0@ == id && entries_map(
            entries,
        )[id] == entries[place_of(entries, id)].1,
        forall|j: int| place_of(entries, id) < j < entries.len() ==> (#[trigger] entries[j]).0@ != id,
    decreases entries.len(),
{
    if entries.len() > 0 {
        let before = entries.drop_last();
        lemma_place_of(before, id);
        assert forall|j: int| place_of(entries, id) < j < entries.len() implies (
        #[trigger] entries[j]).0@ != id by {
            if j < before.len() {
                assert(before[j] == entries[j]);
            }
        }
    }
}

proof fn lemma_marked_again(before: Seq<(SpotId, u64)>, i: int, spot_id: SpotId, now: u64)
    requires
        distinct_ids(before),
        0 <= i < before.len(),
        before[i].0@ == spot_id@,
    ensures
        distinct_ids(before.update(i, (spot_id, now))),
        entries_map(before).contains_key(spot_id@),
        entries_map(before)[spot_id@] == before[i].1,
        entries_map(before.update(i, (spot_id, now))) == entries_map(before).insert(spot_id@, now),
{
    let after = before.update(i, (spot_id, now));
    assert forall|a: int, b: int| 0 <= a < b < after.len() implies (#[trigger] after[a]).0@ != (
    #[trigger] after[b]).0@ by {
        assert(after[a].0@ == before[a].0@);
        assert(after[b].0@ == before[b].0@);
    }
    lemma_place_of(before, spot_id@);
    let at = place_of(before, spot_id@);
    assert(at == i) by {
        if at < i {
            assert(before[i].0@ != spot_id@);
        } else if at > i {
            assert(before[i].0@ != before[at].0@);
        }
    }
    let target = entries_map(before).insert(spot_id@, now);
    assert forall|k: Seq<u8>| #[trigger]
        entries_map(after).dom().contains(k) == target.dom().contains(k) && (entries_map(
            after,
        ).dom().contains(k) ==> entries_map(after)[k] == target[k]) by {
        lemma_place_of(before, k);
        lemma_place_of(after, k);
        let x = place_of(before, k);
        let y = place_of(after, k);
        if y >= 0 {
            assert(before[y].0@ == after[y].0@);
            if x >= 0 && x != y {
                if x < y {
                    assert(before[x].0@ != before[y].0@);
                } else {
                    assert(before[y].0@ != before[x].0@);
                }
            }
            if x < 0 {
                assert(before[y].0@ != k);
            }
        } else if x >= 0 {
            assert(after[x].0@ == before[x].0@);
        }
    }
    assert(entries_map(after).dom() =~= target.dom());
    assert(entries_map(after) =~= entries_map(before).insert(spot_id@, now));
}

proof fn lemma_marked_first(before: Seq<(SpotId, u64)>, spot_id: SpotId, now: u64)
    requires
        distinct_ids(before),
        forall|j: int| 0 <= j < before.len() ==> (#[trigger] before[j]).0@ != spot_id@,
    ensures
        distinct_ids(before.push((spot_id, now))),
        !entries_map(before).contains_key(spot_id@),
        entries_map(before.push((spot_id, now))) == entries_map(before).insert(spot_id@, now),
{
    let after = before.push((spot_id, now));
    assert(after.drop_last() =~= before);
    lemma_place_of(before, spot_id@);
    if place_of(before, spot_id@) >= 0 {
        assert(before[place_of(before, spot_id@)].0@ == spot_id@);
    }
    assert forall|a: int, b: int| 0 <= a < b < after.len() implies (#[trigger] after[a]).0@ != (
    #[trigger] after[b]).0@ by {
        assert(after[a] == before[a]);
        if b < before.len() {
            assert(after[b] == before[b]);
        }
    }
}

fn same_id(a: &SpotId, b: &SpotId) -> (same: bool)
    ensures
        same == (a@ == b@),
{
    let mut i: usize = 0;
    while i < 32
        invariant
            i <= 32,
            forall|k: int| 0 <= k < i ==> a@[k] == b@[k],
        decreases 32 - i,
    {
        if a.0[i] != b.0[i] {
            return false;
        }
        i += 1;
    }
    assert(a@ =~= b@);
    true
}

impl View for DedupeTable {
    type V = Map<Seq<u8>, u64>;

    closed spec fn view(&self) -> Map<Seq<u8>, u64> {
        entries_map(self.seen@)
    }
}

impl DedupeTable {
    /// The time for which the table remembers a spot, in whole seconds.
    pub closed spec fn ttl_secs(&self) -> nat {
        if self.ttl@ / (NANOS_PER_SECOND as nat) <= u64::MAX {
            self.ttl@ / (NANOS_PER_SECOND as nat)
        } else {
            u64::MAX as nat
        }
    }

    /// No spot is listed twice.
    pub closed spec fn wf(&self) -> bool {
        distinct_ids(self.seen@)
    }

    /// A table that has seen nothing and remembers for `ttl`.
    pub fn new(ttl: Span) -> (table: Self)
        ensures
            table.wf(),
            table@ == Map::<Seq<u8>, u64>::empty(),
            table.ttl_secs() == if ttl@ / (NANOS_PER_SECOND as nat) <= u64::MAX {
                ttl@ / (NANOS_PER_SECOND as nat)
            } else {
                u64::MAX as nat
            },
    {
        DedupeTable { ttl, seen: Vec::new() }
    }

    /// Says what is known of the spot, and remembers that it was seen at `now`.
    pub fn check_and_mark(&mut self, spot_id: SpotId, now: u64) -> (result: DedupeResult)
        requires
            old(self).wf(),
        ensures
            final(self).wf(),
            final(self).ttl_secs() == old(self).ttl_secs(),
            result == verdict(old(self)@, old(self).ttl_secs(), spot_id@, now),
            final(self)@ == old(self)@.insert(spot_id@, now),
    {
        let ttl = self.ttl.as_secs();
        let mut i: usize = 0;
        while i < self.seen.len()
            invariant
                i <= self.seen.len(),
                self.seen@ == old(self).seen@,
                self.ttl == old(self).ttl,
                distinct_ids(self.seen@),
                ttl == self.ttl_secs(),
                forall|k: int| 0 <= k < i ==> (#[trigger] self.seen@[k]).0@ != spot_id@,
            decreases self.seen.len() - i,
        {
            if same_id(&self.seen[i].0, &spot_id) {
                let prev = self.seen[i].1;
                let result = if now.saturating_sub(prev) <= ttl {
                    DedupeResult::Duplicate
                } else {
                    DedupeResult::Expired
                };
                proof {
                    lemma_marked_again(self.seen@, i as int, spot_id, now);
                }
                self.seen[i] = (spot_id, now);
                return result;
            }
            i += 1;
        }
        proof {
            lemma_marked_first(self.seen@, spot_id, now);
        }
        self.seen.push((spot_id, now));
        DedupeResult::Fresh
    }
}

} // verus!
