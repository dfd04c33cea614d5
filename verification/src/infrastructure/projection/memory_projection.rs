//! Read model reflecting the current adaptive memory state.

use crate::domain::lemma_filter_push;
use crate::domain::memory::{
    event_views, eviction_order, eviction_order_sorts, evicted_before, is_first_with_id,
    memory_replay, scores, stable_ascending, AdaptiveMemory, MemoryEntry, MemoryEntryView,
    MemoryEvent, MemoryState,
};
use vstd::prelude::*;

verus! {

/// The keys by which entries are ranked: the higher the score, the lower
/// the key.
pub open spec fn inverted(scores: Seq<u64>) -> Seq<u64> {
    scores.map_values(|s: u64| (u64::MAX - s) as u64)
}

/// The positions of `entries` by descending score, entries of equal score
/// in their given order.
pub open spec fn ranking(entries: Seq<MemoryEntryView>) -> Seq<int> {
    eviction_order(inverted(scores(entries)))
}

/// The `limit` highest scoring entries, or all if there are fewer, by
/// descending score.
pub open spec fn top(entries: Seq<MemoryEntryView>, limit: nat) -> Seq<MemoryEntryView> {
    Seq::new(
        if limit <= entries.len() {
            limit
        } else {
            entries.len()
        },
        |k: int| entries[ranking(entries)[k]],
    )
}

/// The predicate that holds of the entries with type tag `event_type`.
pub open spec fn with_type(event_type: Seq<char>) -> spec_fn(MemoryEntryView) -> bool {
    |e: MemoryEntryView| e.event_type == event_type
}

/// The entries with type tag `event_type`, in their given order.
pub open spec fn of_type(entries: Seq<MemoryEntryView>, event_type: Seq<char>) -> Seq<
    MemoryEntryView,
> {
    entries.filter(with_type(event_type))
}

/// The top entries descend by score, and each of them stands in `entries`.
pub proof fn top_is_descending(entries: Seq<MemoryEntryView>, limit: nat)
    ensures
        top(entries, limit).len() <= limit,
        top(entries, limit).len() <= entries.len(),
        limit >= entries.len() ==> top(entries, limit).len() == entries.len(),
        forall|a: int, b: int|
            0 <= a < b < top(entries, limit).len() ==> #[trigger] top(entries, limit)[a].score
                >= #[trigger] top(entries, limit)[b].score,
        forall|a: int|
            0 <= a < top(entries, limit).len() ==> entries.contains(#[trigger] top(entries, limit)[a]),
{
    let keys = inverted(scores(entries));
    let order = ranking(entries);
    eviction_order_sorts(keys);
    assert forall|a: int, b: int| 0 <= a < b < top(entries, limit).len() implies #[trigger] top(
        entries,
        limit,
    )[a].score >= #[trigger] top(entries, limit)[b].score by {
        assert(evicted_before(keys, order[a], order[b]));
    }
    assert forall|a: int| 0 <= a < top(entries, limit).len() implies entries.contains(
        #[trigger] top(entries, limit)[a],
    ) by {
        assert(0 <= order[a] < entries.len());
    }
}

/// The contents of a list of entries.
pub open spec fn entry_views(entries: Seq<&MemoryEntry>) -> Seq<MemoryEntryView> {
    entries.map_values(|e: &MemoryEntry| e@)
}

/// Returns the `limit` highest scoring of `entries`, by descending score.
fn top_of<'a>(entries: Vec<&'a MemoryEntry>, limit: usize) -> (out: Vec<&'a MemoryEntry>)
    ensures
        entry_views(out@) == top(entry_views(entries@), limit as nat),
{
    let ghost views = entry_views(entries@);
    let mut keys: Vec<u64> = Vec::new();
    let mut i: usize = 0;
    while i < entries.len()
        invariant
            i <= entries.len(),
            views == entry_views(entries@),
            keys@ == inverted(scores(views)).take(i as int),
        decreases entries.len() - i,
    {
        keys.push(u64::MAX - entries[i].score);
        assert(inverted(scores(views)).take(i + 1) == inverted(scores(views)).take(i as int).push(
            (u64::MAX - entries[i as int].score) as u64,
        ));
        i = i + 1;
    }
    assert(inverted(scores(views)).take(entries.len() as int) == inverted(scores(views)));
    let order = stable_ascending(&keys);
    let count = if limit <= entries.len() {
        limit
    } else {
        entries.len()
    };
    let ghost positions = ranking(views);
    let mut out: Vec<&'a MemoryEntry> = Vec::new();
    let mut k: usize = 0;
    while k < count
        invariant
            k <= count <= entries.len(),
            views == entry_views(entries@),
            order@.len() == entries@.len(),
            positions == ranking(views),
            positions == order@.map_values(|i: usize| i as int),
            forall|a: int| 0 <= a < order@.len() ==> #[trigger] order@[a] < entries@.len(),
            views.len() == entries@.len(),
            out@.len() == k,
            entry_views(out@) == top(views, k as nat),
        decreases count - k,
    {
        let ghost prev = out@;
        let chosen: &'a MemoryEntry = entries[order[k]];
        out.push(chosen);
        assert(out@ == prev.push(chosen));
        proof {
            assert(positions[k as int] == order@[k as int] as int);
            let grown = top(views, (k + 1) as nat);
            assert forall|a: int| 0 <= a < grown.len() implies entry_views(out@)[a] == grown[a] by {
                if a < k {
                    assert(entry_views(prev)[a] == top(views, k as nat)[a]);
                    assert(out@[a] == prev[a]);
                } else {
                    assert(views[positions[a]] == entries@[order@[a] as int]@);
                }
            }
            assert(entry_views(out@) =~= grown);
        }
        k = k + 1;
    }
    assert(top(views, count as nat) =~= top(views, limit as nat));
    out
}

/// In-memory projection of the memory aggregate.
#[derive(Debug)]
pub struct MemoryProjection {
    memory: AdaptiveMemory,
}

impl View for MemoryProjection {
    type V = MemoryState;

    closed spec fn view(&self) -> MemoryState {
        self.memory@
    }
}

impl MemoryProjection {
    /// Builds the projection by replaying events.
    pub fn from_events(max_size: usize, events: &[MemoryEvent]) -> (projection: Self)
        ensures
            projection@ == memory_replay(max_size, event_views(events@)),
    {
        MemoryProjection { memory: AdaptiveMemory::hydrate(max_size, events) }
    }

    /// Applies a new memory event to update the projection.
    pub fn apply(&mut self, event: &MemoryEvent)
        ensures
            final(self)@ == old(self)@.apply(event@),
    {
        self.memory.apply(event);
    }

    /// Returns all memory entries currently stored, in insertion order.
    pub fn entries(&self) -> (out: Vec<&MemoryEntry>)
        ensures
            entry_views(out@) == self@.entries,
    {
        let mut out: Vec<&MemoryEntry> = Vec::new();
        let mut i: usize = 0;
        while i < self.memory.entries.len()
            invariant
                i <= self.memory.entries.len(),
                out@.len() == i,
                entry_views(out@) == self.memory@.entries.take(i as int),
            decreases self.memory.entries.len() - i,
        {
            let ghost prev = out@;
            let entry: &MemoryEntry = &self.memory.entries[i];
            out.push(entry);
            assert(out@ == prev.push(entry));
            proof {
                let grown = self.memory@.entries.take(i + 1);
                assert forall|a: int| 0 <= a < grown.len() implies entry_views(out@)[a]
                    == grown[a] by {
                    if a < i {
                        assert(entry_views(prev)[a] == self.memory@.entries.take(i as int)[a]);
                        assert(out@[a] == prev[a]);
                    }
                }
                assert(entry_views(out@) =~= grown);
            }
            i = i + 1;
        }
        assert(self.memory@.entries.take(self.memory.entries.len() as int) == self.memory@.entries);
        out
    }

    /// Returns the first entry with the specified identifier, if any.
    pub fn entry(&self, id: u128) -> (found: Option<&MemoryEntry>)
        ensures
            match found {
                Some(e) => exists|i: int| #[trigger]
                    is_first_with_id(self@.entries, id, i) && e@ == self@.entries[i],
                None => forall|j: int| 0 <= j < self@.entries.len() ==> self@.entries[j].id != id,
            },
    {
        match self.memory.position_of(id) {
            Some(i) => {
                assert(is_first_with_id(self@.entries, id, i as int));
                Some(&self.memory.entries[i])
            },
            None => None,
        }
    }

    /// Returns the `limit` entries with the highest scores, by descending
    /// score; entries of equal score in insertion order.
    pub fn top_entries(&self, limit: usize) -> (out: Vec<&MemoryEntry>)
        ensures
            entry_views(out@) == top(self@.entries, limit as nat),
    {
        top_of(self.entries(), limit)
    }

    /// Returns up to `limit` entries whose type tag is `event_type`, by
    /// descending score; entries of equal score in insertion order.
    pub fn entries_by_event_type(&self, event_type: &str, limit: usize) -> (out: Vec<
        &MemoryEntry,
    >)
        ensures
            entry_views(out@) == top(of_type(self@.entries, event_type@), limit as nat),
    {
        let wanted: String = event_type.to_owned();
        let ghost pred = with_type(event_type@);
        let ghost all = self.memory@.entries;
        let mut matching: Vec<&MemoryEntry> = Vec::new();
        let mut i: usize = 0;
        assert(all.take(0).filter(pred) =~= Seq::<MemoryEntryView>::empty()) by {
            reveal(Seq::filter);
        }
        while i < self.memory.entries.len()
            invariant
                i <= self.memory.entries.len(),
                all == self.memory@.entries,
                pred == with_type(event_type@),
                wanted@ == event_type@,
                entry_views(matching@) == all.take(i as int).filter(pred),
            decreases self.memory.entries.len() - i,
        {
            proof {
                lemma_filter_push(all.take(i as int), all[i as int], pred);
                assert(all.take(i + 1) == all.take(i as int).push(all[i as int]));
            }
            if self.memory.entries[i].event_type == wanted {
                let ghost prev = matching@;
                let entry: &MemoryEntry = &self.memory.entries[i];
                matching.push(entry);
                assert(matching@ == prev.push(entry));
                proof {
                    let grown = all.take(i as int).filter(pred).push(all[i as int]);
                    assert(entry_views(prev).len() == prev.len());
                    assert forall|a: int| 0 <= a < grown.len() implies entry_views(matching@)[a]
                        == grown[a] by {
                        if a < prev.len() {
                            assert(entry_views(prev)[a] == all.take(i as int).filter(pred)[a]);
                            assert(matching@[a] == prev[a]);
                        }
                    }
                    assert(entry_views(matching@) =~= grown);
                }
            }
            i = i + 1;
        }
        assert(all.take(self.memory.entries.len() as int) == all);
        top_of(matching, limit)
    }
}

} // verus!
