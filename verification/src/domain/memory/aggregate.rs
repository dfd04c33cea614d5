//! The memory aggregate: an ordered list of entries, changed only by events.

use super::entry::{MemoryEntry, MemoryEntryView};
use super::events::{event_views, MemoryEvent, MemoryEventView};
use crate::domain::lemma_filter_push;
use vstd::prelude::*;

verus! {

/// Mathematical content of an [`AdaptiveMemory`].
pub struct MemoryState {
    /// Entries in insertion order.
    pub entries: Seq<MemoryEntryView>,
    /// Advisory capacity.
    pub max_size: usize,
}

/// The predicate that holds of the entries whose identifier is not in `ids`.
pub open spec fn not_among(ids: Seq<u128>) -> spec_fn(MemoryEntryView) -> bool {
    |e: MemoryEntryView| !ids.contains(e.id)
}

/// Whether `i` is the position of the first entry with identifier `id`.
pub open spec fn is_first_with_id(entries: Seq<MemoryEntryView>, id: u128, i: int) -> bool {
    &&& 0 <= i < entries.len()
    &&& entries[i].id == id
    &&& forall|j: int| 0 <= j < i ==> entries[j].id != id
}

impl MemoryState {
    /// The empty memory of the given capacity.
    pub open spec fn empty(max_size: usize) -> Self {
        MemoryState { entries: Seq::empty(), max_size }
    }

    /// Appends `entry`; the capacity is not enforced here.
    pub open spec fn add(self, entry: MemoryEntryView) -> Self {
        MemoryState { entries: self.entries.push(entry), ..self }
    }

    /// Drops every entry whose identifier is in `ids`, keeping the order of the rest.
    pub open spec fn without(self, ids: Seq<u128>) -> Self {
        MemoryState { entries: self.entries.filter(not_among(ids)), ..self }
    }

    /// Replaces the score of the first entry with identifier `id`, if there is one.
    pub open spec fn set_score(self, id: u128, score: u64) -> Self {
        MemoryState {
            entries: Seq::new(
                self.entries.len(),
                |i: int|
                    if is_first_with_id(self.entries, id, i) {
                        MemoryEntryView { score, ..self.entries[i] }
                    } else {
                        self.entries[i]
                    },
            ),
            ..self
        }
    }

    /// The state after one event.
    pub open spec fn apply(self, event: MemoryEventView) -> Self {
        match event {
            MemoryEventView::Added(entry) => self.add(entry),
            MemoryEventView::Removed(id) => self.without(seq![id]),
            MemoryEventView::Pruned(ids) => self.without(ids),
            MemoryEventView::ScoreUpdated { entry_id, new_score, .. } => self.set_score(
                entry_id,
                new_score,
            ),
        }
    }

    /// The state after the events of `events`, in order.
    pub open spec fn apply_all(self, events: Seq<MemoryEventView>) -> Self
        decreases events.len(),
    {
        if events.len() == 0 {
            self
        } else {
            self.apply_all(events.drop_last()).apply(events.last())
        }
    }
}

/// The state obtained by folding `events` from the empty memory of capacity `max_size`.
pub open spec fn memory_replay(max_size: usize, events: Seq<MemoryEventView>) -> MemoryState {
    MemoryState::empty(max_size).apply_all(events)
}

/// Aggregate holding the entries in insertion order.
#[derive(Debug)]
pub struct AdaptiveMemory {
    /// Stored entries in insertion order.
    pub entries: Vec<MemoryEntry>,
    /// Maximum number of entries the handlers retain.
    pub max_size: usize,
}

impl View for AdaptiveMemory {
    type V = MemoryState;

    open spec fn view(&self) -> MemoryState {
        MemoryState {
            entries: self.entries@.map_values(|e: MemoryEntry| e@),
            max_size: self.max_size,
        }
    }
}

/// Whether `id` occurs in `ids`.
fn occurs(ids: &Vec<u128>, id: u128) -> (found: bool)
    ensures
        found == ids@.contains(id),
{
    let mut i: usize = 0;
    while i < ids.len()
        invariant
            i <= ids.len(),
            forall|j: int| 0 <= j < i ==> ids@[j] != id,
        decreases ids.len() - i,
    {
        if ids[i] == id {
            return true;
        }
        i = i + 1;
    }
    false
}

impl AdaptiveMemory {
    /// Creates an empty memory with the given capacity.
    pub fn new(max_size: usize) -> (memory: Self)
        ensures
            memory@ == MemoryState::empty(max_size),
    {
        let memory = AdaptiveMemory { entries: Vec::new(), max_size };
        assert(memory@.entries =~= Seq::empty());
        memory
    }

    /// Rebuilds a memory by replaying `events` from empty.
    pub fn hydrate(max_size: usize, events: &[MemoryEvent]) -> (memory: Self)
        ensures
            memory@ == memory_replay(max_size, event_views(events@)),
            memory.max_size == max_size,
    {
        let mut memory = AdaptiveMemory::new(max_size);
        let ghost all = event_views(events@);
        let mut i: usize = 0;
        while i < events.len()
            invariant
                i <= events.len(),
                all == event_views(events@),
                memory.max_size == max_size,
                memory@ == memory_replay(max_size, all.take(i as int)),
            decreases events.len() - i,
        {
            memory.apply(&events[i]);
            assert(all.take(i + 1).drop_last() == all.take(i as int));
            i = i + 1;
        }
        assert(all.take(events.len() as int) == all);
        memory
    }

    /// Applies one event. The capacity is not enforced here.
    pub fn apply(&mut self, event: &MemoryEvent)
        ensures
            final(self)@ == old(self)@.apply(event@),
            final(self).max_size == old(self).max_size,
    {
        match event {
            MemoryEvent::MemoryEntryAdded(e) => {
                let entry = e.entry.clone();
                self.entries.push(entry);
                assert(self@.entries =~= old(self)@.entries.push(e.entry@));
            },
            MemoryEvent::MemoryEntryRemoved(e) => {
                let mut ids: Vec<u128> = Vec::new();
                ids.push(e.entry_id);
                assert(ids@ =~= seq![e.entry_id]);
                self.retain_not_among(&ids);
            },
            MemoryEvent::MemoryPruned(e) => {
                self.retain_not_among(&e.removed_entries);
            },
            MemoryEvent::MemoryScoreUpdated(e) => {
                self.set_score(e.entry_id, e.new_score);
            },
        }
    }

    fn retain_not_among(&mut self, ids: &Vec<u128>)
        ensures
            final(self)@ == old(self)@.without(ids@),
    {
        let ghost before = self@.entries;
        let ghost pred = not_among(ids@);
        let ghost mut done: int = 0;
        let mut i: usize = 0;
        while i < self.entries.len()
            invariant
                self.max_size == old(self).max_size,
                before == old(self)@.entries,
                pred == not_among(ids@),
                i <= self.entries.len(),
                0 <= done <= before.len(),
                before.len() - done == self.entries.len() - i,
                self@.entries.take(i as int) == before.take(done).filter(pred),
                self@.entries.skip(i as int) == before.skip(done),
            decreases self.entries.len() - i,
        {
            let ghost current = self@.entries;
            let ghost rest = current.skip(i as int);
            let ghost want = before.skip(done + 1);
            proof {
                assert(before.take(done + 1) == before.take(done).push(before[done]));
                lemma_filter_push(before.take(done), before[done], pred);
                assert(rest == before.skip(done));
                assert(current[i as int] == rest[0]);
                assert forall|j: int| 0 <= j < want.len() implies rest[j + 1] == #[trigger] want[j] by {
                    assert(before.skip(done)[j + 1] == before[done + j + 1]);
                }
            }
            if occurs(ids, self.entries[i].id) {
                self.entries.remove(i);
                proof {
                    let now = self@.entries;
                    assert(now =~= current.remove(i as int));
                    assert(now.take(i as int) =~= current.take(i as int));
                    let tail = now.skip(i as int);
                    assert forall|j: int| 0 <= j < tail.len() implies #[trigger] tail[j] == want[j] by {
                        assert(tail[j] == current[i + j + 1]);
                        assert(rest[j + 1] == current[i + j + 1]);
                    }
                    assert(tail =~= want);
                }
            } else {
                proof {
                    assert(current.take(i + 1) =~= current.take(i as int).push(current[i as int]));
                    let tail = current.skip(i + 1);
                    assert forall|j: int| 0 <= j < tail.len() implies #[trigger] tail[j] == want[j] by {
                        assert(tail[j] == current[i + j + 1]);
                        assert(rest[j + 1] == current[i + j + 1]);
                    }
                    assert(tail =~= want);
                }
                i = i + 1;
            }
            proof {
                done = done + 1;
            }
        }
        assert(self@.entries.take(i as int) == self@.entries);
        assert(before.take(done) == before);
    }

    /// The position of the first entry with identifier `id`, if there is one.
    pub fn position_of(&self, id: u128) -> (found: Option<usize>)
        ensures
            match found {
                Some(i) => is_first_with_id(self@.entries, id, i as int),
                None => forall|j: int| 0 <= j < self@.entries.len() ==> self@.entries[j].id != id,
            },
    {
        let mut i: usize = 0;
        while i < self.entries.len()
            invariant
                i <= self.entries.len(),
                forall|j: int| 0 <= j < i ==> self@.entries[j].id != id,
            decreases self.entries.len() - i,
        {
            if self.entries[i].id == id {
                return Some(i);
            }
            i = i + 1;
        }
        None
    }

    fn set_score(&mut self, id: u128, score: u64)
        ensures
            final(self)@ == old(self)@.set_score(id, score),
    {
        if let Some(i) = self.position_of(id) {
            self.entries[i].score = score;
        }
        assert(self@.entries =~= old(self)@.set_score(id, score).entries);
    }
}

} // verus!
